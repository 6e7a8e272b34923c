use cealn::api::descriptors::{Descriptor, InjectFdError, Root, SubSystem};
use cealn::api::environment::{environ_get, environ_sizes_get, merge_environment, EnvVar};
use cealn::api::guest_bytes::{ToGuestBytes, DIRENT_SIZE};
use cealn::api::navigation::{navigate, NavigateAction, NavigateResult, MAX_SYMLINK_EXPANSIONS};
use cealn::api::rights::{ensure_rights, HandleRights, OpenFile};
use cealn::api::types::{
    Clockid, Dirent, Errno, Filetype, SeekFrom, Whence, FDFLAGS_DSYNC, FDFLAGS_SYNC, FD_DATASYNC, FD_FILESTAT_GET,
    FD_READ, FD_READDIR, FD_SEEK, FD_SYNC, FD_TELL, FD_WRITE, LOOKUPFLAGS_SYMLINK_FOLLOW, OFLAGS_CREAT, OFLAGS_TRUNC,
    PATH_CREATE_FILE, PATH_FILESTAT_GET, PATH_FILESTAT_SET_SIZE, PATH_OPEN,
};
use cealn::api::wasi::{filestat_target, readdir_bytes, size_result, PathAction, SeekAction, WasiCtx};

const DIRECTORY: u64 = PATH_OPEN | FD_READDIR | PATH_FILESTAT_GET | FD_FILESTAT_GET;
const FILE: u64 = FD_READ | FD_SEEK | FD_TELL | FD_FILESTAT_GET;

fn directory(handle: u64) -> OpenFile {
    OpenFile {
        handle,
        file_type: Filetype::Directory,
        rights: HandleRights::new(DIRECTORY, DIRECTORY | FILE),
    }
}

fn file(handle: u64) -> OpenFile {
    OpenFile {
        handle,
        file_type: Filetype::RegularFile,
        rights: HandleRights::from_base(FILE),
    }
}

fn var(key: &str, value: &str) -> EnvVar {
    EnvVar {
        key: key.as_bytes().to_vec(),
        value: value.as_bytes().to_vec(),
    }
}

fn context() -> WasiCtx {
    let roots = vec![Root { path: "/usr".to_owned(), file: directory(1) }];
    let mounted = vec![Root { path: "/workspaces".to_owned(), file: directory(2) }];
    let defaults = vec![var("HOME", "/"), var("LANG", "C")];
    let Ok(ctx) = WasiCtx::new(roots, mounted, defaults, vec![var("LANG", "en")]) else {
        panic!("two roots fit");
    };
    ctx
}

#[test]
fn missing_rights_are_refused() {
    let have = HandleRights::from_base(FD_READ);
    assert_eq!(ensure_rights(&have, &HandleRights::from_base(FD_READ)), Ok(()));
    assert_eq!(
        ensure_rights(&have, &HandleRights::from_base(FD_READ | FD_WRITE)),
        Err(Errno::Notcapable)
    );
}

#[test]
fn inherited_rights_count_too() {
    let have = HandleRights::new(FD_READ | FD_WRITE, FD_READ);
    assert!(have.contains(&HandleRights::new(FD_READ, FD_READ)));
    assert!(!have.contains(&HandleRights::new(FD_READ, FD_WRITE)));
    let narrow = have.bitand(&HandleRights::new(FD_WRITE, FD_READ | FD_WRITE));
    assert_eq!(narrow, HandleRights::new(FD_WRITE, FD_READ));
    assert!(have.contains(&narrow));
}

#[test]
fn rights_are_filtered_by_file_type() {
    let all = HandleRights::new(FD_READ | FD_READDIR | FD_FILESTAT_GET | PATH_OPEN, FD_READ);
    assert_eq!(
        all.filter_for_type(Filetype::RegularFile),
        HandleRights::new(FD_READ | FD_FILESTAT_GET, 0)
    );
    assert_eq!(
        all.filter_for_type(Filetype::Directory),
        HandleRights::new(FD_READDIR | FD_FILESTAT_GET | PATH_OPEN, FD_READ)
    );
}

#[test]
fn roots_are_open_from_three_on() {
    let ctx = context();
    assert_eq!(ctx.fd_prestat_get(2), Err(Errno::Badf));
    assert_eq!(ctx.fd_prestat_get(3), Ok(4));
    assert_eq!(ctx.fd_prestat_dir_name(3, 4), Ok(b"/usr".to_vec()));
    assert_eq!(ctx.fd_prestat_dir_name(3, 3), Err(Errno::Nametoolong));
    assert_eq!(ctx.fd_prestat_dir_name(4, 64), Ok(b"/workspaces".to_vec()));
    assert_eq!(ctx.fd_prestat_get(5), Err(Errno::Badf));
}

#[test]
fn only_roots_have_a_name() {
    let mut ctx = context();
    let fd = ctx.inject_fd(file(9), None).unwrap();
    assert_eq!(fd, 5);
    assert_eq!(ctx.fd_prestat_get(fd), Err(Errno::Notsup));

    let Ok(ctx) = WasiCtx::new(vec![Root { path: "/f".to_owned(), file: file(1) }], vec![], vec![], vec![]) else {
        panic!("one root fits");
    };
    assert_eq!(ctx.fd_prestat_get(3), Err(Errno::Notdir));
}

#[test]
fn descriptors_are_injected_once() {
    let mut ctx = context();
    assert_eq!(ctx.inject_fd(file(7), Some(0)), Ok(0));
    assert_eq!(ctx.inject_fd(file(8), Some(0)), Err(InjectFdError::AlreadyExists));
    assert_eq!(ctx.fd_read(0), Ok(file(7)));
    assert_eq!(ctx.fd_close(0), Ok(()));
    assert_eq!(ctx.fd_close(0), Err(Errno::Badf));
    assert_eq!(ctx.inject_fd(file(8), Some(0)), Ok(0));
    assert_eq!(ctx.fd_read(0), Ok(file(8)));
}

#[test]
fn numbers_are_not_given_out_again() {
    let Ok(mut fds) = SubSystem::new(vec![Root { path: "/".to_owned(), file: directory(1) }]) else {
        panic!("one root fits");
    };
    assert_eq!(fds.new_descriptor(file(5), None), Ok(4));
    assert!(fds.close(4));
    assert_eq!(fds.get_descriptor(4), None);
    let narrow = HandleRights::from_base(FD_READ | FD_WRITE);
    assert_eq!(fds.new_descriptor(file(6), Some(narrow)), Ok(5));
    assert_eq!(
        fds.get_descriptor(5),
        Some(Descriptor {
            fd: 5,
            preopen: None,
            file: file(6),
            rights: HandleRights::from_base(FD_READ),
        })
    );
    assert_eq!(fds.root_path(0), "/");
}

#[test]
fn any_free_number_can_be_injected() {
    let mut ctx = context();
    assert_eq!(ctx.inject_fd(file(1), Some(i32::MAX)), Ok(i32::MAX));
    assert_eq!(ctx.dup_hack(i32::MAX), 5);
    assert_eq!(ctx.fd_read(5), Ok(file(1)));
}

#[test]
fn duplicates_keep_their_root() {
    let mut ctx = context();
    assert_eq!(ctx.dup_hack(3), 5);
    assert_eq!(ctx.fd_prestat_get(5), Ok(4));
    assert_eq!(ctx.dup_hack(77), -Errno::Badf.number());
    assert_eq!(Errno::Badf.number(), 8);
}

#[test]
fn given_variables_win_over_defaults() {
    let merged = merge_environment(
        vec![var("B", "default"), var("A", "1")],
        vec![var("B", "given"), var("C", "3")],
    );
    let pairs: Vec<(&[u8], &[u8])> = merged.iter().map(|v| (&v.key[..], &v.value[..])).collect();
    assert_eq!(pairs, vec![(&b"A"[..], &b"1"[..]), (b"B", b"given"), (b"C", b"3")]);
}

#[test]
fn variables_stand_in_memory() {
    let vars = vec![var("A", "1"), var("BC", "")];
    assert_eq!(environ_sizes_get(&vars), Ok((2, 8)));
    let (addresses, contents) = environ_get(&vars, 0x10, 0x1000).unwrap();
    assert_eq!(addresses, vec![0x00, 0x10, 0, 0, 0x04, 0x10, 0, 0]);
    assert_eq!(contents, b"A=1\0BC=\0".to_vec());
}

#[test]
fn variables_must_fit_in_memory() {
    let vars = vec![var("A", "1")];
    assert_eq!(environ_get(&vars, 0, u32::MAX - 3), Err(Errno::Inval));
    assert_eq!(environ_get(&vars, u32::MAX - 3, 0), Err(Errno::Inval));
    assert!(environ_get(&vars, u32::MAX - 4, u32::MAX - 4).is_ok());
    let ctx = context();
    assert_eq!(ctx.environ_sizes_get(), Ok((2, 15)));
    assert_eq!(ctx.environ_get(0, 0).unwrap().1, b"HOME=/\0LANG=en\0".to_vec());
}

#[test]
fn clocks_are_fixed_and_randomness_is_refused() {
    let ctx = context();
    assert_eq!(ctx.clock_time_get(Clockid::Realtime, 5, 6), Ok(5));
    assert_eq!(ctx.clock_time_get(Clockid::Monotonic, 5, 6), Ok(6));
    assert_eq!(ctx.random_get(), Err(Errno::Nosys));
}

#[test]
fn calls_need_rights() {
    let mut ctx = context();
    let fd = ctx.inject_fd(file(3), None).unwrap();
    assert_eq!(ctx.fd_read(fd), Ok(file(3)));
    assert_eq!(ctx.fd_tell(fd), Ok(file(3)));
    assert_eq!(ctx.fd_filestat_get(fd), Ok(file(3)));
    assert_eq!(ctx.fd_write(fd), Err(Errno::Notcapable));
    assert_eq!(ctx.fd_readdir(fd), Err(Errno::Notcapable));
    assert_eq!(ctx.fd_readdir(3), Ok(directory(1)));
    assert_eq!(ctx.path_create_directory(3), Err(Errno::Notcapable));
    assert_eq!(ctx.fd_read(99), Err(Errno::Badf));
    assert_eq!(ctx.descriptor(99).map(|d| d.fd), Err(Errno::Badf));
}

#[test]
fn descriptors_are_described() {
    let ctx = context();
    let stat = ctx.fd_fdstat_get(3, Ok(0)).unwrap();
    assert_eq!(stat.fs_filetype, Filetype::Directory);
    assert_eq!(stat.fs_rights_base, DIRECTORY);
    assert_eq!(stat.fs_rights_inheriting, DIRECTORY | FILE);
    assert_eq!(ctx.fd_fdstat_get(3, Err(Errno::Io)).map(|s| s.fs_flags), Err(Errno::Io));
    assert_eq!(ctx.fd_fdstat_get(9, Ok(0)).map(|s| s.fs_flags), Err(Errno::Badf));
}

#[test]
fn seeks_are_checked() {
    let mut ctx = context();
    let fd = ctx.inject_fd(file(3), None).unwrap();
    assert!(matches!(ctx.fd_seek(fd, 0, Whence::Cur), Ok(SeekAction::Tell(f)) if f == file(3)));
    assert!(matches!(
        ctx.fd_seek(fd, -2, Whence::Cur),
        Ok(SeekAction::Seek(f, SeekFrom::Current(-2))) if f == file(3)
    ));
    assert!(matches!(ctx.fd_seek(fd, 4, Whence::Begin), Ok(SeekAction::Seek(_, SeekFrom::Start(4)))));
    assert!(matches!(ctx.fd_seek(fd, -1, Whence::Begin), Err(Errno::Inval)));
    assert!(matches!(ctx.fd_seek(fd, -1, Whence::End), Ok(SeekAction::Seek(_, SeekFrom::End(-1)))));

    let told = OpenFile { rights: HandleRights::from_base(FD_TELL), ..file(4) };
    let fd = ctx.inject_fd(told, None).unwrap();
    assert!(matches!(ctx.fd_seek(fd, 0, Whence::Cur), Ok(SeekAction::Tell(_))));
    assert!(matches!(ctx.fd_seek(fd, 1, Whence::Cur), Err(Errno::Notcapable)));
    assert!(matches!(ctx.fd_seek(fd, 1, Whence::End), Err(Errno::Notcapable)));
}

#[test]
fn directory_entries_have_a_fixed_size() {
    let entry = Dirent { d_next: 1, d_ino: 0x0203, d_namlen: 5, d_type: Filetype::Directory };
    let bytes = entry.to_guest_bytes();
    assert_eq!(bytes.len(), DIRENT_SIZE);
    assert_eq!(
        bytes,
        vec![1, 0, 0, 0, 0, 0, 0, 0, 3, 2, 0, 0, 0, 0, 0, 0, 5, 0, 0, 0, 3, 0, 0, 0]
    );
}

#[test]
fn listings_are_cut_where_the_buffer_ends() {
    let entry = |next: u64| Dirent { d_next: next, d_ino: 7, d_namlen: 2, d_type: Filetype::RegularFile };
    let items = || vec![Ok((entry(1), "ab".to_owned())), Ok((entry(2), "cd".to_owned()))];
    let whole = readdir_bytes(&items(), 100).unwrap();
    assert_eq!(whole.len(), 52);
    assert_eq!(&whole[24..26], b"ab");
    assert_eq!(&whole[50..], b"cd");
    for room in 0..52u32 {
        assert_eq!(readdir_bytes(&items(), room).unwrap(), whole[..room as usize].to_vec());
    }
}

#[test]
fn listings_fail_at_an_entry_that_fails() {
    let entry = Dirent { d_next: 1, d_ino: 7, d_namlen: 1, d_type: Filetype::RegularFile };
    let items = vec![Ok((entry, "a".to_owned())), Err(Errno::Overflow)];
    assert_eq!(readdir_bytes(&items, 25), Err(Errno::Overflow));
    assert_eq!(readdir_bytes(&items, 24).map(|b| b.len()), Ok(24));
}

#[test]
fn sizes_have_four_bytes() {
    assert_eq!(size_result(12), Ok(12));
    assert_eq!(size_result(1 << 32), Err(Errno::Overflow));
}

fn start(path: &str, flags: u32) -> Result<(cealn::api::navigation::Navigation, NavigateAction), Errno> {
    let root = directory(1);
    navigate(root, root.rights, path, HandleRights::from_base(PATH_OPEN), flags)
}

#[test]
fn a_name_is_found_in_its_directory() {
    let (_, action) = start("file.txt", 0).unwrap();
    assert!(matches!(
        action,
        NavigateAction::Done(NavigateResult::Parented { parent_handle, ref filename })
            if parent_handle == directory(1) && filename == "file.txt"
    ));
}

#[test]
fn directories_are_opened_on_the_way() {
    let (mut navigation, action) = start("a/./b/../c", 0).unwrap();
    assert!(matches!(action, NavigateAction::Open { handle, ref filename } if handle.handle == 1 && filename == "a"));
    let action = navigation.opened(Ok(directory(2)));
    assert!(matches!(action, NavigateAction::Open { handle, ref filename } if handle.handle == 2 && filename == "b"));
    let action = navigation.opened(Ok(directory(3)));
    assert!(matches!(
        action,
        NavigateAction::Done(NavigateResult::Parented { parent_handle, ref filename })
            if parent_handle.handle == 2 && filename == "c"
    ));
}

#[test]
fn a_directory_may_be_reached_through_itself() {
    for path in ["a/", "a/."] {
        let (mut navigation, _) = start(path, 0).unwrap();
        let action = navigation.opened(Ok(directory(2)));
        assert!(matches!(
            action,
            NavigateAction::Done(NavigateResult::Unparented { directory_handle }) if directory_handle.handle == 2
        ));
    }
    assert!(matches!(
        start(".", 0),
        Ok((_, NavigateAction::Done(NavigateResult::Unparented { directory_handle }))) if directory_handle.handle == 1
    ));
}

#[test]
fn paths_stay_below_the_start() {
    for path in ["..", "/etc", "./../x"] {
        assert!(matches!(start(path, 0), Ok((_, NavigateAction::Fail(Errno::Notcapable)))));
    }
    let (mut navigation, _) = start("a/../../x", 0).unwrap();
    assert!(matches!(
        navigation.opened(Ok(directory(2))),
        NavigateAction::Fail(Errno::Notcapable)
    ));
    let (mut navigation, _) = start("a//b", 0).unwrap();
    assert!(matches!(
        navigation.opened(Ok(directory(2))),
        NavigateAction::Fail(Errno::Notcapable)
    ));
}

#[test]
fn navigation_is_refused_before_it_starts() {
    assert!(matches!(start("a\0b", 0), Err(Errno::Ilseq)));
    let needed = HandleRights::from_base(PATH_OPEN);
    assert!(matches!(navigate(file(1), file(1).rights, "a", needed, 0), Err(Errno::Notdir)));
    let narrow = HandleRights::from_base(DIRECTORY);
    assert!(matches!(navigate(directory(1), narrow, "a", needed, 0), Err(Errno::Notcapable)));
}

#[test]
fn directories_on_the_way_must_pass_rights_on() {
    let (mut navigation, _) = start("a/b/c", 0).unwrap();
    let closed = OpenFile { rights: HandleRights::from_base(DIRECTORY), ..directory(2) };
    assert!(matches!(navigation.opened(Ok(closed)), NavigateAction::Fail(Errno::Notcapable)));
    let (mut navigation, _) = start("a/b", 0).unwrap();
    assert!(matches!(navigation.opened(Err(Errno::Noent)), NavigateAction::Fail(Errno::Noent)));
}

#[test]
fn links_in_the_last_place_are_followed() {
    let (mut navigation, action) = start("link", LOOKUPFLAGS_SYMLINK_FOLLOW).unwrap();
    assert!(matches!(action, NavigateAction::ReadLink { ref filename, .. } if filename == "link"));
    let action = navigation.link_read(Ok("dir/target".to_owned()));
    assert!(matches!(action, NavigateAction::Open { ref filename, .. } if filename == "dir"));
    let action = navigation.opened(Ok(directory(2)));
    assert!(matches!(action, NavigateAction::ReadLink { handle, ref filename } if handle.handle == 2 && filename == "target"));
    let action = navigation.link_read(Err(Errno::Inval));
    assert!(matches!(
        action,
        NavigateAction::Done(NavigateResult::Parented { parent_handle, ref filename })
            if parent_handle.handle == 2 && filename == "target"
    ));
}

#[test]
fn links_are_not_followed_forever() {
    let (mut navigation, _) = start("link", LOOKUPFLAGS_SYMLINK_FOLLOW).unwrap();
    for _ in 0..MAX_SYMLINK_EXPANSIONS {
        assert!(matches!(
            navigation.link_read(Ok("link".to_owned())),
            NavigateAction::ReadLink { .. }
        ));
    }
    assert!(matches!(
        navigation.link_read(Ok("link".to_owned())),
        NavigateAction::Fail(Errno::Loop)
    ));
}

#[test]
fn unreadable_links_fail() {
    let (mut navigation, _) = start("link", LOOKUPFLAGS_SYMLINK_FOLLOW).unwrap();
    assert!(matches!(navigation.link_read(Err(Errno::Io)), NavigateAction::Fail(Errno::Io)));
}

#[test]
fn opened_files_get_the_rights_that_apply() {
    let mut ctx = context();
    let (open, _, action) = ctx.path_open(3, 0, "f", 0, FD_READ | FD_READDIR, FD_READ, 0).unwrap();
    assert!(open.read && !open.write);
    assert_eq!(open.parent_rights, HandleRights::new(PATH_OPEN, FD_READ | FD_READDIR));
    let NavigateAction::Done(place) = action else {
        panic!("one name needs no directory");
    };
    assert!(matches!(open.target(place), Ok(PathAction::Child { parent, ref filename }) if parent.handle == 1 && filename == "f"));
    let fd = ctx.path_opened(&open, file(8)).unwrap();
    let opened = ctx.descriptor(fd).unwrap();
    assert_eq!(opened.rights, HandleRights::from_base(FD_READ));
    assert_eq!(opened.file, file(8));
}

#[test]
fn opening_needs_more_rights_for_more_flags() {
    let ctx = context();
    assert!(matches!(
        ctx.path_open(3, 0, "f", OFLAGS_CREAT, FD_READ, 0, 0),
        Err(Errno::Notcapable)
    ));
    assert!(matches!(ctx.path_open(42, 0, "f", 0, FD_READ, 0, 0), Err(Errno::Badf)));

    let everything = u64::MAX;
    let root = OpenFile { rights: HandleRights::new(everything, everything), ..directory(1) };
    let Ok(ctx) = WasiCtx::new(vec![Root { path: "/".to_owned(), file: root }], vec![], vec![], vec![]) else {
        panic!("one root fits");
    };
    let (open, _, _) = ctx
        .path_open(3, 0, "f", OFLAGS_CREAT | OFLAGS_TRUNC, FD_WRITE, 0, FDFLAGS_DSYNC | FDFLAGS_SYNC)
        .unwrap();
    assert_eq!(
        open.parent_rights,
        HandleRights::new(
            PATH_OPEN | PATH_CREATE_FILE | PATH_FILESTAT_SET_SIZE,
            FD_WRITE | FD_DATASYNC | FD_SYNC
        )
    );
    assert!(open.write);
}

#[test]
fn files_without_the_wanted_rights_are_not_opened() {
    let mut ctx = context();
    let (open, _, _) = ctx.path_open(3, 0, "f", 0, FD_READ, 0, 0).unwrap();
    let blind = OpenFile { rights: HandleRights::from_base(FD_TELL), ..file(8) };
    assert_eq!(ctx.path_opened(&open, blind), Err(Errno::Notcapable));
}

#[test]
fn stats_need_rights_where_they_end() {
    let place = NavigateResult::Parented { parent_handle: directory(2), filename: "x".to_owned() };
    assert!(matches!(filestat_target(place), Ok(PathAction::Child { .. })));
    let place = NavigateResult::Parented { parent_handle: file(2), filename: "x".to_owned() };
    assert!(matches!(filestat_target(place), Err(Errno::Notcapable)));
    let place = NavigateResult::Unparented { directory_handle: directory(2) };
    assert!(matches!(filestat_target(place), Ok(PathAction::Itself(d)) if d.handle == 2));
    let place = NavigateResult::Unparented { directory_handle: file(2) };
    assert!(matches!(filestat_target(place), Err(Errno::Notcapable)));

    let mut ctx = context();
    let fd = ctx.inject_fd(file(3), None).unwrap();
    assert!(matches!(ctx.path_filestat_get(fd, 0, "x"), Err(Errno::Notdir)));
    assert!(matches!(ctx.path_filestat_get(77, 0, "x"), Err(Errno::Badf)));
    assert!(matches!(
        ctx.path_filestat_get(3, 0, "x"),
        Ok((_, NavigateAction::Done(NavigateResult::Parented { .. })))
    ));
}
