use cealn::api::rights::{HandleRights, OpenFile};
use cealn::api::types::{
    Errno, Filetype, SeekFrom, FDFLAGS_APPEND, FDFLAGS_DSYNC, FDFLAGS_NONBLOCK, FDFLAGS_RSYNC, FDFLAGS_SYNC,
    FD_FILESTAT_GET, FD_READ, FD_READDIR, FD_SEEK, FD_TELL, FD_WRITE, OFLAGS_CREAT, OFLAGS_DIRECTORY, OFLAGS_EXCL,
    OFLAGS_TRUNC, PATH_FILESTAT_GET, PATH_OPEN,
};
use cealn::fs::devices::{NullHandle, PrintHandle, WriteFailure};
use cealn::fs::named_workspaces::{Mapping, NamedWorkspaces};
use cealn::fs::pipe::{Buffer, Pipe, PipeFs, WouldBlock};
use cealn::fs::system_fs::{
    check_exact_name, file_opened, filestat_child, filestat_convert, open_failed, plan_open, readdir, readlink_child,
    Handle, HostEntry, HostFailure, HostKind, OpenPlan,
};
use cealn::fs::windows_fs::{
    buffer_read, check_link_name, check_name, check_open, clean_link, open_child, plan_root, position_told, read_link,
    read_request, seek_request, to_large_integer, to_large_integer_unsigned, HostLink, HostOpen, LargeInteger,
    LinkComponent, ReadStep, RootPlan, RootRefusal, RootStart, FILE_BEGIN, FILE_CURRENT, FILE_END,
    IO_REPARSE_TAG_SYMLINK,
};

#[test]
fn pipes_have_different_inodes() {
    let mut pipes = PipeFs::new();
    let first = pipes.new_pipe(true, false);
    let second = pipes.new_pipe(false, true);
    assert_eq!((first.inode, second.inode), (0, 1));
    assert!(first.read.is_some() && first.write.is_none());
    assert!(second.read.is_none() && second.write.is_some());
    assert_eq!(second.filestat().ino, 1);
    assert_eq!(second.filestat().filetype, Filetype::CharacterDevice);
    assert_eq!(second.file_type(), Filetype::CharacterDevice);
}

#[test]
fn the_host_reads_what_the_guest_wrote() {
    let mut pipe = PipeFs::new().new_pipe(false, true);
    let mut buffers = vec![vec![0u8; 4]];
    assert_eq!(pipe.read(&mut buffers), Err(WouldBlock));
    let (written, woken) = pipe.guest_write(&vec![b"he".to_vec(), b"llo".to_vec()]).unwrap();
    assert_eq!((written, woken), (5, vec![]));
    assert_eq!(pipe.read(&mut buffers), Ok(4));
    assert_eq!(buffers, vec![b"hell".to_vec()]);
    // The bytes stay.
    let mut buffers = vec![vec![0u8; 2], vec![0u8; 9]];
    assert_eq!(pipe.read(&mut buffers), Ok(5));
    assert_eq!(buffers[0], b"he");
    assert_eq!(&buffers[1][..3], b"llo");
}

#[test]
fn a_guest_without_the_direction_cannot_write() {
    let mut pipe = PipeFs::new().new_pipe(true, false);
    assert_eq!(pipe.guest_write(&vec![b"x".to_vec()]), Err(Errno::Notcapable));
    let (written, _) = pipe.write(&vec![b"abc".to_vec()]);
    assert_eq!(written, 3);
    let waiting: Vec<u8> = pipe.read.as_ref().unwrap().data.iter().copied().collect();
    assert_eq!(waiting, b"abc");
}

#[test]
fn writers_wake_readers() {
    let mut buffer = Buffer::new();
    buffer.read_waiters.push(7);
    buffer.read_waiters.push(8);
    let (written, woken) = buffer.write(&vec![vec![1], vec![], vec![2, 3]]);
    assert_eq!((written, woken), (3, vec![7, 8]));
    assert!(buffer.read_waiters.is_empty());
    let mut buffers = vec![vec![0u8; 3]];
    assert_eq!(buffer.read_nonblock(&mut buffers), 3);
    assert_eq!(buffers, vec![vec![1, 2, 3]]);
}

#[test]
fn pipe_rights_follow_the_directions() {
    let mut pipes = PipeFs::new();
    let rights = |pipe: &Pipe| pipe.rights();
    assert_eq!(rights(&pipes.new_pipe(false, false)), HandleRights::from_base(FD_FILESTAT_GET));
    assert_eq!(rights(&pipes.new_pipe(true, false)), HandleRights::from_base(FD_FILESTAT_GET | FD_READ));
    assert_eq!(
        rights(&pipes.new_pipe(true, true)),
        HandleRights::from_base(FD_FILESTAT_GET | FD_READ | FD_WRITE)
    );
}

#[test]
fn waiting_bytes_are_read_in_order() {
    let mut buffer = Buffer::new();
    let mut buffers = vec![vec![9u8; 2]];
    assert_eq!(buffer.read_nonblock(&mut buffers), 0);
    assert_eq!(buffers, vec![vec![9, 9]]);
    buffer.write(&vec![b"hel".to_vec(), b"lo".to_vec()]);
    let mut buffers = vec![vec![0u8; 2], vec![0u8; 8]];
    assert_eq!(buffer.read_nonblock(&mut buffers), 5);
    assert_eq!(buffers, vec![b"he".to_vec(), b"llo\0\0\0\0\0".to_vec()]);
    let mut buffers = vec![vec![], vec![0u8; 1]];
    assert_eq!(buffer.read_nonblock(&mut buffers), 1);
    assert_eq!(buffers, vec![vec![], b"h".to_vec()]);
}

#[test]
fn bytes_are_read_in_order_however_they_are_kept() {
    let mut buffer = Buffer::new();
    buffer.data = std::collections::VecDeque::with_capacity(4);
    buffer.write(&vec![b"abc".to_vec()]);
    buffer.data.rotate_left(2);
    for b in b"xyz" {
        buffer.data.pop_front();
        buffer.data.push_back(*b);
    }
    let mut buffers = vec![vec![0u8; 7]];
    assert_eq!(buffer.read_nonblock(&mut buffers), 3);
    assert_eq!(buffers, vec![b"xyz\0\0\0\0".to_vec()]);
}

#[test]
fn a_read_without_bytes_would_block() {
    let mut pipe = PipeFs::new().new_pipe(false, true);
    let mut buffers = vec![vec![0u8; 8]];
    assert_eq!(pipe.read(&mut buffers), Err(WouldBlock));
    assert_eq!(buffers, vec![vec![0u8; 8]]);
    pipe.guest_write(&vec![b"abc".to_vec()]).unwrap();
    assert_eq!(pipe.read(&mut vec![vec![]]), Err(WouldBlock));
    assert_eq!(pipe.read(&mut buffers), Ok(3));
    assert_eq!(buffers, vec![b"abc\0\0\0\0\0".to_vec()]);
}

#[test]
fn print_handles_only_print() {
    let handle = PrintHandle::new(42);
    assert_eq!(handle.writer, 42);
    assert_eq!(handle.file_type(), Filetype::CharacterDevice);
    assert_eq!(handle.rights(), HandleRights::from_base(FD_WRITE | FD_FILESTAT_GET | FD_TELL));
    assert_eq!(handle.written(Ok(3)), Ok(3));
    assert_eq!(handle.written(Err(WriteFailure::BrokenPipe)), Err(Errno::Pipe));
    assert_eq!(handle.written(Err(WriteFailure::Other)), Err(Errno::Io));
    assert_eq!(handle.tell(), 0);
    assert_eq!(handle.fdstat(), FDFLAGS_APPEND);
    assert_eq!(handle.filestat().filetype, Filetype::CharacterDevice);
}

#[test]
fn the_null_handle_is_empty() {
    let mut buffers = vec![vec![5u8; 2]];
    assert_eq!(NullHandle.read(&mut buffers), 0);
    assert_eq!(buffers, vec![vec![5, 5]]);
    assert_eq!(NullHandle.file_type(), Filetype::CharacterDevice);
    assert_eq!(NullHandle.rights(), HandleRights::from_base(FD_FILESTAT_GET | FD_READ | FD_WRITE));
}

#[test]
fn host_handles_refuse_what_they_are_not() {
    let file = FD_READ | FD_SEEK | FD_TELL | FD_FILESTAT_GET;
    let directory = PATH_OPEN | FD_READDIR | PATH_FILESTAT_GET | FD_FILESTAT_GET;
    assert_eq!(Handle::Directory.rights(), HandleRights::new(directory, file | directory));
    assert_eq!(Handle::RegularFile.rights(), HandleRights::from_base(file));
    assert_eq!(Handle::Directory.file_type(), Filetype::Directory);
    assert_eq!(Handle::RegularFile.file_type(), Filetype::RegularFile);
    assert_eq!(Handle::Directory.check_stream(), Err(Errno::Isdir));
    assert_eq!(Handle::RegularFile.check_stream(), Ok(()));
    assert_eq!(Handle::Directory.write_refusal(), Errno::Isdir);
    assert_eq!(Handle::RegularFile.write_refusal(), Errno::Notcapable);
    assert_eq!(Handle::Directory.check_directory(), Ok(()));
    assert_eq!(Handle::RegularFile.check_directory(), Err(Errno::Notdir));
    assert_eq!(Handle::Directory.fdstat(), 0);
}

#[test]
fn mutating_opens_are_refused() {
    assert_eq!(plan_open("f", true, 0, 0), Err(Errno::Notcapable));
    for oflags in [OFLAGS_CREAT, OFLAGS_EXCL, OFLAGS_TRUNC] {
        assert_eq!(plan_open("f", false, oflags, 0), Err(Errno::Notcapable));
    }
    for flags in [FDFLAGS_APPEND, FDFLAGS_DSYNC, FDFLAGS_RSYNC, FDFLAGS_SYNC] {
        assert_eq!(plan_open("f", false, 0, flags), Err(Errno::Notcapable));
    }
    assert_eq!(plan_open("f", false, 0, FDFLAGS_NONBLOCK), Ok(OpenPlan::File));
    assert_eq!(plan_open("f", false, OFLAGS_DIRECTORY, 0), Ok(OpenPlan::Directory));
}

#[test]
fn names_with_separators_are_refused() {
    for name in ["a/b", "a\\b", "a\0b"] {
        assert_eq!(plan_open(name, false, 0, 0), Err(Errno::Ilseq));
    }
    assert_eq!(plan_open("", false, 0, 0), Ok(OpenPlan::File));
}

#[test]
fn failures_of_the_host_are_told() {
    for plan in [OpenPlan::File, OpenPlan::Directory] {
        assert_eq!(open_failed(plan, HostFailure::NotFound), Errno::Noent);
        assert_eq!(open_failed(plan, HostFailure::NotADirectory), Errno::Notdir);
        assert_eq!(open_failed(plan, HostFailure::Other), Errno::Io);
    }
    assert_eq!(open_failed(OpenPlan::Directory, HostFailure::Loop), Errno::Io);
    assert_eq!(file_opened(HostKind::File), Ok(Handle::RegularFile));
    assert_eq!(file_opened(HostKind::Directory), Err(Errno::Noent));
    assert_eq!(file_opened(HostKind::Other), Err(Errno::Noent));
}

#[test]
fn names_must_match_exactly() {
    assert_eq!(check_exact_name(Some(b"my_file.txt"), "my_file.txt"), Ok(()));
    assert_eq!(check_exact_name(Some(b"my_File.txt"), "my_file.txt"), Err(Errno::Noent));
    assert_eq!(check_exact_name(None, "my_file.txt"), Err(Errno::Noent));
}

#[test]
fn only_type_and_size_are_told() {
    let stat = filestat_convert(HostKind::File, 12).unwrap();
    assert_eq!((stat.ino, stat.dev, stat.size, stat.nlink, stat.mtim), (0, 0, 12, 1, 0));
    assert_eq!(filestat_convert(HostKind::Other, 0), None);
    assert_eq!(filestat_child(Ok((HostKind::Symlink, 4))).unwrap().filetype, Filetype::SymbolicLink);
    assert_eq!(filestat_child(Ok((HostKind::Other, 4))), Err(Errno::Noent));
    assert_eq!(filestat_child(Err(HostFailure::NotFound)), Err(Errno::Noent));
    assert_eq!(filestat_child(Err(HostFailure::NotADirectory)), Err(Errno::Io));
}

#[test]
fn only_relative_links_are_told() {
    assert_eq!(readlink_child(Ok(Some("my_file.txt".to_owned()))), Ok("my_file.txt".to_owned()));
    assert_eq!(readlink_child(Ok(Some("/etc/passwd".to_owned()))), Err(Errno::Io));
    assert_eq!(readlink_child(Ok(None)), Err(Errno::Io));
    assert_eq!(readlink_child(Err(HostFailure::NotFound)), Err(Errno::Noent));
    assert_eq!(readlink_child(Err(HostFailure::Invalid)), Err(Errno::Inval));
    assert_eq!(readlink_child(Err(HostFailure::Other)), Err(Errno::Io));
}

fn entry(kind: HostKind, name: &str) -> HostEntry {
    HostEntry { kind, name: Some(name.to_owned()) }
}

fn unsorted() -> Vec<HostEntry> {
    vec![
        entry(HostKind::File, "b"),
        entry(HostKind::Directory, "\u{e9}"),
        entry(HostKind::Other, "socket"),
        HostEntry { kind: HostKind::File, name: None },
        entry(HostKind::Symlink, "B"),
        entry(HostKind::File, "a"),
    ]
}

#[test]
fn host_directories_are_listed_by_code_points() {
    let listing = readdir(unsorted(), 0).unwrap();
    let names: Vec<&str> = listing.iter().map(|(_, name)| name.as_str()).collect();
    assert_eq!(names, vec!["B", "a", "b", "\u{e9}"]);
    assert_eq!(listing[3].0.d_namlen, 2);
    assert_eq!(listing[3].0.d_type, Filetype::Directory);
    assert_eq!(listing[0].0.d_type, Filetype::SymbolicLink);
    let cookies: Vec<u64> = listing.iter().map(|(d, _)| d.d_next).collect();
    assert_eq!(cookies, vec![1, 2, 3, 4]);
}

#[test]
fn host_listings_resume_at_a_cookie() {
    let whole = readdir(unsorted(), 0).unwrap();
    for (i, (entry, _)) in whole.iter().enumerate() {
        assert_eq!(readdir(unsorted(), entry.d_next).unwrap(), whole[i + 1..].to_vec());
    }
    assert!(readdir(unsorted(), 99).unwrap().is_empty());
}

fn workspace(name: &str, handle: u64) -> Mapping {
    Mapping {
        name: name.to_owned(),
        file: OpenFile {
            handle,
            file_type: Filetype::Directory,
            rights: HandleRights::from_base(FD_READDIR),
        },
    }
}

#[test]
fn workspaces_are_found_by_name() {
    let fs = NamedWorkspaces::build(vec![workspace("b", 1), workspace("a", 2), workspace("b", 3)]);
    assert_eq!(fs.openat_child("a").map(|f| f.handle), Ok(2));
    assert_eq!(fs.openat_child("b").map(|f| f.handle), Ok(1));
    assert_eq!(fs.openat_child("c"), Err(Errno::Noent));
    let listing = fs.readdir(0).unwrap();
    let names: Vec<&str> = listing.iter().map(|(_, name)| name.as_str()).collect();
    assert_eq!(names, vec!["a", "b", "b"]);
    assert_eq!(listing[2].0.d_next, 3);
    assert_eq!(fs.readdir(2).unwrap().len(), 1);
    assert!(fs.readdir(7).unwrap().is_empty());
    assert_eq!(fs.readlinkat_child("a"), Errno::Inval);
    assert_eq!(fs.readlinkat_child("c"), Errno::Noent);
    assert_eq!(fs.filestat_child("a").map(|s| s.filetype), Ok(Filetype::Directory));
    assert_eq!(fs.filestat_child("c"), Err(Errno::Noent));
    assert_eq!(fs.filestat().filetype, Filetype::Directory);
    assert_eq!((fs.file_type(), fs.stream_error(), fs.fdstat()), (Filetype::Directory, Errno::Isdir, 0));
    assert_eq!(fs.rights(), Handle::Directory.rights());
}

#[test]
fn root_paths_become_verbatim() {
    assert!(matches!(plan_root(RootStart::VerbatimDisk), Ok(RootPlan::Keep)));
    assert!(matches!(plan_root(RootStart::VerbatimUnc), Ok(RootPlan::Keep)));
    assert!(matches!(
        plan_root(RootStart::Disk(b'C')),
        Ok(RootPlan::Rebuild { ref prefix }) if prefix == r"\\?\C:"
    ));
    let share = RootStart::Unc { server: "host".to_owned(), share: "data".to_owned() };
    assert!(matches!(
        plan_root(share),
        Ok(RootPlan::Rebuild { ref prefix }) if prefix == r"\\?\UNC\host\data"
    ));
    assert!(matches!(plan_root(RootStart::DeviceNs), Err(RootRefusal::Device)));
    for start in [RootStart::Verbatim, RootStart::NoPrefix, RootStart::Nothing] {
        assert!(matches!(plan_root(start), Err(RootRefusal::Relative)));
    }
}

fn wide(s: &str) -> Vec<u16> {
    s.encode_utf16().collect()
}

#[test]
fn windows_names_must_match_exactly() {
    assert_eq!(check_name(&wide(r"\dir\my_file.txt"), "my_file.txt"), Ok(()));
    assert_eq!(check_name(&wide("my_file.txt"), "my_file.txt"), Ok(()));
    assert_eq!(check_name(&wide(r"\dir\my_File.txt"), "my_file.txt"), Err(Errno::Noent));
    assert_eq!(check_name(&wide("\\dir\\\u{1f600}\u{e9}"), "\u{1f600}\u{e9}"), Ok(()));
    assert_eq!(check_name(&[0xd800], "a"), Err(Errno::Noent));
    assert_eq!(check_name(&wide(r"\dir\ab"), "a"), Err(Errno::Noent));
}

#[test]
fn windows_opens_are_answered() {
    assert_eq!(check_open(true, 0), Err(Errno::Notcapable));
    for oflags in [OFLAGS_CREAT, OFLAGS_EXCL, OFLAGS_TRUNC] {
        assert_eq!(check_open(false, oflags), Err(Errno::Notcapable));
    }
    assert_eq!(check_open(false, OFLAGS_DIRECTORY), Ok(()));
    let missing = HostOpen::CreateFailed { code: Some(2) };
    assert_eq!(open_child(&missing, "a", 0), Err(Errno::Noent));
    assert_eq!(open_child(&HostOpen::CreateFailed { code: Some(5) }, "a", 0), Err(Errno::Io));
    assert_eq!(open_child(&HostOpen::CreateFailed { code: None }, "a", 0), Err(Errno::Io));
    assert_eq!(open_child(&HostOpen::NameFailed, "a", 0), Err(Errno::Io));
    let unknown = HostOpen::AttributesFailed { path: wide(r"\a") };
    assert_eq!(open_child(&unknown, "a", 0), Err(Errno::Io));
    assert_eq!(open_child(&unknown, "b", 0), Err(Errno::Noent));
    let opened = HostOpen::Opened { path: wide(r"\COM1"), attributes: 0x20 };
    assert_eq!(open_child(&opened, "COM1", 0), Ok(()));
    assert_eq!(open_child(&opened, "com1", 0), Err(Errno::Noent));
    assert_eq!(open_child(&opened, "COM1", OFLAGS_DIRECTORY), Err(Errno::Notdir));
}

fn reparse_data(tag: u32, offset: u16, target: &str) -> Vec<u8> {
    let units = wide(target);
    let mut data = tag.to_le_bytes().to_vec();
    data.extend([0, 0, 0, 0]);
    data.extend(offset.to_le_bytes());
    data.extend((units.len() as u16 * 2).to_le_bytes());
    data.extend([0; 8]);
    data.extend(vec![0; offset as usize]);
    for unit in units {
        data.extend(unit.to_le_bytes());
    }
    data
}

#[test]
fn windows_links_are_read() {
    assert_eq!(check_link_name(r"a\b"), Err(Errno::Noent));
    assert_eq!(check_link_name("ab"), Ok(()));
    let host = HostLink::Reparse { data: reparse_data(IO_REPARSE_TAG_SYMLINK, 4, r"..\target") };
    assert_eq!(read_link("link", &host), Ok(wide(r"..\target")));
    assert_eq!(read_link(r"li\nk", &host), Err(Errno::Noent));
    let absolute = HostLink::Reparse { data: reparse_data(IO_REPARSE_TAG_SYMLINK, 0, r"\??\C:\x") };
    assert_eq!(read_link("link", &absolute), Err(Errno::Io));
    let other = HostLink::Reparse { data: reparse_data(0xa000_0003, 0, "x") };
    assert_eq!(read_link("link", &other), Err(Errno::Inval));
    let mut cut = reparse_data(IO_REPARSE_TAG_SYMLINK, 0, "target");
    cut.pop();
    assert_eq!(read_link("link", &HostLink::Reparse { data: cut }), Err(Errno::Io));
    assert_eq!(read_link("link", &HostLink::Reparse { data: vec![0; 3] }), Err(Errno::Inval));
    let socket = HostLink::Reparse { data: vec![0x23, 0, 0, 0x80, 0, 0, 0, 0] };
    assert_eq!(read_link("link", &socket), Err(Errno::Inval));
    let short = reparse_data(IO_REPARSE_TAG_SYMLINK, 0, "")[..19].to_vec();
    assert_eq!(read_link("link", &HostLink::Reparse { data: short }), Err(Errno::Io));
}

#[test]
fn windows_links_fail_with_the_host() {
    assert_eq!(read_link("l", &HostLink::CreateFailed { code: Some(2) }), Err(Errno::Noent));
    assert_eq!(read_link("l", &HostLink::CreateFailed { code: Some(3) }), Err(Errno::Io));
    assert_eq!(read_link("l", &HostLink::CreateFailed { code: None }), Err(Errno::Io));
    assert_eq!(read_link("l", &HostLink::ReparseFailed { code: Some(4390) }), Err(Errno::Inval));
    assert_eq!(read_link("l", &HostLink::ReparseFailed { code: Some(1) }), Err(Errno::Io));
    assert_eq!(read_link("l", &HostLink::ReparseFailed { code: None }), Err(Errno::Io));
}

#[test]
fn link_targets_are_cleaned() {
    let name = |s: &str| LinkComponent::Normal(Some(s.to_owned()));
    let components = vec![LinkComponent::ParentDir, name("lib"), name("x.py")];
    assert_eq!(clean_link(&components, false), Ok("../lib/x.py".to_owned()));
    assert_eq!(clean_link(&components, true), Ok("../lib/x.py/".to_owned()));
    let components = vec![LinkComponent::CurDir, name("x")];
    assert_eq!(clean_link(&components, false), Ok("./x".to_owned()));
    let components = vec![LinkComponent::VerbatimPrefix(Some("v".to_owned())), name("x")];
    assert_eq!(clean_link(&components, false), Ok("v/x".to_owned()));
    assert_eq!(clean_link(&vec![], false), Ok(String::new()));
    for bad in [
        LinkComponent::VerbatimPrefix(None),
        LinkComponent::AbsolutePrefix,
        LinkComponent::RootDir,
        LinkComponent::Normal(None),
    ] {
        assert_eq!(clean_link(&vec![name("a"), bad, name("b")], false), Err(Errno::Io));
    }
}

#[test]
fn windows_reads_stop_at_the_end() {
    assert_eq!(read_request(5), Ok(5));
    assert_eq!(read_request(1 << 32), Err(Errno::Overflow));
    assert_eq!(buffer_read(3, 4, Some(4)), ReadStep::More { total: 7 });
    assert_eq!(buffer_read(3, 4, Some(1)), ReadStep::Done { total: 4 });
    assert_eq!(buffer_read(3, 4, None), ReadStep::Failed { error: Errno::Io });
}

#[test]
fn large_numbers_are_halved_and_put_together() {
    for value in [0u64, 1, 0xffff_ffff, 0x1_0000_0000, 0x8123_4567_89ab_cdef, u64::MAX] {
        assert_eq!(to_large_integer_unsigned(value).combine(), value);
    }
    for value in [0i64, -1, 5, i64::MIN, i64::MAX, -0x1_0000_0000] {
        assert_eq!(to_large_integer(value).combine(), value as u64);
    }
    let minus_three = LargeInteger { low_part: 0xffff_fffd, high_part: -1 };
    assert_eq!(to_large_integer(-3), minus_three);
    assert_eq!(seek_request(SeekFrom::End(-3)), (FILE_END, minus_three));
    assert_eq!(seek_request(SeekFrom::Current(-3)), (FILE_CURRENT, minus_three));
    assert_eq!(seek_request(SeekFrom::Start(1 << 32)), (FILE_BEGIN, LargeInteger { low_part: 0, high_part: 1 }));
    assert_eq!(position_told(Some(LargeInteger { low_part: 7, high_part: 1 })), Ok((1 << 32) + 7));
    assert_eq!(position_told(None), Err(Errno::Io));
}
