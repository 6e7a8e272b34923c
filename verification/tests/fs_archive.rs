use cealn::api::types::{
    Errno, Filetype, SeekFrom, FD_FILESTAT_GET, FD_READ, FD_READDIR, FD_SEEK, FD_TELL, OFLAGS_DIRECTORY, OFLAGS_TRUNC,
    PATH_FILESTAT_GET, PATH_OPEN,
};
use cealn::fs::memory_handle::{safe_offset_add, Handle};
use cealn::fs::memory_tar::{BuildError, InMemoryTar};
use cealn::fs::tar_archive::{is_readable, TarEntry};

fn add_file(builder: &mut tar::Builder<Vec<u8>>, path: &str, contents: &[u8]) {
    let mut header = tar::Header::new_gnu();
    header.set_size(contents.len() as u64);
    header.set_entry_type(tar::EntryType::Regular);
    set_raw_path(&mut header, path.as_bytes());
    header.set_cksum();
    builder.append(&header, contents).unwrap();
}

fn add_entry(builder: &mut tar::Builder<Vec<u8>>, path: &[u8], kind: tar::EntryType) {
    let mut header = tar::Header::new_gnu();
    header.set_size(0);
    header.set_entry_type(kind);
    set_raw_path(&mut header, path);
    header.set_cksum();
    builder.append(&header, &[][..]).unwrap();
}

/// Sets the path without the checks of the builder.
fn set_raw_path(header: &mut tar::Header, path: &[u8]) {
    let name = &mut header.as_gnu_mut().unwrap().name;
    name[..path.len()].copy_from_slice(path);
}

fn archive() -> InMemoryTar {
    let mut builder = tar::Builder::new(Vec::new());
    add_file(&mut builder, "usr/lib/b.py", b"import os\n");
    add_entry(&mut builder, b"usr/lib/", tar::EntryType::Directory);
    add_file(&mut builder, "./usr/lib/a.py", b"hello world");
    add_file(&mut builder, "etc//passwd", b"");
    InMemoryTar::build(builder.into_inner().unwrap()).unwrap_or_else(|_| panic!("a valid archive"))
}

fn root(archive: &InMemoryTar) -> Handle {
    Handle { filesystem: archive.0.clone(), path: "/".to_owned(), current_offset: 0 }
}

fn open(handle: &Handle, names: &[&str]) -> Handle {
    let mut current = Handle {
        filesystem: handle.filesystem.clone(),
        path: handle.path.clone(),
        current_offset: 0,
    };
    for name in names {
        current = current.openat_child(name, false, 0).unwrap_or_else(|_| panic!("{} is there", name));
    }
    current
}

fn refusal(kinds: &[(&[u8], tar::EntryType)]) -> BuildError {
    let mut builder = tar::Builder::new(Vec::new());
    for (path, kind) in kinds {
        add_entry(&mut builder, path, *kind);
    }
    match InMemoryTar::build(builder.into_inner().unwrap()) {
        Ok(_) => panic!("the archive must be refused"),
        Err(e) => e,
    }
}

#[test]
fn archived_bytes_are_read_back() {
    let archive = archive();
    let mut file = open(&root(&archive), &["usr", "lib", "a.py"]);
    let mut buffers = vec![vec![0u8; 5], vec![0u8; 3], vec![0xffu8; 10]];
    assert_eq!(file.read(&mut buffers), Ok(11));
    assert_eq!(buffers[0], b"hello");
    assert_eq!(buffers[1], b" wo");
    assert_eq!(&buffers[2][..3], b"rld");
    assert_eq!(&buffers[2][3..], &[0xff; 7]);
    assert_eq!(file.tell(), Ok(11));
    assert_eq!(file.read(&mut vec![vec![0u8; 4]]), Ok(0));
}

#[test]
fn reading_goes_on_where_it_stopped() {
    let archive = archive();
    let mut file = open(&root(&archive), &["usr", "lib", "a.py"]);
    let mut buffers = vec![vec![0u8; 6]];
    assert_eq!(file.read(&mut buffers), Ok(6));
    assert_eq!(file.read(&mut buffers), Ok(5));
    assert_eq!(&buffers[0][..5], b"world");
}

#[test]
fn archive_files_can_be_sought_in() {
    let archive = archive();
    let mut file = open(&root(&archive), &["usr", "lib", "a.py"]);
    assert_eq!(file.seek(SeekFrom::Start(6)), Ok(6));
    let mut buffers = vec![vec![0u8; 2]];
    assert_eq!(file.read(&mut buffers), Ok(2));
    assert_eq!(buffers[0], b"wo");
    assert_eq!(file.seek(SeekFrom::Current(3)), Ok(11));
    assert_eq!(file.seek(SeekFrom::Start(12)), Err(Errno::Inval));
    assert_eq!(file.seek(SeekFrom::End(1)), Err(Errno::Inval));
    assert_eq!(file.seek(SeekFrom::End(0)), Ok(11));
    assert_eq!(file.seek(SeekFrom::Current(i64::MAX)), Err(Errno::Inval));
    assert_eq!(file.tell(), Ok(11));
    assert_eq!(file.seek(SeekFrom::End(-3)), Ok(8));
    assert_eq!(file.tell(), Ok(8));
    let mut buffers = vec![vec![0u8; 8]];
    assert_eq!(file.read(&mut buffers), Ok(3));
    assert_eq!(&buffers[0][..3], b"rld");
    assert_eq!(file.seek(SeekFrom::Current(-5)), Ok(6));
    assert_eq!(file.seek(SeekFrom::Current(-7)), Err(Errno::Overflow));
    assert_eq!(file.seek(SeekFrom::End(-12)), Err(Errno::Overflow));
    assert_eq!(file.tell(), Ok(6));
}

#[test]
fn offsets_lead_both_ways() {
    assert_eq!(safe_offset_add(5, 3), Some(8));
    assert_eq!(safe_offset_add(5, 0), Some(5));
    assert_eq!(safe_offset_add(5, -3), Some(2));
    assert_eq!(safe_offset_add(5, -5), Some(0));
    assert_eq!(safe_offset_add(5, -6), None);
    assert_eq!(safe_offset_add(0, i64::MIN), None);
    assert_eq!(safe_offset_add(u64::MAX, 1), None);
    assert_eq!(safe_offset_add(1 << 63, i64::MIN), Some(0));
}

#[test]
fn an_offset_too_large_is_an_overflow() {
    let archive = archive();
    let file = open(&root(&archive), &["usr", "lib", "a.py"]);
    let mut file = Handle { current_offset: u64::MAX, ..file };
    assert_eq!(file.seek(SeekFrom::Current(1)), Err(Errno::Overflow));
    assert_eq!(file.read(&mut vec![vec![0u8; 1]]), Err(Errno::Inval));
}

#[test]
fn archive_directories_are_listed_in_order() {
    let archive = archive();
    let lib = open(&root(&archive), &["usr", "lib"]);
    let items: Vec<_> = lib.readdir(0).unwrap().into_iter().map(|item| item.unwrap()).collect();
    let names: Vec<&str> = items.iter().map(|(_, name)| name.as_str()).collect();
    assert_eq!(names, vec!["a.py", "b.py"]);
    assert_eq!(items[0].0.d_next, 1);
    assert_eq!(items[0].0.d_namlen, 4);
    assert_eq!(items[0].0.d_type, Filetype::RegularFile);
    assert_eq!(items[1].0.d_next, 2);
    let rest = lib.readdir(1).unwrap();
    assert_eq!(rest.len(), 1);
    assert_eq!(rest[0].as_ref().unwrap().1, "b.py");
    assert!(lib.readdir(u64::MAX).unwrap().is_empty());
    let file = open(&lib, &["a.py"]);
    assert!(matches!(file.readdir(0), Err(Errno::Notdir)));
}

#[test]
fn inodes_of_an_archive_differ() {
    let archive = archive();
    let root = root(&archive);
    let handles = [
        open(&root, &[]),
        open(&root, &["usr"]),
        open(&root, &["usr", "lib"]),
        open(&root, &["usr", "lib", "a.py"]),
        open(&root, &["usr", "lib", "b.py"]),
        open(&root, &["etc"]),
        open(&root, &["etc", "passwd"]),
    ];
    let mut inodes: Vec<u64> = handles.iter().map(|h| h.filestat().unwrap().ino).collect();
    inodes.sort();
    assert_eq!(inodes, vec![0, 1, 2, 3, 4, 5, 6]);
}

#[test]
fn children_of_an_archive_are_opened() {
    let archive = archive();
    let lib = open(&root(&archive), &["usr", "lib"]);
    assert!(matches!(lib.openat_child("c.py", false, 0), Err(Errno::Noent)));
    assert!(matches!(lib.openat_child("a.py", true, 0), Err(Errno::Notcapable)));
    assert!(matches!(lib.openat_child("a.py", false, OFLAGS_TRUNC), Err(Errno::Notcapable)));
    assert!(matches!(lib.openat_child("a.py", false, OFLAGS_DIRECTORY), Err(Errno::Notdir)));
    let file = open(&lib, &["a.py"]);
    assert_eq!(file.path, "//usr/lib/a.py");
    assert!(matches!(file.openat_child("x", false, 0), Err(Errno::Notdir)));
    let usr = open(&root(&archive), &["usr"]);
    assert!(usr.openat_child("lib", false, OFLAGS_DIRECTORY).is_ok());
}

#[test]
fn archive_handles_tell_what_they_are() {
    let archive = archive();
    let lib = open(&root(&archive), &["usr", "lib"]);
    let mut lib = lib;
    assert_eq!(lib.file_type(), Filetype::Directory);
    let directory = PATH_OPEN | FD_READDIR | PATH_FILESTAT_GET | FD_FILESTAT_GET;
    let file_rights = FD_READ | FD_SEEK | FD_TELL | FD_FILESTAT_GET;
    assert_eq!(lib.rights().base, directory);
    assert_eq!(lib.rights().inheriting, directory | file_rights);
    assert_eq!(lib.tell(), Err(Errno::Isdir));
    assert_eq!(lib.seek(SeekFrom::Start(0)), Err(Errno::Isdir));
    assert_eq!(lib.read(&mut vec![vec![0u8; 1]]), Err(Errno::Isdir));
    assert_eq!(lib.fdstat(), Ok(0));
    assert!(matches!(lib.readlinkat_child(), Err(Errno::Inval)));
    assert_eq!(lib.filestat().unwrap().size, 0);
    let stat = lib.filestat_child("b.py").unwrap();
    assert_eq!((stat.size, stat.filetype, stat.nlink), (10, Filetype::RegularFile, 1));
    assert!(matches!(lib.filestat_child("c.py"), Err(Errno::Noent)));
    let file = open(&lib, &["b.py"]);
    assert_eq!(file.file_type(), Filetype::RegularFile);
    assert_eq!((file.rights().base, file.rights().inheriting), (file_rights, 0));
}

#[test]
fn roots_are_what_the_archive_lists() {
    let roots = archive().roots();
    let paths: Vec<&str> = roots.iter().map(|(path, _)| path.as_str()).collect();
    assert_eq!(paths, vec!["/etc/passwd", "/usr/lib"]);
    let lib = roots[1].1.instantiate();
    assert_eq!(lib.file_type(), Filetype::Directory);
    assert_eq!(lib.filestat_child("a.py").unwrap().size, 11);
    let passwd = roots[0].1.instantiate();
    assert_eq!((passwd.file_type(), passwd.tell()), (Filetype::RegularFile, Ok(0)));
}

#[test]
fn instances_share_no_position() {
    let archive = archive();
    let roots = archive.roots();
    let mut first = roots[1].1.instantiate().openat_child("a.py", false, 0).unwrap_or_else(|_| panic!("there"));
    assert_eq!(first.seek(SeekFrom::Start(4)), Ok(4));
    let second = roots[1].1.instantiate().openat_child("a.py", false, 0).unwrap_or_else(|_| panic!("there"));
    assert_eq!(second.tell(), Ok(0));
}

#[test]
fn twice_listed_entries_are_refused() {
    let directory = tar::EntryType::Directory;
    let regular = tar::EntryType::Regular;
    assert!(matches!(refusal(&[(b"a", regular), (b"a", regular)]), BuildError::DuplicateEntry));
    assert!(matches!(refusal(&[(b"a", directory), (b"a", directory)]), BuildError::DuplicateEntry));
    assert!(matches!(refusal(&[(b"a", regular), (b"a/b", regular)]), BuildError::DuplicateEntry));
    assert!(matches!(refusal(&[(b"a/b", regular), (b"a", regular)]), BuildError::DuplicateEntry));
}

#[test]
fn strange_entries_are_refused() {
    let regular = tar::EntryType::Regular;
    assert!(matches!(refusal(&[(b"a/../b", regular)]), BuildError::UnexpectedParentEntry));
    assert!(matches!(refusal(&[(b"a\xff", regular)]), BuildError::InvalidUtf8Filename(_)));
    assert!(matches!(
        refusal(&[(b"fifo", tar::EntryType::Fifo)]),
        BuildError::UnsupportedEntryType(b'6')
    ));
}

#[test]
fn damaged_archives_are_refused() {
    assert!(matches!(InMemoryTar::build(vec![0xffu8; 600]), Err(BuildError::InvalidTar(_))));
    let items = vec![Err(std::io::Error::from(std::io::ErrorKind::UnexpectedEof))];
    assert!(matches!(
        InMemoryTar::build_from_listing(Vec::new(), items),
        Err(BuildError::InvalidTar(_))
    ));
    let unsized_entry = TarEntry {
        path: b"a".to_vec(),
        kind: b'0',
        position: 0,
        size: Err(std::io::Error::from(std::io::ErrorKind::InvalidData)),
    };
    assert!(matches!(
        InMemoryTar::build_from_listing(Vec::new(), vec![Ok(unsized_entry)]),
        Err(BuildError::InvalidTar(_))
    ));
}

/// The header of a sparse file that has extended headers, and one of those.
fn sparse_archive(size: u64, records: &[u8]) -> Vec<u8> {
    let mut builder = tar::Builder::new(Vec::new());
    if !records.is_empty() {
        let mut header = tar::Header::new_ustar();
        header.set_size(records.len() as u64);
        header.set_entry_type(tar::EntryType::XHeader);
        header.set_cksum();
        builder.append(&header, records).unwrap();
    }
    let mut header = tar::Header::new_gnu();
    header.set_size(size);
    header.set_entry_type(tar::EntryType::GNUSparse);
    set_raw_path(&mut header, b"sparse");
    header.as_gnu_mut().unwrap().isextended[0] = 1;
    header.set_cksum();
    let mut bytes = builder.into_inner().unwrap();
    bytes.truncate(if records.is_empty() { 0 } else { 1024 });
    bytes.extend_from_slice(header.as_bytes());
    bytes.extend_from_slice(&[0u8; 512]);
    bytes
}

#[test]
fn sparse_files_too_large_to_be_counted_are_told_apart() {
    assert!(!is_readable(&sparse_archive(0xffff_ffff_ffff_fc00, b"")));
    assert!(!is_readable(&sparse_archive(1 << 63, b"")));
    assert!(!is_readable(&sparse_archive(0, b"29 size=18446744073709550592\n")));
    assert!(!is_readable(&sparse_archive(0, b"30 size=+18446744073709550592\n")));
    assert!(is_readable(&sparse_archive(u64::MAX, b"")[..511]));

    let readable = [
        sparse_archive(0, b""),
        sparse_archive((1 << 63) - 1, b""),
        sparse_archive(0, b"12 size=512\n"),
        sparse_archive(0, b"29 path=18446744073709550592\n"),
        vec![0xffu8; 600],
        Vec::new(),
    ];
    for bytes in readable {
        assert!(is_readable(&bytes));
        match InMemoryTar::build(bytes) {
            Ok(archive) => assert!(archive.roots().is_empty()),
            Err(e) => assert!(matches!(e, BuildError::InvalidTar(_) | BuildError::UnsupportedEntryType(b'S'))),
        }
    }
}

#[test]
fn an_empty_archive_has_no_roots() {
    let archive = InMemoryTar::build(Vec::new()).unwrap_or_else(|_| panic!("nothing is valid"));
    assert!(archive.roots().is_empty());
    assert!(root(&archive).readdir(0).unwrap().is_empty());
}

#[test]
fn listed_entries_stand_at_their_paths() {
    let entry = |path: &[u8], kind: u8, position: u64, size: u64| {
        Ok(TarEntry { path: path.to_vec(), kind, position, size: Ok(size) })
    };
    let items = vec![
        entry(b"x/y", b'0', 3, 4),
        entry(b"./", b'5', 0, 0),
        entry(b"x/z", b'5', 0, 0),
    ];
    let bytes = b"0123456789".to_vec();
    let archive = InMemoryTar::build_from_listing(bytes, items).unwrap_or_else(|_| panic!("valid"));
    let mut file = open(&root(&archive), &["x", "y"]);
    let mut buffers = vec![vec![0u8; 8]];
    assert_eq!(file.read(&mut buffers), Ok(4));
    assert_eq!(&buffers[0][..4], b"3456");
    let paths: Vec<String> = archive.roots().into_iter().map(|(path, _)| path).collect();
    assert_eq!(paths, vec!["/x/y", "/x/z"]);
}
