use cealn::api::types::Errno;
use cealn::base::digest::Hasher;
use cealn::source::ignore_rules::{enumerate_directory, ListedFile};
use cealn::source::source_entry::{
    finish_hash, BeginUpdate, DirectoryStatus, DiskKind, FileNodeIdentifier, FileStatus, HashOutcome, Metadata,
    RootError, SourceEntryMonitor, Status, SymlinkStatus, UpdatePlan, HASH_MUTATION_ATTEMPTS,
};
use cealn::source::source_reference::{
    children_order, monitor_path, FileType, Segment, SourceFsRecord, SourceReference,
};
use cealn::source::watch::{
    parse_events, watch_depth, ByteOrder, WaitForAnyChange, WaitState, WatchDepth, WatchPort,
};
use ignore::gitignore::{Gitignore, GitignoreBuilder};

/// The bytes that the kernel writes for an event.
fn event(wd: i32, name: &[u8]) -> Vec<u8> {
    let mut bytes = wd.to_le_bytes().to_vec();
    bytes.extend([2, 0, 0, 0, 0, 0, 0, 0]);
    bytes.extend((name.len() as u32).to_le_bytes());
    bytes.extend(name);
    bytes
}

#[test]
fn create_watch_port() {
    let port = WatchPort::new();
    assert!(port.nodes.is_empty());
    assert_eq!(port.will_observe_any_change(), 0);
    assert_eq!(watch_depth(), WatchDepth::One);
}

#[test]
fn events_are_parsed() {
    let mut bytes = event(7, b"test.txt\0\0\0\0\0\0\0\0");
    bytes.extend(event(-1, b""));
    assert_eq!(parse_events(&bytes, ByteOrder::LittleEndian), Some(vec![7, -1]));
    assert_eq!(parse_events(&[], ByteOrder::LittleEndian), Some(vec![]));
    bytes.truncate(20);
    assert_eq!(parse_events(&bytes, ByteOrder::LittleEndian), None);
}

#[test]
fn events_are_in_the_order_of_the_machine() {
    let bytes = [0, 0, 0, 7, 0, 0, 0, 2, 0, 0, 0, 0, 0, 0, 0, 4, b'a', 0, 0, 0];
    assert_eq!(parse_events(&bytes, ByteOrder::BigEndian), Some(vec![7]));
    assert_eq!(parse_events(&bytes, ByteOrder::LittleEndian), None);
}

#[test]
fn a_mutation_in_a_directory_is_seen() {
    let mut port = WatchPort::new();
    let node = port.watched(1, 40);
    port.poll(&vec![]);
    assert!(!node.has_changed(port.sequence_number(1).unwrap()));
    let wds = parse_events(&event(1, b"test.txt\0\0\0\0\0\0\0\0"), ByteOrder::LittleEndian).unwrap();
    let outcome = port.poll(&wds);
    assert_eq!(outcome.events_processed, 1);
    assert_eq!(outcome.notices.len(), 1);
    assert_eq!(outcome.notices[0].source_monitor, 40);
    assert!(node.has_changed(port.sequence_number(1).unwrap()));
}

#[test]
fn events_elsewhere_are_not_seen() {
    let mut port = WatchPort::new();
    let node = port.watched(1, 40);
    let outcome = port.poll(&vec![2]);
    assert_eq!((outcome.events_processed, outcome.notices.len()), (1, 0));
    assert!(!node.has_changed(port.sequence_number(1).unwrap()));
    assert_eq!(port.will_observe_any_change(), 0);
    port.unwatch(1);
    assert_eq!(port.sequence_number(1), None);
    assert!(port.poll(&vec![1]).notices.is_empty());
}

#[test]
fn sequence_numbers_count_events() {
    let mut port = WatchPort::new();
    port.watched(1, 40);
    port.poll(&vec![1, 1, 2]);
    assert_eq!(port.sequence_number(1), Some(2));
    assert_eq!(port.will_observe_any_change(), 1);
    let again = port.watched(1, 99);
    assert_eq!(again.last_observed_sequence_number, 2);
    assert_eq!(port.poll(&vec![1]).notices[0].source_monitor, 40);
}

#[test]
fn a_change_during_a_look_is_seen_after_it() {
    let mut port = WatchPort::new();
    let node = port.watched(1, 40);
    port.poll(&vec![1]);
    let guard = node.will_observe(port.sequence_number(1).unwrap());
    port.poll(&vec![1]);
    let node = guard.commit(node);
    assert!(node.has_changed(port.sequence_number(1).unwrap()));
    let guard = node.will_observe(port.sequence_number(1).unwrap());
    let node = guard.commit(node);
    assert!(!node.has_changed(port.sequence_number(1).unwrap()));
    assert!(node.duplicate().has_changed(port.sequence_number(1).unwrap()));
}

#[test]
fn an_old_look_does_not_undo_a_newer_one() {
    let mut port = WatchPort::new();
    let node = port.watched(1, 40);
    port.poll(&vec![1]);
    let old = node.will_observe(1);
    let newer = node.will_observe(port.sequence_number(1).unwrap() + 1).commit(node);
    assert_eq!(old.commit(newer), newer);
}

#[test]
fn waiters_wait_for_any_change() {
    let mut port = WatchPort::new();
    port.watched(1, 40);
    let mut observed = port.will_observe_any_change();
    let mut wait = WaitForAnyChange::new(observed);
    assert!(!wait.poll(&mut port.any_change, 5));
    assert!(!wait.poll(&mut port.any_change, 5));
    assert!(!port.any_change_guard_check_dirty(&mut observed));
    let outcome = port.poll(&vec![1]);
    assert_eq!(outcome.wakers.iter().map(|w| w.1).collect::<Vec<u64>>(), vec![5]);
    assert!(wait.poll(&mut port.any_change, 5));
    assert!(port.any_change_guard_check_dirty(&mut observed));
    assert_eq!(observed, 1);
    assert!(!port.any_change_guard_check_dirty(&mut observed));
}

#[test]
fn a_waiter_with_a_new_waker_is_woken_by_it() {
    let mut state = WaitState::new();
    let mut wait = WaitForAnyChange::new(0);
    assert!(!wait.poll(&mut state, 1));
    assert!(!wait.poll(&mut state, 2));
    let wakers: Vec<u64> = state.wakers.iter().map(|(_, waker)| *waker).collect();
    assert_eq!(wakers, vec![1, 2]);
}

fn rules(lines: &[&str]) -> Gitignore {
    let mut builder = GitignoreBuilder::new("");
    for line in lines {
        builder.add_line(None, line).unwrap();
    }
    builder.build().unwrap()
}

fn listed(name: &str, is_dir: bool) -> ListedFile {
    ListedFile { name: Some(name.to_owned()), is_label: true, is_dir }
}

#[test]
fn ignored_files_are_not_enumerated() {
    let files = vec![
        listed("b.rs", false),
        listed("a.tmp", false),
        listed("target", true),
        listed("a.rs", false),
        ListedFile { name: None, is_label: true, is_dir: false },
        ListedFile { name: Some("odd:name".to_owned()), is_label: false, is_dir: false },
    ];
    let names = enumerate_directory(&rules(&["*.tmp", "/target/"]), "", &files);
    assert_eq!(names, vec!["a.rs", "b.rs"]);
    let names = enumerate_directory(&rules(&["*.tmp", "/target/"]), "sub", &files);
    assert_eq!(names, vec!["a.rs", "b.rs", "target"]);
}

const NODE: FileNodeIdentifier = FileNodeIdentifier { device: 1, inode: 2 };

fn metadata(kind: DiskKind, mtime: i128) -> Metadata {
    Metadata { kind, mtime, file_node_identifier: NODE, mode: 0o755 }
}

fn file_status(mtime: i128, hash: u8) -> Status {
    Status::File(FileStatus { mtime, file_node_identifier: NODE, hash: vec![hash], executable: false })
}

fn directory_status(children: &[&str]) -> Status {
    Status::Directory(DirectoryStatus {
        mtime: 1,
        file_node_identifier: NODE,
        children: children.iter().map(|c| c.to_string()).collect(),
    })
}

#[test]
fn statuses_are_equivalent_by_contents() {
    assert!(file_status(1, 9).equivalent(&file_status(2, 9)));
    assert!(!file_status(1, 9).equivalent(&file_status(1, 8)));
    assert!(directory_status(&["a"]).equivalent(&directory_status(&["a"])));
    assert!(!directory_status(&["a"]).equivalent(&directory_status(&["a", "b"])));
    assert!(!directory_status(&["a"]).equivalent(&Status::NotFound));
    assert!(Status::NotFound.equivalent(&Status::NotFound.duplicate()));
    let link = |target: &str| {
        Status::Symlink(SymlinkStatus { mtime: 3, file_node_identifier: NODE, target: target.to_owned() })
    };
    assert!(link("x").equivalent(&link("x").duplicate()));
    assert!(!link("x").equivalent(&link("y")));
}

#[test]
fn roots_are_directories() {
    let root = SourceEntryMonitor::new_root("/ws".to_owned(), 5, metadata(DiskKind::File, 1), vec![], None);
    assert!(matches!(root, Err(RootError::NotADirectory)));
    let children = vec!["a".to_owned()];
    let Ok(root) = SourceEntryMonitor::new_root("/ws".to_owned(), 5, metadata(DiskKind::Directory, 1), children, None)
    else {
        panic!("a directory can be a root");
    };
    assert!(root.seen_since(5));
    assert!(!root.seen_since(6));
    assert_eq!(root.root_relative_path, "");
}

#[test]
fn children_are_monitored_once() {
    let mut port = WatchPort::new();
    let node = port.watched(1, 40);
    let Ok(mut root) =
        SourceEntryMonitor::new_root("/ws".to_owned(), 5, metadata(DiskKind::Directory, 1), vec![], Some(node))
    else {
        panic!("a directory can be a root");
    };
    let (id, child) = root.monitor_child("a", 7);
    let child = child.unwrap_or_else(|| panic!("the child is new"));
    assert_eq!((id, child.full_file_path.as_str(), child.root_relative_path.as_str()), (7, "/ws/a", "a"));
    assert!(child.state.is_none() && child.parent_watch_node == Some(node.duplicate()));
    let (id, again) = root.monitor_child("a", 8);
    assert!(id == 7 && again.is_none());
    let (id, _) = root.monitor_child("b", 8);
    assert_eq!(id, 8);
    let (_, mut children) = root.watch_dir_did_change();
    children.sort();
    assert_eq!(children, vec![7, 8]);
}

#[test]
fn updates_follow_the_watched_directory() {
    let mut port = WatchPort::new();
    let node = port.watched(1, 40);
    let mut entry = SourceEntryMonitor::new("/ws/f".to_owned(), "f".to_owned(), Some(node));
    assert_eq!(entry.begin_update(0), BeginUpdate::Observe(None));
    entry.observed(3, file_status(1, 9), None, None);
    assert_eq!(entry.begin_update(0), BeginUpdate::UpToDate);
    port.poll(&vec![1]);
    let sequence_number = port.sequence_number(1).unwrap();
    let BeginUpdate::Observe(Some(guard)) = entry.begin_update(sequence_number) else {
        panic!("the directory changed");
    };
    assert_eq!(entry.plan_update(&metadata(DiskKind::File, 1)), UpdatePlan::Touch);
    entry.touch(4, Some(guard));
    assert!(entry.seen_since(4));
    assert_eq!(entry.begin_update(sequence_number), BeginUpdate::UpToDate);
}

#[test]
fn updates_look_at_what_changed() {
    let mut entry = SourceEntryMonitor::new("/ws/f".to_owned(), "f".to_owned(), None);
    assert_eq!(entry.plan_update(&metadata(DiskKind::File, 1)), UpdatePlan::HashFile);
    entry.observed(3, file_status(1, 9), None, None);
    assert_eq!(entry.plan_update(&metadata(DiskKind::File, 1)), UpdatePlan::Touch);
    assert_eq!(entry.plan_update(&metadata(DiskKind::File, 2)), UpdatePlan::HashFile);
    assert_eq!(entry.plan_update(&metadata(DiskKind::Directory, 1)), UpdatePlan::ListDirectory);
    assert_eq!(entry.plan_update(&metadata(DiskKind::Symlink, 1)), UpdatePlan::ReadLink);
    assert_eq!(entry.plan_update(&metadata(DiskKind::Other, 1)), UpdatePlan::Forget);
    entry.not_found(5);
    assert!(matches!(entry.state_to_status(&Gitignore::empty()), Status::NotFound));
    assert_eq!(entry.plan_update(&metadata(DiskKind::File, 1)), UpdatePlan::HashFile);
}

#[test]
fn a_changed_type_forgets_the_children() {
    let mut entry = SourceEntryMonitor::new("/ws/d".to_owned(), "d".to_owned(), None);
    entry.observed(1, directory_status(&["x"]), None, None);
    entry.monitor_child("x", 3);
    entry.observed(2, directory_status(&["x", "y"]), None, None);
    assert_eq!(entry.watch_dir_did_change().1, vec![3]);
    entry.observed(3, file_status(1, 1), None, None);
    assert!(entry.watch_dir_did_change().1.is_empty());
}

#[test]
fn ignored_entries_are_not_there() {
    let mut entry = SourceEntryMonitor::new("/ws/x.tmp".to_owned(), "x.tmp".to_owned(), None);
    assert!(!entry.needs_watch(true, &rules(&["*.tmp"])));
    assert!(entry.needs_watch(true, &rules(&[])));
    assert!(!entry.needs_watch(false, &rules(&[])));
    entry.observed(1, file_status(1, 1), None, None);
    assert!(matches!(entry.state_to_status(&rules(&["*.tmp"])), Status::NotFound));
    assert!(matches!(entry.state_to_status(&rules(&[])), Status::File(_)));
    entry.observed(1, directory_status(&[]), None, None);
    assert!(!entry.needs_watch(true, &rules(&[])));
}

#[test]
fn changes_wake_who_waits() {
    let mut entry = SourceEntryMonitor::new("/ws/f".to_owned(), "f".to_owned(), None);
    assert!(entry.wake_on_changed(4));
    assert!(entry.wake_on_changed(5));
    assert_eq!(entry.watch_did_change(), vec![4, 5]);
    assert!(entry.watch_did_change().is_empty());
    entry.wake_on_changed(6);
    assert_eq!(entry.watch_dir_did_change().0, vec![6]);
}

const ABC_DIGEST: [u8; 32] = [
    0xba, 0x78, 0x16, 0xbf, 0x8f, 0x01, 0xcf, 0xea, 0x41, 0x41, 0x40, 0xde, 0x5d, 0xae, 0x22, 0x23, 0xb0, 0x03, 0x61,
    0xa3, 0x96, 0x17, 0x7a, 0x9c, 0xb4, 0x10, 0xff, 0x61, 0xf2, 0x00, 0x15, 0xad,
];

#[test]
fn files_are_hashed_in_chunks() {
    let mut hasher = Hasher::new();
    assert!(hasher.update(b"a"));
    assert!(hasher.update(b""));
    assert!(hasher.update(b"bc"));
    let before = metadata(DiskKind::File, 1);
    let HashOutcome::Done(status) = finish_hash(hasher, &before, &before, 0) else {
        panic!("nothing changed");
    };
    assert_eq!(status.hash, ABC_DIGEST.to_vec());
    assert!(status.executable);
    assert_eq!(status.mtime, 1);
    let mut hasher = Hasher::new();
    assert!(hasher.update(b"abc"));
    assert_eq!(hasher.finish(), ABC_DIGEST.to_vec());
}

#[test]
fn files_that_change_are_hashed_again() {
    let before = metadata(DiskKind::File, 1);
    let after = metadata(DiskKind::File, 2);
    assert!(matches!(finish_hash(Hasher::new(), &before, &after, 0), HashOutcome::Retry));
    assert!(matches!(
        finish_hash(Hasher::new(), &before, &after, HASH_MUTATION_ATTEMPTS - 2),
        HashOutcome::Retry
    ));
    assert!(matches!(
        finish_hash(Hasher::new(), &before, &after, HASH_MUTATION_ATTEMPTS - 1),
        HashOutcome::Mutating
    ));
    let plain = Metadata { mode: 0o644, ..before };
    assert!(matches!(
        finish_hash(Hasher::new(), &plain, &plain, 0),
        HashOutcome::Done(ref status) if !status.executable
    ));
}

#[test]
fn references_notice_changes() {
    let reference = SourceReference::new(3, file_status(1, 9));
    assert!(!reference.has_changed(&file_status(8, 9)));
    assert!(reference.has_changed(&file_status(1, 8)));
    assert!(reference.existed());
    assert_eq!(reference.file_type(), Some(FileType::Regular));
    let missing = SourceReference::new(3, Status::NotFound);
    assert!(!missing.existed() && missing.file_type().is_none());
    assert_eq!(SourceReference::new(1, directory_status(&[])).file_type(), Some(FileType::Directory));
}

#[test]
fn children_come_in_order() {
    let names = vec![Some("b".to_owned()), None, Some("a".to_owned()), Some("b".to_owned())];
    assert_eq!(children_order(&names), vec![2, 0, 3]);
}

#[test]
fn labels_lead_through_filenames() {
    let segments = vec![
        Segment::Filename("pkg".to_owned()),
        Segment::Colon,
        Segment::Filename("target".to_owned()),
    ];
    assert_eq!(monitor_path(&segments), vec!["pkg", "target"]);
}

#[test]
fn uncacheable_errors_are_recorded() {
    let mut record = SourceFsRecord::new();
    assert_eq!(record.register_uncacheable::<u8>(Ok(3)), Ok(3));
    assert_eq!(record.register_uncacheable::<u8>(Err(Errno::Noent)), Err(Errno::Noent));
    assert!(!record.uncacheable_error);
    assert_eq!(record.register_uncacheable::<u8>(Err(Errno::Io)), Err(Errno::Io));
    assert_eq!(record.register_uncacheable::<u8>(Ok(3)), Ok(3));
    assert!(record.uncacheable_error);
    record.push(SourceReference::new(9, Status::NotFound));
    let references = record.into_references();
    assert_eq!((references.len(), references[0].monitor), (1, 9));
}
