//! The queries of a build: what they ask for, what they answer, and how results are kept.

use cealn::graph::back_references::{BackReferences, DirtyMarking};
use cealn::graph::labels::{
    canonical_root, canonicalize_label, reference_source_file, FileLabelBase, LabelError, LabelRoot,
    LocalWorkspace, Workspaces,
};
use cealn::graph::query_node::{
    finish_run, CacheVerdict, CachedQueryResult, CheckPoll, QueryCheck, QueryReference, QueryRequest,
    QueryState, QueryStateKind, RequestPoll, RunStep, MAX_FILE_CHECKS, MAX_QUERY_CHECKS,
};
use cealn::graph::query_registry::QueryRegistry;
use cealn::graph::query_result::{QueryError, QueryResult};
use cealn::graph::workspaces_query::{NestedWorkspace, UnexpectedSeparator, WorkspacesWalk};
use cealn::source::source_entry::{FileNodeIdentifier, FileStatus, Status};
use cealn::source::source_reference::SourceReference;

fn texts(names: &[&str]) -> Vec<String> {
    names.iter().map(|name| name.to_string()).collect()
}

fn workspaces() -> Workspaces {
    let local = |name: &str, path: &str| LocalWorkspace { name: name.to_string(), path: path.to_string() };
    Workspaces {
        name: "root".to_string(),
        local_workspaces: vec![local("a", "libs/a"), local("b", "libs/b"), local("a", "other")],
    }
}

fn named(name: &str) -> LabelRoot {
    LabelRoot::Workspace(name.to_string())
}

#[test]
fn file_labels_start_in_the_root_workspace() {
    let all = workspaces();
    assert_eq!(reference_source_file(&LabelRoot::WorkspaceRelative, &all), Ok(Some(FileLabelBase::Itself)));
    assert_eq!(reference_source_file(&named("root"), &all), Ok(Some(FileLabelBase::Root)));
    assert_eq!(reference_source_file(&named("a"), &all), Ok(Some(FileLabelBase::Local(0))));
    assert_eq!(reference_source_file(&named("b"), &all), Ok(Some(FileLabelBase::Local(1))));
    assert_eq!(reference_source_file(&named("c"), &all), Ok(None));
    assert_eq!(
        reference_source_file(&LabelRoot::PackageRelative, &all),
        Err(LabelError::PackageRelative)
    );
}

#[test]
fn labels_are_made_canonical() {
    assert_eq!(canonical_root(&LabelRoot::WorkspaceRelative, "root"), Ok(Some("@root//".to_string())));
    assert_eq!(canonical_root(&named("a"), "root"), Ok(None));
    assert_eq!(canonical_root(&LabelRoot::PackageRelative, "root"), Err(LabelError::PackageRelative));
    assert!(canonicalize_label(true, false));
    assert!(canonicalize_label(false, true));
    assert!(!canonicalize_label(false, false));
}

#[test]
fn query_results_are_shared() {
    let result: QueryResult<u32> = QueryResult::new(Ok(7), vec![1, 2], 5);
    let other = result.share();
    assert_eq!(other.run_id(), 5);
    assert!(matches!(other.output(), Ok(7)));
    assert!(matches!(other.output_ref(), Ok(7)));

    let failed: QueryResult<u32> = QueryResult::new(Err(anyhow::Error::msg("broken")), Vec::new(), 6);
    let error = match failed.output_ref() {
        Err(error) => error,
        Ok(_) => panic!("an error was expected"),
    };
    assert_eq!(error.inner().to_string(), "broken");
    assert_eq!(error.share().inner().to_string(), "broken");
    assert_eq!(QueryError::new(anyhow::Error::msg("other")).inner().to_string(), "other");
}

#[test]
fn queries_have_nodes_of_their_own() {
    let mut registry = QueryRegistry::new();
    assert!(registry.has_room());
    assert_eq!(registry.get_or_create("//a"), (0, true));
    assert_eq!(registry.get_or_create("//b"), (1, true));
    assert_eq!(registry.get_or_create("//a"), (0, false));
    assert_eq!(registry.get_or_create("//c"), (2, true));
    assert_eq!(registry.get_or_create("//b"), (1, false));
}

fn kept(run_id: usize, time: u64, output: Result<u32, anyhow::Error>) -> CachedQueryResult<u32> {
    finish_run(run_id, time, output, Vec::new(), Vec::new(), Vec::new())
}

#[test]
fn first_request_starts_a_run() {
    let mut state: QueryState<u32> = QueryState::new();
    let mut first = QueryRequest::new(10);
    let start = match first.poll(&mut state, 100) {
        RequestPoll::Run(start) => start,
        _ => panic!("a run was expected"),
    };
    assert_eq!(start.run_id, 1);
    assert_eq!(start.request_time, 10);
    assert!(start.cached_result.is_none());
    assert_eq!(state.next_run_id, 2);

    let mut second = QueryRequest::new(11);
    assert!(matches!(second.poll(&mut state, 101), RequestPoll::Pending));
    assert!(matches!(second.poll(&mut state, 102), RequestPoll::Pending));
    match &state.kind {
        QueryStateKind::Running(w) => {
            assert_eq!(w.run_id, 1);
            assert_eq!(w.interest_count, 2);
        }
        _ => panic!("a run was expected"),
    }

    let woken = state.complete_run(kept(1, 10, Ok(42)));
    assert_eq!(woken, vec![(0, 100), (1, 102)]);
    assert!(matches!(first.poll(&mut state, 100), RequestPoll::Ready(_)));
    assert!(first.finished);
}

#[test]
fn late_requests_run_again() {
    let mut state: QueryState<u32> = QueryState::new();
    let mut first = QueryRequest::new(10);
    assert!(matches!(first.poll(&mut state, 100), RequestPoll::Run(_)));
    state.complete_run(kept(1, 10, Ok(42)));

    let mut early = QueryRequest::new(9);
    assert!(matches!(early.poll(&mut state, 101), RequestPoll::Ready(_)));
    let mut late = QueryRequest::new(11);
    let start = match late.poll(&mut state, 102) {
        RequestPoll::Run(start) => start,
        _ => panic!("a run was expected"),
    };
    assert_eq!(start.run_id, 2);
    assert_eq!(start.cached_result.as_ref().map(|c| c.run_id), Some(1));

    match start.after_check(Ok(true)) {
        RunStep::Complete(c) => {
            assert_eq!(c.run_id, 1);
            state.complete_run(c);
        }
        RunStep::Compute => panic!("the kept result was expected"),
    }
    // The run that this request started answers it, though the result is older.
    assert!(matches!(late.poll(&mut state, 102), RequestPoll::Ready(_)));
}

#[test]
fn failed_checks_end_runs() {
    let mut state: QueryState<u32> = QueryState::new();
    let mut request = QueryRequest::new(10);
    assert!(matches!(request.poll(&mut state, 1), RequestPoll::Run(_)));
    state.complete_run(kept(1, 10, Ok(42)));
    let mut late = QueryRequest::new(11);
    let start = match late.poll(&mut state, 1) {
        RequestPoll::Run(start) => start,
        _ => panic!("a run was expected"),
    };
    match start.after_check(Err(anyhow::Error::msg("disk"))) {
        RunStep::Complete(c) => {
            assert_eq!(c.run_id, 2);
            assert_eq!(c.last_check_time, 11);
            assert_eq!(c.result.output_ref().err().map(|e| e.inner().to_string()), Some("disk".to_string()));
        }
        RunStep::Compute => panic!("an error was expected"),
    }

    let mut state: QueryState<u32> = QueryState::new();
    state.kind = QueryStateKind::Cached(kept(4, 0, Ok(1)));
    let mut late = QueryRequest::new(11);
    match late.poll(&mut state, 1) {
        RequestPoll::Run(start) => assert!(matches!(start.after_check(Ok(false)), RunStep::Compute)),
        _ => panic!("a run was expected"),
    }
}

#[test]
fn results_that_are_known_to_be_clean_are_served() {
    let mut state: QueryState<u32> = QueryState::new();
    let mut cached = kept(3, 0, Ok(1));
    cached.known_dirty_state = Some(false);
    state.kind = QueryStateKind::Cached(cached);
    let mut request = QueryRequest::new(50);
    assert!(matches!(request.poll(&mut state, 1), RequestPoll::Ready(_)));

    assert!(state.mark_dirty());
    let mut request = QueryRequest::new(50);
    assert!(matches!(request.poll(&mut state, 1), RequestPoll::Run(_)));
    assert!(!state.mark_dirty());
}

fn used_by(nodes: &[u64]) -> BackReferences {
    let mut references = BackReferences::new();
    for node in nodes {
        references.insert(*node);
    }
    references
}

fn marked_from(node: u64, users: &dyn Fn(u64) -> BackReferences) -> Vec<u64> {
    let mut marked = Vec::new();
    let mut marking = DirtyMarking::new(node);
    while let Some(next) = marking.next_node() {
        marked.push(next);
        marking.pass_on(&users(next));
    }
    marked
}

#[test]
fn marks_come_to_all_that_used_a_result() {
    let users = |node: u64| match node {
        1 => used_by(&[2, 3, 2]),
        2 => used_by(&[4]),
        _ => used_by(&[]),
    };
    assert_eq!(marked_from(1, &users), vec![1, 2, 4, 3]);
    assert_eq!(marked_from(2, &users), vec![2, 4]);
    assert_eq!(marked_from(3, &users), vec![3]);
}

#[test]
fn abandoned_runs_are_given_up() {
    let mut state: QueryState<u32> = QueryState::new();
    let mut first = QueryRequest::new(1);
    let mut second = QueryRequest::new(1);
    assert!(matches!(first.poll(&mut state, 1), RequestPoll::Run(_)));
    assert!(matches!(second.poll(&mut state, 2), RequestPoll::Pending));
    first.abandon(&mut state);
    assert!(!state.cancel_if_abandoned());
    second.abandon(&mut state);
    assert!(state.cancel_if_abandoned());
    assert!(matches!(state.kind, QueryStateKind::Empty));
    assert!(!state.cancel_if_abandoned());
}

#[test]
fn checks_answer_from_what_is_kept() {
    let mut state: QueryState<u32> = QueryState::new();
    let mut check = QueryCheck::new(10, 1);
    assert!(matches!(check.poll(&mut state, 1), CheckPoll::Ready(false)));

    state.kind = QueryStateKind::Cached(kept(1, 10, Ok(5)));
    assert!(matches!(QueryCheck::new(10, 1).poll(&mut state, 1), CheckPoll::Ready(true)));
    assert!(matches!(QueryCheck::new(10, 2).poll(&mut state, 1), CheckPoll::Ready(false)));

    state.next_run_id = 8;
    let mut check = QueryCheck::new(11, 1);
    let cached = match check.poll(&mut state, 7) {
        CheckPoll::Check(cached) => cached,
        _ => panic!("a check was expected"),
    };
    let mut other = QueryCheck::new(11, 1);
    assert!(matches!(other.poll(&mut state, 8), CheckPoll::Pending));
    assert!(matches!(state.kind, QueryStateKind::Checking(_)));
    let woken = state.complete_check(true, cached, 11);
    assert_eq!(woken, vec![(0, 7), (1, 8)]);
    match &state.kind {
        QueryStateKind::Cached(c) => assert_eq!(c.last_check_time, 11),
        _ => panic!("a kept result was expected"),
    }
    assert!(matches!(other.poll(&mut state, 8), CheckPoll::Ready(true)));
}

#[test]
fn results_that_fail_a_check_are_dropped() {
    let mut state: QueryState<u32> = QueryState::new();
    state.kind = QueryStateKind::Cached(kept(1, 10, Ok(5)));
    let mut check = QueryCheck::new(11, 1);
    let cached = match check.poll(&mut state, 7) {
        CheckPoll::Check(cached) => cached,
        _ => panic!("a check was expected"),
    };
    state.complete_check(false, cached, 11);
    assert!(matches!(state.kind, QueryStateKind::Empty));
    assert!(matches!(check.poll(&mut state, 7), CheckPoll::Ready(false)));
}

fn file_reference(monitor: u64) -> SourceReference {
    SourceReference::new(
        monitor,
        Status::File(FileStatus {
            mtime: 0,
            file_node_identifier: FileNodeIdentifier { device: 1, inode: monitor },
            hash: vec![1, 2, 3],
            executable: true,
        }),
    )
}

fn used(node: u64, output_hash: Option<Vec<u8>>) -> QueryReference {
    QueryReference { node, output_hash, cached_run_id: 1 }
}

#[test]
fn all_that_a_result_used_is_checked() {
    let result = finish_run(
        1,
        10,
        Ok(5u32),
        Vec::new(),
        vec![file_reference(0), file_reference(1)],
        vec![used(3, Some(vec![9]))],
    );
    assert!(matches!(result.check_cached_result(10), CacheVerdict::Known(true)));
    let mut check = match result.check_cached_result(11) {
        CacheVerdict::Check(check) => check,
        CacheVerdict::Known(_) => panic!("a check was expected"),
    };
    assert_eq!(check.verdict(), None);
    assert_eq!(check.next_query(), Some(0));
    assert_eq!(check.next_query(), None);
    assert_eq!(check.next_file(), Some(0));
    assert_eq!(check.next_file(), Some(1));
    assert_eq!(check.next_file(), None);
    assert_eq!(check.file_checked(false), None);
    assert_eq!(check.query_checked(true), None);
    assert_eq!(check.file_checked(false), Some(true));
    assert_eq!(check.verdict(), Some(true));
}

#[test]
fn one_change_ends_a_check() {
    let result =
        finish_run(1, 10, Ok(5u32), Vec::new(), vec![file_reference(0)], vec![used(3, None), used(4, None)]);
    let mut check = match result.check_cached_result(11) {
        CacheVerdict::Check(check) => check,
        CacheVerdict::Known(_) => panic!("a check was expected"),
    };
    assert_eq!(check.next_query(), Some(0));
    assert_eq!(check.query_checked(false), Some(false));
    assert_eq!(check.next_file(), Some(0));
    assert_eq!(check.file_checked(true), Some(false));
    assert_eq!(check.verdict(), None);
}

#[test]
fn errors_are_not_served_again() {
    let failed = kept(1, 10, Err(anyhow::Error::msg("broken")));
    assert!(matches!(failed.check_cached_result(5), CacheVerdict::Known(false)));
}

#[test]
fn checks_are_limited() {
    let files: Vec<SourceReference> = (0..200).map(file_reference).collect();
    let queries: Vec<QueryReference> = (0..100).map(|node| used(node, None)).collect();
    let result = finish_run(1, 10, Ok(5u32), Vec::new(), files, queries);
    let mut check = match result.check_cached_result(11) {
        CacheVerdict::Check(check) => check,
        CacheVerdict::Known(_) => panic!("a check was expected"),
    };
    let mut queries = 0;
    while check.next_query().is_some() {
        queries += 1;
    }
    let mut files = 0;
    while check.next_file().is_some() {
        files += 1;
    }
    assert_eq!((queries, files), (MAX_QUERY_CHECKS, MAX_FILE_CHECKS));
    assert_eq!((queries, files), (32, 128));
    check.query_checked(true);
    assert_eq!(check.next_query(), Some(32));
}

#[test]
fn used_results_are_compared_by_hash() {
    let reference = used(1, Some(vec![1, 2]));
    assert_eq!(reference.after_check(true), Some(true));
    assert_eq!(reference.after_check(false), None);
    assert_eq!(used(1, None).after_check(false), Some(false));
    assert!(reference.after_rerun(&Some(vec![1, 2])));
    assert!(!reference.after_rerun(&Some(vec![1, 3])));
    assert!(!reference.after_rerun(&None));
    assert!(!used(1, None).after_rerun(&None));
}

fn nested(root: LabelRoot, path: &str, has_package_separator: bool) -> NestedWorkspace {
    NestedWorkspace { root, root_path: path.to_string(), has_package_separator }
}

#[test]
fn workspaces_inside_workspaces_are_found() {
    let mut walk = WorkspacesWalk::new(texts(&["z", "b"]));
    assert_eq!(walk.next(), Some("z".to_string()));
    assert_eq!(
        walk.loaded("last".to_string(), vec![nested(LabelRoot::PackageRelative, "z/inner", false)]),
        Ok(())
    );
    assert_eq!(walk.next(), Some("b".to_string()));
    assert_eq!(walk.loaded("first".to_string(), Vec::new()), Ok(()));
    assert_eq!(walk.next(), Some("z/inner".to_string()));
    assert_eq!(walk.loaded("inner".to_string(), Vec::new()), Ok(()));
    assert_eq!(walk.next(), None);
    let found: Vec<(String, String)> = walk.finish().into_iter().map(|w| (w.name, w.path)).collect();
    assert_eq!(
        found,
        vec![
            ("first".to_string(), "b".to_string()),
            ("last".to_string(), "z".to_string()),
            ("inner".to_string(), "z/inner".to_string()),
        ]
    );
}

#[test]
fn workspaces_are_no_packages() {
    let mut walk = WorkspacesWalk::new(texts(&["a"]));
    let inside = vec![
        nested(LabelRoot::WorkspaceRelative, "a/b", false),
        nested(LabelRoot::WorkspaceRelative, "a//c", true),
    ];
    assert_eq!(walk.loaded("a".to_string(), inside), Err(UnexpectedSeparator(1)));
}
