//! Queries for outputs, actions, targets and trees of files.

use cealn::graph::action_query::{
    patch_build_config, resolution_of, ActionOutput, ActionQueryError, ActionRun, ActionStep, BuildOption,
    Cacheability, ConcreteAction, ConcreteStep, Dependency, DependencyAnswer, DependencySource, Resolution,
    StdioPlan, Transition,
};
use cealn::graph::analysis_request::{AnalyzeEvent, AnalyzeRequest, RequestError, RequestRun, RequestStep};
use cealn::graph::depmaps::{
    directory_list, force_directory, lookup_concrete_depmap, lookup_filetree_cache, open_depmap_file,
    DepmapError, DepmapResolution, FiletreeLookup,
};
use cealn::graph::labels::LabelRoot;
use cealn::graph::output_query::{DepmapReference, Mount, OutputAction, OutputError, OutputParts, OutputRun};
use cealn::graph::rule_analysis::{AnalyzeAction, AnalyzeRun, PollOut};
use cealn::graph::source_depmap::{
    directory_reference, source_tree, DepmapWalk, LabelCheck, SourceName, SourceTree, SourceTreeError,
    WalkAction, WalkEntry, WalkError,
};
use cealn::graph::target_query::{
    find_provider, find_target, references_equal, target_exists, target_lookup, FileEntry, FileTypeError,
    FileTypeRun, FileTypeStep, Reference, TargetError, TargetLookup,
};
use cealn::source::source_entry::{
    DirectoryStatus, FileNodeIdentifier, FileStatus, Status, SymlinkStatus,
};
use cealn::source::source_reference::{FileType, SourceReference};

fn texts(names: &[&str]) -> Vec<String> {
    names.iter().map(|name| name.to_string()).collect()
}

fn depmap(hash: u8, subpath: Option<&str>) -> DepmapReference {
    DepmapReference { hash: vec![hash], subpath: subpath.map(|s| s.to_string()) }
}

fn parts(workspace: &str, has_target: bool, action_id: Option<&str>) -> OutputParts {
    OutputParts {
        root: LabelRoot::Workspace(workspace.to_string()),
        package: Some("pkg".to_string()),
        has_target,
        action_id: action_id.map(|s| s.to_string()),
    }
}

fn output_run(has_target: bool, action_id: Option<&str>) -> OutputRun {
    OutputRun::new(parts("io.hardscience", has_target, action_id), "/ws".to_string())
}

#[test]
fn outputs_are_redirected_to_canonical_labels() {
    let mut run = output_run(true, None);
    match run.canonicalized(Some("@a//b".to_string())) {
        OutputAction::Redirect(label) => assert_eq!(label, "@a//b"),
        _ => panic!("a redirection was expected"),
    }
    match run.redirected(Some(depmap(1, Some("x")))) {
        OutputAction::Finish(Some(d)) => assert_eq!((d.hash, d.subpath), (vec![1], Some("x".to_string()))),
        _ => panic!("an output was expected"),
    }
}

#[test]
fn source_files_are_outputs() {
    let mut run = output_run(false, None);
    assert!(matches!(run.canonicalized(None), OutputAction::ReferenceSource));
    assert!(matches!(run.referenced(Some(depmap(1, None))), OutputAction::Finish(Some(_))));

    let mut run = output_run(false, None);
    run.canonicalized(None);
    assert!(matches!(run.referenced(None), OutputAction::Fail(OutputError::NoSuchFile)));
}

#[test]
fn outputs_of_actions_are_found_by_id() {
    let mut run = output_run(true, Some("link"));
    assert!(matches!(run.canonicalized(None), OutputAction::Analyze));
    assert!(matches!(run.analyzed(texts(&["compile", "link", "link"]), Vec::new()), OutputAction::RunAction(1)));
    match run.action_done(vec![5], Some(Some("bin/a".to_string()))) {
        OutputAction::Finish(Some(d)) => assert_eq!((d.hash, d.subpath), (vec![5], Some("bin/a".to_string()))),
        _ => panic!("an output was expected"),
    }

    let mut run = output_run(true, Some("link"));
    run.canonicalized(None);
    assert!(matches!(
        run.analyzed(texts(&["compile"]), Vec::new()),
        OutputAction::Fail(OutputError::NoSuchAction)
    ));

    let mut run = output_run(true, Some("link"));
    run.canonicalized(None);
    run.analyzed(texts(&["link"]), Vec::new());
    assert!(matches!(run.action_done(vec![5], Some(None)), OutputAction::Fail(OutputError::PathEscapesRoot)));

    let mut run = output_run(true, Some("link"));
    run.canonicalized(None);
    run.analyzed(texts(&["link"]), Vec::new());
    match run.action_done(vec![5], None) {
        OutputAction::Finish(Some(d)) => assert_eq!((d.hash, d.subpath), (vec![5], None)),
        _ => panic!("an output was expected"),
    }
}

fn mount(dest: &str, src: &str) -> Mount {
    Mount { dest_subpath: dest.to_string(), src_subpath: src.to_string() }
}

#[test]
fn mounts_are_copied_in_order() {
    let mut run = output_run(true, None);
    assert!(run.is_mountable());
    run.canonicalized(None);
    let plan = match run.analyzed(texts(&["a", "b"]), vec![mount("out", "b/lib/x"), mount("all", "a")]) {
        OutputAction::Mount(plan) => plan,
        _ => panic!("a mount was expected"),
    };
    assert_eq!((plan.action, plan.action_path, plan.dest), (1, Some("lib/x".to_string()), "/ws/pkg/out".to_string()));
    let plan = match run.mounted() {
        OutputAction::Mount(plan) => plan,
        _ => panic!("a mount was expected"),
    };
    assert_eq!((plan.action, plan.action_path, plan.dest), (0, None, "/ws/pkg/all".to_string()));
    assert!(matches!(run.mounted(), OutputAction::Finish(None)));
}

#[test]
fn mounts_need_their_actions() {
    let mut run = output_run(true, None);
    run.canonicalized(None);
    assert!(matches!(
        run.analyzed(texts(&["a"]), vec![mount("out", "c")]),
        OutputAction::Fail(OutputError::MissingAction)
    ));
    let other = OutputRun::new(parts("elsewhere", true, None), "/ws".to_string());
    assert!(!other.is_mountable());
}

fn options(pairs: &[(&str, &str)]) -> Vec<BuildOption> {
    pairs.iter().map(|(k, v)| BuildOption { key: k.to_string(), value: v.to_string() }).collect()
}

fn pairs(options: &[BuildOption]) -> Vec<(&str, &str)> {
    options.iter().map(|o| (o.key.as_str(), o.value.as_str())).collect()
}

#[test]
fn transitions_set_options() {
    let patched = patch_build_config(
        options(&[("a", "1"), ("b", "2"), ("a", "3")]),
        &options(&[("a", "4"), ("c", "5"), ("a", "6")]),
    );
    assert_eq!(pairs(&patched), vec![("b", "2"), ("c", "5"), ("a", "6")]);
    assert_eq!(pairs(&patch_build_config(options(&[("a", "1")]), &Vec::new())), vec![("a", "1")]);
}

fn dependency(label: &str, action: Option<&str>, path: Option<Option<&str>>) -> Dependency {
    Dependency {
        label: label.to_string(),
        action_label: action.map(|s| s.to_string()),
        action_path: path.map(|p| p.map(|s| s.to_string())),
        build_config: None,
    }
}

fn action_run(dependencies: Vec<Dependency>) -> ActionRun {
    ActionRun::new(None, options(&[("a", "1")]), texts(&["//:t:x"]), dependencies)
}

#[test]
fn transitions_lead_to_other_targets() {
    let transition = || {
        Some(Transition { label: "//:other".to_string(), changed_options: options(&[("a", "2")]) })
    };
    let mut run = ActionRun::new(transition(), options(&[("a", "1"), ("b", "1")]), Vec::new(), Vec::new());
    match run.start() {
        ActionStep::QueryOutput { label, build_config } => {
            assert_eq!(label, "//:other");
            assert_eq!(pairs(&build_config), vec![("b", "1"), ("a", "2")]);
        }
        _ => panic!("a query was expected"),
    }
    match run.transition_done(Some(depmap(4, None))) {
        ActionStep::Finish(output) => {
            assert_eq!(output.files, vec![4]);
            assert!(output.stdout.is_none() && output.stderr.is_none());
        }
        _ => panic!("an output was expected"),
    }

    let mut run = ActionRun::new(transition(), Vec::new(), Vec::new(), Vec::new());
    run.start();
    assert!(matches!(
        run.transition_done(None),
        ActionStep::Fail(ActionQueryError::MissingTransitionOutput)
    ));
}

#[test]
fn actions_wait_for_all_dependencies() {
    let mut with_options = dependency("//:lib", Some("//:lib:build"), None);
    with_options.build_config = Some(options(&[("z", "9")]));
    let mut run = action_run(vec![
        dependency("//:t:x/sub", Some("//:t:x"), Some(Some("sub"))),
        with_options,
        dependency("//:file", None, None),
    ]);
    assert!(matches!(run.start(), ActionStep::Resolve));
    let (source, config) = run.plan(0);
    assert_eq!((source, pairs(&config)), (DependencySource::PartialAction(0), vec![("a", "1")]));
    let (source, config) = run.plan(1);
    assert_eq!((source, pairs(&config)), (DependencySource::Output, vec![("z", "9")]));
    assert_eq!(run.plan(2).0, DependencySource::SourceFile);

    assert!(matches!(
        run.dependency_done(2, DependencyAnswer::Reference(Some(depmap(3, Some("file"))))),
        ActionStep::Wait
    ));
    assert!(matches!(run.dependency_done(0, DependencyAnswer::Files(vec![1])), ActionStep::Wait));
    assert!(matches!(
        run.dependency_done(1, DependencyAnswer::Reference(Some(depmap(2, None)))),
        ActionStep::QueryConcrete
    ));
    for (label, hash, subpath) in
        [("//:t:x/sub", 1, Some("sub")), ("//:lib", 2, None), ("//:file", 3, Some("file"))]
    {
        let place = resolution_of(&run.resolutions, label).expect("the dependency is resolved");
        let files = &run.resolutions[place].files;
        assert_eq!((files.hash.clone(), files.subpath.as_deref()), (vec![hash], subpath));
    }
    assert_eq!(resolution_of(&run.resolutions, "//:none"), None);
    let output = ActionOutput { files: vec![8], stdout: Some(vec![9]), stderr: None };
    match run.concrete_done(output) {
        ActionStep::Finish(output) => assert_eq!((output.files, output.stdout), (vec![8], Some(vec![9]))),
        _ => panic!("an output was expected"),
    }
}

#[test]
fn missing_dependencies_fail_actions() {
    let mut run = action_run(vec![dependency("//:t:x/..", Some("//:t:x"), Some(None))]);
    run.start();
    assert!(matches!(
        run.dependency_done(0, DependencyAnswer::Files(vec![1])),
        ActionStep::Fail(ActionQueryError::PathEscapesRoot)
    ));
    let mut run = action_run(vec![dependency("//:lib", Some("//:lib:build"), None)]);
    run.start();
    assert!(matches!(
        run.dependency_done(0, DependencyAnswer::Reference(None)),
        ActionStep::Fail(ActionQueryError::MissingOutput)
    ));
    let mut run = action_run(vec![dependency("//:file", None, None)]);
    run.start();
    assert!(matches!(
        run.dependency_done(0, DependencyAnswer::Reference(None)),
        ActionStep::Fail(ActionQueryError::NoSuchSource)
    ));
    assert!(matches!(action_run(Vec::new()).start(), ActionStep::QueryConcrete));
}

#[test]
fn later_resolutions_count() {
    let items = vec![
        Resolution { label: "a".to_string(), files: depmap(1, None) },
        Resolution { label: "b".to_string(), files: depmap(2, None) },
        Resolution { label: "a".to_string(), files: depmap(3, None) },
    ];
    assert_eq!(resolution_of(&items, "a"), Some(2));
    assert_eq!(resolution_of(&items, "b"), Some(1));
}

fn process(hide_stderr: bool, cacheability: Cacheability) -> ConcreteAction {
    ConcreteAction { is_run: true, hide_stdout: false, hide_stderr, cacheability }
}

#[test]
fn cached_actions_are_replayed() {
    let action = process(true, Cacheability::Private);
    assert_eq!(action.looked_up(true), ConcreteStep::LookupFiles);
    assert_eq!(action.looked_up(false), ConcreteStep::Run { announce: false });
    let output = ActionOutput { files: vec![1], stdout: Some(vec![2]), stderr: Some(vec![3]) };
    let plan = StdioPlan { stdout: true, stderr: false };
    assert_eq!(action.files_looked_up(true, &output), ConcreteStep::OpenStdio(plan));
    assert_eq!(action.files_looked_up(false, &output), ConcreteStep::Run { announce: false });
    assert_eq!(action.stdio_opened(plan, true, false), ConcreteStep::Replay(plan));
    assert_eq!(action.stdio_opened(plan, false, true), ConcreteStep::Run { announce: false });
    assert_eq!(action.ran(), ConcreteStep::WriteCache);

    let other = ConcreteAction {
        is_run: false,
        hide_stdout: false,
        hide_stderr: false,
        cacheability: Cacheability::Uncacheable,
    };
    assert_eq!(other.looked_up(false), ConcreteStep::Run { announce: true });
    assert_eq!(other.ran(), ConcreteStep::Finish);
    assert_eq!(process(false, Cacheability::Global).ran(), ConcreteStep::WriteCache);
}

#[test]
fn targets_are_found_in_packages_and_parents() {
    assert!(matches!(target_lookup(&None), Err(TargetError::NotATarget)));
    match target_lookup(&Some("lib".to_string())) {
        Ok(TargetLookup::Package { name }) => assert_eq!(name, "lib"),
        _ => panic!("a package was expected"),
    }
    match target_lookup(&Some("lib/inner/x".to_string())) {
        Ok(TargetLookup::Parent { parent, name }) => assert_eq!((parent.as_str(), name.as_str()), ("lib/inner", "x")),
        _ => panic!("a parent was expected"),
    }
    assert_eq!(find_target(&texts(&["a", "b", "b"]), "b"), Ok(1));
    assert_eq!(find_target(&texts(&["a"]), "b"), Err(TargetError::NoSuchTarget));
    assert!(target_exists(&Some(texts(&["a", "b"])), "b"));
    assert!(!target_exists(&Some(texts(&["a"])), "b"));
    assert!(!target_exists(&None, "b"));
}

fn regular(hash: u8, executable: bool) -> FileEntry {
    FileEntry::Regular { content_hash: vec![hash], executable }
}

#[test]
fn file_types_of_outputs() {
    let mut run = FileTypeRun::new(true);
    assert!(matches!(run.canonicalized(None), FileTypeStep::QueryOutput));
    assert!(matches!(run.output_queried(Some(depmap(1, Some("x")))), FileTypeStep::LookupDepmap));
    match run.depmap_looked_up(true) {
        FileTypeStep::LookupEntry(path) => assert_eq!(path, "x"),
        _ => panic!("a lookup was expected"),
    }
    assert!(matches!(
        run.entry_looked_up(&Some(FileEntry::Symlink("y".to_string()))),
        FileTypeStep::Finish(Some(FileType::Symlink))
    ));

    let looking = || {
        let mut run = FileTypeRun::new(true);
        run.canonicalized(None);
        run.output_queried(Some(depmap(1, Some("x"))));
        run.depmap_looked_up(true);
        run
    };
    assert!(matches!(looking().entry_looked_up(&Some(regular(1, true))), FileTypeStep::Finish(Some(FileType::Regular))));
    assert!(matches!(
        looking().entry_looked_up(&Some(FileEntry::Directory)),
        FileTypeStep::Finish(Some(FileType::Directory))
    ));
    assert!(matches!(looking().entry_looked_up(&None), FileTypeStep::Finish(None)));

    let mut run = FileTypeRun::new(true);
    run.canonicalized(None);
    assert!(matches!(run.output_queried(None), FileTypeStep::Finish(None)));

    let mut run = FileTypeRun::new(true);
    run.canonicalized(None);
    run.output_queried(Some(depmap(1, None)));
    assert!(matches!(run.depmap_looked_up(true), FileTypeStep::Finish(Some(FileType::Directory))));

    let mut run = FileTypeRun::new(true);
    run.canonicalized(None);
    run.output_queried(Some(depmap(1, None)));
    assert!(matches!(run.depmap_looked_up(false), FileTypeStep::Fail(FileTypeError::MissingDepmap)));
}

const NODE: FileNodeIdentifier = FileNodeIdentifier { device: 1, inode: 2 };

fn file_status() -> Status {
    Status::File(FileStatus { mtime: 0, file_node_identifier: NODE, hash: vec![7, 7], executable: true })
}

fn directory_status() -> Status {
    Status::Directory(DirectoryStatus { mtime: 0, file_node_identifier: NODE, children: Vec::new() })
}

fn link_status(target: &str) -> Status {
    Status::Symlink(SymlinkStatus { mtime: 0, file_node_identifier: NODE, target: target.to_string() })
}

#[test]
fn file_types_of_sources() {
    let referencing = || {
        let mut run = FileTypeRun::new(false);
        assert!(matches!(run.canonicalized(None), FileTypeStep::ReferenceSource));
        run
    };
    assert!(matches!(referencing().referenced(&Some(file_status())), FileTypeStep::Finish(Some(FileType::Regular))));
    assert!(matches!(
        referencing().referenced(&Some(directory_status())),
        FileTypeStep::Finish(Some(FileType::Directory))
    ));
    assert!(matches!(referencing().referenced(&Some(Status::NotFound)), FileTypeStep::Finish(None)));
    assert!(matches!(referencing().referenced(&None), FileTypeStep::Finish(None)));

    let mut run = FileTypeRun::new(false);
    assert!(matches!(run.canonicalized(Some("@a//b".to_string())), FileTypeStep::Redirect(_)));
    assert!(matches!(run.redirected(Some(FileType::Symlink)), FileTypeStep::Finish(Some(FileType::Symlink))));
}

fn reference(source_label: &str, qualname: &str) -> Reference {
    Reference { source_label: source_label.to_string(), qualname: qualname.to_string() }
}

#[test]
fn providers_are_found_by_name() {
    let items = vec![reference("a", "X"), reference("b", "X"), reference("b", "X")];
    assert!(references_equal(&items[1], &items[2]));
    assert!(!references_equal(&items[0], &items[1]));
    assert_eq!(find_provider(&items, &reference("b", "X")), Some(1));
    assert_eq!(find_provider(&items, &reference("b", "Y")), None);
}

fn entry(path: &str, status: Status, label: LabelCheck) -> WalkEntry {
    WalkEntry { reference: SourceReference::new(0, status), full_file_path: path.to_string(), label }
}

#[test]
fn directories_become_trees() {
    let mut walk = DepmapWalk::new(
        "/ws/src".to_string(),
        vec![
            entry("/ws/src/a", file_status(), LabelCheck::Valid),
            entry("/ws/src/l", link_status("a"), LabelCheck::Valid),
            entry("/ws/src/gone", Status::NotFound, LabelCheck::Valid),
            entry("/ws/src/bad", file_status(), LabelCheck::Invalid),
            entry("/elsewhere", file_status(), LabelCheck::Valid),
            entry("/ws/src/d", directory_status(), LabelCheck::Valid),
        ],
    );
    assert!(matches!(walk.next(), WalkAction::ReadDirectory));
    walk.directory_read(vec![entry("/ws/src/d/x", file_status(), LabelCheck::Valid)]);
    assert!(matches!(walk.next(), WalkAction::CacheFile));
    walk.file_cached(vec![1], false);
    assert!(matches!(walk.next(), WalkAction::CacheFile));
    walk.file_cached(vec![2], true);
    assert!(matches!(walk.next(), WalkAction::Done));

    let found: Vec<String> = walk
        .files
        .iter()
        .map(|f| match &f.entry {
            FileEntry::Regular { content_hash, executable } => {
                format!("{} {:?} {}", f.subpath, content_hash, executable)
            }
            FileEntry::Symlink(target) => format!("{} -> {}", f.subpath, target),
            FileEntry::Directory => format!("{}/", f.subpath),
        })
        .collect();
    assert_eq!(found, texts(&["d/", "d/x [1] false", "l -> a", "a [2] true"]));
    assert_eq!(walk.references.len(), 5);
}

#[test]
fn walks_stay_below_their_root() {
    let mut walk =
        DepmapWalk::new("/ws".to_string(), vec![entry("/ws/../x", file_status(), LabelCheck::Escapes)]);
    assert!(matches!(walk.next(), WalkAction::Fail(WalkError::PathEscapesRoot)));
    assert!(walk.current.is_none());
}

#[test]
fn single_files_become_trees() {
    let source = SourceReference::new(0, file_status());
    let file = match source_tree(&source, SourceName::Name("main.py".to_string())) {
        SourceTree::File(file) => file,
        _ => panic!("a file was expected"),
    };
    assert!(file.looked_up(false).is_none());
    for tree in [file.looked_up(true), Some(file.copied(vec![7, 7]))] {
        let tree = tree.expect("the contents are known");
        assert_eq!(tree.subpath, "main.py");
        assert!(matches!(&tree.entry, FileEntry::Regular { content_hash, executable: true } if *content_hash == vec![7, 7]));
    }
    assert!(file.is_faithful(&vec![7, 7]));
    assert!(!file.is_faithful(&vec![7]));
    let output = file.reference(vec![1]);
    assert_eq!((output.hash, output.subpath), (vec![1], Some("main.py".to_string())));
    let output = directory_reference(vec![2]);
    assert_eq!((output.hash, output.subpath), (vec![2], None));

    assert!(matches!(
        source_tree(&source, SourceName::NotASource),
        SourceTree::Fail(SourceTreeError::NotASourcePath)
    ));
    assert!(matches!(
        source_tree(&source, SourceName::Escapes),
        SourceTree::Fail(SourceTreeError::PathEscapesRoot)
    ));
    let missing = SourceReference::new(0, Status::NotFound);
    assert!(matches!(source_tree(&missing, SourceName::NotASource), SourceTree::Missing));
    let directory = SourceReference::new(0, directory_status());
    assert!(matches!(source_tree(&directory, SourceName::NotASource), SourceTree::Directory));
}

#[test]
fn trees_are_looked_up() {
    assert_eq!(lookup_filetree_cache(true, true), FiletreeLookup::Registered);
    assert_eq!(lookup_filetree_cache(false, true), FiletreeLookup::Register);
    assert_eq!(lookup_filetree_cache(false, false), FiletreeLookup::Missing);
    assert!(matches!(lookup_concrete_depmap(false, &None), Err(DepmapError::MissingDepmap)));
    assert!(matches!(lookup_concrete_depmap(true, &None), Ok(DepmapResolution::Depmap)));
    match lookup_concrete_depmap(true, &Some("x".to_string())) {
        Ok(DepmapResolution::Subpath(path)) => assert_eq!(path, "x"),
        _ => panic!("a path was expected"),
    }
}

#[test]
fn directories_of_trees_are_listed() {
    let tree = texts(&["a", "d", "d/x", "d/sub/y", "d/sub", "dx"]);
    assert_eq!(
        force_directory(&tree, "d"),
        vec![
            (1, "".to_string()),
            (2, "x".to_string()),
            (3, "sub/y".to_string()),
            (4, "sub".to_string()),
        ]
    );
    assert_eq!(directory_list(&tree, "d"), texts(&["x", "sub"]));
    assert_eq!(directory_list(&tree, "none"), texts(&[]));
}

#[test]
fn files_of_trees_are_opened() {
    let reference = depmap(1, Some("x"));
    assert_eq!(open_depmap_file(true, &reference, Some(regular(4, true))), Ok((vec![4], true)));
    assert_eq!(open_depmap_file(true, &reference, None), Err(DepmapError::MissingFile));
    assert_eq!(open_depmap_file(true, &depmap(1, None), None), Err(DepmapError::NotASingleFile));
    assert_eq!(open_depmap_file(false, &reference, None), Err(DepmapError::MissingDepmap));
}

#[test]
fn requests_are_answered_in_order() {
    let mut run = AnalyzeRun::new();
    assert_eq!(
        run.polled(PollOut::Requests(3)),
        AnalyzeAction::Deliver { issue_from: 0, issue_to: 3, answer: 0 }
    );
    assert_eq!(
        run.polled(PollOut::Requests(0)),
        AnalyzeAction::Deliver { issue_from: 3, issue_to: 3, answer: 1 }
    );
    assert_eq!(
        run.polled(PollOut::Requests(1)),
        AnalyzeAction::Deliver { issue_from: 3, issue_to: 4, answer: 2 }
    );
    assert_eq!(
        run.polled(PollOut::Requests(0)),
        AnalyzeAction::Deliver { issue_from: 4, issue_to: 4, answer: 3 }
    );
    assert_eq!(run.polled(PollOut::Requests(0)), AnalyzeAction::Stalled);
    assert_eq!(run.polled(PollOut::Done), AnalyzeAction::Finish);
}

#[test]
fn requests_for_providers() {
    let (mut run, step) = RequestRun::new(AnalyzeRequest::LoadProviders { target: "//:a".to_string() });
    assert!(matches!(step, RequestStep::QueryAnalysis(target) if target == "//:a"));
    assert!(matches!(run.analyzed(&vec![]), RequestStep::Answer(AnalyzeEvent::Providers)));

    let global = || RequestRun::new(AnalyzeRequest::LoadGlobalProvider { provider: reference("b", "X") }).0;
    let provided = vec![reference("a", "X"), reference("b", "X"), reference("b", "X")];
    let targets = texts(&["//:a", "//:b", "//:c"]);
    let mut run = global();
    assert!(matches!(run.workspace_queried(&provided, &targets), RequestStep::QueryAnalysis(target) if target == "//:b"));
    assert!(matches!(run.analyzed(&provided), RequestStep::Answer(AnalyzeEvent::Provider(1))));

    let mut run = global();
    run.workspace_queried(&provided, &targets);
    assert!(matches!(run.analyzed(&vec![]), RequestStep::Fail(RequestError::NotSupplied)));
    assert!(matches!(
        global().workspace_queried(&vec![], &vec![]),
        RequestStep::Answer(AnalyzeEvent::Nothing)
    ));
}

#[test]
fn requests_open_files() {
    let (mut run, step) = RequestRun::new(AnalyzeRequest::LabelOpen { names_action: true });
    assert!(matches!(step, RequestStep::QueryOutput));
    assert!(matches!(run.files_found(Some(depmap(1, Some("x")))), RequestStep::LookupFiletree(hash) if hash == [1]));
    assert!(matches!(run.filetree_looked_up(true), RequestStep::LookupEntry(path) if path == "x"));
    match run.entry_looked_up(Some(regular(3, true))) {
        RequestStep::OpenContents { content_hash, executable } => {
            assert_eq!((content_hash, executable), (vec![3], true))
        }
        _ => panic!("contents were expected"),
    }
    assert!(matches!(run.contents_opened(5), RequestStep::Answer(AnalyzeEvent::FileHandle(5))));

    let (mut run, step) = RequestRun::new(AnalyzeRequest::LabelOpen { names_action: false });
    assert!(matches!(step, RequestStep::ReferenceSource));
    assert!(matches!(run.files_found(None), RequestStep::Answer(AnalyzeEvent::Nothing)));
    let (mut run, _) = RequestRun::new(AnalyzeRequest::LabelOpen { names_action: false });
    assert!(matches!(run.files_found(Some(depmap(1, None))), RequestStep::Fail(RequestError::DepmapRoot)));

    let (mut run, step) = RequestRun::new(AnalyzeRequest::ContentRefOpen { hash: vec![9] });
    assert!(matches!(step, RequestStep::OpenContents { content_hash, executable: false } if content_hash == [9]));
    assert!(matches!(run.contents_opened(3), RequestStep::Answer(AnalyzeEvent::FileHandle(3))));
}

#[test]
fn requests_look_into_trees() {
    let open = |filename: Option<&str>| {
        RequestRun::new(AnalyzeRequest::DepmapFileOpen {
            hash: vec![1],
            filename: filename.map(|s| s.to_string()),
        })
    };
    assert!(matches!(open(None).1, RequestStep::Fail(RequestError::PathEscapesRoot)));
    let (mut run, step) = open(Some("a/b"));
    assert!(matches!(step, RequestStep::LookupFiletree(hash) if hash == [1]));
    assert!(matches!(run.filetree_looked_up(false), RequestStep::Fail(RequestError::InvalidFiletree)));
    let (mut run, _) = open(Some("a/b"));
    run.filetree_looked_up(true);
    assert!(matches!(run.entry_looked_up(None), RequestStep::Answer(AnalyzeEvent::Nothing)));
    let (mut run, _) = open(Some("a/b"));
    run.filetree_looked_up(true);
    assert!(matches!(
        run.entry_looked_up(Some(FileEntry::Directory)),
        RequestStep::Fail(RequestError::IsDirectory)
    ));

    let list = |filename: Option<&str>| {
        RequestRun::new(AnalyzeRequest::DepmapDirectoryList {
            hash: vec![1],
            filename: filename.map(|s| s.to_string()),
        })
    };
    assert!(matches!(list(None).1, RequestStep::Fail(RequestError::PathEscapesRoot)));
    let (mut run, _) = list(Some("d"));
    assert!(matches!(run.filetree_looked_up(true), RequestStep::ListPaths));
    match run.paths_listed(&texts(&["a", "d/x", "d/y/z", "d/w"])) {
        RequestStep::Answer(AnalyzeEvent::FilenameList(names)) => assert_eq!(names, texts(&["x", "w"])),
        _ => panic!("names were expected"),
    }
}

#[test]
fn requests_ask_what_exists() {
    let (mut run, step) = RequestRun::new(AnalyzeRequest::FileExists);
    assert!(matches!(step, RequestStep::QueryFileType));
    assert!(matches!(
        run.file_type_queried(Some(FileType::Directory)),
        RequestStep::Answer(AnalyzeEvent::Boolean(true))
    ));
    let exists = |file_type| RequestRun::new(AnalyzeRequest::FileExists).0.file_type_queried(file_type);
    let is_file = |file_type| RequestRun::new(AnalyzeRequest::IsFile).0.file_type_queried(file_type);
    assert!(matches!(exists(None), RequestStep::Answer(AnalyzeEvent::Boolean(false))));
    assert!(matches!(is_file(Some(FileType::Regular)), RequestStep::Answer(AnalyzeEvent::Boolean(true))));
    assert!(matches!(is_file(Some(FileType::Directory)), RequestStep::Answer(AnalyzeEvent::Boolean(false))));
    assert!(matches!(is_file(None), RequestStep::Answer(AnalyzeEvent::Boolean(false))));

    let (mut run, step) = RequestRun::new(AnalyzeRequest::TargetExists);
    assert!(matches!(step, RequestStep::QueryTargetExists));
    assert!(matches!(run.target_queried(true), RequestStep::Answer(AnalyzeEvent::Boolean(true))));

    let (mut run, step) = RequestRun::new(AnalyzeRequest::ActionOutput { is_run: true });
    assert!(matches!(step, RequestStep::RunAction { on_host: true }));
    assert!(matches!(run.action_ran(), RequestStep::Answer(AnalyzeEvent::ActionOutput)));
    let (_, step) = RequestRun::new(AnalyzeRequest::ActionOutput { is_run: false });
    assert!(matches!(step, RequestStep::RunAction { on_host: false }));
}
