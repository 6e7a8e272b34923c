//! The server: builds, processes, logs, reports and requests.

use cealn::api::descriptors;
use cealn::api::wasi;
use cealn::graph::output_query::DepmapReference;
use cealn::graph::target_query::Reference;
use cealn::server::build_run::{
    concrete_target, concrete_targets, is_stale_mount, primary_cache_path, server_private_dir_path,
    temporary_file_path, wasmtime_cache_config_file_path, wasmtime_cache_storage_path, BuildAction,
    BuildPhase, BuildRequestError, BuildRun, TargetLabel, MAX_DEBOUNCES,
};
use cealn::server::error_report::{format_backtrace, prepare_internal_error, Cause};
use cealn::server::executor::{process_concurrency, Options, ProcessTicketState};
use cealn::server::logger::{repeat_stdio, Logger, StdioLine, StdioStreamType};
use cealn::server::request::{
    api_url, default_fork, init_result, lock_error, Build, ForkError, InitError, InternalError,
    ShutdownSignal, StopError,
};
use cealn::server::run_service::{
    built_files, executable_path, find_executable, find_platform, platform_reference, replace_all,
    source_depmaps, Executable, ExecutableRun, LinuxPlatform, ProvidedExecutable, RunError, RunStep,
};

#[test]
fn targets_are_made_absolute() {
    assert_eq!(concrete_target(Some(false), true), Ok(TargetLabel::Joined));
    assert_eq!(concrete_target(Some(false), false), Ok(TargetLabel::Joined));
    assert_eq!(concrete_target(None, false), Ok(TargetLabel::Itself));
    assert_eq!(concrete_target(None, true), Err(BuildRequestError::RelativeTarget));
    assert_eq!(concrete_target(Some(true), false), Err(BuildRequestError::RelativeDefaultPackage));

    assert_eq!(
        concrete_targets(Some(false), &vec![true, false]),
        Ok(vec![TargetLabel::Joined, TargetLabel::Joined])
    );
    assert_eq!(concrete_targets(None, &vec![false, true]), Err(BuildRequestError::RelativeTarget));
    assert_eq!(concrete_targets(Some(true), &vec![]), Err(BuildRequestError::RelativeDefaultPackage));
    assert_eq!(concrete_targets(None, &vec![]), Ok(vec![]));
}

#[test]
fn builds_collect_products() {
    let (mut run, action) = BuildRun::<u32, &str>::new(false, false);
    assert_eq!(action, BuildAction::Query);
    assert_eq!(run.result(Ok(1)), BuildAction::NextResult);
    assert_eq!(run.result(Ok(2)), BuildAction::NextResult);
    assert_eq!(run.results_ended(), BuildAction::Answer);
    assert_eq!(run.answer(), Ok(vec![1, 2]));
}

#[test]
fn errors_end_builds() {
    let (mut run, _) = BuildRun::<u32, &str>::new(false, false);
    run.result(Ok(1));
    assert_eq!(run.result(Err("broken")), BuildAction::ReportAndAnswer);
    assert_eq!(run.phase, BuildPhase::Ended);
    assert_eq!(run.answer(), Err("broken"));
}

#[test]
fn builds_that_keep_going_answer_with_the_last_error() {
    let (mut run, _) = BuildRun::<u32, &str>::new(true, false);
    assert_eq!(run.result(Err("first")), BuildAction::ReportError);
    assert_eq!(run.result(Ok(1)), BuildAction::NextResult);
    assert_eq!(run.result(Err("second")), BuildAction::ReportError);
    assert_eq!(run.results_ended(), BuildAction::Answer);
    assert_eq!(run.answer(), Err("second"));
}

#[test]
fn builds_that_watch_build_again() {
    let (mut run, _) = BuildRun::<u32, &str>::new(false, true);
    assert_eq!(run.result(Err("broken")), BuildAction::ReportError);
    assert_eq!(run.results_ended(), BuildAction::WaitForChange);
    assert_eq!(run.changed(), BuildAction::Debounce);
    assert_eq!(run.debounced(true), BuildAction::Debounce);
    assert_eq!(run.debounced(false), BuildAction::Query);
    assert!(run.errors.is_empty());
    assert_eq!(run.result(Ok(7)), BuildAction::NextResult);
    assert_eq!(run.results_ended(), BuildAction::CoolDown);
    assert_eq!(run.cooled_down(), BuildAction::WaitForChange);
}

#[test]
fn changes_are_waited_out_for_a_while() {
    let (mut run, _) = BuildRun::<u32, &str>::new(false, true);
    run.results_ended();
    run.changed();
    let mut waits = 1;
    while run.debounced(true) == BuildAction::Debounce {
        waits += 1;
    }
    assert_eq!(waits, MAX_DEBOUNCES);
    assert_eq!(waits, 50);
    assert_eq!(run.phase, BuildPhase::Collecting { first: false });
}

#[test]
fn directories_of_the_server() {
    assert_eq!(primary_cache_path("/b"), "/b/cache");
    assert_eq!(temporary_file_path("/b/"), "/b/tmp");
    assert_eq!(server_private_dir_path("/b"), "/b/server");
    assert_eq!(wasmtime_cache_config_file_path("/b"), "/b/server/wasmtime_cache.toml");
    assert_eq!(wasmtime_cache_storage_path("/b"), "/b/server/wasmtime_cache");
}

#[test]
fn stale_mounts_are_known() {
    assert!(is_stale_mount("cealn-depmap-1", "/b/tmp/x", "/b/tmp"));
    assert!(is_stale_mount("cealn-depmap", "/b/tmp", "/b/tmp"));
    assert!(is_stale_mount("cealn-depmap", "/b/tmp", "/b/tmp/"));
    assert!(is_stale_mount("cealn-depmap", "/b/tmp/x", "/b//tmp"));
    assert!(is_stale_mount("cealn-depmap", "/b/./tmp//x", "/b/tmp/."));
    assert!(!is_stale_mount("cealn-depmap", "b/tmp/x", "/b/tmp"));
    assert!(!is_stale_mount("tmpfs", "/b/tmp/x", "/b/tmp"));
    assert!(!is_stale_mount("cealn-depmap", "/b/tmpx", "/b/tmp"));
}

fn cause(message: &str, backtrace: Option<&str>, nested_query: bool) -> Cause {
    Cause { message: message.to_string(), backtrace: backtrace.map(|s| s.to_string()), nested_query }
}

#[test]
fn errors_are_reported_with_causes() {
    assert_eq!(format_backtrace("a\nb\n"), vec!["a", "b", ""]);
    let chain = vec![cause("outer cause", None, true), cause("root cause", Some("1\n2"), false)];
    let report = prepare_internal_error(&cause("failed", Some("x"), false), &chain);
    assert_eq!((report.message.as_str(), report.nested_query), ("failed", true));
    assert_eq!(report.backtrace, vec!["x"]);
    let first = report.cause.expect("a cause");
    assert_eq!((first.message.as_str(), first.nested_query), ("root cause", false));
    assert_eq!(first.backtrace, vec!["1", "2"]);
    let second = first.cause.expect("a cause");
    assert_eq!((second.message.as_str(), second.nested_query), ("outer cause", true));
    assert!(second.backtrace.is_empty());
    assert!(second.cause.is_none());
}

#[test]
fn tickets_limit_processes() {
    let options = Options { thread_pool_concurrency: None, process_concurrency: Some(2) };
    let mut tickets = ProcessTicketState::new(&options);
    assert!(tickets.acquire(1));
    assert!(tickets.acquire(2));
    assert!(!tickets.acquire(3));
    assert!(!tickets.acquire(4));
    assert_eq!(tickets.release(), vec![(0, 3), (1, 4)]);
    assert!(tickets.acquire(4));
    assert!(!tickets.acquire(3));
    assert_eq!(tickets.release(), vec![(0, 3)]);
    assert_eq!(tickets.release(), vec![]);
    assert_eq!(tickets.available_process_tickets, 2);
}

#[test]
fn the_machine_says_how_many_processes_run() {
    let options = Options { thread_pool_concurrency: None, process_concurrency: None };
    assert_eq!(process_concurrency(&options, 12), 12);
    assert_eq!(ProcessTicketState::new(&options).available_process_tickets, num_cpus::get());
    assert!(ProcessTicketState::new(&options).acquire(1));
    let options = Options { thread_pool_concurrency: None, process_concurrency: Some(0) };
    assert_eq!(process_concurrency(&options, 12), 0);
}

fn contents(lines: &[StdioLine]) -> Vec<&[u8]> {
    lines.iter().map(|line| line.contents.as_slice()).collect()
}

#[test]
fn output_is_logged_by_lines() {
    let (mut logger, mut stdout, _) = Logger::new();
    assert_eq!(stdout.write(&mut logger.lines, b"one\r\ntwo\rthr"), 12);
    assert_eq!(stdout.write(&mut logger.lines, b"ee\n\nlast"), 8);
    assert_eq!(contents(&logger.lines), vec![&b"one"[..], b"two", b"three", b""]);
    assert_eq!(stdout.data, b"last");
    assert!(logger.lines.iter().all(|line| line.stream == StdioStreamType::Stdout));
    assert_eq!(logger.finish().len(), 4);
}

#[test]
fn terminators_can_be_cut() {
    let whole = b"a\r\n\r\nb\n\rc\r";
    let (mut expected, mut handle, _) = Logger::new();
    handle.write(&mut expected.lines, whole);
    assert_eq!(contents(&expected.lines), vec![&b"a"[..], b"", b"b", b"", b"c"]);
    for cut in 0..whole.len() {
        let (mut logger, mut handle, _) = Logger::new();
        handle.write(&mut logger.lines, &whole[..cut]);
        handle.write(&mut logger.lines, &whole[cut..]);
        assert_eq!(contents(&logger.lines), contents(&expected.lines));
        assert!(handle.previous_line_trailing_cr);
    }
}

#[test]
fn stored_output_is_repeated() {
    assert_eq!(repeat_stdio(b"a\n\nb"), vec![b"a".to_vec(), b"".to_vec(), b"b".to_vec()]);
    assert_eq!(repeat_stdio(b"a\n"), vec![b"a".to_vec()]);
    assert_eq!(repeat_stdio(b""), Vec::<Vec<u8>>::new());
}

#[test]
fn requests_and_their_errors() {
    let build = Build::new(vec!["//:a".to_string(), "//:b".to_string()]);
    assert_eq!(build.into_targets(), vec!["//:a", "//:b"]);
    assert!(matches!(lock_error(true, "x".to_string()), InternalError::AlreadyRunning));
    match lock_error(false, "disk".to_string()) {
        InternalError::Io { message } => assert_eq!(message, "disk"),
        InternalError::AlreadyRunning => panic!("a fault of the disk was expected"),
    }
    assert_eq!(init_result(Ok::<u8, wasi::InitError>(3)), Ok(3));
    assert!(matches!(
        init_result(Err::<u8, wasi::InitError>(wasi::InitError::Filesystem(descriptors::InitError::TooManyRoots))),
        Err(InitError::Wasi(wasi::InitError::Filesystem(descriptors::InitError::TooManyRoots)))
    ));
    assert_eq!(default_fork::<u8>(), Err(ForkError::NotSupported));
    assert_eq!(api_url("127.0.0.1:8080"), "http://127.0.0.1:8080");
}

#[test]
fn servers_are_stopped_once() {
    let mut signal = ShutdownSignal::new();
    assert_eq!(signal.take(), Ok(()));
    assert_eq!(signal.sent(true), Ok(()));
    assert_eq!(signal.sent(false), Err(StopError::ReceiverDropped));
    assert_eq!(signal.take(), Err(StopError::AlreadySignaled));
}

const EXEC_RULES: &str = "@com.cealn.builtin//:exec.py";

fn reference(source_label: &str, qualname: &str) -> Reference {
    Reference { source_label: source_label.to_string(), qualname: qualname.to_string() }
}

fn provided(source_label: &str, qualname: &str, name: Option<&str>) -> ProvidedExecutable {
    ProvidedExecutable { reference: reference(source_label, qualname), name: name.map(|s| s.to_string()) }
}

#[test]
fn executables_are_found_by_name() {
    let providers = vec![
        provided("//:other.py", "Executable", Some("run")),
        provided(EXEC_RULES, "Library", Some("run")),
        provided(EXEC_RULES, "Executable", None),
        provided(EXEC_RULES, "Executable", Some("run")),
        provided(EXEC_RULES, "Executable", Some("run")),
    ];
    assert_eq!(find_executable(&providers, "run"), Ok(3));
    assert_eq!(find_executable(&providers, "test"), Err(RunError::NoSuchExecutable));

    let wanted = platform_reference();
    assert_eq!((wanted.source_label.as_str(), wanted.qualname.as_str()), (EXEC_RULES, "LinuxExecutePlatform"));
    assert_eq!(find_platform(&vec![reference(EXEC_RULES, "Executable"), wanted]), Ok(1));
    assert_eq!(find_platform(&vec![reference(EXEC_RULES, "Executable")]), Err(RunError::NoSuchProvider));
}

fn platform() -> LinuxPlatform {
    LinuxPlatform {
        execution_sysroot: "//:sysroot".to_string(),
        execution_sysroot_exec_context_dest: "exec".to_string(),
    }
}

fn executable(path: &str, context: Option<&str>) -> Executable {
    Executable { executable_path: path.to_string(), context: context.map(|s| s.to_string()) }
}

fn files(hash: u8) -> DepmapReference {
    DepmapReference { hash: vec![hash], subpath: None }
}

#[test]
fn files_of_executables_are_built() {
    let with_context = executable("x", Some("//:files"));
    assert_eq!(source_depmaps(&with_context, &platform()), vec!["//:files", "//:sysroot"]);
    let built = built_files(&with_context, &platform(), vec![files(1), files(2)]);
    assert_eq!(built.context.map(|d| d.hash), Some(vec![1]));
    assert_eq!(built.execution_sysroot.hash, vec![2]);

    let alone = executable("x", None);
    assert_eq!(source_depmaps(&alone, &platform()), vec!["//:sysroot"]);
    let built = built_files(&alone, &platform(), vec![files(2)]);
    assert!(built.context.is_none());
    assert_eq!(built.execution_sysroot.hash, vec![2]);
}

#[test]
fn paths_of_executables_are_completed() {
    assert_eq!(executable_path(&executable("%[execdir]/bin/a", None), &platform()), "exec/bin/a");
    assert_eq!(executable_path(&executable("/bin/sh", None), &platform()), "/bin/sh");
    assert_eq!(replace_all("aaa", "aa", "b"), "ba");
    assert_eq!(replace_all("xaxax", "a", "aa"), "xaaxaax");
}

#[test]
fn executables_are_run() {
    let (mut run, step) = ExecutableRun::new("//:tool".to_string(), "run".to_string());
    assert!(matches!(step, RunStep::Analyze(target) if target == "//:tool"));
    let providers = vec![
        provided(EXEC_RULES, "Executable", Some("test")),
        provided(EXEC_RULES, "Executable", Some("run")),
    ];
    assert!(matches!(run.analyzed(&providers), RunStep::LoadExecutable(1)));
    assert!(matches!(
        run.executable_loaded(executable("%[execdir]/run", Some("//:files"))),
        RunStep::QueryRootWorkspace
    ));
    let provided_by = vec![reference("//:x.py", "LinuxExecutePlatform"), platform_reference(), platform_reference()];
    let targets = vec!["//:a".to_string(), "//:b".to_string(), "//:c".to_string()];
    assert!(matches!(run.workspace_queried(&provided_by, &targets), RunStep::Analyze(target) if target == "//:b"));
    assert!(matches!(run.platform_analyzed(&vec![platform_reference()]), RunStep::LoadPlatform(0)));
    match run.platform_loaded(platform()) {
        RunStep::Build(labels) => assert_eq!(labels, vec!["//:files", "//:sysroot"]),
        _ => panic!("a build was expected"),
    }
    match run.built(vec![files(1), files(2)]) {
        RunStep::Prepare(built) => {
            assert_eq!(built.context.map(|d| d.hash), Some(vec![1]));
            assert_eq!(built.execution_sysroot.hash, vec![2]);
        }
        _ => panic!("files were expected"),
    }
    assert!(matches!(run.prepared(), RunStep::Announce(path) if path == "exec/run"));
}

#[test]
fn runs_fail_without_providers() {
    let (mut run, _) = ExecutableRun::new("//:tool".to_string(), "run".to_string());
    assert!(matches!(run.analyzed(&vec![]), RunStep::Fail(RunError::NoSuchExecutable)));

    let (mut run, _) = ExecutableRun::new("//:tool".to_string(), "run".to_string());
    run.analyzed(&vec![provided(EXEC_RULES, "Executable", Some("run"))]);
    run.executable_loaded(executable("x", None));
    run.workspace_queried(&vec![platform_reference()], &vec!["//:b".to_string()]);
    assert!(matches!(run.platform_analyzed(&vec![]), RunStep::Fail(RunError::NoSuchProvider)));
}

#[test]
fn same_labels_have_the_same_files() {
    let same = executable("x", Some("//:sysroot"));
    let built = built_files(&same, &platform(), vec![files(1), files(2)]);
    assert_eq!(built.context.map(|d| d.hash), Some(vec![2]));
}
