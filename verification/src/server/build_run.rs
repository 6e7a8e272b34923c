//! A request to build targets: checking it, collecting results, and building again on changes.

use vstd::prelude::*;

use crate::base::paths::{self, join_path, strip_prefix};
use crate::base::text::chars_of;

verus! {

#[derive(Clone, Copy, PartialEq, Eq, Structural, Debug)]
pub enum BuildRequestError {
    /// The default package is relative to a package itself.
    RelativeDefaultPackage,
    /// A target is relative to a package, and there is no default package.
    RelativeTarget,
}

/// How the label of a target is made absolute.
#[derive(Clone, Copy, PartialEq, Eq, Structural, Debug)]
pub enum TargetLabel {
    /// It is joined to the default package.
    Joined,
    Itself,
}

/// How the label of a target is made absolute. `default_package` says whether there is one, and
/// whether it is relative to a package.
pub open spec fn target_label(default_package: Option<bool>, target_relative: bool) -> Result<
    TargetLabel,
    BuildRequestError,
> {
    match default_package {
        Some(true) => Err(BuildRequestError::RelativeDefaultPackage),
        Some(false) => Ok(TargetLabel::Joined),
        None => if target_relative {
            Err(BuildRequestError::RelativeTarget)
        } else {
            Ok(TargetLabel::Itself)
        },
    }
}

/// How the label of one target is made absolute.
pub fn concrete_target(default_package: Option<bool>, target_relative: bool) -> (r: Result<
    TargetLabel,
    BuildRequestError,
>)
    ensures
        r == target_label(default_package, target_relative),
{
    match default_package {
        Some(true) => Err(BuildRequestError::RelativeDefaultPackage),
        Some(false) => Ok(TargetLabel::Joined),
        None => if target_relative {
            Err(BuildRequestError::RelativeTarget)
        } else {
            Ok(TargetLabel::Itself)
        },
    }
}

/// How the labels of targets are made absolute. The default package is checked even where there are
/// no targets.
pub fn concrete_targets(default_package: Option<bool>, targets_relative: &Vec<bool>) -> (r: Result<
    Vec<TargetLabel>,
    BuildRequestError,
>)
    ensures
        match r {
            Ok(labels) => {
                &&& default_package != Some(true)
                &&& labels@.len() == targets_relative@.len()
                &&& forall|i: int|
                    0 <= i < labels@.len() ==> target_label(default_package, targets_relative@[i])
                        == Ok::<TargetLabel, BuildRequestError>(#[trigger] labels@[i])
            },
            Err(e) => {
                ||| default_package == Some(true) && e == BuildRequestError::RelativeDefaultPackage
                ||| default_package is None && e == BuildRequestError::RelativeTarget
                    && targets_relative@.contains(true)
            },
        },
{
    match default_package {
        Some(true) => {
            return Err(BuildRequestError::RelativeDefaultPackage);
        },
        _ => {},
    }
    let mut labels: Vec<TargetLabel> = Vec::new();
    let mut i: usize = 0;
    while i < targets_relative.len()
        invariant
            default_package != Some(true),
            i <= targets_relative@.len(),
            labels@.len() == i,
            forall|k: int|
                0 <= k < i ==> target_label(default_package, targets_relative@[k]) == Ok::<
                    TargetLabel,
                    BuildRequestError,
                >(#[trigger] labels@[k]),
        decreases targets_relative@.len() - i,
    {
        match concrete_target(default_package, targets_relative[i]) {
            Ok(label) => {
                labels.push(label);
            },
            Err(e) => {
                assert(targets_relative@[i as int]);
                return Err(e);
            },
        }
        i += 1;
    }
    Ok(labels)
}

/// How often a change is waited out, and for how long, in milliseconds.
pub const MAX_DEBOUNCES: usize = 50;

pub const DEBOUNCE_MILLIS: u64 = 100;

/// What a build does next.
#[derive(Clone, Copy, PartialEq, Eq, Structural, Debug)]
pub enum BuildAction {
    /// Ask for the outputs of all targets, and give the results in order.
    Query,
    /// Give the next result.
    NextResult,
    /// Report the error, then give the next result.
    ReportError,
    /// Report the error, and answer.
    ReportAndAnswer,
    /// Answer with the results.
    Answer,
    /// Tell that the build is idle, and wait for a change. Then tell that it runs again.
    WaitForChange,
    /// Wait, and say whether there was a change meanwhile.
    Debounce,
    /// Wait until so long after the last request.
    CoolDown,
}

#[derive(Clone, Copy, PartialEq, Eq, Structural, Debug)]
pub enum BuildPhase {
    Collecting { first: bool },
    Waiting,
    Debouncing { count: usize },
    CoolingDown,
    Ended,
}

/// A build: the results that came, and whether it goes on after an error or on changes.
pub struct BuildRun<P, E> {
    pub keep_going: bool,
    pub watch: bool,
    pub phase: BuildPhase,
    pub products: Vec<P>,
    pub errors: Vec<E>,
}

impl<P, E> BuildRun<P, E> {
    pub open spec fn same_request(self, other: BuildRun<P, E>) -> bool {
        self.keep_going == other.keep_going && self.watch == other.watch
    }

    /// Whether a build is where it stands after a result came, and does what it does then.
    pub open spec fn took(self, before: BuildRun<P, E>, result: Result<P, E>, action: BuildAction) -> bool {
        &&& self.same_request(before)
        &&& match result {
            Ok(product) => {
                &&& action == BuildAction::NextResult
                &&& self.products@ == before.products@.push(product)
                &&& self.errors == before.errors
                &&& self.phase == before.phase
            },
            Err(error) => {
                &&& self.products == before.products
                &&& self.errors@ == before.errors@.push(error)
                &&& if before.keep_going || before.watch {
                    action == BuildAction::ReportError && self.phase == before.phase
                } else {
                    action == BuildAction::ReportAndAnswer && self.phase is Ended
                }
            },
        }
    }

    /// Whether a build is answered so: with its last error, or else with all its products.
    pub open spec fn answers(self, r: Result<Vec<P>, E>) -> bool {
        match r {
            Ok(products) => self.errors@.len() == 0 && products == self.products,
            Err(e) => self.errors@.len() > 0 && e == self.errors@.last(),
        }
    }

    pub fn new(keep_going: bool, watch: bool) -> (r: (BuildRun<P, E>, BuildAction))
        ensures
            r.0.keep_going == keep_going,
            r.0.watch == watch,
            r.0.phase == (BuildPhase::Collecting { first: true }),
            r.0.products@.len() == 0,
            r.0.errors@.len() == 0,
            r.1 == BuildAction::Query,
    {
        (
            BuildRun {
                keep_going,
                watch,
                phase: BuildPhase::Collecting { first: true },
                products: Vec::new(),
                errors: Vec::new(),
            },
            BuildAction::Query,
        )
    }

    /// Takes a result. An error ends the build, unless it goes on after errors or watches for
    /// changes.
    pub fn result(&mut self, result: Result<P, E>) -> (r: BuildAction)
        requires
            old(self).phase is Collecting,
        ensures
            final(self).took(*old(self), result, r),
            final(self).keep_going == old(self).keep_going && final(self).watch == old(self).watch,
            match result {
                Ok(product) => {
                    &&& r == BuildAction::NextResult
                    &&& final(self).products@ == old(self).products@.push(product)
                    &&& final(self).errors == old(self).errors
                    &&& final(self).phase == old(self).phase
                },
                Err(error) => {
                    &&& final(self).products == old(self).products
                    &&& final(self).errors@ == old(self).errors@.push(error)
                    &&& if old(self).keep_going || old(self).watch {
                        r == BuildAction::ReportError && final(self).phase == old(self).phase
                    } else {
                        r == BuildAction::ReportAndAnswer && final(self).phase is Ended
                    }
                },
            },
    {
        match result {
            Ok(product) => {
                self.products.push(product);
                BuildAction::NextResult
            },
            Err(error) => {
                self.errors.push(error);
                if !self.keep_going && !self.watch {
                    self.phase = BuildPhase::Ended;
                    BuildAction::ReportAndAnswer
                } else {
                    BuildAction::ReportError
                }
            },
        }
    }

    /// Goes on when all results came. A build that watches waits for the next change. After the
    /// first time it also waits where it was too quick.
    pub fn results_ended(&mut self) -> (r: BuildAction)
        requires
            old(self).phase is Collecting,
        ensures
            final(self).same_request(*old(self)),
            final(self).products == old(self).products,
            final(self).errors == old(self).errors,
            if !old(self).watch {
                r == BuildAction::Answer && final(self).phase is Ended
            } else if old(self).phase == (BuildPhase::Collecting { first: true }) {
                r == BuildAction::WaitForChange && final(self).phase is Waiting
            } else {
                r == BuildAction::CoolDown && final(self).phase is CoolingDown
            },
    {
        if !self.watch {
            self.phase = BuildPhase::Ended;
            return BuildAction::Answer;
        }
        match self.phase {
            BuildPhase::Collecting { first: true } => {
                self.phase = BuildPhase::Waiting;
                BuildAction::WaitForChange
            },
            _ => {
                self.phase = BuildPhase::CoolingDown;
                BuildAction::CoolDown
            },
        }
    }

    /// Goes on after the wait at the end of a run.
    pub fn cooled_down(&mut self) -> (r: BuildAction)
        requires
            old(self).phase is CoolingDown,
        ensures
            final(self).same_request(*old(self)),
            final(self).products == old(self).products,
            final(self).errors == old(self).errors,
            r == BuildAction::WaitForChange,
            final(self).phase is Waiting,
    {
        self.phase = BuildPhase::Waiting;
        BuildAction::WaitForChange
    }

    /// Goes on after a change: more changes may follow at once, which are waited out.
    pub fn changed(&mut self) -> (r: BuildAction)
        requires
            old(self).phase is Waiting,
        ensures
            final(self).same_request(*old(self)),
            final(self).products == old(self).products,
            final(self).errors == old(self).errors,
            r == BuildAction::Debounce,
            final(self).phase == (BuildPhase::Debouncing { count: 1 }),
    {
        self.phase = BuildPhase::Debouncing { count: 1 };
        BuildAction::Debounce
    }

    /// Goes on after a wait for more changes. Where there were none, or after so many waits, the
    /// targets are built again, with no results of before.
    pub fn debounced(&mut self, dirty: bool) -> (r: BuildAction)
        requires
            old(self).phase matches BuildPhase::Debouncing { count } && count <= MAX_DEBOUNCES,
        ensures
            final(self).same_request(*old(self)),
            match old(self).phase {
                BuildPhase::Debouncing { count } => if dirty && count < MAX_DEBOUNCES {
                    &&& r == BuildAction::Debounce
                    &&& final(self).phase == (BuildPhase::Debouncing { count: (count + 1) as usize })
                    &&& final(self).products == old(self).products
                    &&& final(self).errors == old(self).errors
                } else {
                    &&& r == BuildAction::Query
                    &&& final(self).phase == (BuildPhase::Collecting { first: false })
                    &&& final(self).products@.len() == 0
                    &&& final(self).errors@.len() == 0
                },
                _ => true,
            },
    {
        let count: usize = match self.phase {
            BuildPhase::Debouncing { count } => count,
            _ => 0,
        };
        if dirty && count < MAX_DEBOUNCES {
            self.phase = BuildPhase::Debouncing { count: count + 1 };
            return BuildAction::Debounce;
        }
        self.phase = BuildPhase::Collecting { first: false };
        self.products = Vec::new();
        self.errors = Vec::new();
        BuildAction::Query
    }

    /// The answer to the request: the last error, or else all products in the order of the targets.
    pub fn answer(self) -> (r: Result<Vec<P>, E>)
        ensures
            self.answers(r),
            match r {
                Ok(products) => self.errors@.len() == 0 && products == self.products,
                Err(e) => self.errors@.len() > 0 && e == self.errors@.last(),
            },
    {
        let mut errors = self.errors;
        match errors.pop() {
            Some(e) => Err(e),
            None => Ok(self.products),
        }
    }
}

/// Whether a build takes a result while it collects them.
pub open spec fn takes<P, E>(
    before: BuildRun<P, E>,
    result: Result<P, E>,
    action: BuildAction,
    after: BuildRun<P, E>,
) -> bool {
    before.phase is Collecting && after.took(before, result, action)
}

/// Whether a build takes results, one after the other: `runs` holds its states before and after each,
/// and `actions` what it did at each.
pub open spec fn takes_all<P, E>(
    runs: Seq<BuildRun<P, E>>,
    results: Seq<Result<P, E>>,
    actions: Seq<BuildAction>,
) -> bool {
    &&& runs.len() == results.len() + 1
    &&& actions.len() == results.len()
    &&& forall|i: int| 0 <= i < results.len() ==> takes(runs[i], #[trigger] results[i], actions[i], runs[i + 1])
}

/// The products among results, in order.
pub open spec fn products_of<P, E>(results: Seq<Result<P, E>>) -> Seq<P>
    decreases results.len(),
{
    if results.len() == 0 {
        Seq::empty()
    } else {
        let before = products_of(results.drop_last());
        match results.last() {
            Ok(product) => before.push(product),
            Err(_) => before,
        }
    }
}

/// The errors among results, in order.
pub open spec fn errors_of<P, E>(results: Seq<Result<P, E>>) -> Seq<E>
    decreases results.len(),
{
    if results.len() == 0 {
        Seq::empty()
    } else {
        let before = errors_of(results.drop_last());
        match results.last() {
            Ok(_) => before,
            Err(error) => before.push(error),
        }
    }
}

proof fn lemma_results<P, E>(results: Seq<Result<P, E>>)
    ensures
        errors_of(results).len() == 0 ==> products_of(results).len() == results.len() && forall|i: int|
            0 <= i < results.len() ==> #[trigger] results[i] == Ok::<P, E>(products_of(results)[i]),
        errors_of(results).len() > 0 ==> exists|i: int|
            0 <= i < results.len() && #[trigger] results[i] == Err::<P, E>(errors_of(results).last())
                && forall|j: int| i < j < results.len() ==> #[trigger] results[j] is Ok,
    decreases results.len(),
{
    if results.len() > 0 {
        let before = results.drop_last();
        let n = before.len() as int;
        lemma_results(before);
        assert(results[n] == results.last());
        assert forall|i: int| 0 <= i < n implies #[trigger] results[i] == before[i] by {}
        if errors_of(results).len() == 0 {
            assert forall|i: int| 0 <= i < results.len() implies #[trigger] results[i] == Ok::<P, E>(
                products_of(results)[i],
            ) by {
                if i < n {
                    assert(before[i] == Ok::<P, E>(products_of(before)[i]));
                }
            }
        } else if results.last() is Ok {
            let i = choose|i: int|
                0 <= i < n && #[trigger] before[i] == Err::<P, E>(errors_of(before).last()) && forall|j: int|
                    i < j < n ==> #[trigger] before[j] is Ok;
            assert(results[i] == Err::<P, E>(errors_of(results).last()));
            assert forall|j: int| i < j < results.len() implies #[trigger] results[j] is Ok by {
                if j < n {
                    assert(before[j] is Ok);
                }
            }
        } else {
            assert(results[n] == Err::<P, E>(errors_of(results).last()));
        }
    }
}

proof fn lemma_collected<P, E>(
    runs: Seq<BuildRun<P, E>>,
    results: Seq<Result<P, E>>,
    actions: Seq<BuildAction>,
)
    requires
        takes_all(runs, results, actions),
        runs[0].products@.len() == 0,
        runs[0].errors@.len() == 0,
    ensures
        runs.last().products@ == products_of(results),
        runs.last().errors@ == errors_of(results),
    decreases results.len(),
{
    if results.len() == 0 {
        assert(runs.last().products@ =~= Seq::<P>::empty());
        assert(runs.last().errors@ =~= Seq::<E>::empty());
    } else {
        let n = results.len() - 1;
        let earlier_runs = runs.drop_last();
        let earlier = results.drop_last();
        let earlier_actions = actions.drop_last();
        assert(earlier.len() == n && earlier_runs.len() == n + 1 && earlier_actions.len() == n);
        assert forall|i: int| 0 <= i < earlier.len() implies takes(
            earlier_runs[i],
            #[trigger] earlier[i],
            earlier_actions[i],
            earlier_runs[i + 1],
        ) by {
            assert(earlier[i] == results[i]);
        }
        lemma_collected(earlier_runs, earlier, earlier_actions);
        assert(results[n] == results.last());
    }
}

/// A build that took results in order is answered by them: all good ones come back in that order, and
/// where there was an error the answer is the last one. A build that neither goes on after errors nor
/// watches takes no result after an error.
pub proof fn results_are_answered<P, E>(
    runs: Seq<BuildRun<P, E>>,
    results: Seq<Result<P, E>>,
    actions: Seq<BuildAction>,
    answer: Result<Vec<P>, E>,
)
    requires
        takes_all(runs, results, actions),
        runs[0].products@.len() == 0,
        runs[0].errors@.len() == 0,
        runs.last().answers(answer),
    ensures
        match answer {
            Ok(products) => {
                &&& products@.len() == results.len()
                &&& forall|i: int|
                    0 <= i < results.len() ==> #[trigger] results[i] == Ok::<P, E>(products@[i])
            },
            Err(e) => exists|i: int|
                0 <= i < results.len() && #[trigger] results[i] == Err::<P, E>(e) && forall|j: int|
                    i < j < results.len() ==> #[trigger] results[j] is Ok,
        },
        forall|i: int|
            0 <= i < results.len() - 1 && (#[trigger] results[i]) is Err ==> runs[0].keep_going || runs[0].watch,
{
    lemma_collected(runs, results, actions);
    lemma_results(results);
    assert forall|i: int| 0 <= i < results.len() - 1 && (#[trigger] results[i]) is Err implies runs[0].keep_going
        || runs[0].watch by {
        assert(results[i + 1] is Ok || results[i + 1] is Err);
        lemma_same_request(runs, results, actions, i);
    }
}

proof fn lemma_same_request<P, E>(
    runs: Seq<BuildRun<P, E>>,
    results: Seq<Result<P, E>>,
    actions: Seq<BuildAction>,
    n: int,
)
    requires
        takes_all(runs, results, actions),
        0 <= n < runs.len(),
    ensures
        runs[n].same_request(runs[0]),
    decreases n,
{
    if n > 0 {
        lemma_same_request(runs, results, actions, n - 1);
        assert(results[n - 1] is Ok || results[n - 1] is Err);
    }
}

/// The directory of the cache, under the root of all that is built.
pub fn primary_cache_path(build_root: &str) -> (r: String)
    ensures
        r@ == paths::joined(build_root@, "cache"@),
{
    join_path(build_root, "cache")
}

/// The directory of temporary files.
pub fn temporary_file_path(build_root: &str) -> (r: String)
    ensures
        r@ == paths::joined(build_root@, "tmp"@),
{
    join_path(build_root, "tmp")
}

/// The directory of the files of the server itself.
pub fn server_private_dir_path(build_root: &str) -> (r: String)
    ensures
        r@ == paths::joined(build_root@, "server"@),
{
    join_path(build_root, "server")
}

/// The file that configures the cache of compiled guests.
pub fn wasmtime_cache_config_file_path(build_root: &str) -> (r: String)
    ensures
        r@ == paths::joined(
            paths::joined(build_root@, "server"@),
            "wasmtime_cache.toml"@,
        ),
{
    join_path(server_private_dir_path(build_root).as_str(), "wasmtime_cache.toml")
}

/// The directory of the cache of compiled guests.
pub fn wasmtime_cache_storage_path(build_root: &str) -> (r: String)
    ensures
        r@ == paths::joined(paths::joined(build_root@, "server"@), "wasmtime_cache"@),
{
    join_path(server_private_dir_path(build_root).as_str(), "wasmtime_cache")
}

/// Whether a mount is one that an earlier server left in the directory of temporary files: its source
/// starts with a fixed name, and it lies below the directory.
pub fn is_stale_mount(source: &str, dest: &str, temporary_directory: &str) -> (r: bool)
    ensures
        r == ("cealn-depmap"@.is_prefix_of(source@) && paths::below(dest@, temporary_directory@) is Some),
{
    let s = chars_of(source);
    let p = chars_of("cealn-depmap");
    if s.len() < p.len() {
        return false;
    }
    let mut i: usize = 0;
    while i < p.len()
        invariant
            s@ == source@,
            p@ == "cealn-depmap"@,
            i <= p@.len() <= s@.len(),
            forall|j: int| 0 <= j < i ==> s@[j] == p@[j],
        decreases p@.len() - i,
    {
        if s[i] != p[i] {
            assert(source@.subrange(0, p@.len() as int)[i as int] != p@[i as int]);
            return false;
        }
        i += 1;
    }
    assert(source@.subrange(0, p@.len() as int) =~= p@);
    strip_prefix(dest, temporary_directory).is_some()
}

/// A target is joined to the default package wherever there is one, which must then be absolute. Without
/// one the target itself must be.
pub proof fn targets_are_made_absolute(default_package: Option<bool>, target_relative: bool)
    ensures
        match target_label(default_package, target_relative) {
            Ok(TargetLabel::Joined) => default_package == Some(false),
            Ok(TargetLabel::Itself) => default_package is None && !target_relative,
            Err(BuildRequestError::RelativeDefaultPackage) => default_package == Some(true),
            Err(BuildRequestError::RelativeTarget) => default_package is None && target_relative,
        },
{
}

/// What a request asks for stays the same while a build goes on.
pub proof fn requests_stay(a: BuildRun<int, int>, b: BuildRun<int, int>)
    ensures
        a.same_request(b) <==> a.keep_going == b.keep_going && a.watch == b.watch,
{
}

/// Changes are waited out so often, and for so long each time.
pub proof fn waits_for_changes()
    ensures
        MAX_DEBOUNCES == 50,
        DEBOUNCE_MILLIS == 100,
{
}

} // verus!
