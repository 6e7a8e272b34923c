//! Queries for the output of an action.

use vstd::prelude::*;

use crate::base::name_set::{self, find_name};
use crate::base::text;
use crate::graph::output_query::DepmapReference;

verus! {

/// The options of a build.
pub struct BuildOption {
    pub key: String,
    pub value: String,
}

pub open spec fn options_model(options: Seq<BuildOption>) -> Seq<(Seq<char>, Seq<char>)> {
    options.map_values(|o: BuildOption| (o.key@, o.value@))
}

/// Options without those with a key.
pub open spec fn without_key(options: Seq<(Seq<char>, Seq<char>)>, key: Seq<char>) -> Seq<
    (Seq<char>, Seq<char>),
> {
    options.filter(|o: (Seq<char>, Seq<char>)| o.0 != key)
}

/// Options with others set in order: one that is set goes to the end, in place of all with its key.
pub open spec fn patched(
    options: Seq<(Seq<char>, Seq<char>)>,
    changed: Seq<(Seq<char>, Seq<char>)>,
) -> Seq<(Seq<char>, Seq<char>)>
    decreases changed.len(),
{
    if changed.len() == 0 {
        options
    } else {
        without_key(patched(options, changed.drop_last()), changed.last().0).push(changed.last())
    }
}

fn remove_key(options: Vec<BuildOption>, key: &str) -> (r: Vec<BuildOption>)
    ensures
        options_model(r@) == without_key(options_model(options@), key@),
{
    let ghost all = options_model(options@);
    let ghost keep = |o: (Seq<char>, Seq<char>)| o.0 != key@;
    let ghost start = options@;
    let mut kept: Vec<BuildOption> = Vec::new();
    proof {
        reveal(Seq::filter);
        assert(options_model(kept@) =~= all.take(0).filter(keep));
    }
    for option in it: options
        invariant
            it.seq() == start,
            all == options_model(start),
            keep == (|o: (Seq<char>, Seq<char>)| o.0 != key@),
            options_model(kept@) == all.take(it.index() as int).filter(keep),
    {
        let ghost before = options_model(kept@);
        let ghost i = it.index() as int;
        proof {
            reveal(Seq::filter);
            assert(all.take(i + 1).drop_last() =~= all.take(i));
            assert(all.take(i + 1).last() == (option.key@, option.value@));
        }
        let ghost model = (option.key@, option.value@);
        if !text::equal(option.key.as_str(), key) {
            kept.push(option);
            assert(options_model(kept@) =~= before.push(model));
        }
    }
    assert(all.take(all.len() as int) =~= all);
    kept
}

/// The options of a build after a transition.
pub fn patch_build_config(options: Vec<BuildOption>, changed: &Vec<BuildOption>) -> (r: Vec<BuildOption>)
    ensures
        options_model(r@) == patched(options_model(options@), options_model(changed@)),
{
    let ghost start = options_model(options@);
    let ghost changes = options_model(changed@);
    let mut current = options;
    let mut i: usize = 0;
    assert(changes.take(0) =~= Seq::<(Seq<char>, Seq<char>)>::empty());
    while i < changed.len()
        invariant
            changes == options_model(changed@),
            i <= changed@.len(),
            options_model(current@) == patched(start, changes.take(i as int)),
        decreases changed@.len() - i,
    {
        assert(changes.take(i + 1).drop_last() =~= changes.take(i as int));
        assert(changes.take(i + 1).last() == changes[i as int]);
        current = remove_key(current, changed[i].key.as_str());
        let ghost before = options_model(current@);
        current.push(
            BuildOption { key: changed[i].key.clone(), value: changed[i].value.clone() },
        );
        assert(options_model(current@) =~= before.push(changes[i as int]));
        i += 1;
    }
    assert(changes.take(changes.len() as int) =~= changes);
    current
}

/// An option that a transition sets has the value that it sets last, and no other.
pub proof fn transition_sets_option(
    options: Seq<(Seq<char>, Seq<char>)>,
    changed: Seq<(Seq<char>, Seq<char>)>,
    j: int,
)
    requires
        0 <= j < changed.len(),
        forall|k: int| j < k < changed.len() ==> (#[trigger] changed[k]).0 != changed[j].0,
    ensures
        patched(options, changed).contains(changed[j]),
        forall|o: (Seq<char>, Seq<char>)| #[trigger]
            patched(options, changed).contains(o) && o.0 == changed[j].0 ==> o == changed[j],
    decreases changed.len(),
{
    broadcast use vstd::seq_lib::group_filter_ensures;

    let all = patched(options, changed);
    let last = changed.last();
    let before = patched(options, changed.drop_last());
    let keep = |o: (Seq<char>, Seq<char>)| o.0 != last.0;
    let kept = without_key(before, last.0);
    assert(all == kept.push(last));
    assert(all[kept.len() as int] == last);
    assert forall|o: (Seq<char>, Seq<char>)| #[trigger] all.contains(o) implies o == last || kept.contains(o) by {
        let i = choose|i: int| 0 <= i < all.len() && all[i] == o;
        if i < kept.len() {
            assert(kept[i] == o);
        }
    }
    if j == changed.len() - 1 {
        assert forall|o: (Seq<char>, Seq<char>)| kept.contains(o) implies o.0 != last.0 by {
            let i = choose|i: int| 0 <= i < kept.len() && kept[i] == o;
            assert(keep(kept[i]));
        }
    } else {
        transition_sets_option(options, changed.drop_last(), j);
        let wanted = changed[j];
        assert(keep(wanted));
        let p = choose|p: int| 0 <= p < before.len() && before[p] == wanted;
        before.lemma_filter_contains(keep, p);
        let i = choose|i: int| 0 <= i < kept.len() && kept[i] == wanted;
        assert(all[i] == wanted);
        assert forall|o: (Seq<char>, Seq<char>)| #[trigger] all.contains(o) && o.0 == wanted.0 implies o
            == wanted by {
            if o != last {
                before.lemma_filter_contains_rev(keep, o);
            }
        }
    }
}

#[derive(Clone, Copy, PartialEq, Eq, Structural, Debug)]
pub enum ActionQueryError {
    /// The target of a transition has no output.
    MissingTransitionOutput,
    /// The path behind an action leads out of its output.
    PathEscapesRoot,
    /// A dependency has no output.
    MissingOutput,
    /// A source file does not exist.
    NoSuchSource,
}

/// The output of an action: the hashes of its files and of what it printed.
pub struct ActionOutput {
    pub files: Vec<u8>,
    pub stdout: Option<Vec<u8>>,
    pub stderr: Option<Vec<u8>>,
}

/// Where the files of a dependency come from.
#[derive(Clone, Copy, PartialEq, Eq, Structural, Debug)]
pub enum DependencySource {
    /// An action that is only known to the analysis that is under way, by its place.
    PartialAction(usize),
    /// The output of a label.
    Output,
    /// A source file.
    SourceFile,
}

/// The files of dependencies under their labels.
pub struct Resolution {
    pub label: String,
    pub files: DepmapReference,
}

/// A dependency that was resolved under a label goes in place of an earlier one.
pub open spec fn resolved(items: Seq<Resolution>) -> Map<Seq<char>, DepmapReference>
    decreases items.len(),
{
    if items.len() == 0 {
        Map::empty()
    } else {
        resolved(items.drop_last()).insert(items.last().label@, items.last().files)
    }
}

/// The files that were resolved for a label.
pub fn resolution_of(items: &Vec<Resolution>, label: &str) -> (r: Option<usize>)
    ensures
        match r {
            Some(i) => {
                &&& i < items@.len()
                &&& items@[i as int].label@ == label@
                &&& resolved(items@).contains_key(label@)
                &&& resolved(items@)[label@] == items@[i as int].files
            },
            None => !resolved(items@).contains_key(label@),
        },
{
    let mut i: usize = items.len();
    assert(items@.take(items@.len() as int) =~= items@);
    while i > 0
        invariant
            i <= items@.len(),
            resolved(items@).contains_key(label@) == resolved(items@.take(i as int)).contains_key(
                label@,
            ),
            resolved(items@)[label@] == resolved(items@.take(i as int))[label@],
        decreases i,
    {
        assert(items@.take(i as int).drop_last() =~= items@.take(i - 1));
        assert(items@.take(i as int).last() == items@[i - 1]);
        if text::equal(items[i - 1].label.as_str(), label) {
            return Some(i - 1);
        }
        i -= 1;
    }
    None
}

/// A copy of options.
fn copy_options(options: &Vec<BuildOption>) -> (r: Vec<BuildOption>)
    ensures
        options_model(r@) == options_model(options@),
{
    let ghost all = options_model(options@);
    let mut copy: Vec<BuildOption> = Vec::new();
    let mut i: usize = 0;
    assert(options_model(copy@) =~= all.take(0));
    while i < options.len()
        invariant
            all == options_model(options@),
            i <= options@.len(),
            options_model(copy@) == all.take(i as int),
        decreases options@.len() - i,
    {
        let ghost before = options_model(copy@);
        copy.push(BuildOption { key: options[i].key.clone(), value: options[i].value.clone() });
        assert(options_model(copy@) =~= before.push(all[i as int]));
        i += 1;
        assert(options_model(copy@) =~= all.take(i as int));
    }
    assert(all.take(all.len() as int) =~= all);
    copy
}

/// A change of options for the target that an action leads to.
pub struct Transition {
    pub label: String,
    pub changed_options: Vec<BuildOption>,
}

/// Files that an action needs.
pub struct Dependency {
    pub label: String,
    /// The label of the action that makes the files, where one does.
    pub action_label: Option<String>,
    /// The path behind the action: `Some(None)` where it leads out of the output.
    pub action_path: Option<Option<String>>,
    /// The options with which the files are made, where they are not those of the action.
    pub build_config: Option<Vec<BuildOption>>,
}

/// What was found of a dependency.
pub enum DependencyAnswer {
    /// The hash of the files of a partial action.
    Files(Vec<u8>),
    /// The files of an output or of a source, where there are any.
    Reference(Option<DepmapReference>),
}

/// What the run of an action needs next.
pub enum ActionStep {
    /// Query the output of the target of a transition.
    QueryOutput { label: String, build_config: Vec<BuildOption> },
    /// Resolve all dependencies, at the same time.
    Resolve,
    /// Wait for the other dependencies.
    Wait,
    /// Make the action concrete with what was resolved, and query its output.
    QueryConcrete,
    Finish(ActionOutput),
    Fail(ActionQueryError),
}

#[derive(Clone, Copy, PartialEq, Eq, Structural, Debug)]
pub enum ActionState {
    New,
    Transition,
    Resolving,
    Concrete,
    Ended,
}

/// The run of a query for the output of an action.
pub struct ActionRun {
    pub transition: Option<Transition>,
    pub build_config: Vec<BuildOption>,
    /// The labels of the actions that are only known to the analysis that is under way.
    pub partial_actions: Vec<String>,
    pub dependencies: Vec<Dependency>,
    /// Which dependencies are not resolved yet.
    pub awaited: Vec<bool>,
    pub resolutions: Vec<Resolution>,
    pub state: ActionState,
}

/// Where the files of a dependency come from.
pub open spec fn source_of(dependency: Dependency, partial_actions: Seq<String>) -> DependencySource {
    match dependency.action_label {
        None => DependencySource::SourceFile,
        Some(label) => match name_set::place_of(name_set::texts(partial_actions), label@) {
            Some(i) => DependencySource::PartialAction(i as usize),
            None => DependencySource::Output,
        },
    }
}

/// The files of a dependency, from what was found of it.
pub open spec fn files_of(dependency: Dependency, source: DependencySource, answer: DependencyAnswer) -> Result<
    DepmapReference,
    ActionQueryError,
> {
    match answer {
        DependencyAnswer::Files(files) => match dependency.action_path {
            Some(None) => Err(ActionQueryError::PathEscapesRoot),
            Some(Some(path)) => Ok(DepmapReference { hash: files, subpath: Some(path) }),
            None => Ok(DepmapReference { hash: files, subpath: None }),
        },
        DependencyAnswer::Reference(Some(reference)) => Ok(reference),
        DependencyAnswer::Reference(None) => if source == DependencySource::SourceFile {
            Err(ActionQueryError::NoSuchSource)
        } else {
            Err(ActionQueryError::MissingOutput)
        },
    }
}

/// Whether nothing is awaited any more.
pub open spec fn all_answered(awaited: Seq<bool>) -> bool {
    forall|i: int| 0 <= i < awaited.len() ==> !#[trigger] awaited[i]
}

impl ActionRun {
    /// Every dependency that is not awaited any more has files under its label.
    pub open spec fn wf(self) -> bool {
        &&& self.awaited@.len() == self.dependencies@.len()
        &&& forall|i: int|
            0 <= i < self.awaited@.len() && !#[trigger] self.awaited@[i] ==> resolved(
                self.resolutions@,
            ).contains_key(self.dependencies@[i].label@)
    }

    pub open spec fn same_query(self, other: ActionRun) -> bool {
        &&& self.transition == other.transition
        &&& self.build_config == other.build_config
        &&& self.partial_actions == other.partial_actions
        &&& self.dependencies == other.dependencies
    }

    pub fn new(
        transition: Option<Transition>,
        build_config: Vec<BuildOption>,
        partial_actions: Vec<String>,
        dependencies: Vec<Dependency>,
    ) -> (r: ActionRun)
        ensures
            r.wf(),
            r.transition == transition,
            r.build_config == build_config,
            r.partial_actions == partial_actions,
            r.dependencies == dependencies,
            r.resolutions@.len() == 0,
            forall|i: int| 0 <= i < r.awaited@.len() ==> #[trigger] r.awaited@[i],
            r.state == ActionState::New,
    {
        let mut awaited: Vec<bool> = Vec::new();
        while awaited.len() < dependencies.len()
            invariant
                awaited@.len() <= dependencies@.len(),
                forall|i: int| 0 <= i < awaited@.len() ==> #[trigger] awaited@[i],
            decreases dependencies@.len() - awaited@.len(),
        {
            awaited.push(true);
        }
        ActionRun {
            transition,
            build_config,
            partial_actions,
            dependencies,
            awaited,
            resolutions: Vec::new(),
            state: ActionState::New,
        }
    }

    /// Starts: with the target of a transition, under the changed options, or with the dependencies.
    pub fn start(&mut self) -> (r: ActionStep)
        requires
            old(self).wf(),
            old(self).state == ActionState::New,
        ensures
            final(self).wf(),
            final(self).same_query(*old(self)),
            final(self).awaited == old(self).awaited,
            final(self).resolutions == old(self).resolutions,
            match old(self).transition {
                Some(transition) => {
                    &&& final(self).state == ActionState::Transition
                    &&& r matches ActionStep::QueryOutput { label, build_config }
                    &&& label@ == transition.label@
                    &&& options_model(build_config@) == patched(
                        options_model(old(self).build_config@),
                        options_model(transition.changed_options@),
                    )
                },
                None => if old(self).dependencies@.len() == 0 {
                    r is QueryConcrete && final(self).state == ActionState::Concrete
                } else {
                    r is Resolve && final(self).state == ActionState::Resolving
                },
            },
    {
        match &self.transition {
            Some(transition) => {
                self.state = ActionState::Transition;
                let options = copy_options(&self.build_config);
                ActionStep::QueryOutput {
                    label: transition.label.clone(),
                    build_config: patch_build_config(options, &transition.changed_options),
                }
            },
            None => {
                if self.dependencies.len() == 0 {
                    self.state = ActionState::Concrete;
                    ActionStep::QueryConcrete
                } else {
                    self.state = ActionState::Resolving;
                    ActionStep::Resolve
                }
            },
        }
    }

    /// Ends a transition: its output is the whole output of the target. A path inside it is not
    /// supported.
    pub fn transition_done(&mut self, reference: Option<DepmapReference>) -> (r: ActionStep)
        requires
            old(self).state == ActionState::Transition,
            reference matches Some(d) ==> d.subpath is None,
        ensures
            final(self).same_query(*old(self)),
            final(self).awaited == old(self).awaited,
            final(self).resolutions == old(self).resolutions,
            final(self).state == ActionState::Ended,
            r == match reference {
                None => ActionStep::Fail(ActionQueryError::MissingTransitionOutput),
                Some(d) => ActionStep::Finish(ActionOutput { files: d.hash, stdout: None, stderr: None }),
            },
    {
        self.state = ActionState::Ended;
        match reference {
            None => ActionStep::Fail(ActionQueryError::MissingTransitionOutput),
            Some(d) => ActionStep::Finish(ActionOutput { files: d.hash, stdout: None, stderr: None }),
        }
    }

    /// How a dependency is resolved: where its files come from, and with which options they are made.
    pub fn plan(&self, i: usize) -> (r: (DependencySource, Vec<BuildOption>))
        requires
            i < self.dependencies@.len(),
        ensures
            r.0 == source_of(self.dependencies@[i as int], self.partial_actions@),
            options_model(r.1@) == match self.dependencies@[i as int].build_config {
                Some(options) => options_model(options@),
                None => options_model(self.build_config@),
            },
    {
        let dependency: &Dependency = &self.dependencies[i];
        let source = match &dependency.action_label {
            None => DependencySource::SourceFile,
            Some(label) => match find_name(&self.partial_actions, label.as_str()) {
                Some(place) => DependencySource::PartialAction(place),
                None => DependencySource::Output,
            },
        };
        let options = match &dependency.build_config {
            Some(options) => copy_options(options),
            None => copy_options(&self.build_config),
        };
        (source, options)
    }

    /// Goes on after a dependency was looked for. The first one that has no files fails the action.
    pub fn dependency_done(&mut self, i: usize, answer: DependencyAnswer) -> (r: ActionStep)
        requires
            old(self).wf(),
            old(self).state == ActionState::Resolving,
            i < old(self).dependencies@.len(),
            old(self).awaited@[i as int],
            answer is Files == source_of(old(self).dependencies@[i as int], old(self).partial_actions@) is PartialAction,
        ensures
            final(self).wf(),
            final(self).same_query(*old(self)),
            ({
                let dependency = old(self).dependencies@[i as int];
                match files_of(dependency, source_of(dependency, old(self).partial_actions@), answer) {
                    Err(e) => {
                        &&& r == ActionStep::Fail(e)
                        &&& final(self).state == ActionState::Ended
                        &&& final(self).awaited == old(self).awaited
                        &&& final(self).resolutions == old(self).resolutions
                    },
                    Ok(files) => {
                        &&& final(self).awaited@ == old(self).awaited@.update(i as int, false)
                        &&& final(self).resolutions@.len() == old(self).resolutions@.len() + 1
                        &&& final(self).resolutions@.drop_last() == old(self).resolutions@
                        &&& final(self).resolutions@.last().label@ == dependency.label@
                        &&& final(self).resolutions@.last().files == files
                        &&& if all_answered(final(self).awaited@) {
                            r is QueryConcrete && final(self).state == ActionState::Concrete
                        } else {
                            r is Wait && final(self).state == ActionState::Resolving
                        }
                    },
                }
            }),
    {
        let (source, _) = self.plan(i);
        let files: DepmapReference = match answer {
            DependencyAnswer::Files(files) => match &self.dependencies[i].action_path {
                Some(None) => {
                    self.state = ActionState::Ended;
                    return ActionStep::Fail(ActionQueryError::PathEscapesRoot);
                },
                Some(Some(path)) => DepmapReference { hash: files, subpath: Some(path.clone()) },
                None => DepmapReference { hash: files, subpath: None },
            },
            DependencyAnswer::Reference(Some(reference)) => reference,
            DependencyAnswer::Reference(None) => {
                self.state = ActionState::Ended;
                return match source {
                    DependencySource::SourceFile => ActionStep::Fail(ActionQueryError::NoSuchSource),
                    _ => ActionStep::Fail(ActionQueryError::MissingOutput),
                };
            },
        };
        let label: String = self.dependencies[i].label.clone();
        let ghost before = self.resolutions@;
        self.resolutions.push(Resolution { label, files });
        self.awaited.set(i, false);
        proof {
            assert(self.resolutions@.drop_last() =~= before);
        }
        let mut k: usize = 0;
        while k < self.awaited.len()
            invariant
                k <= self.awaited@.len(),
                forall|j: int| 0 <= j < k ==> !#[trigger] self.awaited@[j],
            ensures
                k < self.awaited@.len() ==> self.awaited@[k as int],
                forall|j: int| 0 <= j < k ==> !#[trigger] self.awaited@[j],
                k <= self.awaited@.len(),
            decreases self.awaited@.len() - k,
        {
            if self.awaited[k] {
                break ;
            }
            k += 1;
        }
        if k == self.awaited.len() {
            self.state = ActionState::Concrete;
            ActionStep::QueryConcrete
        } else {
            ActionStep::Wait
        }
    }

    /// The output of the concrete action is that of the action.
    pub fn concrete_done(&mut self, output: ActionOutput) -> (r: ActionStep)
        requires
            old(self).state == ActionState::Concrete,
        ensures
            final(self).same_query(*old(self)),
            final(self).awaited == old(self).awaited,
            final(self).resolutions == old(self).resolutions,
            final(self).state == ActionState::Ended,
            r == ActionStep::Finish(output),
    {
        self.state = ActionState::Ended;
        ActionStep::Finish(output)
    }
}

/// An action is made concrete only when each of its dependencies has files.
pub proof fn concrete_actions_are_resolved(run: ActionRun, i: int)
    requires
        run.wf(),
        all_answered(run.awaited@),
        0 <= i < run.dependencies@.len(),
    ensures
        resolved(run.resolutions@).contains_key(run.dependencies@[i].label@),
{
    assert(!run.awaited@[i]);
}

/// Which outputs of a process are replayed when its action is found in the cache.
#[derive(Clone, Copy, PartialEq, Eq, Structural, Debug)]
pub struct StdioPlan {
    pub stdout: bool,
    pub stderr: bool,
}

#[derive(Clone, Copy, PartialEq, Eq, Structural, Debug)]
pub enum Cacheability {
    Uncacheable,
    Private,
    Global,
}

/// What matters of a concrete action for how it runs.
#[derive(Clone, Copy, PartialEq, Eq, Structural, Debug)]
pub struct ConcreteAction {
    /// Whether the action runs a process.
    pub is_run: bool,
    pub hide_stdout: bool,
    pub hide_stderr: bool,
    pub cacheability: Cacheability,
}

/// What the run of a concrete action needs next.
#[derive(Clone, Copy, PartialEq, Eq, Structural, Debug)]
pub enum ConcreteStep {
    /// Look the files of the cached output up.
    LookupFiles,
    /// Open what the process printed, as far as it is replayed.
    OpenStdio(StdioPlan),
    /// Announce a hit in the cache and replay what the process printed: the cached output counts.
    Replay(StdioPlan),
    /// Run the action. Its start is announced here, where it does not announce it itself.
    Run { announce: bool },
    /// Write the output to the cache.
    WriteCache,
    /// The output of the run counts.
    Finish,
}

/// Of a cached output exactly that is replayed which the process of an action printed and which is not
/// hidden: each stream for itself, whatever the other holds.
pub proof fn shown_streams_are_replayed(action: ConcreteAction, has_stdout: bool, has_stderr: bool)
    ensures
        action.replayed(has_stdout, has_stderr).stdout <==> action.is_run && has_stdout && !action.hide_stdout,
        action.replayed(has_stdout, has_stderr).stderr <==> action.is_run && has_stderr && !action.hide_stderr,
{
}

/// The two streams of a process are treated alike: an action with the streams in each other's place
/// replays the same, in each other's place.
pub proof fn streams_are_treated_alike(action: ConcreteAction, has_stdout: bool, has_stderr: bool)
    ensures
        ({
            let swapped = ConcreteAction {
                hide_stdout: action.hide_stderr,
                hide_stderr: action.hide_stdout,
                ..action
            };
            let plan = action.replayed(has_stdout, has_stderr);
            swapped.replayed(has_stderr, has_stdout) == (StdioPlan { stdout: plan.stderr, stderr: plan.stdout })
        }),
{
}

/// An action that runs a process announces its start itself, and all others have it announced.
pub proof fn starts_are_announced_once(action: ConcreteAction)
    ensures
        action.run_step() matches ConcreteStep::Run { announce } && announce != action.is_run,
{
}

impl ConcreteAction {
    /// What is replayed of a cached output: what a process printed and is not hidden.
    pub open spec fn replayed(self, has_stdout: bool, has_stderr: bool) -> StdioPlan {
        StdioPlan {
            stdout: self.is_run && has_stdout && !self.hide_stdout,
            stderr: self.is_run && has_stderr && !self.hide_stderr,
        }
    }

    /// How the action is run: a process announces its start once it can start.
    pub open spec fn run_step(self) -> ConcreteStep {
        ConcreteStep::Run { announce: !self.is_run }
    }

    /// Starts after the cache was looked into for an output of the action.
    pub fn looked_up(&self, in_cache: bool) -> (r: ConcreteStep)
        ensures
            r == if in_cache {
                ConcreteStep::LookupFiles
            } else {
                self.run_step()
            },
    {
        if in_cache {
            ConcreteStep::LookupFiles
        } else {
            ConcreteStep::Run { announce: !self.is_run }
        }
    }

    /// Goes on after the files of a cached output were looked for. Where they are missing, the action
    /// runs again.
    pub fn files_looked_up(&self, found: bool, output: &ActionOutput) -> (r: ConcreteStep)
        ensures
            r == if !found {
                self.run_step()
            } else {
                let plan = self.replayed(output.stdout is Some, output.stderr is Some);
                if plan.stdout || plan.stderr {
                    ConcreteStep::OpenStdio(plan)
                } else {
                    ConcreteStep::Replay(plan)
                }
            },
            r is Run <==> !found,
            r matches ConcreteStep::OpenStdio(plan) ==> {
                &&& plan.stdout <==> self.is_run && output.stdout is Some && !self.hide_stdout
                &&& plan.stderr <==> self.is_run && output.stderr is Some && !self.hide_stderr
                &&& plan.stdout || plan.stderr
            },
            r matches ConcreteStep::Replay(plan) ==> {
                &&& !plan.stdout && !plan.stderr
                &&& !(self.is_run && output.stdout is Some && !self.hide_stdout)
                &&& !(self.is_run && output.stderr is Some && !self.hide_stderr)
            },
            r is Run || r is OpenStdio || r is Replay,
    {
        if !found {
            return ConcreteStep::Run { announce: !self.is_run };
        }
        let plan = StdioPlan {
            stdout: self.is_run && output.stdout.is_some() && !self.hide_stdout,
            stderr: self.is_run && output.stderr.is_some() && !self.hide_stderr,
        };
        if plan.stdout || plan.stderr {
            ConcreteStep::OpenStdio(plan)
        } else {
            ConcreteStep::Replay(plan)
        }
    }

    /// Goes on after what a process printed was looked for. All that is replayed must be there.
    pub fn stdio_opened(&self, plan: StdioPlan, stdout_found: bool, stderr_found: bool) -> (r: ConcreteStep)
        ensures
            r == if (plan.stdout ==> stdout_found) && (plan.stderr ==> stderr_found) {
                ConcreteStep::Replay(plan)
            } else {
                self.run_step()
            },
    {
        if (!plan.stdout || stdout_found) && (!plan.stderr || stderr_found) {
            ConcreteStep::Replay(plan)
        } else {
            ConcreteStep::Run { announce: !self.is_run }
        }
    }

    /// Goes on after the action ran. Its output is kept unless it must not be.
    pub fn ran(&self) -> (r: ConcreteStep)
        ensures
            r == if self.cacheability == Cacheability::Uncacheable {
                ConcreteStep::Finish
            } else {
                ConcreteStep::WriteCache
            },
    {
        match self.cacheability {
            Cacheability::Uncacheable => ConcreteStep::Finish,
            _ => ConcreteStep::WriteCache,
        }
    }
}

/// A transition changes no option that it does not name, and sets none.
pub proof fn transitions_leave_other_options(
    options: Seq<(Seq<char>, Seq<char>)>,
    changed: Seq<(Seq<char>, Seq<char>)>,
    o: (Seq<char>, Seq<char>),
)
    requires
        forall|k: int| 0 <= k < changed.len() ==> (#[trigger] changed[k]).0 != o.0,
    ensures
        patched(options, changed).contains(o) <==> options.contains(o),
    decreases changed.len(),
{
    broadcast use vstd::seq_lib::group_filter_ensures;

    if changed.len() > 0 {
        let earlier = changed.drop_last();
        let last = changed.last();
        assert(changed[changed.len() - 1].0 != o.0);
        assert forall|k: int| 0 <= k < earlier.len() implies (#[trigger] earlier[k]).0 != o.0 by {
            assert(changed[k].0 != o.0);
        }
        transitions_leave_other_options(options, earlier, o);
        let before = patched(options, earlier);
        let keep = |x: (Seq<char>, Seq<char>)| x.0 != last.0;
        let kept = without_key(before, last.0);
        let all = patched(options, changed);
        assert(all == kept.push(last));
        if before.contains(o) {
            let p = choose|p: int| 0 <= p < before.len() && before[p] == o;
            assert(keep(before[p]));
            before.lemma_filter_contains(keep, p);
            let i = choose|i: int| 0 <= i < kept.len() && kept[i] == o;
            assert(all[i] == o);
        }
        if all.contains(o) {
            let i = choose|i: int| 0 <= i < all.len() && all[i] == o;
            assert(i < kept.len());
            assert(kept[i] == o);
            before.lemma_filter_contains_rev(keep, o);
        }
    }
}

/// Options are told one by one, each with its key and value.
pub proof fn options_are_told_one_by_one(options: Seq<BuildOption>)
    ensures
        options_model(options).len() == options.len(),
        forall|i: int|
            0 <= i < options.len() ==> #[trigger] options_model(options)[i] == (options[i].key@, options[i].value@),
{
}

/// What was resolved last for a label counts, and nothing is resolved for a label that was not asked for.
pub proof fn last_resolutions_count(items: Seq<Resolution>, item: Resolution, label: Seq<char>)
    ensures
        !resolved(Seq::empty()).contains_key(label),
        resolved(items.push(item)).contains_key(item.label@),
        resolved(items.push(item))[item.label@] == item.files,
        label != item.label@ ==> resolved(items.push(item)).contains_key(label) == resolved(items).contains_key(label)
            && resolved(items.push(item))[label] == resolved(items)[label],
{
    assert(items.push(item).drop_last() =~= items);
}

/// The files of a dependency come from the sources where no action makes them, from the analysis that is under
/// way where it knows the action, and are built otherwise.
pub proof fn dependencies_come_from_what_makes_them(dependency: Dependency, partial_actions: Seq<String>)
    requires
        partial_actions.len() <= usize::MAX,
    ensures
        source_of(dependency, partial_actions) == DependencySource::SourceFile <==> dependency.action_label is None,
        dependency.action_label matches Some(label) ==> match source_of(dependency, partial_actions) {
            DependencySource::PartialAction(i) => {
                &&& i < partial_actions.len()
                &&& partial_actions[i as int]@ == label@
                &&& forall|j: int| 0 <= j < i ==> (#[trigger] partial_actions[j])@ != label@
            },
            DependencySource::Output => forall|j: int|
                0 <= j < partial_actions.len() ==> (#[trigger] partial_actions[j])@ != label@,
            DependencySource::SourceFile => false,
        },
{
    if let Some(label) = dependency.action_label {
        let names = name_set::texts(partial_actions);
        name_set::places_are_the_first(names, label@);
        assert forall|j: int| 0 <= j < names.len() implies names[j] == (#[trigger] partial_actions[j])@ by {}
    }
}

/// A dependency has the files that were found: those of an action with the path behind it, or the reference as
/// it is. One without files fails, as a source or as an output.
pub proof fn dependencies_have_what_was_found(
    dependency: Dependency,
    source: DependencySource,
    files: Vec<u8>,
    reference: DepmapReference,
)
    ensures
        files_of(dependency, source, DependencyAnswer::Files(files)) == match dependency.action_path {
            Some(None) => Err::<DepmapReference, ActionQueryError>(ActionQueryError::PathEscapesRoot),
            Some(path) => Ok(DepmapReference { hash: files, subpath: path }),
            None => Ok(DepmapReference { hash: files, subpath: None }),
        },
        files_of(dependency, source, DependencyAnswer::Reference(Some(reference))) == Ok::<
            DepmapReference,
            ActionQueryError,
        >(reference),
        files_of(dependency, DependencySource::SourceFile, DependencyAnswer::Reference(None)) == Err::<
            DepmapReference,
            ActionQueryError,
        >(ActionQueryError::NoSuchSource),
        source != DependencySource::SourceFile ==> files_of(dependency, source, DependencyAnswer::Reference(None))
            == Err::<DepmapReference, ActionQueryError>(ActionQueryError::MissingOutput),
{
}

/// Everything is answered where nothing is awaited, and the query of a run stays what it was.
pub proof fn runs_await_what_is_not_answered(awaited: Seq<bool>, i: int, a: ActionRun, b: ActionRun)
    ensures
        all_answered(awaited) && 0 <= i < awaited.len() ==> !awaited[i],
        (forall|j: int| 0 <= j < awaited.len() ==> !#[trigger] awaited[j]) ==> all_answered(awaited),
        a.same_query(b) <==> a.transition == b.transition && a.build_config == b.build_config && a.partial_actions
            == b.partial_actions && a.dependencies == b.dependencies,
{
}

/// Setting an option takes out all with its key, leaves the others in their order, and puts it at the end.
pub proof fn options_are_set_at_the_end(
    options: Seq<(Seq<char>, Seq<char>)>,
    changed: Seq<(Seq<char>, Seq<char>)>,
    o: (Seq<char>, Seq<char>),
    key: Seq<char>,
)
    ensures
        patched(options, Seq::empty()) == options,
        patched(options, changed.push(o)) == without_key(patched(options, changed), o.0).push(o),
        without_key(Seq::empty(), key) == Seq::<(Seq<char>, Seq<char>)>::empty(),
        without_key(options.push(o), key) == if o.0 == key {
            without_key(options, key)
        } else {
            without_key(options, key).push(o)
        },
{
    reveal(Seq::filter);
    assert(changed.push(o).drop_last() =~= changed);
    assert(options.push(o).drop_last() =~= options);
    assert(without_key(Seq::empty(), key) =~= Seq::<(Seq<char>, Seq<char>)>::empty());
}

} // verus!
