//! Running an executable for a client: finding it among the providers of a target, finding the
//! platform that it runs on, building the files of both, and putting its path together.
//!
//! Analyzing and building is done outside. Each method of a run takes the answer to what was asked for
//! last, and says what to ask for next.

use vstd::prelude::*;

use crate::base::text::{self, chars_of};
use crate::graph::action_query::{self, resolution_of, Resolution};
use crate::graph::output_query::{self, DepmapReference};
use crate::graph::target_query::{self, find_provider, Reference};

verus! {

/// A provider of a target: what defines it, and the name of the executable that it stands for.
pub struct ProvidedExecutable {
    pub reference: Reference,
    pub name: Option<String>,
}

/// An executable: its path and the files that it needs.
pub struct Executable {
    pub executable_path: String,
    pub context: Option<String>,
}

/// The platform on which executables run: the files of the system, and where the files of the
/// executable go.
pub struct LinuxPlatform {
    pub execution_sysroot: String,
    pub execution_sysroot_exec_context_dest: String,
}

#[derive(Clone, Copy, PartialEq, Eq, Structural, Debug)]
pub enum RunError {
    /// The target has no executable with the wanted name.
    NoSuchExecutable,
    /// The target that stands for the platform does not provide it.
    NoSuchProvider,
}

/// The file of rules that defines executables and platforms.
pub open spec fn exec_rules() -> Seq<char> {
    "@com.cealn.builtin//:exec.py"@
}

/// Whether a provider is the executable with a name.
pub open spec fn is_executable(p: ProvidedExecutable, name: Seq<char>) -> bool {
    &&& p.reference.source_label@ == exec_rules()
    &&& p.reference.qualname@ == "Executable"@
    &&& p.name matches Some(n) && n@ == name
}

/// The place of the first provider that is the executable with a name.
pub fn find_executable(providers: &Vec<ProvidedExecutable>, name: &str) -> (r: Result<usize, RunError>)
    ensures
        match r {
            Ok(i) => {
                &&& i < providers@.len()
                &&& is_executable(providers@[i as int], name@)
                &&& forall|j: int|
                    0 <= j < i ==> !is_executable(#[trigger] providers@[j], name@)
            },
            Err(e) => e == RunError::NoSuchExecutable && forall|j: int|
                0 <= j < providers@.len() ==> !is_executable(#[trigger] providers@[j], name@),
        },
{
    let mut i: usize = 0;
    while i < providers.len()
        invariant
            i <= providers@.len(),
            forall|j: int| 0 <= j < i ==> !is_executable(#[trigger] providers@[j], name@),
        decreases providers@.len() - i,
    {
        let p = &providers[i];
        let named = match &p.name {
            Some(n) => text::equal(n.as_str(), name),
            None => false,
        };
        if named && text::equal(p.reference.source_label.as_str(), "@com.cealn.builtin//:exec.py")
            && text::equal(p.reference.qualname.as_str(), "Executable") {
            return Ok(i);
        }
        i += 1;
    }
    Err(RunError::NoSuchExecutable)
}

/// Whether a reference stands for the platform of this machine.
pub open spec fn is_platform(reference: Reference) -> bool {
    reference.source_label@ == exec_rules() && reference.qualname@ == "LinuxExecutePlatform"@
}

/// What stands for the platform of this machine.
pub fn platform_reference() -> (r: Reference)
    ensures
        is_platform(r),
{
    Reference {
        source_label: "@com.cealn.builtin//:exec.py".to_owned(),
        qualname: "LinuxExecutePlatform".to_owned(),
    }
}

/// The place of the platform: among the providers that a workspace names targets for, or among those of
/// the target that stands for it.
pub fn find_platform(providers: &Vec<Reference>) -> (r: Result<usize, RunError>)
    ensures
        match r {
            Ok(i) => {
                &&& i < providers@.len()
                &&& is_platform(providers@[i as int])
                &&& forall|j: int| 0 <= j < i ==> !is_platform(#[trigger] providers@[j])
            },
            Err(e) => e == RunError::NoSuchProvider && forall|j: int|
                0 <= j < providers@.len() ==> !is_platform(#[trigger] providers@[j]),
        },
{
    let wanted = platform_reference();
    match find_provider(providers, &wanted) {
        Some(i) => {
            proof {
                assert(target_query::same_reference(providers@[i as int], wanted));
                assert forall|j: int| 0 <= j < i implies !is_platform(#[trigger] providers@[j]) by {
                    assert(!target_query::same_reference(providers@[j], wanted));
                }
            }
            Ok(i)
        },
        None => {
            proof {
                assert forall|j: int| 0 <= j < providers@.len() implies !is_platform(
                    #[trigger] providers@[j],
                ) by {
                    assert(!target_query::same_reference(providers@[j], wanted));
                }
            }
            Err(RunError::NoSuchProvider)
        },
    }
}

/// The labels of the files that are built before an executable runs: those of the executable, where
/// it has any, and those of the system.
pub fn source_depmaps(executable: &Executable, platform: &LinuxPlatform) -> (r: Vec<String>)
    ensures
        match executable.context {
            Some(context) => r@.len() == 2 && r@[0]@ == context@ && r@[1]@
                == platform.execution_sysroot@,
            None => r@.len() == 1 && r@[0]@ == platform.execution_sysroot@,
        },
{
    let mut labels: Vec<String> = Vec::new();
    match &executable.context {
        Some(context) => {
            labels.push(context.clone());
        },
        None => {},
    }
    labels.push(platform.execution_sysroot.clone());
    labels
}

/// The files of an executable and of the system.
pub struct ConcreteFiles {
    pub context: Option<DepmapReference>,
    pub execution_sysroot: DepmapReference,
}

fn copy_reference(d: &DepmapReference) -> (r: DepmapReference)
    ensures
        r.hash@ == d.hash@,
        output_query::optional_text(r.subpath) == output_query::optional_text(d.subpath),
{
    let mut hash: Vec<u8> = Vec::new();
    hash.extend_from_slice(d.hash.as_slice());
    assert(hash@ =~= d.hash@);
    let subpath = match &d.subpath {
        Some(path) => Some(path.clone()),
        None => None,
    };
    DepmapReference { hash, subpath }
}

pub open spec fn same_files(a: DepmapReference, b: DepmapReference) -> bool {
    a.hash@ == b.hash@ && output_query::optional_text(a.subpath) == output_query::optional_text(
        b.subpath,
    )
}

/// The files of an executable and of the system, once they were built. Where both have the same
/// label, they have the same files.
fn concrete_files(
    executable: &Executable,
    platform: &LinuxPlatform,
    resolutions: &Vec<Resolution>,
) -> (r: ConcreteFiles)
    requires
        executable.context matches Some(context) ==> action_query::resolved(
            resolutions@,
        ).contains_key(context@),
        action_query::resolved(resolutions@).contains_key(platform.execution_sysroot@),
    ensures
        same_files(
            r.execution_sysroot,
            action_query::resolved(resolutions@)[platform.execution_sysroot@],
        ),
        match (executable.context, r.context) {
            (Some(context), Some(files)) => same_files(
                files,
                action_query::resolved(resolutions@)[context@],
            ),
            (None, None) => true,
            _ => false,
        },
{
    let context = match &executable.context {
        Some(context) => match resolution_of(resolutions, context.as_str()) {
            Some(i) => Some(copy_reference(&resolutions[i].files)),
            None => None,
        },
        None => None,
    };
    let execution_sysroot = match resolution_of(resolutions, platform.execution_sysroot.as_str()) {
        Some(i) => copy_reference(&resolutions[i].files),
        None => DepmapReference { hash: Vec::new(), subpath: None },
    };
    ConcreteFiles { context, execution_sysroot }
}

/// The files of an executable and of the system, from the outputs of their labels in the order in
/// which they were asked for.
pub fn built_files(
    executable: &Executable,
    platform: &LinuxPlatform,
    outputs: Vec<DepmapReference>,
) -> (r: ConcreteFiles)
    requires
        outputs@.len() == if executable.context is Some {
            2int
        } else {
            1
        },
    ensures
        same_files(r.execution_sysroot, outputs@.last()),
        match (executable.context, r.context) {
            (Some(context), Some(files)) => same_files(
                files,
                if context@ == platform.execution_sysroot@ {
                    outputs@[1]
                } else {
                    outputs@[0]
                },
            ),
            (None, None) => true,
            _ => false,
        },
{
    let labels = source_depmaps(executable, platform);
    let ghost start = outputs@;
    let mut resolutions: Vec<Resolution> = Vec::new();
    let count: usize = labels.len();
    let mut i: usize = 0;
    for files in it: outputs
        invariant
            it.seq() == start,
            count == labels@.len(),
            labels@.len() == start.len(),
            i == it.index(),
            resolutions@.len() == i,
            forall|k: int|
                0 <= k < i ==> (#[trigger] resolutions@[k]).label@ == labels@[k]@
                    && resolutions@[k].files == start[k],
    {
        resolutions.push(Resolution { label: labels[i].clone(), files });
        i += 1;
    }
    proof {
        reveal_with_fuel(action_query::resolved, 3);
        let items = resolutions@;
        assert(items.drop_last().len() == items.len() - 1);
        if items.len() == 2 {
            assert(items.drop_last()[0] == items[0]);
        }
    }
    concrete_files(executable, platform, &resolutions)
}

/// A text with every occurrence of a pattern replaced, from left to right.
pub open spec fn replaced(s: Seq<char>, pattern: Seq<char>, with: Seq<char>) -> Seq<char>
    decreases s.len(),
{
    if pattern.len() == 0 || s.len() < pattern.len() {
        s
    } else if s.take(pattern.len() as int) == pattern {
        with + replaced(s.skip(pattern.len() as int), pattern, with)
    } else {
        seq![s[0]] + replaced(s.drop_first(), pattern, with)
    }
}

fn matches_at(s: &Vec<char>, at: usize, pattern: &Vec<char>) -> (r: bool)
    requires
        at + pattern@.len() <= s@.len(),
    ensures
        r == (s@.subrange(at as int, at + pattern@.len()) == pattern@),
{
    let total: usize = s.len();
    let mut i: usize = 0;
    while i < pattern.len()
        invariant
            total == s@.len(),
            at + pattern@.len() <= total,
            i <= pattern@.len(),
            forall|j: int| 0 <= j < i ==> s@[at + j] == pattern@[j],
        decreases pattern@.len() - i,
    {
        if s[at + i] != pattern[i] {
            assert(s@.subrange(at as int, at + pattern@.len())[i as int] != pattern@[i as int]);
            return false;
        }
        i += 1;
    }
    assert(s@.subrange(at as int, at + pattern@.len()) =~= pattern@);
    true
}

/// Replaces every occurrence of a pattern that is not empty.
pub fn replace_all(s: &str, pattern: &str, with: &str) -> (r: String)
    requires
        pattern@.len() > 0,
    ensures
        r@ == replaced(s@, pattern@, with@),
{
    let chars = chars_of(s);
    let p = chars_of(pattern);
    let total: usize = chars.len();
    let mut out: String = String::new();
    let mut i: usize = 0;
    proof {
        assert(s@.skip(0) =~= s@);
        assert(out@ + replaced(s@, pattern@, with@) =~= replaced(s@, pattern@, with@));
    }
    while i < total
        invariant
            chars@ == s@,
            p@ == pattern@,
            total == s@.len(),
            pattern@.len() > 0,
            i <= total,
            replaced(s@, pattern@, with@) == out@ + replaced(s@.skip(i as int), pattern@, with@),
        decreases total - i,
    {
        let ghost rest = s@.skip(i as int);
        let ghost before = out@;
        if p.len() <= total - i && matches_at(&chars, i, &p) {
            proof {
                assert(rest.take(pattern@.len() as int) =~= s@.subrange(
                    i as int,
                    i + pattern@.len(),
                ));
                assert(rest.skip(pattern@.len() as int) =~= s@.skip(i + pattern@.len()));
            }
            out.append(with);
            i = i + p.len();
            assert(before + (with@ + replaced(s@.skip(i as int), pattern@, with@)) =~= out@
                + replaced(s@.skip(i as int), pattern@, with@));
        } else {
            proof {
                if pattern@.len() <= total - i {
                    assert(rest.take(pattern@.len() as int) =~= s@.subrange(
                        i as int,
                        i + pattern@.len(),
                    ));
                } else {
                    assert(rest.drop_first().len() < pattern@.len());
                    assert(rest =~= seq![rest[0]] + rest.drop_first());
                }
                assert(rest.drop_first() =~= s@.skip(i + 1));
            }
            out.push(chars[i]);
            i += 1;
            assert(before + (seq![s@[i - 1]] + replaced(s@.skip(i as int), pattern@, with@)) =~= out@
                + replaced(s@.skip(i as int), pattern@, with@));
        }
    }
    assert(s@.skip(total as int) =~= Seq::<char>::empty());
    assert(out@ + Seq::<char>::empty() =~= out@);
    out
}

/// The path of an executable on its platform.
pub open spec fn completed_path(executable: Executable, platform: LinuxPlatform) -> Seq<char> {
    replaced(
        executable.executable_path@,
        "%[execdir]"@,
        platform.execution_sysroot_exec_context_dest@,
    )
}

/// The path of an executable on its platform: where it speaks of the directory of its files, that
/// directory is put in.
pub fn executable_path(executable: &Executable, platform: &LinuxPlatform) -> (r: String)
    ensures
        r@ == completed_path(*executable, *platform),
{
    proof {
        reveal_strlit("%[execdir]");
    }
    replace_all(
        executable.executable_path.as_str(),
        "%[execdir]",
        platform.execution_sysroot_exec_context_dest.as_str(),
    )
}

/// What running an executable needs next.
pub enum RunStep {
    /// Analyze a target.
    Analyze(String),
    /// Load the executable from the provider at a place.
    LoadExecutable(usize),
    /// Query the root workspace.
    QueryRootWorkspace,
    /// Load the platform from the provider at a place.
    LoadPlatform(usize),
    /// Build targets. The first error ends the run.
    Build(Vec<String>),
    /// Put the files in place.
    Prepare(ConcreteFiles),
    /// Tell the client the path of the executable.
    Announce(String),
    Fail(RunError),
}

/// What running an executable waits for.
pub enum RunState {
    Analyzing,
    LoadingExecutable,
    QueryingWorkspace { executable: Executable },
    AnalyzingPlatform { executable: Executable },
    LoadingPlatform { executable: Executable },
    Building { executable: Executable, platform: LinuxPlatform },
    Preparing { executable_path: String },
    Ended,
}

/// Running the executable with a name.
pub struct ExecutableRun {
    pub executable_name: String,
    pub state: RunState,
}

impl ExecutableRun {
    /// Starts with the target that provides the executable.
    pub fn new(target: String, executable_name: String) -> (r: (ExecutableRun, RunStep))
        ensures
            r.0.executable_name == executable_name,
            r.0.state is Analyzing,
            r.1 == RunStep::Analyze(target),
    {
        (ExecutableRun { executable_name, state: RunState::Analyzing }, RunStep::Analyze(target))
    }

    /// What the run waits for, which it does no more.
    fn take(&mut self) -> (r: RunState)
        ensures
            r == old(self).state,
            final(self).state is Ended,
            final(self).executable_name == old(self).executable_name,
    {
        let mut taken = RunState::Ended;
        core::mem::swap(&mut self.state, &mut taken);
        taken
    }

    /// Goes on with the providers of the target: the first executable with the name counts.
    pub fn analyzed(&mut self, providers: &Vec<ProvidedExecutable>) -> (r: RunStep)
        requires
            old(self).state is Analyzing,
        ensures
            final(self).executable_name == old(self).executable_name,
            match r {
                RunStep::LoadExecutable(i) => {
                    &&& final(self).state is LoadingExecutable
                    &&& i < providers@.len()
                    &&& is_executable(providers@[i as int], old(self).executable_name@)
                    &&& forall|j: int|
                        0 <= j < i ==> !is_executable(
                            #[trigger] providers@[j],
                            old(self).executable_name@,
                        )
                },
                RunStep::Fail(e) => {
                    &&& final(self).state is Ended
                    &&& e == RunError::NoSuchExecutable
                    &&& forall|j: int|
                        0 <= j < providers@.len() ==> !is_executable(
                            #[trigger] providers@[j],
                            old(self).executable_name@,
                        )
                },
                _ => false,
            },
    {
        match find_executable(providers, self.executable_name.as_str()) {
            Ok(i) => {
                self.state = RunState::LoadingExecutable;
                RunStep::LoadExecutable(i)
            },
            Err(e) => {
                self.state = RunState::Ended;
                RunStep::Fail(e)
            },
        }
    }

    /// Goes on with the executable: with the target that the root workspace names for the platform.
    pub fn executable_loaded(&mut self, executable: Executable) -> (r: RunStep)
        requires
            old(self).state is LoadingExecutable,
        ensures
            final(self).executable_name == old(self).executable_name,
            final(self).state == (RunState::QueryingWorkspace { executable }),
            r is QueryRootWorkspace,
    {
        self.state = RunState::QueryingWorkspace { executable };
        RunStep::QueryRootWorkspace
    }

    /// Goes on with the target that is named first for the platform. `targets` are the targets that the
    /// workspace names for `provided`, and one must be for the platform.
    pub fn workspace_queried(&mut self, provided: &Vec<Reference>, targets: &Vec<String>) -> (r: RunStep)
        requires
            old(self).state is QueryingWorkspace,
            provided@.len() == targets@.len(),
            exists|i: int| 0 <= i < provided@.len() && is_platform(#[trigger] provided@[i]),
        ensures
            final(self).executable_name == old(self).executable_name,
            old(self).state matches RunState::QueryingWorkspace { executable } && final(self).state == (
            RunState::AnalyzingPlatform { executable }),
            r matches RunStep::Analyze(target) && exists|i: int|
                {
                    &&& 0 <= i < provided@.len()
                    &&& is_platform(#[trigger] provided@[i])
                    &&& target@ == targets@[i]@
                    &&& forall|j: int| 0 <= j < i ==> !is_platform(#[trigger] provided@[j])
                },
    {
        match (self.take(), find_platform(provided)) {
            (RunState::QueryingWorkspace { executable }, Ok(i)) => {
                self.state = RunState::AnalyzingPlatform { executable };
                let target = targets[i].clone();
                assert(is_platform(provided@[i as int]));
                RunStep::Analyze(target)
            },
            (_, _) => RunStep::QueryRootWorkspace,
        }
    }

    /// Goes on with the providers of the target that stands for the platform.
    pub fn platform_analyzed(&mut self, providers: &Vec<Reference>) -> (r: RunStep)
        requires
            old(self).state is AnalyzingPlatform,
        ensures
            final(self).executable_name == old(self).executable_name,
            match r {
                RunStep::LoadPlatform(i) => {
                    &&& old(self).state matches RunState::AnalyzingPlatform { executable }
                    &&& final(self).state == (RunState::LoadingPlatform { executable })
                    &&& i < providers@.len()
                    &&& is_platform(providers@[i as int])
                    &&& forall|j: int| 0 <= j < i ==> !is_platform(#[trigger] providers@[j])
                },
                RunStep::Fail(e) => {
                    &&& final(self).state is Ended
                    &&& e == RunError::NoSuchProvider
                    &&& forall|j: int| 0 <= j < providers@.len() ==> !is_platform(#[trigger] providers@[j])
                },
                _ => false,
            },
    {
        match (self.take(), find_platform(providers)) {
            (RunState::AnalyzingPlatform { executable }, Ok(i)) => {
                self.state = RunState::LoadingPlatform { executable };
                RunStep::LoadPlatform(i)
            },
            (_, Err(e)) => RunStep::Fail(e),
            (_, Ok(_)) => RunStep::QueryRootWorkspace,
        }
    }

    /// Goes on with the platform: the files of the executable and of the system are built.
    pub fn platform_loaded(&mut self, platform: LinuxPlatform) -> (r: RunStep)
        requires
            old(self).state is LoadingPlatform,
        ensures
            final(self).executable_name == old(self).executable_name,
            old(self).state matches RunState::LoadingPlatform { executable } && {
                &&& final(self).state == (RunState::Building { executable, platform })
                &&& r matches RunStep::Build(labels)
                &&& match executable.context {
                    Some(context) => labels@.len() == 2 && labels@[0]@ == context@ && labels@[1]@
                        == platform.execution_sysroot@,
                    None => labels@.len() == 1 && labels@[0]@ == platform.execution_sysroot@,
                }
            },
    {
        match self.take() {
            RunState::LoadingPlatform { executable } => {
                let labels = source_depmaps(&executable, &platform);
                self.state = RunState::Building { executable, platform };
                RunStep::Build(labels)
            },
            _ => RunStep::QueryRootWorkspace,
        }
    }

    /// How many outputs a run waits for: one for each target that is built.
    pub open spec fn awaited_outputs(self) -> int {
        match self.state {
            RunState::Building { executable, .. } => if executable.context is Some {
                2
            } else {
                1
            },
            _ => 0,
        }
    }

    /// Goes on with the outputs of the targets, in their order.
    pub fn built(&mut self, outputs: Vec<DepmapReference>) -> (r: RunStep)
        requires
            old(self).state is Building,
            outputs@.len() == old(self).awaited_outputs(),
        ensures
            final(self).executable_name == old(self).executable_name,
            old(self).state matches RunState::Building { executable, platform } && {
                &&& final(self).state matches RunState::Preparing { executable_path }
                &&& executable_path@ == completed_path(executable, platform)
                &&& r matches RunStep::Prepare(files)
                &&& same_files(files.execution_sysroot, outputs@.last())
                &&& match (executable.context, files.context) {
                    (Some(context), Some(context_files)) => same_files(
                        context_files,
                        if context@ == platform.execution_sysroot@ {
                            outputs@[1]
                        } else {
                            outputs@[0]
                        },
                    ),
                    (None, None) => true,
                    _ => false,
                }
            },
    {
        match self.take() {
            RunState::Building { executable, platform } => {
                let files = built_files(&executable, &platform, outputs);
                let executable_path = executable_path(&executable, &platform);
                self.state = RunState::Preparing { executable_path };
                RunStep::Prepare(files)
            },
            _ => RunStep::QueryRootWorkspace,
        }
    }

    /// Ends when the files are in place: the client is told the path of the executable.
    pub fn prepared(&mut self) -> (r: RunStep)
        requires
            old(self).state is Preparing,
        ensures
            final(self).executable_name == old(self).executable_name,
            final(self).state is Ended,
            old(self).state matches RunState::Preparing { executable_path } && r == RunStep::Announce(
                executable_path,
            ),
    {
        match self.take() {
            RunState::Preparing { executable_path } => RunStep::Announce(executable_path),
            _ => RunStep::QueryRootWorkspace,
        }
    }
}

/// A provider is the wanted executable exactly where the built-in rules define it as an executable, and it has
/// the wanted name.
pub proof fn executables_are_known_by_rule_and_name(p: ProvidedExecutable, name: Seq<char>)
    ensures
        is_executable(p, name) <==> p.reference.source_label@ == "@com.cealn.builtin//:exec.py"@
            && p.reference.qualname@ == "Executable"@ && p.name is Some && p.name->0@ == name,
{
}

/// A provider is the platform exactly where the built-in rules define it as that of this machine.
pub proof fn platforms_are_known_by_rule(reference: Reference)
    ensures
        is_platform(reference) <==> reference.source_label@ == "@com.cealn.builtin//:exec.py"@
            && reference.qualname@ == "LinuxExecutePlatform"@,
{
}

/// Files are the same where the hash of the tree and the path in it are.
pub proof fn files_are_the_same_by_hash_and_path(a: DepmapReference, b: DepmapReference)
    ensures
        same_files(a, b) <==> a.hash@ == b.hash@ && match (a.subpath, b.subpath) {
            (Some(x), Some(y)) => x@ == y@,
            (None, None) => true,
            _ => false,
        },
{
}

/// Text in which the pattern does not occur stays.
pub proof fn text_without_the_pattern_stays(s: Seq<char>, pattern: Seq<char>, with: Seq<char>)
    requires
        pattern.len() > 0,
        forall|i: int| 0 <= i && i + pattern.len() <= s.len() ==> #[trigger] s.skip(i).take(pattern.len() as int) != pattern,
    ensures
        replaced(s, pattern, with) == s,
    decreases s.len(),
{
    let p = pattern.len() as int;
    if s.len() >= p {
        assert(s.skip(0).take(p) =~= s.take(p));
        let rest = s.drop_first();
        assert forall|i: int| 0 <= i && i + p <= rest.len() implies #[trigger] rest.skip(i).take(p) != pattern by {
            assert(rest.skip(i).take(p) =~= s.skip(i + 1).take(p));
        }
        text_without_the_pattern_stays(rest, pattern, with);
        assert(seq![s[0]] + rest =~= s);
    }
}

/// The first place where the pattern occurs is replaced, all before it stays, and so on with what follows.
pub proof fn first_occurrences_are_replaced(
    before: Seq<char>,
    after: Seq<char>,
    pattern: Seq<char>,
    with: Seq<char>,
)
    requires
        pattern.len() > 0,
        forall|i: int|
            0 <= i < before.len() ==> #[trigger] (before + pattern + after).skip(i).take(pattern.len() as int)
                != pattern,
    ensures
        replaced(before + pattern + after, pattern, with) == before + with + replaced(after, pattern, with),
    decreases before.len(),
{
    let p = pattern.len() as int;
    let s = before + pattern + after;
    if before.len() == 0 {
        assert(s.take(p) =~= pattern);
        assert(s.skip(p) =~= after);
        assert(before + with + replaced(after, pattern, with) =~= with + replaced(after, pattern, with));
    } else {
        assert(s.skip(0).take(p) =~= s.take(p));
        let rest = before.drop_first();
        assert(s.drop_first() =~= rest + pattern + after);
        assert forall|i: int| 0 <= i < rest.len() implies #[trigger] (rest + pattern + after).skip(i).take(p)
            != pattern by {
            assert((rest + pattern + after).skip(i).take(p) =~= s.skip(i + 1).take(p));
        }
        first_occurrences_are_replaced(rest, after, pattern, with);
        assert(seq![s[0]] + (rest + with + replaced(after, pattern, with)) =~= before + with + replaced(
            after,
            pattern,
            with,
        ));
    }
}

/// The path of an executable has the directory of its files in place of the words for it.
pub proof fn paths_name_the_directory_of_the_files(executable: Executable, platform: LinuxPlatform)
    ensures
        completed_path(executable, platform) == replaced(
            executable.executable_path@,
            "%[execdir]"@,
            platform.execution_sysroot_exec_context_dest@,
        ),
{
}

/// A run that builds waits for the files of the system, and for those of the executable where it has any.
pub proof fn builds_wait_for_all_files(run: ExecutableRun)
    ensures
        match run.state {
            RunState::Building { executable, .. } => run.awaited_outputs() == if executable.context is Some {
                2int
            } else {
                1
            },
            _ => run.awaited_outputs() == 0,
        },
{
}

} // verus!
