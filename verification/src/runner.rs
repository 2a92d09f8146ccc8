//! Decisions of the self-hosted runner commands: the architecture a runner
//! gets, how an update merges its instance shape and name, and when a
//! delete may proceed without asking.

use vstd::prelude::*;

use crate::text::{owned, push_all, texts_equal};

verus! {

/// The operating system asked for.
#[derive(Debug, Clone, Copy, PartialEq, Eq, Structural)]
pub enum RunnerOsArg {
    Linux,
    Macos,
}

/// The architecture asked for; `Auto` takes the operating system's default.
#[derive(Debug, Clone, Copy, PartialEq, Eq, Structural)]
pub enum RunnerArchArg {
    Auto,
    X8664,
    Aarch64,
}

/// A runner's architecture.
#[derive(Debug, Clone, Copy, PartialEq, Eq, Structural)]
pub enum RunnerArch {
    X8664,
    Aarch64,
}

/// The architecture of a runner: the one asked for, or the operating
/// system's default (x86-64 on Linux, Apple silicon on macOS).
pub fn resolve_arch(arch: RunnerArchArg, os: RunnerOsArg) -> (r: RunnerArch)
    ensures
        r == match arch {
            RunnerArchArg::X8664 => RunnerArch::X8664,
            RunnerArchArg::Aarch64 => RunnerArch::Aarch64,
            RunnerArchArg::Auto => match os {
                RunnerOsArg::Linux => RunnerArch::X8664,
                RunnerOsArg::Macos => RunnerArch::Aarch64,
            },
        },
{
    match arch {
        RunnerArchArg::X8664 => RunnerArch::X8664,
        RunnerArchArg::Aarch64 => RunnerArch::Aarch64,
        RunnerArchArg::Auto => match os {
            RunnerOsArg::Linux => RunnerArch::X8664,
            RunnerOsArg::Macos => RunnerArch::Aarch64,
        },
    }
}

/// Why a runner command was refused.
#[derive(Debug, PartialEq, Eq)]
pub enum RunnerError {
    /// Only one of vCPUs and memory was given for a runner without a shape.
    PartialInstanceShape,
    /// A delete needs confirmation but nobody can give it.
    NonInteractiveDelete { runner_id: String },
    /// Neither a runner UID nor a name was given.
    RunnerSelectorRequired,
    /// No runner has this UID or name.
    RunnerNotFound { selector: String },
    /// Several runners share this name.
    AmbiguousRunnerName { name: String },
}

impl RunnerError {
    /// The message the error is reported with.
    pub open spec fn spec_message(self) -> Seq<char> {
        match self {
            RunnerError::PartialInstanceShape => "Both --vcpus and --memory-gb are required when the runner has no instance shape"@,
            RunnerError::NonInteractiveDelete { runner_id } => "Refusing to delete runner "@ + runner_id@
                + " without confirmation in non-interactive mode; pass --force to delete"@,
            RunnerError::RunnerSelectorRequired => "A runner UID or --name is required"@,
            RunnerError::RunnerNotFound { selector } => "Runner "@ + selector@ + " not found"@,
            RunnerError::AmbiguousRunnerName { name } => "Multiple runners match the name "@ + name@
                + "; use the runner's UID"@,
        }
    }

    pub fn message(&self) -> (r: String)
        ensures
            r@ == self.spec_message(),
    {
        match self {
            RunnerError::PartialInstanceShape => owned(
                "Both --vcpus and --memory-gb are required when the runner has no instance shape",
            ),
            RunnerError::NonInteractiveDelete { runner_id } => {
                let mut r = owned("Refusing to delete runner ");
                push_all(&mut r, runner_id.as_str());
                push_all(&mut r, " without confirmation in non-interactive mode; pass --force to delete");
                r
            },
            RunnerError::RunnerSelectorRequired => owned("A runner UID or --name is required"),
            RunnerError::RunnerNotFound { selector } => {
                let mut r = owned("Runner ");
                push_all(&mut r, selector.as_str());
                push_all(&mut r, " not found");
                r
            },
            RunnerError::AmbiguousRunnerName { name } => {
                let mut r = owned("Multiple runners match the name ");
                push_all(&mut r, name.as_str());
                push_all(&mut r, "; use the runner's UID");
                r
            },
        }
    }
}

/// The instance shape (vCPUs, memory) after an update: each dimension given
/// replaces the existing one; with no existing shape both must be given (or
/// neither, leaving no shape).
pub open spec fn merged_shape_spec(vcpus: Option<u32>, memory_gb: Option<u32>, existing: Option<(u32, u32)>) -> Result<Option<(u32, u32)>, RunnerError> {
    match existing {
        Some((c, m)) => Ok(
            Some(
                (
                    match vcpus {
                        Some(v) => v,
                        None => c,
                    },
                    match memory_gb {
                        Some(g) => g,
                        None => m,
                    },
                ),
            ),
        ),
        None => match (vcpus, memory_gb) {
            (None, None) => Ok(None),
            (Some(v), Some(g)) => Ok(Some((v, g))),
            _ => Err(RunnerError::PartialInstanceShape),
        },
    }
}

pub fn merge_instance_shape(vcpus: Option<u32>, memory_gb: Option<u32>, existing: Option<(u32, u32)>) -> (r: Result<Option<(u32, u32)>, RunnerError>)
    ensures
        r == merged_shape_spec(vcpus, memory_gb, existing),
{
    match existing {
        Some((c, m)) => {
            let v = match vcpus {
                Some(v) => v,
                None => c,
            };
            let g = match memory_gb {
                Some(g) => g,
                None => m,
            };
            Ok(Some((v, g)))
        },
        None => match (vcpus, memory_gb) {
            (None, None) => Ok(None),
            (Some(v), Some(g)) => Ok(Some((v, g))),
            _ => Err(RunnerError::PartialInstanceShape),
        },
    }
}

/// The name after an update: with a runner selected by its UID, `--name`
/// renames it; without one, `--name` selects the runner and the name stays.
pub fn resolve_updated_name(has_uid: bool, name: Option<&str>, existing: &str) -> (r: String)
    ensures
        r@ == match (has_uid, name) {
            (true, Some(n)) => n@,
            _ => existing@,
        },
{
    match (has_uid, name) {
        (true, Some(n)) => owned(n),
        _ => owned(existing),
    }
}

/// How a delete proceeds.
#[derive(Debug, Clone, Copy, PartialEq, Eq, Structural)]
pub enum DeleteConfirmation {
    /// Delete without asking (`--force`).
    Proceed,
    /// Ask the user first.
    AskUser,
}

/// Whether a delete may proceed: forced deletes proceed, interactive ones
/// ask, and a non-interactive delete without `--force` is refused.
pub open spec fn delete_decision(runner_id: Seq<char>, force: bool, interactive: bool) -> Result<DeleteConfirmation, Seq<char>> {
    if force {
        Ok(DeleteConfirmation::Proceed)
    } else if interactive {
        Ok(DeleteConfirmation::AskUser)
    } else {
        Err(runner_id)
    }
}

pub fn confirm_delete_with(runner_id: &str, force: bool, interactive: bool) -> (r: Result<DeleteConfirmation, RunnerError>)
    ensures
        match delete_decision(runner_id@, force, interactive) {
            Ok(c) => r == Ok::<DeleteConfirmation, RunnerError>(c),
            Err(id) => r matches Err(RunnerError::NonInteractiveDelete { runner_id: got }) && got@ == id,
        },
{
    if force {
        Ok(DeleteConfirmation::Proceed)
    } else if interactive {
        Ok(DeleteConfirmation::AskUser)
    } else {
        Err(RunnerError::NonInteractiveDelete { runner_id: owned(runner_id) })
    }
}

/// Whether standard input is a terminal (`std::io::IsTerminal` on
/// `std::io::stdin()`). It depends on how the process was started, so
/// nothing is stated of it.
#[verifier::external_body]
fn stdin_is_terminal() -> (r: bool) {
    std::io::IsTerminal::is_terminal(&std::io::stdin())
}

/// Whether a delete of `runner_id` may proceed, asking only on a terminal
/// (see [`delete_decision`]).
pub fn confirm_delete(runner_id: &str, force: bool) -> (r: Result<DeleteConfirmation, RunnerError>)
    ensures
        force ==> r == Ok::<DeleteConfirmation, RunnerError>(DeleteConfirmation::Proceed),
        !force ==> (r == Ok::<DeleteConfirmation, RunnerError>(DeleteConfirmation::AskUser) || (r matches Err(
            RunnerError::NonInteractiveDelete { runner_id: got },
        ) && got@ == runner_id@)),
{
    if force {
        return Ok(DeleteConfirmation::Proceed);
    }
    let interactive = stdin_is_terminal();
    confirm_delete_with(runner_id, force, interactive)
}


/// What identifies a runner: its UID and its name.
pub struct RunnerIdentity {
    pub uid: String,
    pub name: String,
}

pub open spec fn identities_view(v: Seq<RunnerIdentity>) -> Seq<(Seq<char>, Seq<char>)> {
    v.map_values(|r: RunnerIdentity| (r.uid@, r.name@))
}

/// The first runner with UID `uid`.
pub open spec fn uid_index(rs: Seq<(Seq<char>, Seq<char>)>, uid: Seq<char>) -> Option<int>
    decreases rs.len(),
{
    if rs.len() == 0 {
        None
    } else {
        match uid_index(rs.drop_last(), uid) {
            Some(i) => Some(i),
            None => if rs.last().0 == uid {
                Some(rs.len() - 1)
            } else {
                None
            },
        }
    }
}

/// How many runners are named `name`, and the last of them.
pub open spec fn named(rs: Seq<(Seq<char>, Seq<char>)>, name: Seq<char>) -> (nat, int)
    decreases rs.len(),
{
    if rs.len() == 0 {
        (0, -1)
    } else {
        let (c, last) = named(rs.drop_last(), name);
        if rs.last().1 == name {
            (c + 1, rs.len() - 1)
        } else {
            (c, last)
        }
    }
}

/// Why no single runner was selected, as plain values.
pub enum SelectionError {
    Required,
    NotFound(Seq<char>),
    Ambiguous(Seq<char>),
}

pub open spec fn selection_error(e: RunnerError) -> Option<SelectionError> {
    match e {
        RunnerError::RunnerSelectorRequired => Some(SelectionError::Required),
        RunnerError::RunnerNotFound { selector } => Some(SelectionError::NotFound(selector@)),
        RunnerError::AmbiguousRunnerName { name } => Some(SelectionError::Ambiguous(name@)),
        _ => None,
    }
}

/// The only runner named `name`.
pub open spec fn by_name_spec(rs: Seq<(Seq<char>, Seq<char>)>, name: Seq<char>) -> Result<int, SelectionError> {
    let (c, i) = named(rs, name);
    if c == 0 {
        Err(SelectionError::NotFound(name))
    } else if c == 1 {
        Ok(i)
    } else {
        Err(SelectionError::Ambiguous(name))
    }
}

/// The runner a command selects: the one whose UID is the identifier; else
/// the only runner named by the identifier, or, with no identifier, by
/// `--name`. No selector, no match, or several runners of the name are
/// errors.
pub open spec fn resolve_runner_spec(
    rs: Seq<(Seq<char>, Seq<char>)>,
    identifier: Option<Seq<char>>,
    name: Option<Seq<char>>,
) -> Result<int, SelectionError> {
    match identifier {
        Some(id) => match uid_index(rs, id) {
            Some(i) => Ok(i),
            None => by_name_spec(rs, id),
        },
        None => match name {
            Some(n) => by_name_spec(rs, n),
            None => Err(SelectionError::Required),
        },
    }
}

fn find_uid(runners: &[RunnerIdentity], uid: &str) -> (r: Option<usize>)
    ensures
        match uid_index(identities_view(runners@), uid@) {
            Some(i) => r == Some(i as usize),
            None => r is None,
        },
{
    let ghost rs = identities_view(runners@);
    let mut i: usize = 0;
    assert(rs.take(0) =~= Seq::<(Seq<char>, Seq<char>)>::empty());
    while i < runners.len()
        invariant
            i <= runners.len(),
            rs == identities_view(runners@),
            uid_index(rs.take(i as int), uid@) is None,
        decreases runners.len() - i,
    {
        proof {
            assert(rs.take(i + 1).drop_last() =~= rs.take(i as int));
            assert(rs.take(i + 1).last() == rs[i as int]);
        }
        if texts_equal(runners[i].uid.as_str(), uid) {
            proof {
                assert(uid_index(rs.take(i + 1), uid@) == Some(i as int));
                lemma_uid_index_prefix(rs, i + 1, uid@);
            }
            return Some(i);
        }
        i = i + 1;
    }
    assert(rs.take(runners.len() as int) =~= rs);
    None
}

proof fn lemma_uid_index_prefix(rs: Seq<(Seq<char>, Seq<char>)>, k: int, u: Seq<char>)
    requires
        0 <= k <= rs.len(),
        uid_index(rs.take(k), u) is Some,
    ensures
        uid_index(rs, u) == uid_index(rs.take(k), u),
    decreases rs.len() - k,
{
    if k < rs.len() {
        assert(rs.take(k + 1).drop_last() =~= rs.take(k));
        lemma_uid_index_prefix(rs, k + 1, u);
    } else {
        assert(rs.take(k) =~= rs);
    }
}


fn count_named(runners: &[RunnerIdentity], name: &str) -> (r: (usize, usize))
    ensures
        r.0 == named(identities_view(runners@), name@).0,
        r.0 > 0 ==> r.1 == named(identities_view(runners@), name@).1,
{
    let ghost rs = identities_view(runners@);
    let mut count: usize = 0;
    let mut last: usize = 0;
    let mut i: usize = 0;
    assert(rs.take(0) =~= Seq::<(Seq<char>, Seq<char>)>::empty());
    while i < runners.len()
        invariant
            i <= runners.len(),
            rs == identities_view(runners@),
            count == named(rs.take(i as int), name@).0,
            count <= i,
            count > 0 ==> last == named(rs.take(i as int), name@).1,
        decreases runners.len() - i,
    {
        proof {
            assert(rs.take(i + 1).drop_last() =~= rs.take(i as int));
            assert(rs.take(i + 1).last() == rs[i as int]);
        }
        if texts_equal(runners[i].name.as_str(), name) {
            count = count + 1;
            last = i;
        }
        i = i + 1;
    }
    assert(rs.take(runners.len() as int) =~= rs);
    (count, last)
}

fn by_name(runners: &[RunnerIdentity], name: &str) -> (r: Result<usize, RunnerError>)
    ensures
        match by_name_spec(identities_view(runners@), name@) {
            Ok(i) => r == Ok::<usize, RunnerError>(i as usize),
            Err(e) => r matches Err(err) && selection_error(err) == Some(e),
        },
{
    let (count, last) = count_named(runners, name);
    if count == 0 {
        Err(RunnerError::RunnerNotFound { selector: owned(name) })
    } else if count == 1 {
        Ok(last)
    } else {
        Err(RunnerError::AmbiguousRunnerName { name: owned(name) })
    }
}

/// The runner a command selects (see [`resolve_runner_spec`]), by its index
/// among `runners`.
pub fn resolve_runner(runners: &[RunnerIdentity], identifier: Option<&str>, name: Option<&str>) -> (r: Result<
    usize,
    RunnerError,
>)
    ensures
        match resolve_runner_spec(
            identities_view(runners@),
            match identifier {
                Some(i) => Some(i@),
                None => None,
            },
            match name {
                Some(n) => Some(n@),
                None => None,
            },
        ) {
            Ok(i) => r == Ok::<usize, RunnerError>(i as usize),
            Err(e) => r matches Err(err) && selection_error(err) == Some(e),
        },
{
    match identifier {
        Some(id) => match find_uid(runners, id) {
            Some(i) => Ok(i),
            None => by_name(runners, id),
        },
        None => match name {
            Some(n) => by_name(runners, n),
            None => Err(RunnerError::RunnerSelectorRequired),
        },
    }
}

} // verus!
