//! The whole-run gates that run before anything is deleted.
//!
//! Two gates guard a run. The existence gate (skipped in force mode) refuses
//! an empty preserve-list and any preserve-target that does not exist. The
//! containment gate (never skipped) refuses any preserve-target that does not
//! lie directly inside the working directory. Only when both pass is the
//! preserve-set built.

use vstd::prelude::*;
use crate::path::{components, components_of, direct_child_name, entry_name_of, is_direct_child, same_text};

verus! {

/// What a run was asked to do.
#[derive(Debug)]
pub struct RunConfig {
    /// The working directory, as an absolute path; preserve-targets are read
    /// from it.
    pub cwd: String,
    /// The preserve-targets, as the user wrote them.
    pub targets: Vec<String>,
    /// Remove directories together with everything inside them.
    pub recursive: bool,
    /// Remove directories that are empty.
    pub dirs: bool,
    /// Skip the existence gate.
    pub force: bool,
}

/// Why a run was stopped before anything was deleted.
#[derive(Debug)]
pub enum PreflightError {
    /// No preserve-target was given and force mode is off.
    EmptyTargetList,
    /// Some preserve-targets do not exist: their positions, in order.
    MissingTargets { missing: Vec<usize> },
    /// The preserve-target at this position is the empty path, which names
    /// nothing.
    EmptyPath { index: usize },
    /// The preserve-target at this position does not lie directly inside the
    /// working directory.
    OutsideWorkingDirectory { index: usize },
}

/// The entries that a run keeps: one name per preserve-target, each the name
/// of an entry directly inside the working directory.
pub struct PreserveSet {
    names: Vec<String>,
}

impl View for PreserveSet {
    type V = Seq<Seq<char>>;

    closed spec fn view(&self) -> Seq<Seq<char>> {
        self.names.deep_view()
    }
}

impl PreserveSet {
    /// Whether the entry called `name` is kept.
    pub fn contains(&self, name: &str) -> (r: bool)
        ensures
            r == self@.contains(name@),
    {
        let mut i: usize = 0;
        while i < self.names.len()
            invariant
                i <= self.names.len(),
                self@ == self.names.deep_view(),
                forall|j: int| 0 <= j < i ==> self@[j] != name@,
            decreases self.names.len() - i,
        {
            if same_text(self.names[i].as_str(), name) {
                assert(self@[i as int] == name@);
                return true;
            }
            i = i + 1;
        }
        false
    }

    /// How many preserve-targets the set was built from.
    pub fn len(&self) -> (r: usize)
        ensures
            r == self@.len(),
    {
        self.names.len()
    }
}

/// The positions among the first `n` of `found` that hold `false`, in order.
pub open spec fn missing_upto(found: Seq<bool>, n: nat) -> Seq<usize>
    decreases n,
{
    if n == 0 {
        seq![]
    } else if found[n - 1] {
        missing_upto(found, (n - 1) as nat)
    } else {
        missing_upto(found, (n - 1) as nat).push((n - 1) as usize)
    }
}

/// The existence gate refuses a run: force mode is off and either no target
/// was given or one of them does not exist.
pub open spec fn existence_refuses(force: bool, found: Seq<bool>) -> bool {
    !force && (found.len() == 0 || exists|i: int| 0 <= i < found.len() && !found[i])
}

/// A preserve-target that the containment gate accepts.
pub open spec fn target_accepted(cwd: Seq<Seq<char>>, t: Seq<char>) -> bool {
    t.len() > 0 && is_direct_child(cwd, t)
}

/// Every preserve-target passes the containment gate.
pub open spec fn all_accepted(cwd: Seq<Seq<char>>, targets: Seq<Seq<char>>) -> bool {
    forall|i: int| 0 <= i < targets.len() ==> target_accepted(cwd, #[trigger] targets[i])
}

/// The names that the accepted preserve-targets stand for, in order.
pub open spec fn preserved_names(cwd: Seq<Seq<char>>, targets: Seq<Seq<char>>) -> Seq<Seq<char>> {
    targets.map_values(|t: Seq<char>| entry_name_of(cwd, t))
}

/// `e` is what the containment gate reports: the first refused target, and
/// whether it was refused for being empty.
pub open spec fn is_containment_error(
    cwd: Seq<Seq<char>>,
    targets: Seq<Seq<char>>,
    e: PreflightError,
) -> bool {
    match e {
        PreflightError::EmptyPath { index } => index < targets.len() && targets[index as int].len()
            == 0 && forall|j: int| 0 <= j < index ==> target_accepted(cwd, #[trigger] targets[j]),
        PreflightError::OutsideWorkingDirectory { index } => index < targets.len()
            && targets[index as int].len() > 0 && !is_direct_child(cwd, targets[index as int])
            && forall|j: int| 0 <= j < index ==> target_accepted(cwd, #[trigger] targets[j]),
        _ => false,
    }
}

/// `e` is what the existence gate reports on `found`.
pub open spec fn is_existence_error(found: Seq<bool>, e: PreflightError) -> bool {
    match e {
        PreflightError::EmptyTargetList => found.len() == 0,
        PreflightError::MissingTargets { missing } => found.len() > 0 && missing@ == missing_upto(
            found,
            found.len(),
        ),
        _ => false,
    }
}

proof fn lemma_missing_empty(found: Seq<bool>, n: nat)
    requires
        n <= found.len(),
    ensures
        missing_upto(found, n).len() == 0 <==> forall|i: int| 0 <= i < n ==> found[i],
    decreases n,
{
    if n > 0 {
        lemma_missing_empty(found, (n - 1) as nat);
    }
}

/// The existence gate, on what the caller found: `found[i]` says whether the
/// `i`-th preserve-target found.
pub fn check_existence(force: bool, found: &Vec<bool>) -> (r: Result<(), PreflightError>)
    ensures
        r is Ok <==> !existence_refuses(force, found@),
        r matches Err(e) ==> is_existence_error(found@, e),
{
    if force {
        return Ok(());
    }
    if found.len() == 0 {
        return Err(PreflightError::EmptyTargetList);
    }
    let mut missing: Vec<usize> = Vec::new();
    let mut i: usize = 0;
    while i < found.len()
        invariant
            i <= found.len(),
            missing@ == missing_upto(found@, i as nat),
        decreases found.len() - i,
    {
        if !found[i] {
            missing.push(i);
        }
        i = i + 1;
    }
    proof {
        lemma_missing_empty(found@, found@.len());
    }
    if missing.len() == 0 {
        Ok(())
    } else {
        Err(PreflightError::MissingTargets { missing })
    }
}

/// The containment gate: builds the preserve-set of `targets`, read from the
/// working directory `cwd`, or reports the first target that is refused.
pub fn build_preserve_set(cwd: &str, targets: &Vec<String>) -> (r: Result<PreserveSet, PreflightError>)
    ensures
        r is Ok <==> all_accepted(components_of(cwd@), targets.deep_view()),
        r matches Ok(set) ==> set@ == preserved_names(components_of(cwd@), targets.deep_view()),
        r matches Err(e) ==> is_containment_error(components_of(cwd@), targets.deep_view(), e),
{
    let base = components(cwd);
    let ghost c = components_of(cwd@);
    let ghost ts = targets.deep_view();
    let mut names: Vec<String> = Vec::new();
    let mut i: usize = 0;
    while i < targets.len()
        invariant
            base.deep_view() == c,
            c == components_of(cwd@),
            ts == targets.deep_view(),
            i <= targets.len(),
            forall|j: int| 0 <= j < i ==> target_accepted(c, #[trigger] ts[j]),
            names.deep_view() == preserved_names(c, ts.subrange(0, i as int)),
        decreases targets.len() - i,
    {
        let t = targets[i].as_str();
        assert(t@ == ts[i as int]);
        if t.unicode_len() == 0 {
            let e = PreflightError::EmptyPath { index: i };
            assert(is_containment_error(c, ts, e));
            assert(!target_accepted(c, ts[i as int]));
            assert(!all_accepted(c, ts));
            return Err(e);
        }
        match direct_child_name(&base, t) {
            Some(name) => {
                let ghost before = names.deep_view();
                let ghost nm = name@;
                assert(nm == entry_name_of(c, ts[i as int]));
                names.push(name);
                assert(names.deep_view() =~= before.push(nm));
                assert(preserved_names(c, ts.subrange(0, i + 1)) =~= preserved_names(
                    c,
                    ts.subrange(0, i as int),
                ).push(nm));
            },
            None => {
                let e = PreflightError::OutsideWorkingDirectory { index: i };
                assert(is_containment_error(c, ts, e));
                assert(!target_accepted(c, ts[i as int]));
                assert(!all_accepted(c, ts));
                return Err(e);
            },
        }
        i = i + 1;
    }
    assert(ts.subrange(0, i as int) =~= ts);
    Ok(PreserveSet { names })
}

/// Both gates, in order: the existence gate on `found` (where `found[i]`
/// says whether the `i`-th preserve-target exists), then the containment gate
/// against the run's working directory. The preserve-set comes back only when
/// both pass; otherwise nothing may be deleted.
pub fn preflight(config: &RunConfig, found: &Vec<bool>) -> (r: Result<
    PreserveSet,
    PreflightError,
>)
    requires
        config.force || found.len() == config.targets.len(),
    ensures
        !config.force && config.targets.len() == 0 ==> r matches Err(
            PreflightError::EmptyTargetList,
        ),
        (exists|i: int|
            0 <= i < config.targets.len() && !target_accepted(
                components_of(config.cwd@),
                #[trigger] config.targets.deep_view()[i],
            )) ==> r is Err,
        r is Ok <==> !existence_refuses(config.force, found@) && all_accepted(
            components_of(config.cwd@),
            config.targets.deep_view(),
        ),
        r matches Ok(set) ==> set@ == preserved_names(
            components_of(config.cwd@),
            config.targets.deep_view(),
        ),
        r matches Err(e) ==> if existence_refuses(config.force, found@) {
            is_existence_error(found@, e)
        } else {
            is_containment_error(components_of(config.cwd@), config.targets.deep_view(), e)
        },
{
    match check_existence(config.force, found) {
        Err(e) => Err(e),
        Ok(()) => build_preserve_set(config.cwd.as_str(), &config.targets),
    }
}

} // verus!
