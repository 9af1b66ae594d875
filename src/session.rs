//! The locking protocol of one environment, as a state machine that decides
//! each next action from the outcome of the previous one.
//!
//! An environment `<root>/<fingerprint>/` is guarded by advisory locks on the
//! sibling file `<root>/<fingerprint>.lock`. A run takes a shared lock, and
//! builds the environment only after upgrading to an exclusive lock and
//! seeing, under it, that the interpreter is still absent; a deletion works
//! under an exclusive lock. Each lock change is one blocking call on the same
//! descriptor, so the file is never left unlocked in between.
use vstd::prelude::*;
use crate::error::CacheError;

verus! {

/// The steps of building an environment, in order.
#[derive(Debug, Clone, Copy, PartialEq, Eq, Structural)]
pub enum BuildStep {
    /// Create the environment directory.
    CreateDir,
    /// Run the interpreter's environment-creation command on the directory.
    CreateEnv,
    /// Write the requirements text beside the directory.
    WriteRequirements,
    /// Run the environment's package installer on the requirements file.
    InstallRequirements,
}

/// The lock this process holds on an environment's lock file.
#[derive(Debug, Clone, Copy, PartialEq, Eq, Structural)]
pub enum LockMode {
    Unlocked,
    Shared,
    Exclusive,
}

/// A request to the kernel: one blocking record-lock call over the whole
/// file, which replaces whatever lock the process held on it.
#[derive(Debug, Clone, Copy, PartialEq, Eq, Structural)]
pub enum LockOperation {
    Read,
    Write,
    Unlock,
}

/// The lock held once `op` has been granted.
pub open spec fn mode_after(op: LockOperation) -> LockMode {
    match op {
        LockOperation::Read => LockMode::Shared,
        LockOperation::Write => LockMode::Exclusive,
        LockOperation::Unlock => LockMode::Unlocked,
    }
}

/// What the caller is to do next.
#[derive(Debug, Clone, Copy, PartialEq, Eq, Structural)]
pub enum Action {
    /// Make the lock call; report `Done` or `Failed`.
    Lock(LockOperation),
    /// Test whether `<dir>/bin/python` exists; report `Present` or `Absent`.
    CheckExecutable,
    /// Perform the build step; report `Done` or `Failed`.
    Build(BuildStep),
    /// Run `<dir>/bin/python` with the arguments and wait; report `Exited`,
    /// or `Failed` if it could not be started.
    Launch,
    /// Remove `<dir>` recursively; report `Done`, `Absent` if it was not
    /// there, or `Failed`.
    RemoveDir,
    /// Nothing is left to do: take the outcome.
    Finish,
    /// Releasing the lock failed: end the process.
    Abort,
}

/// What came of the last action.
#[derive(Debug, Clone, Copy, PartialEq, Eq, Structural)]
pub enum Event {
    Done,
    Failed,
    Present,
    Absent,
    /// The interpreter exited, with its exit code or `None` if a signal
    /// ended it.
    Exited(Option<i32>),
}

/// Where a session stands.
#[derive(Debug, Clone, Copy, PartialEq, Eq, Structural)]
pub enum Phase {
    /// A run takes the shared lock.
    Opening,
    /// A run looks for the interpreter under the shared lock.
    Checking,
    /// A run upgrades to the exclusive lock.
    Upgrading,
    /// A run looks again, under the exclusive lock.
    Rechecking,
    /// A run builds, under the exclusive lock.
    Building(BuildStep),
    /// A run downgrades back to the shared lock.
    Downgrading,
    /// A run starts the interpreter under the shared lock.
    Launching,
    /// A deletion takes the exclusive lock.
    Claiming,
    /// A deletion removes the directory under the exclusive lock.
    Removing,
    /// The lock held is released.
    Releasing(LockMode),
    /// Over; nothing is held.
    Finished,
    /// Releasing failed while holding the given lock.
    Aborted(LockMode),
}

/// The action a session takes in each phase.
pub open spec fn action_of(p: Phase) -> Action {
    match p {
        Phase::Opening => Action::Lock(LockOperation::Read),
        Phase::Checking => Action::CheckExecutable,
        Phase::Upgrading => Action::Lock(LockOperation::Write),
        Phase::Rechecking => Action::CheckExecutable,
        Phase::Building(s) => Action::Build(s),
        Phase::Downgrading => Action::Lock(LockOperation::Read),
        Phase::Launching => Action::Launch,
        Phase::Claiming => Action::Lock(LockOperation::Write),
        Phase::Removing => Action::RemoveDir,
        Phase::Releasing(_) => Action::Lock(LockOperation::Unlock),
        Phase::Finished => Action::Finish,
        Phase::Aborted(_) => Action::Abort,
    }
}

/// The lock held in each phase.
pub open spec fn held_in(p: Phase) -> LockMode {
    match p {
        Phase::Opening => LockMode::Unlocked,
        Phase::Checking => LockMode::Shared,
        Phase::Upgrading => LockMode::Shared,
        Phase::Rechecking => LockMode::Exclusive,
        Phase::Building(_) => LockMode::Exclusive,
        Phase::Downgrading => LockMode::Exclusive,
        Phase::Launching => LockMode::Shared,
        Phase::Claiming => LockMode::Unlocked,
        Phase::Removing => LockMode::Exclusive,
        Phase::Releasing(m) => m,
        Phase::Finished => LockMode::Unlocked,
        Phase::Aborted(m) => m,
    }
}

/// The build step after `s`, if any.
pub open spec fn step_after(s: BuildStep) -> Option<BuildStep> {
    match s {
        BuildStep::CreateDir => Some(BuildStep::CreateEnv),
        BuildStep::CreateEnv => Some(BuildStep::WriteRequirements),
        BuildStep::WriteRequirements => Some(BuildStep::InstallRequirements),
        BuildStep::InstallRequirements => None,
    }
}

/// The phase that follows `p` once its action reported `e`.
pub open spec fn next_phase(p: Phase, e: Event) -> Phase {
    match p {
        Phase::Opening => if e == Event::Done { Phase::Checking } else { Phase::Finished },
        Phase::Checking => if e == Event::Present {
            Phase::Launching
        } else if e == Event::Absent {
            Phase::Upgrading
        } else {
            Phase::Releasing(LockMode::Shared)
        },
        Phase::Upgrading => if e == Event::Done {
            Phase::Rechecking
        } else {
            Phase::Releasing(LockMode::Shared)
        },
        Phase::Rechecking => if e == Event::Present {
            Phase::Downgrading
        } else if e == Event::Absent {
            Phase::Building(BuildStep::CreateDir)
        } else {
            Phase::Releasing(LockMode::Exclusive)
        },
        Phase::Building(s) => if e == Event::Done {
            match step_after(s) {
                Some(t) => Phase::Building(t),
                None => Phase::Downgrading,
            }
        } else {
            Phase::Releasing(LockMode::Exclusive)
        },
        Phase::Downgrading => if e == Event::Done {
            Phase::Launching
        } else {
            Phase::Releasing(LockMode::Exclusive)
        },
        Phase::Launching => Phase::Releasing(LockMode::Shared),
        Phase::Claiming => if e == Event::Done { Phase::Removing } else { Phase::Finished },
        Phase::Removing => Phase::Releasing(LockMode::Exclusive),
        Phase::Releasing(m) => if e == Event::Done { Phase::Finished } else { Phase::Aborted(m) },
        Phase::Finished => Phase::Finished,
        Phase::Aborted(m) => Phase::Aborted(m),
    }
}

/// The outcome that `e` settles in phase `p`, if it settles one: the
/// interpreter's exit code (`None` when a signal ended it, and for a
/// deletion), or the error.
pub open spec fn settled(p: Phase, e: Event) -> Option<Result<Option<i32>, CacheError>> {
    match p {
        Phase::Opening | Phase::Upgrading | Phase::Downgrading | Phase::Claiming =>
            if e == Event::Done { None } else { Some(Err(CacheError::LockIo)) },
        Phase::Checking => if e == Event::Present || e == Event::Absent {
            None
        } else {
            Some(Err(CacheError::Filesystem))
        },
        Phase::Rechecking => if e == Event::Present || e == Event::Absent {
            None
        } else {
            Some(Err(CacheError::Filesystem))
        },
        Phase::Building(s) => if e == Event::Done { None } else { Some(Err(CacheError::Builder(s))) },
        Phase::Launching => match e {
            Event::Exited(code) => Some(Ok(code)),
            _ => Some(Err(CacheError::Launch)),
        },
        Phase::Removing => if e == Event::Done || e == Event::Absent {
            Some(Ok(None))
        } else {
            Some(Err(CacheError::Filesystem))
        },
        _ => None,
    }
}

/// One run or deletion of one environment, driven by its caller: the caller
/// performs `action()` and reports what came of it to `advance`.
pub struct Session {
    pub phase: Phase,
    pub result: Result<Option<i32>, CacheError>,
}

impl Session {
    /// A run: use the environment if present, else build it, then start the
    /// interpreter in it.
    pub fn run() -> (r: Session)
        ensures
            r.phase == Phase::Opening,
            r.result == Ok::<Option<i32>, CacheError>(None),
    {
        Session { phase: Phase::Opening, result: Ok(None) }
    }

    /// A deletion of the environment directory.
    pub fn delete() -> (r: Session)
        ensures
            r.phase == Phase::Claiming,
            r.result == Ok::<Option<i32>, CacheError>(None),
    {
        Session { phase: Phase::Claiming, result: Ok(None) }
    }

    /// The action to perform now.
    pub fn action(&self) -> (r: Action)
        ensures
            r == action_of(self.phase),
    {
        match self.phase {
            Phase::Opening => Action::Lock(LockOperation::Read),
            Phase::Checking => Action::CheckExecutable,
            Phase::Upgrading => Action::Lock(LockOperation::Write),
            Phase::Rechecking => Action::CheckExecutable,
            Phase::Building(s) => Action::Build(s),
            Phase::Downgrading => Action::Lock(LockOperation::Read),
            Phase::Launching => Action::Launch,
            Phase::Claiming => Action::Lock(LockOperation::Write),
            Phase::Removing => Action::RemoveDir,
            Phase::Releasing(_) => Action::Lock(LockOperation::Unlock),
            Phase::Finished => Action::Finish,
            Phase::Aborted(_) => Action::Abort,
        }
    }

    /// The lock held now.
    pub fn held(&self) -> (r: LockMode)
        ensures
            r == held_in(self.phase),
    {
        match self.phase {
            Phase::Opening | Phase::Claiming | Phase::Finished => LockMode::Unlocked,
            Phase::Checking | Phase::Upgrading | Phase::Launching => LockMode::Shared,
            Phase::Rechecking | Phase::Building(_) | Phase::Downgrading | Phase::Removing =>
                LockMode::Exclusive,
            Phase::Releasing(m) | Phase::Aborted(m) => m,
        }
    }

    /// Takes in what came of the current action.
    pub fn advance(&mut self, e: Event)
        ensures
            final(self).phase == next_phase(old(self).phase, e),
            final(self).result == match settled(old(self).phase, e) {
                Some(o) => o,
                None => old(self).result,
            },
    {
        let done = e == Event::Done;
        let found = e == Event::Present || e == Event::Absent;
        match self.phase {
            Phase::Opening => if done {
                self.phase = Phase::Checking;
            } else {
                self.phase = Phase::Finished;
                self.result = Err(CacheError::LockIo);
            },
            Phase::Checking => if e == Event::Present {
                self.phase = Phase::Launching;
            } else if e == Event::Absent {
                self.phase = Phase::Upgrading;
            } else {
                self.phase = Phase::Releasing(LockMode::Shared);
                self.result = Err(CacheError::Filesystem);
            },
            Phase::Upgrading => if done {
                self.phase = Phase::Rechecking;
            } else {
                self.phase = Phase::Releasing(LockMode::Shared);
                self.result = Err(CacheError::LockIo);
            },
            Phase::Rechecking => if e == Event::Present {
                self.phase = Phase::Downgrading;
            } else if e == Event::Absent {
                self.phase = Phase::Building(BuildStep::CreateDir);
            } else {
                self.phase = Phase::Releasing(LockMode::Exclusive);
                self.result = Err(CacheError::Filesystem);
            },
            Phase::Building(s) => if done {
                self.phase = match s {
                    BuildStep::CreateDir => Phase::Building(BuildStep::CreateEnv),
                    BuildStep::CreateEnv => Phase::Building(BuildStep::WriteRequirements),
                    BuildStep::WriteRequirements => Phase::Building(BuildStep::InstallRequirements),
                    BuildStep::InstallRequirements => Phase::Downgrading,
                };
            } else {
                self.phase = Phase::Releasing(LockMode::Exclusive);
                self.result = Err(CacheError::Builder(s));
            },
            Phase::Downgrading => if done {
                self.phase = Phase::Launching;
            } else {
                self.phase = Phase::Releasing(LockMode::Exclusive);
                self.result = Err(CacheError::LockIo);
            },
            Phase::Launching => {
                self.phase = Phase::Releasing(LockMode::Shared);
                self.result = match e {
                    Event::Exited(code) => Ok(code),
                    _ => Err(CacheError::Launch),
                };
            },
            Phase::Claiming => if done {
                self.phase = Phase::Removing;
            } else {
                self.phase = Phase::Finished;
                self.result = Err(CacheError::LockIo);
            },
            Phase::Removing => {
                self.phase = Phase::Releasing(LockMode::Exclusive);
                self.result = if done || e == Event::Absent {
                    Ok(None)
                } else {
                    Err(CacheError::Filesystem)
                };
            },
            Phase::Releasing(m) => if done {
                self.phase = Phase::Finished;
            } else {
                self.phase = Phase::Aborted(m);
            },
            Phase::Finished => {},
            Phase::Aborted(_) => {},
        }
    }

    /// The session has nothing left to do.
    pub fn is_over(&self) -> (r: bool)
        ensures
            r == (self.phase is Finished || self.phase is Aborted),
    {
        match self.phase {
            Phase::Finished | Phase::Aborted(_) => true,
            _ => false,
        }
    }

    /// The outcome: the interpreter's exit code for a run (`None` if a signal
    /// ended it), `None` for a deletion, or the error.
    pub fn outcome(self) -> (r: Result<Option<i32>, CacheError>)
        ensures
            r == self.result,
    {
        self.result
    }
}

/// The lock held changes only when a lock call is granted, and then to the
/// mode that call requested: no transition gives the lock up on its own.
pub proof fn lemma_lock_changes_only_when_granted(p: Phase, e: Event)
    ensures
        held_in(next_phase(p, e)) != held_in(p) ==> (action_of(p) is Lock && e == Event::Done
            && held_in(next_phase(p, e)) == mode_after(action_of(p)->Lock_0)),
{
}

/// Upgrading never leaves the lock file unlocked: the call is made holding
/// the shared lock, and whatever comes of it the process holds the exclusive
/// lock (granted) or still the shared one (refused). Downgrading likewise
/// goes from exclusive to shared in one call.
pub proof fn lemma_upgrade_keeps_lock(e: Event)
    ensures
        held_in(Phase::Upgrading) == LockMode::Shared,
        action_of(Phase::Upgrading) == Action::Lock(LockOperation::Write),
        held_in(next_phase(Phase::Upgrading, e)) == if e == Event::Done {
            LockMode::Exclusive
        } else {
            LockMode::Shared
        },
        held_in(Phase::Downgrading) == LockMode::Exclusive,
        action_of(Phase::Downgrading) == Action::Lock(LockOperation::Read),
        held_in(next_phase(Phase::Downgrading, e)) == if e == Event::Done {
            LockMode::Shared
        } else {
            LockMode::Exclusive
        },
{
}

/// Builds and removals happen only under the exclusive lock, and the
/// interpreter runs only under a lock.
pub proof fn lemma_actions_under_lock(p: Phase)
    ensures
        action_of(p) is Build ==> held_in(p) == LockMode::Exclusive,
        action_of(p) is RemoveDir ==> held_in(p) == LockMode::Exclusive,
        action_of(p) is Launch ==> held_in(p) == LockMode::Shared,
{
}

/// A build starts only when the check made under the exclusive lock found
/// the interpreter absent. If another process built the environment while
/// this one waited to upgrade, the check finds it present and the run goes
/// back to the shared lock without building.
pub proof fn lemma_build_only_when_absent_under_write_lock(p: Phase, e: Event)
    ensures
        next_phase(p, e) == Phase::Building(BuildStep::CreateDir) <==> (p == Phase::Rechecking && e
            == Event::Absent),
        held_in(Phase::Rechecking) == LockMode::Exclusive,
        next_phase(Phase::Rechecking, Event::Present) == Phase::Downgrading,
        next_phase(Phase::Downgrading, Event::Done) == Phase::Launching,
{
}

/// The kernel grants `op` to a process while the other process holds `other`.
pub open spec fn compatible(op: LockOperation, other: LockMode) -> bool {
    match op {
        LockOperation::Read => other != LockMode::Exclusive,
        LockOperation::Write => other == LockMode::Unlocked,
        LockOperation::Unlock => true,
    }
}

/// What the world reports for the action of phase `p` when every step
/// succeeds and the interpreter is `present` or not.
pub open spec fn faithful_event(p: Phase, present: bool) -> Event {
    match action_of(p) {
        Action::CheckExecutable => if present { Event::Present } else { Event::Absent },
        Action::Launch => Event::Exited(Some(0)),
        _ => Event::Done,
    }
}

/// Two processes working on one environment: their phases, whether the
/// interpreter exists, how many builds have started and how many of them
/// failed.
pub type Pair = (Phase, Phase, bool, nat, nat);

/// One move of the first process of `w`. With `fails`, a lock call is
/// refused (the kernel reports a deadlock or an interruption) and a build
/// step fails; without it, a lock call the kernel cannot grant yet leaves
/// everything as it is. Any other action takes effect; the interpreter
/// exists once an environment-creation step has completed.
pub open spec fn move_first(w: Pair, fails: bool) -> Pair {
    let (mine, other, present, builds, failed) = w;
    if action_of(mine) is Lock && !fails && !compatible(action_of(mine)->Lock_0, held_in(other)) {
        w
    } else {
        let e = if fails && (action_of(mine) is Lock || action_of(mine) is Build) {
            Event::Failed
        } else {
            faithful_event(mine, present)
        };
        let np = next_phase(mine, e);
        (
            np,
            other,
            present || (mine == Phase::Building(BuildStep::CreateEnv) && e == Event::Done),
            if np == Phase::Building(BuildStep::CreateDir) { builds + 1 } else { builds },
            if mine is Building && e == Event::Failed { failed + 1 } else { failed },
        )
    }
}

/// `w` with the two processes' roles exchanged.
pub open spec fn swapped(w: Pair) -> Pair {
    (w.1, w.0, w.2, w.3, w.4)
}

/// The world after one move `(first, fails)`: `first` tells whether the
/// first process moves.
pub open spec fn pair_step(w: Pair, m: (bool, bool)) -> Pair {
    if m.0 {
        move_first(w, m.1)
    } else {
        swapped(move_first(swapped(w), m.1))
    }
}

/// The world after the moves of `schedule`, from two runs starting on an
/// absent environment.
pub open spec fn interleaving(schedule: Seq<(bool, bool)>) -> Pair
    decreases schedule.len(),
{
    if schedule.len() == 0 {
        (Phase::Opening, Phase::Opening, false, 0, 0)
    } else {
        pair_step(interleaving(schedule.drop_last()), schedule.last())
    }
}

/// The process is building and its interpreter may not exist yet.
pub open spec fn early_build(p: Phase) -> bool {
    p == Phase::Building(BuildStep::CreateDir) || p == Phase::Building(BuildStep::CreateEnv)
}

/// What a single process's phase tells of the world.
pub open spec fn phase_inv(p: Phase, present: bool, builds: nat, failed: nat) -> bool {
    &&& p is Building ==> builds == failed + 1
    &&& early_build(p) ==> !present
    &&& (p is Building && !early_build(p)) ==> present
    &&& (p is Downgrading || p is Launching) ==> present
    &&& !(p is Claiming || p is Removing)
}

/// What holds of every world reached by two runs.
pub open spec fn pair_inv(w: Pair) -> bool {
    let (a, b, present, builds, failed) = w;
    &&& held_in(a) == LockMode::Exclusive ==> held_in(b) == LockMode::Unlocked
    &&& held_in(b) == LockMode::Exclusive ==> held_in(a) == LockMode::Unlocked
    &&& failed <= builds <= failed + 1
    &&& present ==> builds >= 1
    &&& phase_inv(a, present, builds, failed)
    &&& phase_inv(b, present, builds, failed)
    &&& !(a is Building) && !(b is Building) ==> (builds == failed || present)
}

proof fn lemma_move_first_keeps_inv(w: Pair, fails: bool)
    requires
        pair_inv(w),
    ensures
        pair_inv(move_first(w, fails)),
        w.2 ==> move_first(w, fails).3 == w.3,
{
    lemma_lock_changes_only_when_granted(w.0, faithful_event(w.0, w.2));
    lemma_lock_changes_only_when_granted(w.0, Event::Failed);
}

/// Two processes that run the same absent environment at once, interleaved
/// in any way, with any of their lock calls refused and any build step
/// failing: every build but the last started has failed, so builds run at
/// most once more than builds fail; a process launches the interpreter only
/// once it exists, which takes a build; and once it exists no further build
/// starts. The second to take the exclusive lock after a successful build
/// finds the interpreter present and does not build.
pub proof fn lemma_two_runs_build_once(schedule: Seq<(bool, bool)>)
    ensures
        pair_inv(interleaving(schedule)),
        interleaving(schedule).4 <= interleaving(schedule).3 <= interleaving(schedule).4 + 1,
        interleaving(schedule).0 is Launching || interleaving(schedule).1 is Launching
            ==> interleaving(schedule).2 && interleaving(schedule).3 >= 1,
        forall|m: (bool, bool)| #![auto] interleaving(schedule).2 ==> pair_step(interleaving(schedule), m).3
            == interleaving(schedule).3,
    decreases schedule.len(),
{
    let w = interleaving(schedule);
    if schedule.len() > 0 {
        let prev = interleaving(schedule.drop_last());
        lemma_two_runs_build_once(schedule.drop_last());
        lemma_move_first_keeps_inv(prev, schedule.last().1);
        lemma_move_first_keeps_inv(swapped(prev), schedule.last().1);
    }
    assert forall|m: (bool, bool)| #![auto] w.2 implies pair_step(w, m).3 == w.3 by {
        lemma_move_first_keeps_inv(w, m.1);
        lemma_move_first_keeps_inv(swapped(w), m.1);
    }
}

/// With no build failing, a run launches the interpreter only after exactly
/// one build.
pub proof fn lemma_launch_after_one_build(schedule: Seq<(bool, bool)>)
    requires
        interleaving(schedule).4 == 0,
        interleaving(schedule).0 is Launching || interleaving(schedule).1 is Launching,
    ensures
        interleaving(schedule).3 == 1,
{
    lemma_two_runs_build_once(schedule);
}

} // verus!
