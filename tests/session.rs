use venvcache::error::CacheError;
use venvcache::session::{Action, BuildStep, Event, LockMode, LockOperation, Phase, Session};

/// Feeds `events` to `s`, returning the actions it asked for (the one before
/// each event).
fn drive(s: &mut Session, events: &[Event]) -> Vec<Action> {
    let mut actions = Vec::new();
    for e in events {
        actions.push(s.action());
        s.advance(*e);
    }
    actions
}

fn builds(actions: &[Action]) -> usize {
    actions.iter().filter(|a| matches!(a, Action::Build(_))).count()
}

#[test]
fn cold_run_builds_then_runs() {
    let mut s = Session::run();
    let actions = drive(
        &mut s,
        &[
            Event::Done,
            Event::Absent,
            Event::Done,
            Event::Absent,
            Event::Done,
            Event::Done,
            Event::Done,
            Event::Done,
            Event::Done,
            Event::Exited(Some(0)),
            Event::Done,
        ],
    );
    assert_eq!(
        actions,
        vec![
            Action::Lock(LockOperation::Read),
            Action::CheckExecutable,
            Action::Lock(LockOperation::Write),
            Action::CheckExecutable,
            Action::Build(BuildStep::CreateDir),
            Action::Build(BuildStep::CreateEnv),
            Action::Build(BuildStep::WriteRequirements),
            Action::Build(BuildStep::InstallRequirements),
            Action::Lock(LockOperation::Read),
            Action::Launch,
            Action::Lock(LockOperation::Unlock),
        ]
    );
    assert_eq!(s.action(), Action::Finish);
    assert!(s.is_over());
    assert_eq!(s.held(), LockMode::Unlocked);
    assert_eq!(s.outcome(), Ok(Some(0)));
}

#[test]
fn warm_run_does_not_build() {
    let mut s = Session::run();
    let actions = drive(&mut s, &[Event::Done, Event::Present, Event::Exited(Some(4)), Event::Done]);
    assert_eq!(builds(&actions), 0);
    assert_eq!(actions[2], Action::Launch);
    assert_eq!(s.outcome(), Ok(Some(4)));
}

#[test]
fn second_builder_skips_build_after_upgrade() {
    let mut s = Session::run();
    let actions = drive(
        &mut s,
        &[Event::Done, Event::Absent, Event::Done, Event::Present, Event::Done, Event::Exited(Some(0)), Event::Done],
    );
    assert_eq!(builds(&actions), 0);
    assert_eq!(actions[4], Action::Lock(LockOperation::Read));
    assert_eq!(actions[5], Action::Launch);
    assert_eq!(s.outcome(), Ok(Some(0)));
}

#[test]
fn upgrade_holds_a_lock_throughout() {
    let mut s = Session::run();
    drive(&mut s, &[Event::Done, Event::Absent]);
    assert_eq!(s.phase, Phase::Upgrading);
    assert_eq!(s.held(), LockMode::Shared);
    s.advance(Event::Done);
    assert_eq!(s.held(), LockMode::Exclusive);
    let mut refused = Session::run();
    drive(&mut refused, &[Event::Done, Event::Absent, Event::Failed]);
    assert_eq!(refused.held(), LockMode::Shared);
    assert_eq!(refused.action(), Action::Lock(LockOperation::Unlock));
}

#[test]
fn failed_build_releases_and_reports_step() {
    let mut s = Session::run();
    drive(&mut s, &[Event::Done, Event::Absent, Event::Done, Event::Absent, Event::Done, Event::Failed]);
    assert_eq!(s.held(), LockMode::Exclusive);
    assert_eq!(s.action(), Action::Lock(LockOperation::Unlock));
    s.advance(Event::Done);
    assert_eq!(s.outcome(), Err(CacheError::Builder(BuildStep::CreateEnv)));
}

#[test]
fn failed_first_lock_is_lock_error() {
    let mut s = Session::run();
    s.advance(Event::Failed);
    assert!(s.is_over());
    assert_eq!(s.held(), LockMode::Unlocked);
    assert_eq!(s.outcome(), Err(CacheError::LockIo));
}

#[test]
fn launch_failure_is_reported() {
    let mut s = Session::run();
    drive(&mut s, &[Event::Done, Event::Present, Event::Failed, Event::Done]);
    assert_eq!(s.outcome(), Err(CacheError::Launch));
}

#[test]
fn signal_gives_no_code() {
    let mut s = Session::run();
    drive(&mut s, &[Event::Done, Event::Present, Event::Exited(None), Event::Done]);
    assert_eq!(s.outcome(), Ok(None));
}

#[test]
fn failed_unlock_aborts() {
    let mut s = Session::run();
    drive(&mut s, &[Event::Done, Event::Present, Event::Exited(Some(0)), Event::Failed]);
    assert_eq!(s.action(), Action::Abort);
    assert!(s.is_over());
}

#[test]
fn delete_under_write_lock() {
    let mut s = Session::delete();
    let actions = drive(&mut s, &[Event::Done, Event::Done, Event::Done]);
    assert_eq!(
        actions,
        vec![Action::Lock(LockOperation::Write), Action::RemoveDir, Action::Lock(LockOperation::Unlock)]
    );
    assert_eq!(s.outcome(), Ok(None));
}

#[test]
fn delete_of_absent_directory_succeeds() {
    let mut s = Session::delete();
    drive(&mut s, &[Event::Done, Event::Absent, Event::Done]);
    assert_eq!(s.outcome(), Ok(None));
}

#[test]
fn delete_failure_is_filesystem_error() {
    let mut s = Session::delete();
    drive(&mut s, &[Event::Done, Event::Failed, Event::Done]);
    assert_eq!(s.outcome(), Err(CacheError::Filesystem));
}

fn blocked(s: &Session, other_held: LockMode) -> bool {
    match s.action() {
        Action::Lock(LockOperation::Read) => other_held == LockMode::Exclusive,
        Action::Lock(LockOperation::Write) => other_held != LockMode::Unlocked,
        _ => false,
    }
}

/// Runs two sessions on one absent environment, moving them in turn as the
/// kernel's lock rules allow (a lock call that would wait on a process that
/// waits on this one is refused, as `fcntl` reports a deadlock), and counts
/// the builds.
fn run_pair(first_moves: usize) -> (usize, Result<Option<i32>, CacheError>, Result<Option<i32>, CacheError>) {
    let mut sessions = [Session::run(), Session::run()];
    let mut present = false;
    let mut builds = 0;
    let mut turn = 0;
    let mut moves = 0;
    while !(sessions[0].is_over() && sessions[1].is_over()) {
        let me = if moves < first_moves { 0 } else { turn };
        let other = 1 - me;
        moves += 1;
        turn = 1 - turn;
        if sessions[me].is_over() {
            continue;
        }
        let event = if blocked(&sessions[me], sessions[other].held()) {
            if blocked(&sessions[other], sessions[me].held()) {
                Event::Failed
            } else {
                continue;
            }
        } else {
            match sessions[me].action() {
                Action::CheckExecutable => {
                    if present {
                        Event::Present
                    } else {
                        Event::Absent
                    }
                }
                Action::Build(step) => {
                    if step == BuildStep::CreateDir {
                        builds += 1;
                    }
                    if step == BuildStep::CreateEnv {
                        present = true;
                    }
                    Event::Done
                }
                Action::Launch => Event::Exited(Some(7)),
                _ => Event::Done,
            }
        };
        sessions[me].advance(event);
    }
    let [a, b] = sessions;
    (builds, a.outcome(), b.outcome())
}

#[test]
fn concurrent_builders_build_once() {
    for first_moves in 0..20 {
        let (builds, a, b) = run_pair(first_moves);
        assert_eq!(builds, 1);
        assert!(a == Ok(Some(7)) || b == Ok(Some(7)));
        assert!(a == Ok(Some(7)) || a == Err(CacheError::LockIo));
        assert!(b == Ok(Some(7)) || b == Err(CacheError::LockIo));
    }
}

#[test]
fn builder_ahead_of_second_run_serves_both() {
    // The first run is through its upgrade before the second takes its lock.
    let (builds, a, b) = run_pair(4);
    assert_eq!(builds, 1);
    assert_eq!(a, Ok(Some(7)));
    assert_eq!(b, Ok(Some(7)));
}

#[test]
fn failed_build_is_redone_by_next_run() {
    let mut first = Session::run();
    drive(&mut first, &[Event::Done, Event::Absent, Event::Done, Event::Absent, Event::Done, Event::Failed, Event::Done]);
    assert_eq!(first.outcome(), Err(CacheError::Builder(BuildStep::CreateEnv)));
    let mut second = Session::run();
    let actions = drive(
        &mut second,
        &[Event::Done, Event::Absent, Event::Done, Event::Absent, Event::Done, Event::Done, Event::Done, Event::Done, Event::Done, Event::Exited(Some(0)), Event::Done],
    );
    assert_eq!(builds(&actions), 4);
    assert_eq!(second.outcome(), Ok(Some(0)));
}
