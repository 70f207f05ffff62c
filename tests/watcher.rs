use dir_watch::event::ProbeError;
use dir_watch::watcher::{
    join_path, WatchAction, WatchError, WatchEvent, WatcherState, WAIT_OBJECT_0, WAIT_TIMEOUT,
};
use dir_watch::{Action, Data};

#[test]
fn starts_idle_and_waiting() {
    assert_eq!(WatcherState::start(), (WatcherState::Idle, WatchAction::Wait));
}

#[test]
fn signal_then_read_then_rearm_returns_to_idle() {
    let (s, a) = WatcherState::Idle.step(WatchEvent::Waited(WAIT_OBJECT_0));
    assert_eq!((s, a), (WatcherState::Draining, WatchAction::Read));
    let (s, a) = s.step(WatchEvent::ReadDone(true));
    assert_eq!((s, a), (WatcherState::Draining, WatchAction::Rearm));
    let (s, a) = s.step(WatchEvent::Rearmed(true));
    assert_eq!((s, a), (WatcherState::Idle, WatchAction::Wait));
}

#[test]
fn timeout_keeps_waiting() {
    assert_eq!(
        WatcherState::Idle.step(WatchEvent::Waited(WAIT_TIMEOUT)),
        (WatcherState::Idle, WatchAction::Wait)
    );
}

#[test]
fn failures_are_fatal() {
    assert_eq!(
        WatcherState::Idle.step(WatchEvent::Waited(0xFFFF_FFFF)),
        (WatcherState::Stopped, WatchAction::Fail(WatchError::WaitFailed(0xFFFF_FFFF)))
    );
    assert_eq!(
        WatcherState::Draining.step(WatchEvent::ReadDone(false)),
        (WatcherState::Stopped, WatchAction::Fail(WatchError::ReadFailed))
    );
    assert_eq!(
        WatcherState::Draining.step(WatchEvent::Rearmed(false)),
        (WatcherState::Stopped, WatchAction::Fail(WatchError::RearmFailed))
    );
    assert_eq!(
        WatcherState::Idle.step(WatchEvent::ReadDone(true)),
        (WatcherState::Stopped, WatchAction::Fail(WatchError::OutOfOrder))
    );
}

#[test]
fn cancellation_and_stopped_exit() {
    assert_eq!(
        WatcherState::Draining.step(WatchEvent::Cancelled),
        (WatcherState::Stopped, WatchAction::Exit)
    );
    assert_eq!(
        WatcherState::Stopped.step(WatchEvent::Waited(WAIT_OBJECT_0)),
        (WatcherState::Stopped, WatchAction::Exit)
    );
}

#[test]
fn join_adds_one_separator() {
    assert_eq!(join_path("C:\\watched", "dir\\a.txt"), "C:\\watched\\dir\\a.txt");
    assert_eq!(join_path("C:\\", "a.txt"), "C:\\a.txt");
    assert_eq!(join_path("/tmp/", "a.txt"), "/tmp/a.txt");
    assert_eq!(join_path("", "a"), "\\a");
    assert_eq!(join_path("C:\\w", "\u{e9}\u{1F600}"), "C:\\w\\\u{e9}\u{1F600}");
}

#[test]
fn vanished_entry_still_emits_event_without_metadata() {
    let path = join_path("/tmp", "does-not-exist");
    let probe = Err(ProbeError::from_os_code(2));
    assert_eq!(probe, Err::<(), _>(ProbeError::NotFound));
    let event = Data::from_probe(Action::Created, Err(ProbeError::NotFound));
    assert_eq!((path.as_str(), event), ("/tmp\\does-not-exist", Data::new(Action::Created, None)));
}
