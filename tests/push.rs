use dir_watch::cli::Interval;
use dir_watch::push::{PushAction, PushEvent, PushState, POLL_NANOS};
use dir_watch::{Action, Data};

fn ten_ms() -> PushAction {
    PushAction::Sleep(Interval { secs: 0, nanos: 10_000_000 })
}

#[test]
fn client_is_greeted_first() {
    assert_eq!(PushState::start(), (PushState::Running, PushAction::Greet));
    assert_eq!(POLL_NANOS, 10_000_000);
}

#[test]
fn greeting_sent_then_sleep() {
    assert_eq!(PushState::Running.step(PushEvent::Sent(true)), (PushState::Running, ten_ms()));
}

#[test]
fn tick_asks_whether_empty() {
    assert_eq!(PushState::Running.step(PushEvent::Tick), (PushState::Running, PushAction::AskEmpty));
}

#[test]
fn empty_cache_sleeps_non_empty_pops() {
    assert_eq!(PushState::Running.step(PushEvent::Empty(true)), (PushState::Running, ten_ms()));
    assert_eq!(PushState::Running.step(PushEvent::Empty(false)), (PushState::Running, PushAction::AskPop));
}

#[test]
fn popped_entry_is_forwarded() {
    let entry = ("/tmp/a.txt".to_string(), Data::new(Action::Created, None));
    assert_eq!(
        PushState::Running.step(PushEvent::Popped(Some(entry))),
        (PushState::Running, PushAction::Forward("/tmp/a.txt".to_string(), Data::new(Action::Created, None)))
    );
    assert_eq!(PushState::Running.step(PushEvent::Popped(None)), (PushState::Running, ten_ms()));
}

#[test]
fn failed_send_or_close_stops() {
    assert_eq!(PushState::Running.step(PushEvent::Sent(false)), (PushState::Stopped, PushAction::Stop));
    assert_eq!(PushState::Running.step(PushEvent::Closed), (PushState::Stopped, PushAction::Stop));
    assert_eq!(PushState::Stopped.step(PushEvent::Tick), (PushState::Stopped, PushAction::Stop));
}
