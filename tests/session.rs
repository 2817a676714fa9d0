use caffeinate::quit::QuitAction;
use caffeinate::session::{Event, Fault, Phase, Session, Step, Trigger};

fn drive(s: &mut Session, events: &[Event]) -> Vec<Step> {
    events.iter().map(|e| s.step(*e)).collect()
}

#[test]
fn timer_session_runs_in_order() {
    let mut s = Session::new(false, QuitAction::Suspend);
    let steps = drive(
        &mut s,
        &[
            Event::Start,
            Event::Connected,
            Event::DisableSent,
            Event::Armed,
            Event::Fired(Trigger::Timer),
            Event::EnableSent,
            Event::QuitDone,
        ],
    );
    assert_eq!(
        steps,
        vec![
            Step::Connect,
            Step::SendDisable,
            Step::ArmTriggers,
            Step::Wait,
            Step::SendEnable,
            Step::PerformQuit(QuitAction::Suspend),
            Step::Finish,
        ]
    );
    assert_eq!(s.phase, Phase::Done);
    assert_eq!(s.outcome, Some(Trigger::Timer));
    assert!(s.is_over());
    assert_eq!(s.fault, None);
}

#[test]
fn screen_off_comes_before_arming() {
    let mut s = Session::new(true, QuitAction::Nothing);
    let steps = drive(&mut s, &[Event::Start, Event::Connected, Event::DisableSent, Event::ScreenOffDone]);
    assert_eq!(steps, vec![Step::Connect, Step::SendDisable, Step::ScreenOff, Step::ArmTriggers]);
}

#[test]
fn first_trigger_wins_and_later_ones_are_ignored() {
    let mut s = Session::new(false, QuitAction::Nothing);
    drive(&mut s, &[Event::Start, Event::Connected, Event::DisableSent, Event::Armed]);
    assert_eq!(s.step(Event::Fired(Trigger::ProcessExit)), Step::SendEnable);
    assert_eq!(s.step(Event::Fired(Trigger::Timer)), Step::Ignore);
    assert_eq!(s.step(Event::Fired(Trigger::Interrupt)), Step::Ignore);
    assert_eq!(s.outcome, Some(Trigger::ProcessExit));
    assert_eq!(s.step(Event::EnableSent), Step::PerformQuit(QuitAction::Nothing));
}

#[test]
fn connect_failure_ends_without_enable() {
    let mut s = Session::new(false, QuitAction::Nothing);
    let steps = drive(&mut s, &[Event::Start, Event::ConnectFailed]);
    assert_eq!(steps, vec![Step::Connect, Step::Finish]);
    assert_eq!(s.fault, Some(Fault::Connect));
    assert!(!s.disabled);
}

#[test]
fn disable_failure_ends_without_enable() {
    let mut s = Session::new(false, QuitAction::Nothing);
    let steps = drive(&mut s, &[Event::Start, Event::Connected, Event::DisableFailed]);
    assert_eq!(steps, vec![Step::Connect, Step::SendDisable, Step::Finish]);
    assert_eq!(s.fault, Some(Fault::SendDisable));
}

#[test]
fn arming_failure_reenables_before_failing() {
    let mut s = Session::new(false, QuitAction::Shutdown);
    let steps = drive(
        &mut s,
        &[Event::Start, Event::Connected, Event::DisableSent, Event::ArmFailed, Event::EnableSent],
    );
    assert_eq!(
        steps,
        vec![Step::Connect, Step::SendDisable, Step::ArmTriggers, Step::SendEnable, Step::Finish]
    );
    assert_eq!(s.phase, Phase::Failed);
    assert_eq!(s.fault, Some(Fault::Arm));
}

#[test]
fn screen_off_failure_reenables_before_failing() {
    let mut s = Session::new(true, QuitAction::Nothing);
    let steps = drive(
        &mut s,
        &[Event::Start, Event::Connected, Event::DisableSent, Event::ScreenOffFailed, Event::EnableSent],
    );
    assert_eq!(steps[3], Step::SendEnable);
    assert_eq!(steps[4], Step::Finish);
    assert_eq!(s.fault, Some(Fault::ScreenOff));
}

#[test]
fn enable_failure_skips_quit_action() {
    let mut s = Session::new(false, QuitAction::Restart);
    drive(&mut s, &[Event::Start, Event::Connected, Event::DisableSent, Event::Armed]);
    s.step(Event::Fired(Trigger::Interrupt));
    assert_eq!(s.step(Event::EnableFailed), Step::Finish);
    assert_eq!(s.fault, Some(Fault::SendEnable));
    assert_eq!(s.phase, Phase::Failed);
}

#[test]
fn quit_failure_keeps_session_done() {
    let mut s = Session::new(false, QuitAction::Suspend);
    drive(
        &mut s,
        &[Event::Start, Event::Connected, Event::DisableSent, Event::Armed, Event::Fired(Trigger::Timer)],
    );
    s.step(Event::EnableSent);
    assert_eq!(s.step(Event::QuitFailed), Step::Finish);
    assert_eq!(s.phase, Phase::Done);
    assert!(s.quit_failed);
    assert_eq!(s.fault, None);
}

#[test]
fn unexpected_events_change_nothing() {
    let mut s = Session::new(false, QuitAction::Nothing);
    assert_eq!(s.step(Event::Fired(Trigger::Timer)), Step::Ignore);
    assert_eq!(s.step(Event::EnableSent), Step::Ignore);
    assert_eq!(s.phase, Phase::Init);
    assert_eq!(s.outcome, None);
}
