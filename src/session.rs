//! The session as a state machine: connect, disable the daemon, arm the
//! triggers, wait for the first to fire, re-enable the daemon, run the quit
//! action. The caller performs each step and reports back how it went.
use vstd::prelude::*;
use crate::quit::QuitAction;

verus! {

/// The trigger that ended a session.
#[derive(Clone, Copy, Debug, PartialEq, Eq, Structural)]
pub enum Trigger {
    Timer,
    ProcessExit,
    Interrupt,
}

/// The step of a session that failed.
#[derive(Clone, Copy, Debug, PartialEq, Eq, Structural)]
pub enum Fault {
    Connect,
    SendDisable,
    ScreenOff,
    Arm,
    SendEnable,
}

/// Where a session stands: each phase waits for the outcome of one step.
#[derive(Clone, Copy, Debug, PartialEq, Eq, Structural)]
pub enum Phase {
    Init,
    Connecting,
    Disabling,
    Blanking,
    Arming,
    Waiting,
    Reenabling,
    Quitting,
    Done,
    Failed,
}

/// What the caller reports back.
#[derive(Clone, Copy, Debug, PartialEq, Eq, Structural)]
pub enum Event {
    Start,
    Connected,
    ConnectFailed,
    DisableSent,
    DisableFailed,
    ScreenOffDone,
    ScreenOffFailed,
    Armed,
    ArmFailed,
    Fired(Trigger),
    EnableSent,
    EnableFailed,
    QuitDone,
    QuitFailed,
}

/// What the caller is to do next.
#[derive(Clone, Copy, Debug, PartialEq, Eq, Structural)]
pub enum Step {
    Connect,
    SendDisable,
    ScreenOff,
    ArmTriggers,
    Wait,
    SendEnable,
    PerformQuit(QuitAction),
    Finish,
    /// The event was not expected in this phase and changed nothing.
    Ignore,
}

/// One session and what it has seen so far.
#[derive(Clone, Copy, Debug)]
pub struct Session {
    pub phase: Phase,
    /// Whether the display is turned off once the daemon is disabled.
    pub screen_off: bool,
    pub quit: QuitAction,
    /// Whether the daemon acknowledged the disable command.
    pub disabled: bool,
    /// The trigger that ended the wait.
    pub outcome: Option<Trigger>,
    /// The step whose failure ends the session with an error.
    pub fault: Option<Fault>,
    /// Whether the quit action could not be started.
    pub quit_failed: bool,
}

pub open spec fn with_phase(s: Session, p: Phase) -> Session {
    Session { phase: p, ..s }
}

/// A session that fails at `f`.
pub open spec fn failing(s: Session, p: Phase, f: Fault) -> Session {
    Session { phase: p, fault: Some(f), ..s }
}

/// The transition of a session on an event, and the step that it asks for.
pub open spec fn next(s: Session, e: Event) -> (Session, Step) {
    match (s.phase, e) {
        (Phase::Init, Event::Start) => (with_phase(s, Phase::Connecting), Step::Connect),
        (Phase::Connecting, Event::Connected) => (with_phase(s, Phase::Disabling), Step::SendDisable),
        (Phase::Connecting, Event::ConnectFailed) => (
            failing(s, Phase::Failed, Fault::Connect),
            Step::Finish,
        ),
        (Phase::Disabling, Event::DisableSent) => if s.screen_off {
            (Session { phase: Phase::Blanking, disabled: true, ..s }, Step::ScreenOff)
        } else {
            (Session { phase: Phase::Arming, disabled: true, ..s }, Step::ArmTriggers)
        },
        (Phase::Disabling, Event::DisableFailed) => (
            failing(s, Phase::Failed, Fault::SendDisable),
            Step::Finish,
        ),
        (Phase::Blanking, Event::ScreenOffDone) => (with_phase(s, Phase::Arming), Step::ArmTriggers),
        (Phase::Blanking, Event::ScreenOffFailed) => (
            failing(s, Phase::Reenabling, Fault::ScreenOff),
            Step::SendEnable,
        ),
        (Phase::Arming, Event::Armed) => (with_phase(s, Phase::Waiting), Step::Wait),
        (Phase::Arming, Event::ArmFailed) => (
            failing(s, Phase::Reenabling, Fault::Arm),
            Step::SendEnable,
        ),
        (Phase::Waiting, Event::Fired(t)) => (
            Session { phase: Phase::Reenabling, outcome: Some(t), ..s },
            Step::SendEnable,
        ),
        (Phase::Reenabling, Event::EnableSent) => if s.fault is Some {
            (with_phase(s, Phase::Failed), Step::Finish)
        } else {
            (with_phase(s, Phase::Quitting), Step::PerformQuit(s.quit))
        },
        (Phase::Reenabling, Event::EnableFailed) => (
            failing(s, Phase::Failed, Fault::SendEnable),
            Step::Finish,
        ),
        (Phase::Quitting, Event::QuitDone) => (with_phase(s, Phase::Done), Step::Finish),
        (Phase::Quitting, Event::QuitFailed) => (
            Session { phase: Phase::Done, quit_failed: true, ..s },
            Step::Finish,
        ),
        _ => (s, Step::Ignore),
    }
}

impl Session {
    pub open spec fn spec_new(screen_off: bool, quit: QuitAction) -> Session {
        Session {
            phase: Phase::Init,
            screen_off,
            quit,
            disabled: false,
            outcome: None,
            fault: None,
            quit_failed: false,
        }
    }

    /// A session that has not started.
    pub fn new(screen_off: bool, quit: QuitAction) -> (r: Session)
        ensures
            r == Session::spec_new(screen_off, quit),
    {
        Session {
            phase: Phase::Init,
            screen_off,
            quit,
            disabled: false,
            outcome: None,
            fault: None,
            quit_failed: false,
        }
    }

    /// Whether the session has ended, well or not.
    pub open spec fn spec_is_over(self) -> bool {
        self.phase == Phase::Done || self.phase == Phase::Failed
    }

    pub fn is_over(&self) -> (r: bool)
        ensures
            r == self.spec_is_over(),
    {
        match self.phase {
            Phase::Done | Phase::Failed => true,
            _ => false,
        }
    }

    /// Takes in what happened and says what to do next.
    pub fn step(&mut self, e: Event) -> (r: Step)
        ensures
            (*final(self), r) == next(*old(self), e),
    {
        let s = *self;
        let (n, r) = match (s.phase, e) {
            (Phase::Init, Event::Start) => (Session { phase: Phase::Connecting, ..s }, Step::Connect),
            (Phase::Connecting, Event::Connected) => (
                Session { phase: Phase::Disabling, ..s },
                Step::SendDisable,
            ),
            (Phase::Connecting, Event::ConnectFailed) => (
                Session { phase: Phase::Failed, fault: Some(Fault::Connect), ..s },
                Step::Finish,
            ),
            (Phase::Disabling, Event::DisableSent) => if s.screen_off {
                (Session { phase: Phase::Blanking, disabled: true, ..s }, Step::ScreenOff)
            } else {
                (Session { phase: Phase::Arming, disabled: true, ..s }, Step::ArmTriggers)
            },
            (Phase::Disabling, Event::DisableFailed) => (
                Session { phase: Phase::Failed, fault: Some(Fault::SendDisable), ..s },
                Step::Finish,
            ),
            (Phase::Blanking, Event::ScreenOffDone) => (
                Session { phase: Phase::Arming, ..s },
                Step::ArmTriggers,
            ),
            (Phase::Blanking, Event::ScreenOffFailed) => (
                Session { phase: Phase::Reenabling, fault: Some(Fault::ScreenOff), ..s },
                Step::SendEnable,
            ),
            (Phase::Arming, Event::Armed) => (Session { phase: Phase::Waiting, ..s }, Step::Wait),
            (Phase::Arming, Event::ArmFailed) => (
                Session { phase: Phase::Reenabling, fault: Some(Fault::Arm), ..s },
                Step::SendEnable,
            ),
            (Phase::Waiting, Event::Fired(t)) => (
                Session { phase: Phase::Reenabling, outcome: Some(t), ..s },
                Step::SendEnable,
            ),
            (Phase::Reenabling, Event::EnableSent) => if s.fault.is_some() {
                (Session { phase: Phase::Failed, ..s }, Step::Finish)
            } else {
                (Session { phase: Phase::Quitting, ..s }, Step::PerformQuit(s.quit))
            },
            (Phase::Reenabling, Event::EnableFailed) => (
                Session { phase: Phase::Failed, fault: Some(Fault::SendEnable), ..s },
                Step::Finish,
            ),
            (Phase::Quitting, Event::QuitDone) => (Session { phase: Phase::Done, ..s }, Step::Finish),
            (Phase::Quitting, Event::QuitFailed) => (
                Session { phase: Phase::Done, quit_failed: true, ..s },
                Step::Finish,
            ),
            _ => (s, Step::Ignore),
        };
        *self = n;
        r
    }
}

/// The state of a session and the steps it asked for, once it has taken in
/// `events` in order.
pub open spec fn run(s: Session, events: Seq<Event>) -> (Session, Seq<Step>)
    decreases events.len(),
{
    if events.len() == 0 {
        (s, Seq::empty())
    } else {
        let (m, steps) = run(s, events.drop_last());
        let (n, st) = next(m, events.last());
        (n, steps.push(st))
    }
}

/// How many times `x` occurs in `steps`.
pub open spec fn count_step(steps: Seq<Step>, x: Step) -> nat
    decreases steps.len(),
{
    if steps.len() == 0 {
        0
    } else {
        count_step(steps.drop_last(), x) + if steps.last() == x {
            1nat
        } else {
            0nat
        }
    }
}

/// The phases in which a session has not yet asked to disable the daemon, or
/// waits to hear whether it did.
pub open spec fn before_disable(p: Phase) -> bool {
    p == Phase::Init || p == Phase::Connecting || p == Phase::Disabling
}

/// The phases that follow the end of the wait.
pub open spec fn after_wait(p: Phase) -> bool {
    p == Phase::Reenabling || p == Phase::Quitting || p == Phase::Done || p == Phase::Failed
}

/// What holds of every session that a run from a new one reaches.
pub open spec fn reachable_inv(s: Session) -> bool {
    &&& before_disable(s.phase) ==> !s.disabled
    &&& (!before_disable(s.phase) && s.phase != Phase::Failed) ==> s.disabled
    &&& !after_wait(s.phase) ==> s.fault is None && s.outcome is None
    &&& s.phase == Phase::Failed && s.fault == Some(Fault::Connect) ==> !s.disabled
    &&& s.phase == Phase::Reenabling ==> s.fault != Some(Fault::Connect)
}

/// How many enable commands a session in this state has asked for.
pub open spec fn enables_asked(s: Session) -> nat {
    if s.phase == Phase::Reenabling || s.phase == Phase::Quitting || s.phase == Phase::Done {
        1
    } else if s.phase == Phase::Failed && s.disabled {
        1
    } else {
        0
    }
}

proof fn lemma_count_push(steps: Seq<Step>, st: Step, x: Step)
    ensures
        count_step(steps.push(st), x) == count_step(steps, x) + if st == x {
            1nat
        } else {
            0nat
        },
{
    assert(steps.push(st).drop_last() =~= steps);
}

/// Whether `x` occurs among the first `i` steps.
pub open spec fn occurs_before(steps: Seq<Step>, x: Step, i: int) -> bool {
    exists|j: int| 0 <= j < i && steps[j] == x
}

proof fn lemma_occurs_before_push(steps: Seq<Step>, st: Step, x: Step, i: int)
    requires
        occurs_before(steps, x, i),
        i <= steps.len(),
    ensures
        occurs_before(steps.push(st), x, i),
{
    let j = choose|j: int| 0 <= j < i && steps[j] == x;
    assert(steps.push(st)[j] == x);
}

proof fn lemma_run_state(screen_off: bool, quit: QuitAction, events: Seq<Event>)
    ensures
        ({
            let (s, steps) = run(Session::spec_new(screen_off, quit), events);
            &&& reachable_inv(s)
            &&& s.screen_off == screen_off && s.quit == quit
            &&& count_step(steps, Step::SendEnable) == enables_asked(s)
            &&& steps.len() == events.len()
        }),
    decreases events.len(),
{
    if events.len() > 0 {
        lemma_run_state(screen_off, quit, events.drop_last());
        let (m, steps) = run(Session::spec_new(screen_off, quit), events.drop_last());
        let (n, st) = next(m, events.last());
        lemma_count_push(steps, st, Step::SendEnable);
    }
}

proof fn lemma_run_disable_order(screen_off: bool, quit: QuitAction, events: Seq<Event>)
    ensures
        ({
            let (s, steps) = run(Session::spec_new(screen_off, quit), events);
            &&& (s.phase != Phase::Init && s.phase != Phase::Connecting && s.fault != Some(
                Fault::Connect,
            )) ==> occurs_before(steps, Step::SendDisable, steps.len() as int)
            &&& forall|i: int|
                0 <= i < steps.len() && steps[i] == Step::ArmTriggers ==> occurs_before(
                    steps,
                    Step::SendDisable,
                    i,
                )
        }),
    decreases events.len(),
{
    if events.len() > 0 {
        let init = Session::spec_new(screen_off, quit);
        lemma_run_state(screen_off, quit, events.drop_last());
        lemma_run_disable_order(screen_off, quit, events.drop_last());
        let (m, steps) = run(init, events.drop_last());
        let (n, st) = next(m, events.last());
        let all = steps.push(st);
        let k = steps.len() as int;
        if m.phase == Phase::Connecting && events.last() == Event::Connected {
            assert(all[k] == Step::SendDisable);
        } else if m.phase != Phase::Init && m.phase != Phase::Connecting && m.fault != Some(
            Fault::Connect,
        ) {
            lemma_occurs_before_push(steps, st, Step::SendDisable, k);
        }
        assert forall|i: int|
            0 <= i < all.len() && all[i] == Step::ArmTriggers implies occurs_before(
                all,
                Step::SendDisable,
                i,
            ) by {
            if i < k {
                assert(all[i] == steps[i]);
            }
            lemma_occurs_before_push(steps, st, Step::SendDisable, i);
        }
    }
}

proof fn lemma_run_enable_order(screen_off: bool, quit: QuitAction, events: Seq<Event>)
    ensures
        ({
            let (s, steps) = run(Session::spec_new(screen_off, quit), events);
            &&& (s.phase == Phase::Reenabling || s.phase == Phase::Quitting || s.phase
                == Phase::Done) ==> occurs_before(steps, Step::SendEnable, steps.len() as int)
            &&& forall|i: int|
                0 <= i < steps.len() && steps[i] is PerformQuit ==> occurs_before(
                    steps,
                    Step::SendEnable,
                    i,
                )
        }),
    decreases events.len(),
{
    if events.len() > 0 {
        let init = Session::spec_new(screen_off, quit);
        lemma_run_state(screen_off, quit, events.drop_last());
        lemma_run_enable_order(screen_off, quit, events.drop_last());
        let (m, steps) = run(init, events.drop_last());
        let (n, st) = next(m, events.last());
        let all = steps.push(st);
        let k = steps.len() as int;
        if st == Step::SendEnable {
            assert(all[k] == Step::SendEnable);
        } else if m.phase == Phase::Reenabling || m.phase == Phase::Quitting || m.phase
            == Phase::Done {
            lemma_occurs_before_push(steps, st, Step::SendEnable, k);
        }
        assert forall|i: int|
            0 <= i < all.len() && all[i] is PerformQuit implies occurs_before(
                all,
                Step::SendEnable,
                i,
            ) by {
            if i < k {
                assert(all[i] == steps[i]);
            }
            lemma_occurs_before_push(steps, st, Step::SendEnable, i);
        }
    }
}

/// The enable command is asked for at most once in a session; a session that
/// has not had the disable command acknowledged never asks for it; and a
/// session that has had it acknowledged asks for it exactly once by the time
/// it is over.
pub proof fn lemma_enable_pairing(screen_off: bool, quit: QuitAction, events: Seq<Event>)
    ensures
        ({
            let (s, steps) = run(Session::spec_new(screen_off, quit), events);
            &&& count_step(steps, Step::SendEnable) <= 1
            &&& !s.disabled ==> count_step(steps, Step::SendEnable) == 0
            &&& (s.disabled && s.spec_is_over()) ==> count_step(steps, Step::SendEnable) == 1
        }),
{
    lemma_run_state(screen_off, quit, events);
}

/// Triggers are armed only after the disable command was asked for and
/// acknowledged: every arming step has a disable step before it, and the
/// session that asks to arm has its disable acknowledged.
pub proof fn lemma_disable_before_arming(screen_off: bool, quit: QuitAction, events: Seq<Event>)
    ensures
        ({
            let steps = run(Session::spec_new(screen_off, quit), events).1;
            forall|i: int|
                0 <= i < steps.len() && steps[i] == Step::ArmTriggers ==> occurs_before(
                    steps,
                    Step::SendDisable,
                    i,
                )
        }),
        forall|s: Session, e: Event|
            reachable_inv(s) && #[trigger] next(s, e).1 == Step::ArmTriggers ==> next(s, e).0.disabled,
{
    lemma_run_disable_order(screen_off, quit, events);
}

/// The quit action is asked for only after the enable command, and only once
/// the daemon has acknowledged it in a session with no fault.
pub proof fn lemma_quit_after_enable(screen_off: bool, quit: QuitAction, events: Seq<Event>)
    ensures
        ({
            let steps = run(Session::spec_new(screen_off, quit), events).1;
            forall|i: int|
                0 <= i < steps.len() && steps[i] is PerformQuit ==> occurs_before(
                    steps,
                    Step::SendEnable,
                    i,
                )
        }),
        forall|s: Session, e: Event| #[trigger]
            next(s, e).1 is PerformQuit ==> s.phase == Phase::Reenabling && e == Event::EnableSent
                && s.fault is None && next(s, e).1 == Step::PerformQuit(s.quit),
{
    lemma_run_enable_order(screen_off, quit, events);
}

proof fn lemma_after_wait_stays(s: Session, t: Trigger, events: Seq<Event>)
    requires
        after_wait(s.phase),
        s.outcome == Some(t),
    ensures
        ({
            let (n, steps) = run(s, events);
            &&& after_wait(n.phase)
            &&& n.outcome == Some(t)
            &&& count_step(steps, Step::SendEnable) == 0
            &&& steps.len() == events.len()
            &&& forall|i: int|
                0 <= i < events.len() && events[i] is Fired ==> steps[i] == Step::Ignore
        }),
    decreases events.len(),
{
    if events.len() > 0 {
        lemma_after_wait_stays(s, t, events.drop_last());
        let (m, steps) = run(s, events.drop_last());
        let (n, st) = next(m, events.last());
        lemma_count_push(steps, st, Step::SendEnable);
        let all = steps.push(st);
        assert forall|i: int|
            0 <= i < events.len() && events[i] is Fired implies all[i] == Step::Ignore by {
            if i < steps.len() {
                assert(events.drop_last()[i] == events[i]);
            }
        }
    }
}

/// The first trigger to fire ends the wait and is the session's outcome;
/// whatever triggers fire after it are ignored, leave the outcome as it is and
/// ask for no further enable command.
pub proof fn lemma_first_trigger_wins(
    screen_off: bool,
    quit: QuitAction,
    before: Seq<Event>,
    t: Trigger,
    after: Seq<Event>,
)
    requires
        run(Session::spec_new(screen_off, quit), before).0.phase == Phase::Waiting,
    ensures
        ({
            let fired = run(Session::spec_new(screen_off, quit), before.push(Event::Fired(t)));
            let (end, later) = run(fired.0, after);
            &&& fired.0.outcome == Some(t)
            &&& fired.1.last() == Step::SendEnable
            &&& end.outcome == Some(t)
            &&& count_step(later, Step::SendEnable) == 0
            &&& forall|i: int|
                0 <= i < after.len() && after[i] is Fired ==> later[i] == Step::Ignore
        }),
{
    let init = Session::spec_new(screen_off, quit);
    assert(before.push(Event::Fired(t)).drop_last() =~= before);
    let fired = run(init, before.push(Event::Fired(t)));
    lemma_after_wait_stays(fired.0, t, after);
}

} // verus!
