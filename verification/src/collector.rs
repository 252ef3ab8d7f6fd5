//! The collector's state machine: connect once, then run cycles on a fixed
//! cadence.
//!
//! The machine decides; its driver acts. The driver opens the session and
//! reports how that went; for every [`Action::Cycle`] it waits until the
//! given time, samples, builds the table, publishes it and reports how the
//! cycle ended. Times are whole seconds after the anchor, the moment at which
//! the loop was entered. Each cycle's time is the previous one plus the
//! interval, whatever the cycles themselves took, so the cadence does not
//! drift.

use crate::config::{clamp_interval, Options};
use vstd::prelude::*;

verus! {

/// The name under which the collector opens its session.
pub const NAME: &'static str = "SYSINFO";

/// Where the collector stands.
#[derive(Clone, Copy, Debug, PartialEq, Eq, Structural)]
pub enum Phase {
    /// The session is not open yet. No cycle has run.
    Connecting,
    /// The session is open and cycles run on schedule.
    Running,
    /// The session could not be opened. No cycle will ever run.
    Stopped,
}

/// What the driver reports back.
#[derive(Clone, Copy, Debug, PartialEq, Eq, Structural)]
pub enum Event {
    /// The session was opened.
    Connected,
    /// The session could not be opened.
    ConnectFailed,
    /// The cycle's table was published.
    Published,
    /// Publishing the cycle's table failed. Its data is dropped.
    PublishFailed,
    /// The cycle had no snapshot to publish: sampling failed.
    SamplingFailed,
}

impl Event {
    /// Whether the event reports the end of a cycle, however it ended.
    pub open spec fn ends_cycle(self) -> bool {
        self is Published || self is PublishFailed || self is SamplingFailed
    }
}

/// What the driver is to do next.
#[derive(Clone, Copy, Debug, PartialEq, Eq, Structural)]
pub enum Action {
    /// Run one cycle `at` seconds after the anchor, or at once if that time
    /// has passed, and report how it ended.
    Cycle { at: u64 },
    /// Terminate: the session could not be opened.
    Exit,
    /// The event does not belong to the current phase; there is nothing to do.
    Ignore,
}

/// The mathematical model of a collector.
pub struct Model {
    /// The phase.
    pub phase: Phase,
    /// Seconds between two cycles.
    pub interval: nat,
    /// The number of cycles that have ended.
    pub cycles: nat,
    /// The time of the next cycle, in seconds after the anchor.
    pub wake: nat,
}

impl Model {
    /// The model of a collector that has just been made for `configured`
    /// seconds between cycles.
    pub open spec fn initial(configured: u64) -> Model {
        Model {
            phase: Phase::Connecting,
            interval: clamp_interval(configured) as nat,
            cycles: 0,
            wake: 0,
        }
    }

    /// Whether the time of the next cycle fits in a `u64` after `event`.
    pub open spec fn has_room_for(self, event: Event) -> bool {
        self.completes_cycle(event) ==> self.wake + self.interval <= u64::MAX
    }

    /// Whether `event` ends a cycle of this collector.
    pub open spec fn completes_cycle(self, event: Event) -> bool {
        self.phase is Running && event.ends_cycle()
    }

    /// The model after `event`.
    pub open spec fn next(self, event: Event) -> Model {
        match self.phase {
            Phase::Connecting => match event {
                Event::Connected => Model { phase: Phase::Running, ..self },
                Event::ConnectFailed => Model { phase: Phase::Stopped, ..self },
                _ => self,
            },
            Phase::Running => if event.ends_cycle() {
                Model { cycles: self.cycles + 1, wake: self.wake + self.interval, ..self }
            } else {
                self
            },
            Phase::Stopped => self,
        }
    }

    /// What the driver is told on `event`.
    pub open spec fn action(self, event: Event) -> Action {
        match self.phase {
            Phase::Connecting => match event {
                Event::Connected => Action::Cycle { at: self.wake as u64 },
                Event::ConnectFailed => Action::Exit,
                _ => Action::Ignore,
            },
            Phase::Running => if event.ends_cycle() {
                Action::Cycle { at: (self.wake + self.interval) as u64 }
            } else {
                Action::Ignore
            },
            Phase::Stopped => Action::Exit,
        }
    }

    /// The model after a sequence of events.
    pub open spec fn run(self, events: Seq<Event>) -> Model
        decreases events.len(),
    {
        if events.len() == 0 {
            self
        } else {
            self.run(events.drop_last()).next(events.last())
        }
    }
}

/// A collector. Its interval is at least one second, and the time of its next
/// cycle is the number of completed cycles times the interval.
#[derive(Debug)]
pub struct Collector {
    phase: Phase,
    interval: u64,
    cycles: u64,
    next_wake: u64,
}

impl View for Collector {
    type V = Model;

    closed spec fn view(&self) -> Model {
        Model {
            phase: self.phase,
            interval: self.interval as nat,
            cycles: self.cycles as nat,
            wake: self.next_wake as nat,
        }
    }
}

impl Collector {
    #[verifier::type_invariant]
    spec fn inv(&self) -> bool {
        &&& self.interval >= 1
        &&& self.next_wake == self.cycles * self.interval
    }

    /// A collector for the given options, about to connect.
    pub fn new(options: &Options) -> (collector: Collector)
        ensures
            collector@ == Model::initial(options.update_interval),
    {
        Collector {
            phase: Phase::Connecting,
            interval: options.effective_interval(),
            cycles: 0,
            next_wake: 0,
        }
    }

    /// The phase.
    pub fn phase(&self) -> (phase: Phase)
        ensures
            phase == self@.phase,
    {
        self.phase
    }

    /// Seconds between two cycles: at least one.
    pub fn interval(&self) -> (secs: u64)
        ensures
            secs == self@.interval,
            secs >= 1,
    {
        proof {
            use_type_invariant(self);
        }
        self.interval
    }

    /// The number of cycles that have ended.
    pub fn cycles(&self) -> (n: u64)
        ensures
            n == self@.cycles,
    {
        self.cycles
    }

    /// The time of the next cycle, in seconds after the anchor.
    pub fn next_wake(&self) -> (secs: u64)
        ensures
            secs == self@.wake,
            secs == self@.cycles * self@.interval,
    {
        proof {
            use_type_invariant(self);
        }
        self.next_wake
    }

    /// Whether the collector can take `event`: always, unless the event ends
    /// a cycle and the time of the cycle after it is more seconds than a
    /// `u64` holds.
    pub fn can_step(&self, event: Event) -> (ok: bool)
        ensures
            ok == self@.has_room_for(event),
    {
        proof {
            use_type_invariant(self);
        }
        match (self.phase, event) {
            (Phase::Running, Event::Published)
            | (Phase::Running, Event::PublishFailed)
            | (Phase::Running, Event::SamplingFailed) => {
                self.next_wake <= u64::MAX - self.interval
            },
            _ => true,
        }
    }

    /// Takes `event` and says what to do next.
    ///
    /// The end of a cycle, published or not, moves the schedule on by exactly
    /// one interval. A failure to connect stops the collector for good. An
    /// event that does not belong to the phase changes nothing.
    ///
    /// The time of the next cycle must fit in a `u64`; [`Collector::can_step`]
    /// tells, and [`Collector::try_step`] asks before it steps.
    pub fn step(&mut self, event: Event) -> (action: Action)
        requires
            old(self)@.has_room_for(event),
        ensures
            final(self)@ == old(self)@.next(event),
            action == old(self)@.action(event),
    {
        proof {
            use_type_invariant(&*self);
            assert((self.cycles + 1) * self.interval == self.cycles * self.interval
                + self.interval) by (nonlinear_arith);
        }
        match self.phase {
            Phase::Connecting => match event {
                Event::Connected => {
                    self.phase = Phase::Running;
                    Action::Cycle { at: self.next_wake }
                },
                Event::ConnectFailed => {
                    self.phase = Phase::Stopped;
                    Action::Exit
                },
                _ => Action::Ignore,
            },
            Phase::Running => match event {
                Event::Published | Event::PublishFailed | Event::SamplingFailed => {
                    assert(self.cycles < u64::MAX) by (nonlinear_arith)
                        requires
                            self.cycles * self.interval + self.interval <= u64::MAX,
                            self.interval >= 1,
                    ;
                    let next_wake = self.next_wake + self.interval;
                    *self = Collector {
                        phase: Phase::Running,
                        interval: self.interval,
                        cycles: self.cycles + 1,
                        next_wake,
                    };
                    Action::Cycle { at: next_wake }
                },
                _ => Action::Ignore,
            },
            Phase::Stopped => Action::Exit,
        }
    }

    /// Takes `event` if the collector can take it, and says what to do next;
    /// otherwise leaves the collector as it is and returns `None`.
    pub fn try_step(&mut self, event: Event) -> (action: Option<Action>)
        ensures
            old(self)@.has_room_for(event) ==> {
                &&& final(self)@ == old(self)@.next(event)
                &&& action == Some(old(self)@.action(event))
            },
            !old(self)@.has_room_for(event) ==> {
                &&& final(self)@ == old(self)@
                &&& action.is_none()
            },
    {
        if self.can_step(event) {
            Some(self.step(event))
        } else {
            None
        }
    }
}

/// Whether every event of `events` reports the end of a cycle.
pub open spec fn all_outcomes(events: Seq<Event>) -> bool {
    forall|i: int| 0 <= i < events.len() ==> (#[trigger] events[i]).ends_cycle()
}

/// What holds of a collector in every state that it can reach, whatever was
/// reported to it: the interval is the clamped configured one, at least one
/// second; the time of the next cycle is the number of cycles so far times
/// the interval; and unless the collector is running, no cycle has run.
pub proof fn lemma_invariant(configured: u64, events: Seq<Event>)
    ensures
        ({
            let m = Model::initial(configured).run(events);
            &&& m.interval == clamp_interval(configured)
            &&& m.interval >= 1
            &&& m.wake == m.cycles * m.interval
            &&& m.phase !is Running ==> m.cycles == 0
        }),
    decreases events.len(),
{
    if events.len() > 0 {
        lemma_invariant(configured, events.drop_last());
        let before = Model::initial(configured).run(events.drop_last());
        assert((before.cycles + 1) * before.interval == before.cycles * before.interval
            + before.interval) by (nonlinear_arith);
    } else {
        let m = Model::initial(configured);
        assert(m.cycles * m.interval == 0) by (nonlinear_arith)
            requires
                m.cycles == 0,
        ;
    }
}

/// No event changes the interval.
proof fn lemma_interval_is_kept(m: Model, events: Seq<Event>)
    ensures
        m.run(events).interval == m.interval,
    decreases events.len(),
{
    if events.len() > 0 {
        lemma_interval_is_kept(m, events.drop_last());
    }
}

/// The cadence does not drift. Once connected, after any number of cycles,
/// whichever of them failed to sample or to publish, the collector is still
/// running and the time of the next cycle is the number of cycles so far
/// times the interval: the times of the cycles are 0, interval, 2 * interval
/// and so on. For a configured interval of at least one second that interval
/// is the configured one.
pub proof fn lemma_cadence(configured: u64, outcomes: Seq<Event>)
    requires
        all_outcomes(outcomes),
    ensures
        ({
            let m = Model::initial(configured).next(Event::Connected).run(outcomes);
            &&& m.phase is Running
            &&& m.cycles == outcomes.len()
            &&& m.wake == outcomes.len() * clamp_interval(configured)
            &&& configured >= 1 ==> m.wake == outcomes.len() * configured
        }),
    decreases outcomes.len(),
{
    let start = Model::initial(configured).next(Event::Connected);
    lemma_interval_is_kept(start, outcomes);
    if outcomes.len() > 0 {
        let earlier = outcomes.drop_last();
        assert forall|i: int| 0 <= i < earlier.len() implies (#[trigger] earlier[i]).ends_cycle() by {
            assert(earlier[i] == outcomes[i]);
        }
        lemma_cadence(configured, earlier);
        assert(start.run(earlier).completes_cycle(outcomes.last()));
        assert((earlier.len() + 1) * start.interval == earlier.len() * start.interval
            + start.interval) by (nonlinear_arith);
    }
}

/// The wait between two cycles is never zero: in every state that the
/// collector can reach the applied interval is at least one second, also
/// where zero was configured, and the end of a cycle moves the schedule on by
/// exactly that interval. Nothing else moves it.
pub proof fn lemma_wait_is_positive(configured: u64, events: Seq<Event>, event: Event)
    ensures
        ({
            let m = Model::initial(configured).run(events);
            &&& m.interval >= 1
            &&& configured == 0 ==> m.interval == 1
            &&& m.completes_cycle(event) ==> m.next(event).wake == m.wake + m.interval
            &&& m.completes_cycle(event) ==> m.next(event).wake > m.wake
            &&& !m.completes_cycle(event) ==> m.next(event).wake == m.wake
        }),
{
    lemma_invariant(configured, events);
}

/// A failed cycle is no different from a successful one to the schedule:
/// after a failure to publish, or to sample, the collector is in the same
/// state and asks for the same next cycle, at the same time, as after a
/// publish that went well. While running, it keeps running.
pub proof fn lemma_failure_is_harmless(m: Model, failure: Event)
    requires
        failure is PublishFailed || failure is SamplingFailed,
    ensures
        m.next(failure) == m.next(Event::Published),
        m.action(failure) == m.action(Event::Published),
        m.phase is Running ==> {
            &&& m.next(failure).phase is Running
            &&& m.next(failure).wake == m.wake + m.interval
            &&& m.action(failure) is Cycle
        },
{
}

/// A failure to connect is final. Whatever was reported while connecting
/// and whatever is reported afterwards, the collector stays stopped, no cycle
/// is counted, and the only thing it asks for is to terminate: no cycle ever
/// runs.
pub proof fn lemma_connect_failure_is_final(
    configured: u64,
    earlier: Seq<Event>,
    later: Seq<Event>,
    event: Event,
)
    requires
        Model::initial(configured).run(earlier).phase is Connecting,
    ensures
        Model::initial(configured).run(earlier).action(Event::ConnectFailed) is Exit,
        ({
            let m = Model::initial(configured).run(earlier).next(Event::ConnectFailed).run(later);
            &&& m.phase is Stopped
            &&& m.cycles == 0
            &&& m.wake == 0
            &&& m.action(event) is Exit
        }),
    decreases later.len(),
{
    lemma_invariant(configured, earlier);
    if later.len() > 0 {
        lemma_connect_failure_is_final(configured, earlier, later.drop_last(), later.last());
    }
}

/// No cycle runs before the session is open: while the collector is
/// connecting, no cycle has been counted, and only `Connected` makes it ask
/// for one, the first, at the anchor.
pub proof fn lemma_no_cycle_before_connection(configured: u64, events: Seq<Event>, event: Event)
    ensures
        ({
            let m = Model::initial(configured).run(events);
            m.phase is Connecting ==> {
                &&& m.cycles == 0
                &&& m.action(event) is Cycle <==> event is Connected
                &&& event is Connected ==> m.action(event) == Action::Cycle { at: 0 }
            }
        }),
{
    lemma_invariant(configured, events);
}

} // verus!
