use vstd::prelude::*;

use crate::config::ConfigSnapshot;

verus! {

/// Where the sequencer stands in an actuation cycle.
#[derive(Clone, Copy, Debug, PartialEq, Eq, Structural)]
pub enum Phase {
    /// Waiting for the next trigger.
    Idle,
    /// A trigger was taken with a full snapshot; the duty cycle is being applied.
    SettingDuty { duty: u8, duration: u8 },
    /// The duty cycle is applied; the output is being enabled.
    Enabling { duration: u8 },
    /// The output is enabled and held for `duration` milliseconds.
    Holding { duration: u8 },
    /// The output is being disabled (also the first step after boot).
    Disabling,
    /// The command channel closed; nothing more will happen.
    Stopped,
}

/// What the loop around the sequencer reports back.
#[derive(Clone, Copy, Debug, PartialEq, Eq, Structural)]
pub enum Event {
    /// A trigger was received, with the configuration read at that moment.
    Trigger(ConfigSnapshot),
    /// The command channel is closed for good.
    ChannelClosed,
    /// The requested hardware operation, or the hold, completed.
    Done,
    /// The peripheral rejected the requested operation.
    Failed,
}

/// The actuator peripheral rejected a command.
#[derive(Clone, Copy, Debug, PartialEq, Eq, Structural)]
pub struct HardwareError;

impl Event {
    /// The event that reports the outcome of a hardware step or of the hold.
    pub fn from_outcome(r: Result<(), HardwareError>) -> (e: Event)
        ensures
            e == (if r is Ok {
                Event::Done
            } else {
                Event::Failed
            }),
    {
        match r {
            Ok(()) => Event::Done,
            Err(_) => Event::Failed,
        }
    }
}

/// What the loop around the sequencer must do next.
#[derive(Clone, Copy, Debug, PartialEq, Eq, Structural)]
pub enum Action {
    /// Wait on the command channel for the next trigger.
    AwaitTrigger,
    /// Apply this duty cycle to the output.
    SetDuty(u8),
    /// Enable the output.
    Enable,
    /// Wait on a monotonic timer for this many milliseconds.
    Hold(u64),
    /// Disable the output.
    Disable,
    /// Leave the loop.
    Stop,
}

/// The action that a phase waits on.
pub open spec fn pending_action(p: Phase) -> Action {
    match p {
        Phase::Idle => Action::AwaitTrigger,
        Phase::SettingDuty { duty, .. } => Action::SetDuty(duty),
        Phase::Enabling { .. } => Action::Enable,
        Phase::Holding { duration } => Action::Hold(duration as u64),
        Phase::Disabling => Action::Disable,
        Phase::Stopped => Action::Stop,
    }
}

/// The phase that an event leads to, or `None` for an event the phase
/// does not wait for.
pub open spec fn transition(p: Phase, e: Event) -> Option<Phase> {
    match p {
        Phase::Idle => match e {
            Event::Trigger(snap) => match (snap.press_duration, snap.duty_cycle) {
                (Some(duration), Some(duty)) => Some(Phase::SettingDuty { duty, duration }),
                _ => Some(Phase::Idle),
            },
            Event::ChannelClosed => Some(Phase::Stopped),
            _ => None,
        },
        Phase::SettingDuty { duration, .. } => match e {
            Event::Done => Some(Phase::Enabling { duration }),
            Event::Failed => Some(Phase::Idle),
            _ => None,
        },
        Phase::Enabling { duration } => match e {
            Event::Done => Some(Phase::Holding { duration }),
            Event::Failed => Some(Phase::Idle),
            _ => None,
        },
        Phase::Holding { .. } => match e {
            Event::Done | Event::Failed => Some(Phase::Disabling),
            _ => None,
        },
        Phase::Disabling => match e {
            Event::Done | Event::Failed => Some(Phase::Idle),
            _ => None,
        },
        Phase::Stopped => None,
    }
}

/// The actuation sequencer: the sole owner of the actuator output. It takes
/// one trigger at a time and walks it through set-duty, enable, hold and
/// disable; a trigger that arrives meanwhile waits in the channel.
pub struct Sequencer {
    phase: Phase,
}

impl View for Sequencer {
    type V = Phase;

    closed spec fn view(&self) -> Phase {
        self.phase
    }
}

impl Sequencer {
    /// A sequencer just after boot: it first forces the output off.
    pub fn new() -> (r: Sequencer)
        ensures
            r@ == Phase::Disabling,
    {
        Sequencer { phase: Phase::Disabling }
    }

    /// The current phase.
    pub fn phase(&self) -> (r: Phase)
        ensures
            r == self@,
    {
        self.phase
    }

    /// The action the sequencer is waiting on.
    pub fn action(&self) -> (r: Action)
        ensures
            r == pending_action(self@),
    {
        match self.phase {
            Phase::Idle => Action::AwaitTrigger,
            Phase::SettingDuty { duty, .. } => Action::SetDuty(duty),
            Phase::Enabling { .. } => Action::Enable,
            Phase::Holding { duration } => Action::Hold(duration as u64),
            Phase::Disabling => Action::Disable,
            Phase::Stopped => Action::Stop,
        }
    }

    /// Whether the sequencer waits for a trigger, with no actuation in progress.
    pub fn is_idle(&self) -> (r: bool)
        ensures
            r == (self@ is Idle),
    {
        match self.phase {
            Phase::Idle => true,
            _ => false,
        }
    }

    /// Feeds one event. An event that the current phase waits for moves the
    /// sequencer on and yields the next action; any other changes nothing
    /// and yields `None`.
    pub fn step(&mut self, e: Event) -> (r: Option<Action>)
        ensures
            match transition(old(self)@, e) {
                Some(q) => final(self)@ == q && r == Some(pending_action(q)),
                None => final(self)@ == old(self)@ && r is None,
            },
    {
        let next = match self.phase {
            Phase::Idle => match e {
                Event::Trigger(snap) => match (snap.press_duration, snap.duty_cycle) {
                    (Some(duration), Some(duty)) => Some(Phase::SettingDuty { duty, duration }),
                    _ => Some(Phase::Idle),
                },
                Event::ChannelClosed => Some(Phase::Stopped),
                _ => None,
            },
            Phase::SettingDuty { duration, .. } => match e {
                Event::Done => Some(Phase::Enabling { duration }),
                Event::Failed => Some(Phase::Idle),
                _ => None,
            },
            Phase::Enabling { duration } => match e {
                Event::Done => Some(Phase::Holding { duration }),
                Event::Failed => Some(Phase::Idle),
                _ => None,
            },
            Phase::Holding { .. } => match e {
                Event::Done | Event::Failed => Some(Phase::Disabling),
                _ => None,
            },
            Phase::Disabling => match e {
                Event::Done | Event::Failed => Some(Phase::Idle),
                _ => None,
            },
            Phase::Stopped => None,
        };
        match next {
            Some(q) => {
                self.phase = q;
                Some(self.action())
            },
            None => None,
        }
    }
}

/// The phase reached after feeding `evs` in order; refused events change nothing.
pub open spec fn run_phase(p: Phase, evs: Seq<Event>) -> Phase
    decreases evs.len(),
{
    if evs.len() == 0 {
        p
    } else {
        let q = match transition(p, evs[0]) {
            Some(q) => q,
            None => p,
        };
        run_phase(q, evs.drop_first())
    }
}

/// The actions yielded while feeding `evs` in order, one per accepted event.
pub open spec fn run_actions(p: Phase, evs: Seq<Event>) -> Seq<Action>
    decreases evs.len(),
{
    if evs.len() == 0 {
        Seq::empty()
    } else {
        match transition(p, evs[0]) {
            Some(q) => seq![pending_action(q)] + run_actions(q, evs.drop_first()),
            None => run_actions(p, evs.drop_first()),
        }
    }
}

/// The events of one trigger whose hardware steps all succeed.
pub open spec fn cycle_events(snap: ConfigSnapshot) -> Seq<Event> {
    match (snap.press_duration, snap.duty_cycle) {
        (Some(_), Some(_)) => seq![
            Event::Trigger(snap),
            Event::Done,
            Event::Done,
            Event::Done,
            Event::Done,
        ],
        _ => seq![Event::Trigger(snap)],
    }
}

/// The actions of one such trigger: a full actuation with the snapshot's
/// values, or no hardware call at all when a setting is absent.
pub open spec fn cycle_actions(snap: ConfigSnapshot) -> Seq<Action> {
    match (snap.press_duration, snap.duty_cycle) {
        (Some(duration), Some(duty)) => seq![
            Action::SetDuty(duty),
            Action::Enable,
            Action::Hold(duration as u64),
            Action::Disable,
            Action::AwaitTrigger,
        ],
        _ => seq![Action::AwaitTrigger],
    }
}

/// The events of a series of triggers, each with the snapshot read when it was taken.
pub open spec fn series_events(snaps: Seq<ConfigSnapshot>) -> Seq<Event>
    decreases snaps.len(),
{
    if snaps.len() == 0 {
        Seq::empty()
    } else {
        series_events(snaps.drop_last()) + cycle_events(snaps.last())
    }
}

/// The actions of that series: the cycles one after the other, in order.
pub open spec fn series_actions(snaps: Seq<ConfigSnapshot>) -> Seq<Action>
    decreases snaps.len(),
{
    if snaps.len() == 0 {
        Seq::empty()
    } else {
        series_actions(snaps.drop_last()) + cycle_actions(snaps.last())
    }
}

/// Feeding two runs of events one after the other is feeding their concatenation.
pub proof fn lemma_run_append(p: Phase, a: Seq<Event>, b: Seq<Event>)
    ensures
        run_phase(p, a + b) == run_phase(run_phase(p, a), b),
        run_actions(p, a + b) == run_actions(p, a) + run_actions(run_phase(p, a), b),
    decreases a.len(),
{
    if a.len() == 0 {
        assert(a + b =~= b);
    } else {
        assert((a + b).drop_first() =~= a.drop_first() + b);
        let q = match transition(p, a[0]) {
            Some(q) => q,
            None => p,
        };
        lemma_run_append(q, a.drop_first(), b);
        match transition(p, a[0]) {
            Some(q) => {
                assert(seq![pending_action(q)] + run_actions(q, a.drop_first() + b) =~= seq![
                    pending_action(q),
                ] + run_actions(q, a.drop_first()) + run_actions(run_phase(p, a), b));
            },
            None => {},
        }
    }
}

/// One trigger taken while idle, with every hardware step succeeding, yields
/// exactly its cycle and leaves the sequencer idle again.
pub proof fn lemma_one_cycle(snap: ConfigSnapshot)
    ensures
        run_phase(Phase::Idle, cycle_events(snap)) == Phase::Idle,
        run_actions(Phase::Idle, cycle_events(snap)) == cycle_actions(snap),
{
    let evs = cycle_events(snap);
    reveal_with_fuel(run_phase, 6);
    reveal_with_fuel(run_actions, 6);
    match (snap.press_duration, snap.duty_cycle) {
        (Some(duration), Some(duty)) => {
            let e1 = evs.drop_first();
            let e2 = e1.drop_first();
            let e3 = e2.drop_first();
            let e4 = e3.drop_first();
            assert(e4.drop_first().len() == 0);
            assert(run_actions(Phase::Idle, evs) =~= cycle_actions(snap));
        },
        _ => {
            assert(evs.drop_first().len() == 0);
            assert(run_actions(Phase::Idle, evs) =~= cycle_actions(snap));
        },
    }
}

/// Triggers are served strictly one after another and in the order they were
/// taken: starting idle, a series of triggers (each read with the snapshot
/// current when it was dequeued, every hardware step succeeding) yields
/// exactly one cycle per trigger, in order, each using its own snapshot, and
/// each releasing the output before the next one starts; the sequencer ends idle.
pub proof fn lemma_triggers_served_in_order(snaps: Seq<ConfigSnapshot>)
    ensures
        run_phase(Phase::Idle, series_events(snaps)) == Phase::Idle,
        run_actions(Phase::Idle, series_events(snaps)) == series_actions(snaps),
    decreases snaps.len(),
{
    if snaps.len() > 0 {
        let init = snaps.drop_last();
        lemma_triggers_served_in_order(init);
        lemma_run_append(Phase::Idle, series_events(init), cycle_events(snaps.last()));
        lemma_one_cycle(snaps.last());
    }
}

/// The events that carry an actuation in progress to its end, every
/// hardware step succeeding.
pub open spec fn finish_events(p: Phase) -> Seq<Event> {
    match p {
        Phase::SettingDuty { .. } => seq![Event::Done, Event::Done, Event::Done, Event::Done],
        Phase::Enabling { .. } => seq![Event::Done, Event::Done, Event::Done],
        Phase::Holding { .. } => seq![Event::Done, Event::Done],
        Phase::Disabling => seq![Event::Done],
        _ => Seq::empty(),
    }
}

/// The actions that end that actuation: the rest of its cycle.
pub open spec fn finish_actions(p: Phase) -> Seq<Action> {
    match p {
        Phase::SettingDuty { duration, .. } => seq![
            Action::Enable,
            Action::Hold(duration as u64),
            Action::Disable,
            Action::AwaitTrigger,
        ],
        Phase::Enabling { duration } => seq![
            Action::Hold(duration as u64),
            Action::Disable,
            Action::AwaitTrigger,
        ],
        Phase::Holding { .. } => seq![Action::Disable, Action::AwaitTrigger],
        Phase::Disabling => seq![Action::AwaitTrigger],
        _ => Seq::empty(),
    }
}

/// Triggers queued while an actuation is in progress wait for it: the
/// current actuation runs to its end untouched, then each queued trigger
/// yields its own full cycle, in order, with the snapshot read when it was
/// dequeued; nothing overlaps and the sequencer ends idle.
pub proof fn lemma_queued_behind_current(p: Phase, snaps: Seq<ConfigSnapshot>)
    requires
        !(p is Stopped),
    ensures
        run_phase(p, finish_events(p) + series_events(snaps)) == Phase::Idle,
        run_actions(p, finish_events(p) + series_events(snaps)) == finish_actions(p)
            + series_actions(snaps),
{
    reveal_with_fuel(run_phase, 5);
    reveal_with_fuel(run_actions, 5);
    let f = finish_events(p);
    lemma_run_append(p, f, series_events(snaps));
    lemma_triggers_served_in_order(snaps);
    match p {
        Phase::Idle => {},
        _ => {
            let f1 = f.drop_first();
            let f2 = f1.drop_first();
            let f3 = f2.drop_first();
            let f4 = f3.drop_first();
            assert(run_actions(p, f) =~= finish_actions(p));
        },
    }
}

/// A trigger taken while the press duration is absent touches no hardware:
/// the sequencer stays idle and only waits for the next trigger.
pub proof fn lemma_absent_duration_no_hardware(snap: ConfigSnapshot)
    requires
        snap.press_duration is None,
    ensures
        transition(Phase::Idle, Event::Trigger(snap)) == Some(Phase::Idle),
        run_actions(Phase::Idle, seq![Event::Trigger(snap)]) == seq![Action::AwaitTrigger],
{
    reveal_with_fuel(run_actions, 2);
    assert(seq![Event::Trigger(snap)].drop_first().len() == 0);
    assert(run_actions(Phase::Idle, seq![Event::Trigger(snap)]) =~= seq![Action::AwaitTrigger]);
}

/// At most one actuation is in progress: a new one starts (its duty cycle is
/// set) only from idle on a trigger, the output is enabled only right after
/// its duty cycle was applied, and once enabled it is held and then always
/// disabled before the sequencer is idle again.
pub proof fn lemma_one_actuation_at_a_time(p: Phase, e: Event)
    ensures
        transition(p, e) matches Some(q) && pending_action(q) is SetDuty ==> p is Idle
            && e is Trigger,
        transition(p, e) matches Some(q) && pending_action(q) is Enable ==> p is SettingDuty,
        p is Holding ==> transition(p, e) is None || transition(p, e) == Some(Phase::Disabling),
        p is Disabling ==> transition(p, e) is None || transition(p, e) == Some(Phase::Idle),
        p is Stopped ==> transition(p, e) is None,
{
}

} // verus!
