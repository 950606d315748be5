use garage_button::config::ConfigSnapshot;
use garage_button::sequencer::{Action, Event, HardwareError, Phase, Sequencer};

fn snap(duration: Option<u8>, duty: Option<u8>) -> ConfigSnapshot {
    ConfigSnapshot { press_duration: duration, duty_cycle: duty }
}

fn booted() -> Sequencer {
    let mut s = Sequencer::new();
    assert_eq!(s.action(), Action::Disable);
    assert_eq!(s.step(Event::Done), Some(Action::AwaitTrigger));
    s
}

/// Runs one trigger with every hardware step succeeding; returns the actions.
fn run_cycle(s: &mut Sequencer, c: ConfigSnapshot) -> Vec<Action> {
    let mut out = Vec::new();
    let mut a = s.step(Event::Trigger(c)).unwrap();
    out.push(a);
    while a != Action::AwaitTrigger {
        a = s.step(Event::Done).unwrap();
        out.push(a);
    }
    out
}

#[test]
fn boot_forces_output_off_first() {
    let s = Sequencer::new();
    assert_eq!(s.phase(), Phase::Disabling);
    assert_eq!(s.action(), Action::Disable);
    assert!(!s.is_idle());
    let mut t = Sequencer::new();
    assert_eq!(t.step(Event::Failed), Some(Action::AwaitTrigger));
    assert!(t.is_idle());
}

#[test]
fn configured_trigger_runs_full_cycle() {
    let mut s = booted();
    let actions = run_cycle(&mut s, snap(Some(100), Some(128)));
    assert_eq!(
        actions,
        vec![
            Action::SetDuty(128),
            Action::Enable,
            Action::Hold(100),
            Action::Disable,
            Action::AwaitTrigger
        ]
    );
    assert!(s.is_idle());
    // ready for the next trigger at once
    assert_eq!(s.step(Event::Trigger(snap(Some(100), Some(128)))), Some(Action::SetDuty(128)));
}

#[test]
fn unconfigured_trigger_touches_no_hardware() {
    let mut s = booted();
    assert_eq!(s.step(Event::Trigger(snap(None, None))), Some(Action::AwaitTrigger));
    assert!(s.is_idle());
    assert_eq!(s.step(Event::Trigger(snap(None, None))), Some(Action::AwaitTrigger));
    assert!(s.is_idle());
    let actions = run_cycle(&mut s, snap(Some(20), Some(7)));
    assert_eq!(actions[0], Action::SetDuty(7));
}

#[test]
fn absent_duration_skips_enable_and_disable() {
    let mut s = booted();
    assert_eq!(s.step(Event::Trigger(snap(None, Some(200)))), Some(Action::AwaitTrigger));
    assert_eq!(s.phase(), Phase::Idle);
}

#[test]
fn absent_duty_cycle_skips_hardware() {
    let mut s = booted();
    assert_eq!(s.step(Event::Trigger(snap(Some(50), None))), Some(Action::AwaitTrigger));
    assert_eq!(s.phase(), Phase::Idle);
}

#[test]
fn back_to_back_triggers_do_not_overlap() {
    let mut s = booted();
    let mut all = run_cycle(&mut s, snap(Some(50), Some(10)));
    all.extend(run_cycle(&mut s, snap(Some(50), Some(10))));
    let first_disable = all.iter().position(|a| *a == Action::Disable).unwrap();
    let second_enable = all.iter().rposition(|a| *a == Action::Enable).unwrap();
    assert!(first_disable < second_enable);
    assert_eq!(all.iter().filter(|a| **a == Action::Enable).count(), 2);
}

#[test]
fn queued_triggers_each_use_their_own_snapshot() {
    let mut s = booted();
    let snaps = [
        snap(Some(10), Some(1)),
        snap(Some(20), None),
        snap(Some(30), Some(3)),
        snap(Some(40), Some(4)),
    ];
    let mut holds = Vec::new();
    for c in snaps.iter() {
        for a in run_cycle(&mut s, *c) {
            if let Action::Hold(ms) = a {
                holds.push(ms);
            }
        }
    }
    assert_eq!(holds, vec![10, 30, 40]);
}

#[test]
fn triggers_are_refused_mid_cycle() {
    let mut s = booted();
    assert_eq!(s.step(Event::Trigger(snap(Some(5), Some(5)))), Some(Action::SetDuty(5)));
    assert_eq!(s.step(Event::Trigger(snap(Some(9), Some(9)))), None);
    assert_eq!(s.step(Event::ChannelClosed), None);
    assert_eq!(s.action(), Action::SetDuty(5));
}

#[test]
fn hardware_failures_abort_only_the_cycle() {
    let mut s = booted();
    s.step(Event::Trigger(snap(Some(5), Some(5))));
    assert_eq!(s.step(Event::Failed), Some(Action::AwaitTrigger));
    s.step(Event::Trigger(snap(Some(5), Some(5))));
    assert_eq!(s.step(Event::Done), Some(Action::Enable));
    assert_eq!(s.step(Event::Failed), Some(Action::AwaitTrigger));
    s.step(Event::Trigger(snap(Some(5), Some(5))));
    s.step(Event::Done);
    assert_eq!(s.step(Event::Done), Some(Action::Hold(5)));
    // once enabled, the output is always released
    assert_eq!(s.step(Event::Failed), Some(Action::Disable));
    assert_eq!(s.step(Event::Failed), Some(Action::AwaitTrigger));
    assert!(s.is_idle());
}

#[test]
fn closed_channel_stops_the_loop() {
    let mut s = booted();
    assert_eq!(s.step(Event::ChannelClosed), Some(Action::Stop));
    assert_eq!(s.phase(), Phase::Stopped);
    assert_eq!(s.step(Event::Trigger(snap(Some(1), Some(1)))), None);
    assert_eq!(s.step(Event::Done), None);
}

#[test]
fn outcome_maps_to_event() {
    assert_eq!(Event::from_outcome(Ok(())), Event::Done);
    assert_eq!(Event::from_outcome(Err(HardwareError)), Event::Failed);
}
