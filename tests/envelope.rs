use kopek::envelope::{Envelope, EnvelopeState};
use kopek::UNITY;

fn updates(e: &mut Envelope, n: usize) -> u32 {
    let mut v = e.volume();
    for _ in 0..n {
        v = e.update();
    }
    v
}

#[test]
fn full_cycle_scenario() {
    let mut e = Envelope::with_durations(100, 100, 200);
    e.press();
    let v = updates(&mut e, 100);
    assert_eq!(e.state(), EnvelopeState::Decay);
    assert_eq!(v, UNITY);
    let v = updates(&mut e, 100);
    assert_eq!(e.state(), EnvelopeState::Release);
    assert_eq!(v, 800_000);
    let v = updates(&mut e, 200);
    assert_eq!(e.state(), EnvelopeState::Idle);
    assert_eq!(v, 0);
}

#[test]
fn attack_ramps_linearly() {
    let mut e = Envelope::with_durations(100, 100, 200);
    e.press();
    assert_eq!(e.state(), EnvelopeState::Attack);
    assert_eq!(e.update(), 10_000);
    assert_eq!(updates(&mut e, 49), 500_000);
}

#[test]
fn new_envelope_is_idle_and_silent() {
    let mut e = Envelope::new(44100, 2);
    assert_eq!(e.state(), EnvelopeState::Idle);
    assert_eq!(e.update(), 0);
    assert_eq!(e.state(), EnvelopeState::Idle);
    e.press();
    assert_eq!(updates(&mut e, 88_200), UNITY);
    assert_eq!(e.state(), EnvelopeState::Decay);
}

#[test]
fn retrigger_in_decay_is_continuous() {
    let mut e = Envelope::with_durations(100, 100, 200);
    e.press();
    let before = updates(&mut e, 150);
    assert_eq!(e.state(), EnvelopeState::Decay);
    assert_eq!(before, 900_000);
    e.press();
    assert_eq!(e.state(), EnvelopeState::Attack);
    assert_eq!(e.volume(), before);
    let after = e.update();
    assert!(after >= before);
    assert!(after - before <= UNITY / 100);
    assert_eq!(after, 910_000);
}

#[test]
fn retrigger_in_release_is_continuous() {
    let mut e = Envelope::with_durations(100, 100, 200);
    e.press();
    let before = updates(&mut e, 300);
    assert_eq!(e.state(), EnvelopeState::Release);
    assert_eq!(before, 400_000);
    e.press();
    let after = e.update();
    assert!(after >= before && after - before <= UNITY / 100);
}

#[test]
fn press_in_any_state_returns_to_idle() {
    for presses_at in [0usize, 50, 100, 150, 250, 399, 400] {
        let mut e = Envelope::with_durations(100, 100, 200);
        e.press();
        updates(&mut e, presses_at);
        e.press();
        for _ in 0..400 {
            let v = e.update();
            assert!(v <= UNITY);
        }
        assert_eq!(e.state(), EnvelopeState::Idle);
        assert_eq!(e.volume(), 0);
    }
}

#[test]
fn release_leaves_envelope_alone() {
    let mut e = Envelope::with_durations(100, 100, 200);
    e.press();
    updates(&mut e, 30);
    e.release();
    assert_eq!(e.state(), EnvelopeState::Attack);
    assert_eq!(e.volume(), 300_000);
}

#[test]
fn envelope_state_names() {
    assert_eq!(EnvelopeState::Idle.to_string(), "Idle");
    assert_eq!(EnvelopeState::Attack.to_string(), "Attack");
    assert_eq!(EnvelopeState::Decay.to_string(), "Decay");
    assert_eq!(EnvelopeState::Sustain.to_string(), "Sustain");
    assert_eq!(EnvelopeState::Release.to_string(), "Release");
}
