use kopek::oscillator::{WaveType, HALF_DUTY};
use kopek::synth::{wave_for_command, Command, Synth};
use kopek::UNITY;

#[test]
fn oscillator_command_ids() {
    assert_eq!(wave_for_command(0), Some(WaveType::Sine));
    assert_eq!(wave_for_command(1), Some(WaveType::Sawtooth));
    assert_eq!(wave_for_command(2), Some(WaveType::Square { duty: HALF_DUTY }));
    assert_eq!(wave_for_command(3), Some(WaveType::Triangle));
    assert_eq!(wave_for_command(4), Some(WaveType::FakeSine));
    assert_eq!(wave_for_command(5), None);
}

#[test]
fn stopped_voice_is_silent() {
    let mut s = Synth::new(100, 10, 10, 20);
    s.apply(Command::ChangeFrequency(1_000));
    s.apply(Command::ChangeOscillator(1));
    assert_eq!(s.next_sample(), (Some(0), Some(0), 0));
    assert_eq!(s.phase(), (0, 100_000));
}

#[test]
fn started_voice_plays_and_stops() {
    let mut s = Synth::new(100, 10, 10, 20);
    s.apply(Command::ChangeFrequency(1_000));
    s.apply(Command::ChangeOscillator(1));
    s.apply(Command::Start);
    assert_eq!(s.next_sample(), (Some(-(UNITY as i32)), Some(0), 0));
    assert_eq!(s.phase(), (1_000, 100_000));
    s.apply(Command::Stop);
    assert_eq!(s.next_sample(), (Some(0), Some(0), 0));
    assert_eq!(s.phase(), (1_000, 100_000));
}

#[test]
fn unknown_ids_are_ignored() {
    let mut s = Synth::new(100, 10, 10, 20);
    s.apply(Command::ChangeFrequency(1_000));
    s.apply(Command::ChangeOscillator(3));
    s.apply(Command::ChangeOscillator(9));
    s.apply(Command::ChangeNoise(2));
    s.apply(Command::ChangeNoise(7));
    s.apply(Command::Start);
    let (tone, noise, _) = s.next_sample();
    assert_eq!(tone, Some(-(UNITY as i32)));
    assert_eq!(noise, None);
    s.apply(Command::ChangeNoise(0));
    assert_eq!(s.next_sample().1, Some(0));
    s.apply(Command::ChangeNoise(1));
    let n = s.next_sample().1.unwrap();
    assert!(-(UNITY as i32) <= n && n <= UNITY as i32);
}

#[test]
fn sine_part_is_left_to_the_caller() {
    let mut s = Synth::new(100, 10, 10, 20);
    s.apply(Command::ChangeFrequency(1_000));
    s.apply(Command::Start);
    assert_eq!(s.next_sample().0, None);
}

#[test]
fn press_drives_the_envelope() {
    let mut s = Synth::new(100, 10, 10, 20);
    s.apply(Command::Pressed);
    assert_eq!(s.next_sample().2, 100_000);
    s.apply(Command::Released);
    let mut gain = 0;
    for _ in 0..9 {
        gain = s.next_sample().2;
    }
    assert_eq!(gain, UNITY);
}
