use kopek::oscillator::{wave_sample, Oscillator, WaveType, HALF_DUTY};
use kopek::UNITY;

const U: i32 = UNITY as i32;

fn value_at(w: WaveType, ph: u64) -> Option<i32> {
    wave_sample(w, ph, 100_000)
}

#[test]
fn sawtooth_values() {
    assert_eq!(value_at(WaveType::Sawtooth, 0), Some(-U));
    assert_eq!(value_at(WaveType::Sawtooth, 25_000), Some(-U / 2));
    assert_eq!(value_at(WaveType::Sawtooth, 50_000), Some(0));
    assert_eq!(value_at(WaveType::Sawtooth, 75_000), Some(U / 2));
}

#[test]
fn triangle_values() {
    assert_eq!(value_at(WaveType::Triangle, 0), Some(-U));
    assert_eq!(value_at(WaveType::Triangle, 25_000), Some(0));
    assert_eq!(value_at(WaveType::Triangle, 50_000), Some(U));
    assert_eq!(value_at(WaveType::Triangle, 75_000), Some(0));
}

#[test]
fn fake_sine_values() {
    assert_eq!(value_at(WaveType::FakeSine, 0), Some(0));
    assert_eq!(value_at(WaveType::FakeSine, 25_000), Some(-U));
    assert_eq!(value_at(WaveType::FakeSine, 50_000), Some(0));
    assert_eq!(value_at(WaveType::FakeSine, 75_000), Some(U));
    assert_eq!(value_at(WaveType::FakeSine, 12_500), Some(-750_000));
}

#[test]
fn square_values_and_duty_clamp() {
    let half = WaveType::Square { duty: HALF_DUTY };
    assert_eq!(value_at(half, 0), Some(U));
    assert_eq!(value_at(half, 49_999), Some(U));
    assert_eq!(value_at(half, 50_000), Some(-U));
    let over = WaveType::Square { duty: 3 * UNITY };
    assert_eq!(value_at(over, 99_999), Some(U));
    let none = WaveType::Square { duty: 0 };
    assert_eq!(value_at(none, 0), Some(-U));
}

#[test]
fn sine_is_left_to_the_caller() {
    assert_eq!(value_at(WaveType::Sine, 10), None);
}

#[test]
fn zero_frequency_is_silent() {
    let mut o = Oscillator::new(44100);
    o.set_wave_type(WaveType::Sawtooth);
    assert_eq!(o.run(), Some(0));
    assert_eq!(o.phase(), 0);
}

#[test]
fn run_advances_phase_and_wraps() {
    let mut o = Oscillator::new(100);
    o.set_frequency(1_000);
    o.set_wave_type(WaveType::Sawtooth);
    assert_eq!(o.period(), 100_000);
    assert_eq!(o.run(), Some(-U));
    assert_eq!(o.phase(), 1_000);
    for _ in 0..24 {
        o.run();
    }
    assert_eq!(o.run(), Some(-U / 2));
    for _ in 0..74 {
        o.run();
    }
    assert_eq!(o.phase(), 0);
    assert_eq!(o.frequency(), 1_000);
    assert_eq!(o.wave_type(), WaveType::Sawtooth);
}

#[test]
fn sine_period_sums_to_zero() {
    let mut o = Oscillator::new(44100);
    o.set_frequency(441_000);
    let mut sum = 0.0f64;
    for _ in 0..100 {
        let phase = o.phase() as f64 / o.period() as f64;
        assert_eq!(o.run(), None);
        sum += (2.0 * std::f64::consts::PI * phase).sin();
    }
    assert!(sum.abs() < 1e-9);
    assert_eq!(o.phase(), 0);
}

#[test]
fn phase_stays_bounded_over_a_million_samples() {
    let mut o = Oscillator::new(44100);
    o.set_frequency(440_000);
    o.set_wave_type(WaveType::Triangle);
    for _ in 0..1_000_000u64 {
        let v = o.run().unwrap();
        assert!(-U <= v && v <= U);
        assert!(o.phase() < o.period());
    }
    assert_eq!(o.phase(), (1_000_000u64 * 440_000) % 44_100_000);
}

#[test]
fn wave_codes_round_trip() {
    for code in 0u8..5 {
        assert_eq!(WaveType::from_u8(code).unwrap().to_u8(), code);
    }
    assert_eq!(WaveType::from_u8(3), Some(WaveType::Square { duty: HALF_DUTY }));
    assert_eq!(WaveType::from_u8(5), None);
    assert_eq!(WaveType::Triangle.to_u8(), 4);
}

#[test]
fn per_waveform_methods_step_the_phase() {
    let mut o = Oscillator::new(100);
    o.set_frequency(25_000);
    assert_eq!(o.sawtooth(), -U);
    assert_eq!(o.triangle(), 0);
    assert_eq!(o.fake_sine(), 0);
    assert_eq!(o.square(HALF_DUTY), -U);
    assert_eq!(o.phase(), 0);
    assert_eq!(o.sine(), 0);
    assert_eq!(o.phase(), 25_000);
}
