use kopek::metronome::Metronome;
use kopek::time_signature::TimeSignature;

#[test]
fn beat_index_and_window() {
    let mut m = Metronome::new(60, 44100, 2);
    assert_eq!(m.samples_per_minute(), 5_292_000);
    assert_eq!(m.bpm(), 60);
    assert!(!m.is_running);
    m.update(0);
    assert_eq!(m.get_beat_index(), 0);
    assert!(m.show_beat());
    m.update(88_199);
    assert_eq!(m.get_beat_index(), 0);
    assert!(!m.show_beat());
    m.update(88_200);
    assert_eq!(m.get_beat_index(), 1);
    assert!(m.show_beat());
    m.update(88_200 + 8_191);
    assert!(m.show_beat());
    m.update(88_200 + 8_192);
    assert!(!m.show_beat());
}

#[test]
fn beat_index_is_monotonic() {
    let mut m = Metronome::new(120, 48000, 1);
    assert_eq!(m.samples_per_minute(), 2_880_000);
    let mut last = 0;
    let mut elapsed = 0u64;
    while elapsed < 1_000_000 {
        m.update(elapsed);
        assert!(m.get_beat_index() >= last);
        assert_eq!(m.get_beat_index(), elapsed / 24_000);
        last = m.get_beat_index();
        elapsed += 1_237;
    }
}

#[test]
fn time_signature_accents_first_beat_of_bar() {
    let mut t = TimeSignature::new((4, 4), 60, 44100, 2);
    assert_eq!(t.update(0), (true, true));
    assert_eq!(t.update(88_200), (true, false));
    assert_eq!(t.beat_index(), 1);
    assert_eq!(t.update(3 * 88_200 + 10_000), (false, false));
    assert_eq!(t.update(4 * 88_200), (true, true));
    assert_eq!(t.beat_index(), 4);
}

#[test]
fn fractional_beat_period_is_not_rounded() {
    let mut m = Metronome::new(11, 44100, 1);
    m.update(24_054_500);
    assert_eq!(m.get_beat_index(), 99);
    m.update(24_054_546);
    assert_eq!(m.get_beat_index(), 100);
    assert!(m.show_beat());
}

#[test]
fn counts_beyond_u32_samples() {
    let mut m = Metronome::new(60, 44100, 2);
    let elapsed = 88_200u64 * 100_000;
    m.update(elapsed);
    assert_eq!(m.get_beat_index(), 100_000);
    assert!(m.show_beat());
}
