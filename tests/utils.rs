use kopek::utils::{get_freq, Key, Octave};

#[test]
fn key_frequencies_in_millihertz() {
    assert_eq!(get_freq(Key::C), 16_350);
    assert_eq!(get_freq(Key::A), 27_500);
    assert_eq!(get_freq(Key::B), 30_870);
    assert_eq!(get_freq(Key::Rest), 0);
}

#[test]
fn key_and_octave_names() {
    assert_eq!(Key::C.to_string(), "C");
    assert_eq!(Key::Fs.to_string(), "F#");
    assert_eq!(Key::Rest.to_string(), "_");
    assert_eq!(Octave::First.to_string(), "1");
    assert_eq!(Octave::Fifth.to_string(), "5");
}
