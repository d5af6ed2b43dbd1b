//! Musical keys and octaves.
use vstd::prelude::*;

verus! {

/// A key of the chromatic scale, or a rest.
#[derive(Debug, Clone, Copy, PartialEq, Eq, Structural)]
pub enum Key {
    C,
    Cs,
    D,
    Ds,
    E,
    F,
    Fs,
    G,
    Gs,
    A,
    As,
    B,
    Rest,
}

/// The frequency of a key in the lowest octave, in millihertz; 0 for a rest.
pub open spec fn key_frequency(key: Key) -> u32 {
    match key {
        Key::C => 16_350,
        Key::Cs => 17_320,
        Key::D => 18_350,
        Key::Ds => 19_450,
        Key::E => 20_600,
        Key::F => 21_830,
        Key::Fs => 23_120,
        Key::G => 24_500,
        Key::Gs => 25_960,
        Key::A => 27_500,
        Key::As => 29_140,
        Key::B => 30_870,
        Key::Rest => 0,
    }
}

/// The frequency of `key` in the lowest octave, in millihertz (C is
/// 16.35 Hz); 0 for a rest.
pub fn get_freq(key: Key) -> (r: u32)
    ensures
        r == key_frequency(key),
{
    match key {
        Key::C => 16_350,
        Key::Cs => 17_320,
        Key::D => 18_350,
        Key::Ds => 19_450,
        Key::E => 20_600,
        Key::F => 21_830,
        Key::Fs => 23_120,
        Key::G => 24_500,
        Key::Gs => 25_960,
        Key::A => 27_500,
        Key::As => 29_140,
        Key::B => 30_870,
        Key::Rest => 0,
    }
}

impl Key {
    /// The key's name: its letter, `#` for a sharp, `_` for a rest.
    pub fn to_string(&self) -> (r: String)
        ensures
            *self == Key::C ==> r@ == "C"@,
            *self == Key::Cs ==> r@ == "C#"@,
            *self == Key::D ==> r@ == "D"@,
            *self == Key::Ds ==> r@ == "D#"@,
            *self == Key::E ==> r@ == "E"@,
            *self == Key::F ==> r@ == "F"@,
            *self == Key::Fs ==> r@ == "F#"@,
            *self == Key::G ==> r@ == "G"@,
            *self == Key::Gs ==> r@ == "G#"@,
            *self == Key::A ==> r@ == "A"@,
            *self == Key::As ==> r@ == "A#"@,
            *self == Key::B ==> r@ == "B"@,
            *self == Key::Rest ==> r@ == "_"@,
    {
        match self {
            Key::C => "C".to_owned(),
            Key::Cs => "C#".to_owned(),
            Key::D => "D".to_owned(),
            Key::Ds => "D#".to_owned(),
            Key::E => "E".to_owned(),
            Key::F => "F".to_owned(),
            Key::Fs => "F#".to_owned(),
            Key::G => "G".to_owned(),
            Key::Gs => "G#".to_owned(),
            Key::A => "A".to_owned(),
            Key::As => "A#".to_owned(),
            Key::B => "B".to_owned(),
            Key::Rest => "_".to_owned(),
        }
    }
}

/// One of the five octaves a key can be played in.
#[derive(Debug, Clone, Copy, PartialEq, Eq, Structural)]
pub enum Octave {
    First,
    Second,
    Third,
    Fourth,
    Fifth,
}

impl Octave {
    /// The octave's number, "1" to "5".
    pub fn to_string(&self) -> (r: String)
        ensures
            *self == Octave::First ==> r@ == "1"@,
            *self == Octave::Second ==> r@ == "2"@,
            *self == Octave::Third ==> r@ == "3"@,
            *self == Octave::Fourth ==> r@ == "4"@,
            *self == Octave::Fifth ==> r@ == "5"@,
    {
        match self {
            Octave::First => "1".to_owned(),
            Octave::Second => "2".to_owned(),
            Octave::Third => "3".to_owned(),
            Octave::Fourth => "4".to_owned(),
            Octave::Fifth => "5".to_owned(),
        }
    }
}

} // verus!
