use kopek::decoder::{detect_bpm, get_duration_in_seconds, mono_to_stereo};

#[test]
fn get_duration_in_seconds_test() {
    let frames = vec![[0i16, 0i16]; 124443];
    assert_eq!(2, get_duration_in_seconds(frames));
}

#[test]
fn duration_rounds_down() {
    assert_eq!(get_duration_in_seconds(vec![]), 0);
    assert_eq!(get_duration_in_seconds(vec![[1, 1]; 44099]), 0);
    assert_eq!(get_duration_in_seconds(vec![[1, 1]; 44100]), 1);
}

fn loud_block(frames: &mut [[i16; 2]], second: usize, block: usize, level: i16) {
    let start = second * 44100 + block * 1024;
    for f in &mut frames[start..start + 1024] {
        *f = [level, level];
    }
}

#[test]
fn one_loud_block_per_second_is_sixty_bpm() {
    let mut frames = vec![[0i16, 0i16]; 44100];
    loud_block(&mut frames, 0, 5, 1000);
    assert_eq!(detect_bpm(frames), 60);
    let mut frames = vec![[0i16, 0i16]; 2 * 44100 + 300];
    loud_block(&mut frames, 0, 0, 20000);
    loud_block(&mut frames, 1, 42, -20000);
    assert_eq!(detect_bpm(frames), 60);
}

#[test]
fn steady_signal_has_no_beats() {
    let frames = vec![[500i16, -500i16]; 3 * 44100];
    assert_eq!(detect_bpm(frames), 0);
    assert_eq!(detect_bpm(vec![[0, 0]; 44100]), 0);
}

#[test]
fn three_beats_in_one_second() {
    let mut frames = vec![[0i16, 0i16]; 44100];
    loud_block(&mut frames, 0, 1, 3000);
    loud_block(&mut frames, 0, 20, 3000);
    loud_block(&mut frames, 0, 40, 3000);
    assert_eq!(detect_bpm(frames), 180);
}

#[test]
fn mono_samples_fill_both_channels() {
    assert_eq!(mono_to_stereo(&vec![1, -2, 3]), vec![[1, 1], [-2, -2], [3, 3]]);
    assert!(mono_to_stereo(&vec![]).is_empty());
}
