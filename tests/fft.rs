use kopek::fft::{bin_frequency, fft, next_power_of_two, pad_to_power_of_two, Cx};
use kopek::UNITY;

const U: f64 = UNITY as f64;

fn twiddles(n: usize) -> Vec<Cx> {
    (0..n / 2)
        .map(|m| {
            let angle = -2.0 * std::f64::consts::PI * m as f64 / n as f64;
            Cx {
                re: (U * angle.cos()).round() as i64,
                im: (U * angle.sin()).round() as i64,
            }
        })
        .collect()
}

fn fixed(values: &[f64]) -> Vec<Cx> {
    values
        .iter()
        .map(|v| Cx { re: (v * U).round() as i64, im: 0 })
        .collect()
}

fn magnitude(c: &Cx) -> f64 {
    ((c.re as f64).powi(2) + (c.im as f64).powi(2)).sqrt()
}

#[test]
fn next_power_of_two_values() {
    assert_eq!(next_power_of_two(0), 1);
    assert_eq!(next_power_of_two(1), 1);
    assert_eq!(next_power_of_two(3), 4);
    assert_eq!(next_power_of_two(500), 512);
    assert_eq!(next_power_of_two(1024), 1024);
    assert_eq!(next_power_of_two(1025), 2048);
}

#[test]
fn padding_500_gives_512() {
    let input: Vec<u32> = (1..=500).collect();
    let padded = pad_to_power_of_two(&input, 0);
    assert_eq!(padded.len(), 512);
    assert_eq!(&padded[..500], &input[..]);
    assert!(padded[500..].iter().all(|v| *v == 0));
    let out = fft(&fixed(&vec![1.0; 500]), &twiddles(512));
    assert_eq!(out.len(), 512);
}

#[test]
fn transform_equals_transform_of_zero_padded_input() {
    let input: Vec<f64> = (0..500).map(|t| ((t * 7) % 13) as f64 - 6.0).collect();
    let mut padded = input.clone();
    padded.resize(512, 0.0);
    let tw = twiddles(512);
    assert_eq!(fft(&fixed(&input), &tw), fft(&fixed(&padded), &tw));
}

#[test]
fn empty_and_single_inputs() {
    assert_eq!(fft(&vec![], &vec![]), vec![Cx { re: 0, im: 0 }]);
    let one = vec![Cx { re: 3, im: -4 }];
    assert_eq!(fft(&one, &vec![]), one);
}

#[test]
fn small_transform_exact() {
    let u = UNITY as i64;
    let out = fft(&fixed(&[1.0, 2.0, 3.0, 4.0]), &twiddles(4));
    assert_eq!(
        out,
        vec![
            Cx { re: 10 * u, im: 0 },
            Cx { re: -2 * u, im: 2 * u },
            Cx { re: -2 * u, im: 0 },
            Cx { re: -2 * u, im: -2 * u },
        ]
    );
}

#[test]
fn bin_aligned_sine_peaks_at_its_bin() {
    let n = 1024;
    let r = 44100.0;
    let k = 10.0;
    let freq = k * r / n as f64;
    let input: Vec<f64> = (0..n)
        .map(|t| (2.0 * std::f64::consts::PI * freq * t as f64 / r).sin())
        .collect();
    let out = fft(&fixed(&input), &twiddles(n));
    assert_eq!(out.len(), n);
    let mags: Vec<f64> = out[..n / 2].iter().map(magnitude).collect();
    let peak = mags
        .iter()
        .enumerate()
        .fold(0, |best, (i, m)| if *m > mags[best] { i } else { best });
    assert_eq!(peak, 10);
    let expected = U * n as f64 / 2.0;
    assert!((mags[10] - expected).abs() < expected * 1e-4);
    for (i, m) in mags.iter().enumerate() {
        if i != 10 {
            assert!(*m < expected * 1e-4);
        }
    }
}

#[test]
fn bin_frequencies() {
    assert_eq!(bin_frequency(10, 44100, 1024), 430_664);
    assert_eq!(bin_frequency(0, 44100, 1024), 0);
    assert_eq!(bin_frequency(512, 44100, 1024), 22_050_000);
}
