use pngtubers::bands::{band_bin_ranges, Band};
use pngtubers::spectrum::{folded_len_of, remove_mirroring, SAMPLE_BLOCK_LEN};
use rustfft::num_complex::Complex;
use rustfft::FftPlanner;

#[test]
fn folding_even_length() {
    let data: Vec<f32> = (0..10).map(|i| i as f32).collect();
    let folded = remove_mirroring(&data);
    assert_eq!(folded, vec![0.0, 1.0, 2.0, 3.0, 4.0, 5.0]);
}

#[test]
fn folding_odd_and_single() {
    assert_eq!(remove_mirroring(&[1.0f32, 2.0, 3.0, 4.0, 5.0]), vec![1.0, 2.0, 3.0]);
    assert_eq!(remove_mirroring(&[7.5f32]), vec![7.5]);
}

#[test]
fn folding_block_keeps_dc_and_nyquist() {
    let data: Vec<f32> = (0..SAMPLE_BLOCK_LEN).map(|i| (i as f32) * 0.5 + 1.0).collect();
    let folded = remove_mirroring(&data);
    assert_eq!(folded.len(), 513);
    assert_eq!(folded_len_of(SAMPLE_BLOCK_LEN), 513);
    assert_eq!(folded[0], data[0]);
    assert_eq!(folded[512], data[512]);
}

fn band_means(block: &[f32], sample_rate: u32) -> Vec<f32> {
    let mut buffer: Vec<Complex<f32>> = block.iter().map(|v| Complex::new(*v, 0.0)).collect();
    let mut planner = FftPlanner::new();
    let fft = planner.plan_fft_forward(SAMPLE_BLOCK_LEN);
    fft.process(&mut buffer);
    let magnitudes: Vec<f32> = buffer.iter().map(|c| c.norm()).collect();
    let folded = remove_mirroring(&magnitudes);
    band_bin_ranges(sample_rate, folded.len())
        .into_iter()
        .map(|(low, high)| {
            let slice = &folded[low..=high];
            slice.iter().sum::<f32>() / slice.len() as f32
        })
        .collect()
}

#[test]
fn sine_at_1000_hz_lands_in_mid_band() {
    let rate = 44100.0f32;
    let block: Vec<f32> = (0..SAMPLE_BLOCK_LEN)
        .map(|i| (2.0 * std::f32::consts::PI * 1000.0 * i as f32 / rate).sin())
        .collect();
    let means = band_means(&block, 44100);
    let bass = means[Band::Bass as usize];
    let mid = means[Band::Mid as usize];
    assert!(mid > bass, "mid {} bass {}", mid, bass);
}

#[test]
fn silence_gives_zero_band_energy() {
    let block = vec![0.0f32; SAMPLE_BLOCK_LEN];
    for m in band_means(&block, 48000) {
        assert_eq!(m, 0.0);
    }
}
