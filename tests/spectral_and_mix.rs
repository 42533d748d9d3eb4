use engine::add;
use engine::mixing::{damping_tenths, wet_mix_quarters, weight_tenths, FEEDBACK_TENTHS};
use engine::spectral::{rolloff_gain, rolloff_mask, route_frame, FFT_SIZE, GAIN_DENOMINATOR};

#[test]
fn add_sums() {
    assert_eq!(add(2, 3), 5);
    assert_eq!(add(u32::MAX - 1, 1), u32::MAX);
}

#[test]
fn short_block_is_copied_verbatim() {
    let input: Vec<f32> = (0..FFT_SIZE - 1).map(|i| (i as f32 * 0.01).sin()).collect();
    let mut output = vec![0.0f32; input.len()];
    assert!(!route_frame(&input, &mut output));
    assert_eq!(output, input);
}

#[test]
fn empty_block_is_bypassed() {
    let input: Vec<f32> = vec![];
    let mut output: Vec<f32> = vec![];
    assert!(!route_frame(&input, &mut output));
}

#[test]
fn long_block_keeps_frame_and_copies_tail() {
    let input: Vec<i32> = (0..(FFT_SIZE as i32 + 10)).collect();
    let mut output = vec![-1i32; input.len()];
    assert!(route_frame(&input, &mut output));
    assert!(output[..FFT_SIZE].iter().all(|&x| x == -1));
    assert_eq!(&output[FFT_SIZE..], &input[FFT_SIZE..]);
}

#[test]
fn exact_frame_is_transformed() {
    let input = vec![1u8; FFT_SIZE];
    let mut output = vec![0u8; FFT_SIZE];
    assert!(route_frame(&input, &mut output));
    assert!(output.iter().all(|&x| x == 0));
}

#[test]
fn rolloff_is_quartic_over_five_bins() {
    assert_eq!(GAIN_DENOMINATOR, 625);
    assert_eq!(rolloff_gain(0, 10), 625);
    assert_eq!(rolloff_gain(10, 10), 625);
    assert_eq!(rolloff_gain(11, 10), 256);
    assert_eq!(rolloff_gain(12, 10), 81);
    assert_eq!(rolloff_gain(13, 10), 16);
    assert_eq!(rolloff_gain(14, 10), 1);
    assert_eq!(rolloff_gain(15, 10), 0);
    assert_eq!(rolloff_gain(2047, 10), 0);
}

#[test]
fn rolloff_with_huge_cutoff_passes_everything() {
    assert_eq!(rolloff_gain(2047, usize::MAX), 625);
    assert!(rolloff_mask(usize::MAX).iter().all(|&g| g == 625));
}

#[test]
fn mask_covers_a_frame() {
    let mask = rolloff_mask(46);
    assert_eq!(mask.len(), FFT_SIZE);
    assert_eq!(mask[46], 625);
    assert_eq!(mask[47], 256);
    assert_eq!(mask[50], 1);
    assert_eq!(mask[51], 0);
    assert!(mask[..47].iter().all(|&g| g == 625));
    assert!(mask[51..].iter().all(|&g| g == 0));
}

#[test]
fn zero_cutoff_keeps_only_dc() {
    let mask = rolloff_mask(0);
    assert_eq!(&mask[..6], &[625, 256, 81, 16, 1, 0]);
}

#[test]
fn coefficients_by_line() {
    let damping: Vec<u32> = (0..8).map(damping_tenths).collect();
    let weights: Vec<u32> = (0..8).map(weight_tenths).collect();
    assert_eq!(damping, vec![3, 3, 3, 3, 8, 8, 8, 8]);
    assert_eq!(weights, vec![3, 3, 3, 3, 7, 7, 7, 7]);
    assert_eq!(FEEDBACK_TENTHS, 7);
    for d in damping {
        assert!(FEEDBACK_TENTHS * d < 100);
    }
}

#[test]
fn wet_mix_is_a_quarter_when_enabled() {
    assert_eq!(wet_mix_quarters(true), 1);
    assert_eq!(wet_mix_quarters(false), 0);
}
