use file_streamer::fade::apply_gain;

// With blocksize 4 the fade-in gains are [0.25, 0.50, 0.75, 1.00]: exact on
// samples that are multiples of the blocksize.
#[test]
fn fade_in_gains_blocksize_four() {
    let gains: Vec<i32> = (0u32..4).map(|j| apply_gain(100, j + 1, 4)).collect();
    assert_eq!(gains, vec![25, 50, 75, 100]);
}

// With blocksize 4 the fade-out gains are [1.00, 0.75, 0.50, 0.25].
#[test]
fn fade_out_gains_blocksize_four() {
    let gains: Vec<i32> = (0u32..4).map(|j| apply_gain(100, 4 - j, 4)).collect();
    assert_eq!(gains, vec![100, 75, 50, 25]);
}

#[test]
fn gain_scales_negative_samples_symmetrically() {
    assert_eq!(apply_gain(-100, 1, 4), -25);
    assert_eq!(apply_gain(-100, 3, 4), -75);
    assert_eq!(apply_gain(-5, 1, 4), -1);
}

#[test]
fn gain_rounds_magnitude_toward_zero() {
    assert_eq!(apply_gain(5, 1, 4), 1);
    assert_eq!(apply_gain(7, 3, 4), 5);
}

#[test]
fn unit_gain_copies() {
    assert_eq!(apply_gain(12345, 4, 4), 12345);
    assert_eq!(apply_gain(i32::MAX, 7, 7), i32::MAX);
    assert_eq!(apply_gain(i32::MIN, 3, 3), i32::MIN);
}

#[test]
fn extreme_samples_do_not_overflow() {
    assert_eq!(apply_gain(i32::MAX, 1, 2), i32::MAX / 2);
    assert_eq!(apply_gain(i32::MIN, 1, 2), -(1i64 << 30) as i32);
    assert_eq!(apply_gain(i32::MIN, u32::MAX, u32::MAX), i32::MIN);
}
