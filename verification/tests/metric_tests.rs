use anime_gif_generator::metric::{difference, DiffScore, MetricError};
use anime_gif_generator::pixel::{to_gray, Channels, PixelBuffer};

fn bgr_buffer(width: u32, height: u32, byte: u8) -> PixelBuffer {
    PixelBuffer {
        width,
        height,
        channels: Channels::Bgr,
        data: vec![byte; (width * height * 3) as usize],
    }
}

fn percent(score: DiffScore) -> f64 {
    (score.changed as f64) * 100.0 / (score.total as f64)
}

#[test]
fn identical_frames_have_zero_difference() {
    let a = bgr_buffer(4, 3, 17);
    let b = bgr_buffer(4, 3, 17);
    let score = difference(&a, &b).unwrap();
    assert_eq!(score.changed, 0);
    assert_eq!(score.total, 12);
    assert_eq!(percent(score), 0.0);
}

#[test]
fn fully_different_frames_have_hundred_difference() {
    let a = bgr_buffer(4, 3, 0);
    let b = bgr_buffer(4, 3, 255);
    let score = difference(&a, &b).unwrap();
    assert_eq!(score.changed, 12);
    assert_eq!(score.total, 12);
    assert_eq!(percent(score), 100.0);
}

#[test]
fn difference_is_symmetric() {
    let mut a = bgr_buffer(2, 2, 0);
    a.data[0] = 200;
    a.data[5] = 90;
    let b = bgr_buffer(2, 2, 40);
    let ab = difference(&a, &b).unwrap();
    let ba = difference(&b, &a).unwrap();
    assert_eq!(ab.changed, ba.changed);
    assert_eq!(ab.total, ba.total);
}

#[test]
fn one_changed_pixel_of_four_is_exactly_a_quarter() {
    let a = bgr_buffer(2, 2, 0);
    let mut b = bgr_buffer(2, 2, 0);
    b.data[3] = 255;
    b.data[4] = 255;
    b.data[5] = 255;
    let score = difference(&a, &b).unwrap();
    assert_eq!(score.changed, 1);
    assert_eq!(score.total, 4);
    assert_eq!(percent(score), 25.0);
    assert!(score.exceeds(2400));
    assert!(!score.exceeds(2500));
}

#[test]
fn mismatched_dimensions_are_rejected() {
    let a = bgr_buffer(2, 2, 0);
    let b = bgr_buffer(3, 2, 0);
    assert_eq!(difference(&a, &b), Err(MetricError::ShapeMismatch));
    let c = bgr_buffer(2, 4, 0);
    assert_eq!(difference(&a, &c), Err(MetricError::ShapeMismatch));
}

#[test]
fn luminance_reduction_uses_bt601_weights() {
    let red_rgb = PixelBuffer { width: 1, height: 1, channels: Channels::Rgb, data: vec![255, 0, 0] };
    let red_bgr = PixelBuffer { width: 1, height: 1, channels: Channels::Bgr, data: vec![0, 0, 255] };
    let white = PixelBuffer { width: 1, height: 1, channels: Channels::Bgr, data: vec![255, 255, 255] };
    let gray_passthrough = PixelBuffer { width: 2, height: 1, channels: Channels::Gray, data: vec![7, 250] };
    assert_eq!(to_gray(&red_rgb), vec![76]);
    assert_eq!(to_gray(&red_bgr), vec![76]);
    assert_eq!(to_gray(&white), vec![255]);
    assert_eq!(to_gray(&gray_passthrough), vec![7, 250]);
}

#[test]
fn color_frames_equal_in_luminance_do_not_differ() {
    let rgb = PixelBuffer { width: 1, height: 1, channels: Channels::Rgb, data: vec![10, 20, 30] };
    let bgr = PixelBuffer { width: 1, height: 1, channels: Channels::Bgr, data: vec![30, 20, 10] };
    let score = difference(&rgb, &bgr).unwrap();
    assert_eq!(score.changed, 0);
}
