use anime_gif_generator::engine::{
    ConfigError, SegmentationConfig, SegmentationEngine, DEFAULT_MIN_SEGMENT_LEN,
    DEFAULT_TARGET_HEIGHT, DEFAULT_TARGET_WIDTH, DEFAULT_THRESHOLD_HUNDREDTHS,
};
use anime_gif_generator::metric::MetricError;
use anime_gif_generator::pixel::{Channels, Frame, PixelBuffer};

fn bgr_frame(index: i64, width: u32, height: u32, byte: u8) -> Frame {
    Frame {
        buffer: PixelBuffer {
            width,
            height,
            channels: Channels::Bgr,
            data: vec![byte; (width * height * 3) as usize],
        },
        index,
    }
}

fn default_config() -> SegmentationConfig {
    SegmentationConfig::new(
        DEFAULT_THRESHOLD_HUNDREDTHS,
        DEFAULT_MIN_SEGMENT_LEN,
        DEFAULT_TARGET_WIDTH,
        DEFAULT_TARGET_HEIGHT,
        false,
    )
    .unwrap()
}

#[test]
fn near_identical_stream_never_flushes() {
    let mut engine = SegmentationEngine::new(default_config());
    for i in 1..=30 {
        let outcome = engine.push(bgr_frame(i, 2, 2, 60)).unwrap();
        assert!(outcome.flushed.is_none());
        if i == 1 {
            assert!(outcome.score.is_none());
        } else {
            assert_eq!(outcome.score.unwrap().changed, 0);
        }
    }
    let rest = engine.into_remainder().unwrap();
    assert_eq!(rest.frames.len(), 30);
    assert_eq!(rest.frames[0].index, 1);
    assert_eq!(rest.frames[29].index, 30);
}

#[test]
fn cut_after_min_length_flushes_and_reseeds() {
    let mut engine = SegmentationEngine::new(default_config());
    for i in 1..=25 {
        let outcome = engine.push(bgr_frame(i, 2, 2, 0)).unwrap();
        assert!(outcome.flushed.is_none());
    }
    let outcome = engine.push(bgr_frame(26, 2, 2, 255)).unwrap();
    let score = outcome.score.unwrap();
    assert_eq!(score.changed, 4);
    assert_eq!(score.total, 4);
    let segment = outcome.flushed.unwrap();
    assert_eq!(segment.frames.len(), 25);
    assert_eq!(segment.first_index(), 1);
    assert_eq!(segment.last_index(), 25);
    for (pos, frame) in segment.frames.iter().enumerate() {
        assert_eq!(frame.index, pos as i64 + 1);
    }
    let rest = engine.into_remainder().unwrap();
    assert_eq!(rest.frames.len(), 1);
    assert_eq!(rest.frames[0].index, 26);
}

#[test]
fn cut_below_min_length_is_absorbed() {
    let mut engine = SegmentationEngine::new(default_config());
    for i in 1..=10 {
        let outcome = engine.push(bgr_frame(i, 2, 2, 0)).unwrap();
        assert!(outcome.flushed.is_none());
    }
    let outcome = engine.push(bgr_frame(11, 2, 2, 255)).unwrap();
    assert_eq!(outcome.score.unwrap().changed, 4);
    assert!(outcome.flushed.is_none());
    let rest = engine.into_remainder().unwrap();
    assert_eq!(rest.frames.len(), 11);
}

#[test]
fn dimension_change_mid_stream_is_fatal() {
    let mut engine = SegmentationEngine::new(default_config());
    engine.push(bgr_frame(1, 2, 2, 0)).unwrap();
    let result = engine.push(bgr_frame(2, 3, 2, 0));
    assert_eq!(result.unwrap_err(), MetricError::ShapeMismatch);
    let rest = engine.into_remainder().unwrap();
    assert_eq!(rest.frames.len(), 1);
}

#[test]
fn empty_engine_has_no_remainder() {
    let engine = SegmentationEngine::new(default_config());
    assert!(engine.into_remainder().is_none());
}

#[test]
fn config_rejects_each_out_of_range_value() {
    assert_eq!(
        SegmentationConfig::new(10001, 24, 500, 270, false).unwrap_err(),
        ConfigError::ThresholdOutOfRange
    );
    assert_eq!(
        SegmentationConfig::new(8500, 24, 0, 270, false).unwrap_err(),
        ConfigError::WidthOutOfRange
    );
    assert_eq!(
        SegmentationConfig::new(8500, 24, 70000, 270, false).unwrap_err(),
        ConfigError::WidthOutOfRange
    );
    assert_eq!(
        SegmentationConfig::new(8500, 24, 500, 0, false).unwrap_err(),
        ConfigError::HeightOutOfRange
    );
    let config = SegmentationConfig::new(8500, 24, 500, 270, true).unwrap();
    assert_eq!(config.threshold_hundredths, 8500);
    assert_eq!(config.min_segment_len, 24);
    assert_eq!(config.target_width, 500);
    assert_eq!(config.target_height, 270);
    assert!(config.verbose_diff);
}
