use anime_gif_generator::emit::{emit_segment, segment_file_name, EmitError};
use anime_gif_generator::engine::{Segment, SegmentationConfig};
use anime_gif_generator::pixel::{Channels, Frame, PixelBuffer};

fn bgr_frame(index: i64, width: u32, height: u32, byte: u8) -> Frame {
    Frame {
        buffer: PixelBuffer {
            width,
            height,
            channels: Channels::Bgr,
            data: vec![byte; (width * height * 3) as usize],
        },
        index,
    }
}

fn small_config() -> SegmentationConfig {
    SegmentationConfig::new(8500, 24, 2, 2, false).unwrap()
}

#[test]
fn empty_segment_is_rejected() {
    let segment = Segment { frames: Vec::new() };
    assert_eq!(emit_segment(&segment, &small_config()), Err(EmitError::EmptySegment));
}

#[test]
fn emitted_bytes_are_a_gif_stream() {
    let segment = Segment { frames: vec![bgr_frame(1, 3, 3, 40), bgr_frame(2, 3, 3, 200)] };
    let bytes = emit_segment(&segment, &small_config()).unwrap();
    assert_eq!(&bytes[0..6], b"GIF89a");
    assert_eq!(*bytes.last().unwrap(), 0x3B);
}

#[test]
fn emitted_stream_decodes_to_the_segment_frames() {
    let segment = Segment { frames: vec![bgr_frame(1, 3, 3, 40), bgr_frame(2, 3, 3, 200)] };
    let bytes = emit_segment(&segment, &small_config()).unwrap();
    let mut decoder = gif::DecodeOptions::new().read_info(&bytes[..]).unwrap();
    assert_eq!(decoder.width(), 2);
    assert_eq!(decoder.height(), 2);
    let mut frames = 0;
    while decoder.read_next_frame().unwrap().is_some() {
        frames += 1;
    }
    assert_eq!(frames, 2);
}

#[test]
fn file_name_embeds_the_index_range() {
    let segment = Segment { frames: vec![bgr_frame(12, 1, 1, 0), bgr_frame(13, 1, 1, 0)] };
    assert_eq!(segment_file_name(&segment).as_str(), "gif [from 12 to 13].gif");
    let single = Segment { frames: vec![bgr_frame(7, 1, 1, 0)] };
    assert_eq!(segment_file_name(&single).as_str(), "gif [from 7 to 7].gif");
    let long = Segment { frames: vec![bgr_frame(100, 1, 1, 0), bgr_frame(101, 1, 1, 0)] };
    assert_eq!(segment_file_name(&long).as_str(), "gif [from 100 to 101].gif");
}
