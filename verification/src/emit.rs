//! The segment emitter: transforms every frame of a flushed segment to
//! the output channel order and size, hands the sequence to the GIF
//! encoder, and derives the artifact's name from the segment's frame
//! index range.

use vstd::prelude::*;
use vstd::string::StringExecFns;

use crate::engine::{Segment, SegmentationConfig};
use crate::pixel::{frame_ok, PixelBuffer};
use crate::transform::{resized, swap_rb, transform};

verus! {

#[verifier::external_type_specification]
#[verifier::external_body]
pub struct ExGifEncodingError(gif::EncodingError);

/// The gif crate's encoder over an in-memory byte sink.  Opaque to the
/// verifier; its observable state is described by the `enc_*` names
/// below.
#[verifier::external_body]
pub struct GifSink {
    enc: gif::Encoder<Vec<u8>>,
}

/// The frame records written so far to an in-memory GIF encoder.
pub uninterp spec fn enc_frames(e: GifSink) -> Seq<Seq<u8>>;

/// The screen width the encoder was created with.
pub uninterp spec fn enc_width(e: GifSink) -> u16;

/// The screen height the encoder was created with.
pub uninterp spec fn enc_height(e: GifSink) -> u16;

/// The frame record (local color palette plus indexed pixels) that the
/// gif crate's quantizer derives from an RGB payload; deterministic in
/// its arguments.
pub uninterp spec fn rgb_quantized(width: u16, height: u16, pixels: Seq<u8>, speed: i32) -> Seq<
    u8,
>;

/// The finished GIF byte stream for a screen size and a sequence of
/// frame records, written in order.
pub uninterp spec fn gif_stream(width: u16, height: u16, frames: Seq<Seq<u8>>) -> Seq<u8>;

/// Relies on `gif::Encoder::new` with an in-memory sink and an empty
/// global palette: on success, a fresh encoder for the given screen
/// size with no frames written yet.
#[verifier::external_body]
fn gif_encoder_new(width: u16, height: u16) -> (r: Result<GifSink, gif::EncodingError>)
    ensures
        r is Ok ==> enc_width(r->Ok_0) == width && enc_height(r->Ok_0) == height && enc_frames(
            r->Ok_0,
        ) == Seq::<Seq<u8>>::empty(),
{
    match gif::Encoder::new(Vec::new(), width, height, &[]) {
        Ok(enc) => Ok(GifSink { enc }),
        Err(e) => Err(e),
    }
}

/// Relies on `gif::Frame::from_rgb_speed` (quantizes an RGB payload of
/// exactly `width * height * 3` bytes into one frame record;
/// deterministic in its arguments, and panics only on a payload length
/// mismatch or a speed outside 1..=30, both excluded here) and on
/// `gif::Encoder::write_frame` (appends that record to the stream).
#[verifier::external_body]
fn gif_append_rgb_frame(
    enc: &mut GifSink,
    width: u16,
    height: u16,
    pixels: &Vec<u8>,
    speed: i32,
) -> (r: Result<(), gif::EncodingError>)
    requires
        pixels@.len() == width * height * 3,
        1 <= speed <= 30,
    ensures
        r is Ok ==> enc_frames(*final(enc)) == enc_frames(*old(enc)).push(
            rgb_quantized(width, height, pixels@, speed),
        ) && enc_width(*final(enc)) == enc_width(*old(enc)) && enc_height(*final(enc))
            == enc_height(*old(enc)),
{
    let frame = gif::Frame::from_rgb_speed(width, height, pixels.as_slice(), speed);
    enc.enc.write_frame(&frame)
}

/// Relies on `gif::Encoder::into_inner`: writes the trailer and
/// returns the in-memory sink, which then holds the complete byte
/// stream of everything written through this encoder.
#[verifier::external_body]
fn gif_encoder_finish(enc: GifSink) -> (r: Result<Vec<u8>, gif::EncodingError>)
    ensures
        r is Ok ==> r->Ok_0@ == gif_stream(enc_width(enc), enc_height(enc), enc_frames(enc)),
{
    enc.enc.into_inner()
}

/// An emitter failure.
#[derive(Clone, Copy, PartialEq, Eq, Structural, Debug)]
pub enum EmitError {
    /// The segment to emit holds no frames; unreachable for segments
    /// the engine flushes.
    EmptySegment,
    /// The encoder rejected the stream or a frame.
    Encode,
}

/// Quantizer sampling speed handed to the GIF encoder for every frame.
pub const QUANTIZER_SPEED: i32 = 10;

/// The transformed payload of one source frame: first and third
/// channel exchanged, then resampled to the configured output size.
pub open spec fn transformed_data(b: PixelBuffer, config: SegmentationConfig) -> Seq<u8> {
    resized(
        swap_rb(b.data@),
        b.width as int,
        b.height as int,
        3,
        config.target_width as int,
        config.target_height as int,
    )
}

/// The GIF frame records that emitting a segment produces, in segment
/// order.
pub open spec fn segment_records(segment: Segment, config: SegmentationConfig) -> Seq<Seq<u8>> {
    Seq::new(
        segment.frames@.len(),
        |i: int|
            rgb_quantized(
                config.target_width as u16,
                config.target_height as u16,
                transformed_data(segment.frames@[i].buffer, config),
                QUANTIZER_SPEED,
            ),
    )
}

/// Encodes a flushed segment as one animated GIF byte stream: every
/// frame is transformed to the output order and size and appended in
/// segment order.  An empty segment is rejected; an encoder failure
/// aborts the emission.
pub fn emit_segment(segment: &Segment, config: &SegmentationConfig) -> (r: Result<
    Vec<u8>,
    EmitError,
>)
    requires
        config.wf(),
        forall|i: int| 0 <= i < segment.frames@.len() ==> frame_ok(#[trigger] segment.frames@[i]),
    ensures
        r == Result::<Vec<u8>, EmitError>::Err(EmitError::EmptySegment) <==> segment.frames@.len()
            == 0,
        segment.frames@.len() > 0 && r is Err ==> r == Result::<Vec<u8>, EmitError>::Err(
            EmitError::Encode,
        ),
        r is Ok ==> r->Ok_0@ == gif_stream(
            config.target_width as u16,
            config.target_height as u16,
            segment_records(*segment, *config),
        ),
{
    if segment.frames.len() == 0 {
        return Err(EmitError::EmptySegment);
    }
    let w16: u16 = config.target_width as u16;
    let h16: u16 = config.target_height as u16;
    let mut enc: GifSink = match gif_encoder_new(w16, h16) {
        Ok(e) => e,
        Err(_) => {
            return Err(EmitError::Encode);
        },
    };
    let n: usize = segment.frames.len();
    let mut i: usize = 0;
    while i < n
        invariant
            n == segment.frames@.len(),
            0 < n,
            i <= n,
            config.wf(),
            forall|j: int|
                0 <= j < segment.frames@.len() ==> frame_ok(#[trigger] segment.frames@[j]),
            w16 == config.target_width as u16,
            h16 == config.target_height as u16,
            enc_width(enc) == w16,
            enc_height(enc) == h16,
            enc_frames(enc) == segment_records(*segment, *config).take(i as int),
        decreases n - i,
    {
        let t: PixelBuffer = transform(
            &segment.frames[i].buffer,
            config.target_width,
            config.target_height,
        );
        let appended: Result<(), gif::EncodingError> = gif_append_rgb_frame(
            &mut enc,
            w16,
            h16,
            &t.data,
            QUANTIZER_SPEED,
        );
        if appended.is_err() {
            return Err(EmitError::Encode);
        }
        proof {
            assert(segment_records(*segment, *config).take(i + 1) =~= segment_records(
                *segment,
                *config,
            ).take(i as int).push(segment_records(*segment, *config)[i as int]));
        }
        i = i + 1;
    }
    proof {
        assert(segment_records(*segment, *config).take(n as int) =~= segment_records(
            *segment,
            *config,
        ));
    }
    match gif_encoder_finish(enc) {
        Ok(bytes) => Ok(bytes),
        Err(_) => Err(EmitError::Encode),
    }
}

/// The decimal digit character for a value between zero and nine.
pub open spec fn digit_char(d: int) -> char {
    if d == 0 {
        '0'
    } else if d == 1 {
        '1'
    } else if d == 2 {
        '2'
    } else if d == 3 {
        '3'
    } else if d == 4 {
        '4'
    } else if d == 5 {
        '5'
    } else if d == 6 {
        '6'
    } else if d == 7 {
        '7'
    } else if d == 8 {
        '8'
    } else {
        '9'
    }
}

/// The decimal representation of a nonnegative integer, most
/// significant digit first.
pub open spec fn dec_rep(n: int) -> Seq<char>
    decreases n,
{
    if n < 10 {
        seq![digit_char(n)]
    } else {
        dec_rep(n / 10).push(digit_char(n % 10))
    }
}

/// Appends the decimal representation of `n` to a string.
fn push_decimal(s: &mut String, n: u64)
    ensures
        final(s)@ == old(s)@ + dec_rep(n as int),
    decreases n,
{
    let ghost prefix = s@;
    if n >= 10 {
        push_decimal(s, n / 10);
    }
    let d: u64 = n % 10;
    match d {
        0 => s.append("0"),
        1 => s.append("1"),
        2 => s.append("2"),
        3 => s.append("3"),
        4 => s.append("4"),
        5 => s.append("5"),
        6 => s.append("6"),
        7 => s.append("7"),
        8 => s.append("8"),
        _ => s.append("9"),
    }
    proof {
        reveal_strlit("0");
        reveal_strlit("1");
        reveal_strlit("2");
        reveal_strlit("3");
        reveal_strlit("4");
        reveal_strlit("5");
        reveal_strlit("6");
        reveal_strlit("7");
        reveal_strlit("8");
        reveal_strlit("9");
        if n < 10 {
            assert(s@ =~= prefix + dec_rep(n as int));
        } else {
            assert(s@ =~= prefix + dec_rep(n as int));
        }
    }
}

/// The emitted artifact's file name: it embeds the segment's first and
/// last source frame index, tracing the output back to its position on
/// the source timeline.
pub open spec fn name_spec(first: int, last: int) -> Seq<char> {
    "gif [from "@ + dec_rep(first) + " to "@ + dec_rep(last) + "].gif"@
}

/// Derives the output file name for a segment from its index range.
pub fn segment_file_name(segment: &Segment) -> (r: String)
    requires
        segment.frames@.len() > 0,
        1 <= segment.frames@[0].index,
        1 <= segment.frames@.last().index,
    ensures
        r@ == name_spec(
            segment.frames@[0].index as int,
            segment.frames@.last().index as int,
        ),
{
    let mut s: String = String::new();
    s.append("gif [from ");
    push_decimal(&mut s, segment.first_index() as u64);
    s.append(" to ");
    push_decimal(&mut s, segment.last_index() as u64);
    s.append("].gif");
    proof {
        assert(s@ =~= name_spec(
            segment.frames@[0].index as int,
            segment.frames@.last().index as int,
        ));
    }
    s
}

} // verus!
