//! The stateful segmentation core: consumes a stream of frames in order,
//! compares each against the last observed frame, and decides per frame
//! whether to flush the accumulated segment as a completed scene.

use vstd::prelude::*;

use crate::metric::{diff_count, difference, score_exceeds, DiffScore, MetricError};
use crate::pixel::{frame_ok, gray_view, Frame};

verus! {

/// Default cut threshold: 85.00 percent, in hundredths of a percent.
pub const DEFAULT_THRESHOLD_HUNDREDTHS: u32 = 8500;

/// Default minimum number of frames a segment must exceed to be flushed.
pub const DEFAULT_MIN_SEGMENT_LEN: u32 = 24;

/// Default output width in pixels.
pub const DEFAULT_TARGET_WIDTH: u32 = 500;

/// Default output height in pixels.
pub const DEFAULT_TARGET_HEIGHT: u32 = 270;

/// An invalid configuration value.
#[derive(Clone, Copy, PartialEq, Eq, Structural, Debug)]
pub enum ConfigError {
    ThresholdOutOfRange,
    WidthOutOfRange,
    HeightOutOfRange,
    OutputAreaTooLarge,
}

/// The segmentation policy: cut threshold (in hundredths of a percent on
/// the 0-100 difference scale), minimum segment length, output
/// dimensions, and the diagnostic-reporting flag.  Immutable once
/// constructed.
#[derive(Clone, Copy, Debug)]
pub struct SegmentationConfig {
    pub threshold_hundredths: u32,
    pub min_segment_len: u32,
    pub target_width: u32,
    pub target_height: u32,
    pub verbose_diff: bool,
}

impl SegmentationConfig {
    /// The threshold lies on the 0-100 percent scale, the output
    /// dimensions are nonzero and small enough for the GIF format's
    /// 16-bit screen descriptor, and an output payload fits in memory.
    pub open spec fn wf(self) -> bool {
        &&& self.threshold_hundredths <= 10000
        &&& 1 <= self.target_width <= 0xffff
        &&& 1 <= self.target_height <= 0xffff
        &&& self.target_width * self.target_height * 3 <= usize::MAX
    }

    /// Validates and builds a configuration; each out-of-range value is
    /// reported, threshold first, then width, then height, then the
    /// output area.
    pub fn new(
        threshold_hundredths: u32,
        min_segment_len: u32,
        target_width: u32,
        target_height: u32,
        verbose_diff: bool,
    ) -> (r: Result<SegmentationConfig, ConfigError>)
        ensures
            r is Ok <==> (threshold_hundredths <= 10000 && 1 <= target_width <= 0xffff && 1
                <= target_height <= 0xffff && target_width * target_height * 3 <= usize::MAX),
            r is Ok ==> r->Ok_0 == (SegmentationConfig {
                threshold_hundredths,
                min_segment_len,
                target_width,
                target_height,
                verbose_diff,
            }),
            threshold_hundredths > 10000 ==> r == Result::<SegmentationConfig, ConfigError>::Err(
                ConfigError::ThresholdOutOfRange,
            ),
            threshold_hundredths <= 10000 && !(1 <= target_width <= 0xffff) ==> r
                == Result::<SegmentationConfig, ConfigError>::Err(ConfigError::WidthOutOfRange),
            threshold_hundredths <= 10000 && 1 <= target_width <= 0xffff && !(1 <= target_height
                <= 0xffff) ==> r == Result::<SegmentationConfig, ConfigError>::Err(
                ConfigError::HeightOutOfRange,
            ),
            threshold_hundredths <= 10000 && 1 <= target_width <= 0xffff && 1 <= target_height
                <= 0xffff && target_width * target_height * 3 > usize::MAX ==> r == Result::<
                SegmentationConfig,
                ConfigError,
            >::Err(ConfigError::OutputAreaTooLarge),
    {
        if threshold_hundredths > 10000 {
            return Err(ConfigError::ThresholdOutOfRange);
        }
        if target_width < 1 || target_width > 0xffff {
            return Err(ConfigError::WidthOutOfRange);
        }
        if target_height < 1 || target_height > 0xffff {
            return Err(ConfigError::HeightOutOfRange);
        }
        proof {
            assert((target_width as int) * (target_height as int) <= 0xffff * 0xffff)
                by (nonlinear_arith)
                requires
                    0 <= (target_width as int) <= 0xffff,
                    0 <= (target_height as int) <= 0xffff,
            ;
        }
        if (target_width as u64) * (target_height as u64) * 3 > (usize::MAX as u64) {
            return Err(ConfigError::OutputAreaTooLarge);
        }
        Ok(
            SegmentationConfig {
                threshold_hundredths,
                min_segment_len,
                target_width,
                target_height,
                verbose_diff,
            },
        )
    }
}

/// Frames stand in stream order, contiguous and strictly increasing in
/// their 1-based index.
pub open spec fn frames_contiguous(s: Seq<Frame>) -> bool {
    forall|i: int| 1 <= i < s.len() ==> #[trigger] s[i].index == s[i - 1].index + 1
}

/// A maximal contiguous run of frames between two detected scene
/// transitions; non-empty when flushed.
#[derive(Debug)]
pub struct Segment {
    pub frames: Vec<Frame>,
}

impl Segment {
    /// Non-empty, contiguous and strictly ascending in index, and every
    /// frame is a well-formed color frame.
    pub open spec fn wf(self) -> bool {
        &&& self.frames@.len() > 0
        &&& frames_contiguous(self.frames@)
        &&& forall|i: int| 0 <= i < self.frames@.len() ==> frame_ok(#[trigger] self.frames@[i])
    }

    /// Stream index of the segment's first frame.
    pub fn first_index(&self) -> (r: i64)
        requires
            self.frames@.len() > 0,
        ensures
            r == self.frames@[0].index,
    {
        self.frames[0].index
    }

    /// Stream index of the segment's last frame.
    pub fn last_index(&self) -> (r: i64)
        requires
            self.frames@.len() > 0,
        ensures
            r == self.frames@.last().index,
    {
        self.frames[self.frames.len() - 1].index
    }
}

/// What one accepted frame produced: a flushed segment, if a cut was
/// detected, and the difference score, if a comparison took place (it
/// does for every frame after the first; the score is surfaced so a
/// caller can report it when diagnostics are requested).
#[derive(Debug)]
pub struct PushOutcome {
    pub flushed: Option<Segment>,
    pub score: Option<DiffScore>,
}

/// The segmentation engine.  The in-progress segment always ends with
/// the most recently observed frame, which doubles as the comparison
/// partner for the next frame; the first frame of the stream seeds the
/// segment without a comparison.
pub struct SegmentationEngine {
    pub config: SegmentationConfig,
    pub current: Vec<Frame>,
}

impl SegmentationEngine {
    /// The frames of the in-progress segment, in stream order.
    pub open spec fn frames(self) -> Seq<Frame> {
        self.current@
    }

    pub open spec fn wf(self) -> bool {
        &&& self.config.wf()
        &&& frames_contiguous(self.current@)
        &&& forall|i: int| 0 <= i < self.current@.len() ==> frame_ok(#[trigger] self.current@[i])
    }

    /// A fresh engine with an empty in-progress segment.
    pub fn new(config: SegmentationConfig) -> (r: SegmentationEngine)
        requires
            config.wf(),
        ensures
            r.wf(),
            r.config == config,
            r.frames() == Seq::<Frame>::empty(),
    {
        SegmentationEngine { config, current: Vec::new() }
    }

    /// The transition rule: a new frame `f` begins a new scene exactly
    /// when its difference against the last observed frame strictly
    /// exceeds the threshold while the in-progress segment already holds
    /// strictly more than `min_segment_len` frames.
    pub open spec fn flush_due(self, f: Frame) -> bool {
        &&& score_exceeds(
            diff_count(gray_view(f.buffer), gray_view(self.frames().last().buffer)) as int,
            f.buffer.width * f.buffer.height,
            self.config.threshold_hundredths,
        )
        &&& self.frames().len() > self.config.min_segment_len
    }

    /// Accepts the next frame of the stream.  The first frame seeds the
    /// segment; every later frame is compared against the last observed
    /// one, and either flushes the accumulated segment (the new frame
    /// seeding its successor) or is appended.  A dimension mismatch
    /// between consecutive frames is a fatal stream error and leaves the
    /// engine unchanged.
    pub fn push(&mut self, f: Frame) -> (r: Result<PushOutcome, MetricError>)
        requires
            old(self).wf(),
            frame_ok(f),
            old(self).frames().len() > 0 ==> f.index == old(self).frames().last().index + 1,
        ensures
            final(self).wf(),
            final(self).config == old(self).config,
            r is Err <==> (old(self).frames().len() > 0 && !(f.buffer.width == old(
                self,
            ).frames().last().buffer.width && f.buffer.height == old(
                self,
            ).frames().last().buffer.height)),
            r is Err ==> r == Result::<PushOutcome, MetricError>::Err(MetricError::ShapeMismatch)
                && final(self).frames() == old(self).frames(),
            r is Ok && old(self).frames().len() == 0 ==> {
                let o = r->Ok_0;
                &&& o.flushed is None
                &&& o.score is None
                &&& final(self).frames() == seq![f]
            },
            r is Ok && old(self).frames().len() > 0 ==> {
                let o = r->Ok_0;
                &&& o.score is Some
                &&& o.score->Some_0.total == f.buffer.width * f.buffer.height
                &&& o.score->Some_0.changed == diff_count(
                    gray_view(f.buffer),
                    gray_view(old(self).frames().last().buffer),
                )
                &&& if old(self).flush_due(f) {
                    &&& o.flushed is Some
                    &&& o.flushed->Some_0.frames@ == old(self).frames()
                    &&& o.flushed->Some_0.wf()
                    &&& o.flushed->Some_0.frames@.len() >= old(self).config.min_segment_len + 1
                    &&& final(self).frames() == seq![f]
                } else {
                    &&& o.flushed is None
                    &&& final(self).frames() == old(self).frames().push(f)
                }
            },
    {
        if self.current.len() == 0 {
            self.current.push(f);
            proof {
                assert(self.current@ =~= seq![f]);
            }
            return Ok(PushOutcome { flushed: None, score: None });
        }
        let last_pos: usize = self.current.len() - 1;
        let d: DiffScore = match difference(&f.buffer, &self.current[last_pos].buffer) {
            Ok(d) => d,
            Err(e) => {
                return Err(e);
            },
        };
        let cut: bool = d.exceeds(self.config.threshold_hundredths);
        if cut && self.current.len() > self.config.min_segment_len as usize {
            let mut seed: Vec<Frame> = Vec::new();
            seed.push(f);
            core::mem::swap(&mut self.current, &mut seed);
            let seg = Segment { frames: seed };
            proof {
                assert(self.current@ =~= seq![f]);
            }
            Ok(PushOutcome { flushed: Some(seg), score: Some(d) })
        } else {
            self.current.push(f);
            Ok(PushOutcome { flushed: None, score: Some(d) })
        }
    }

    /// End of stream.  The engine never flushes the trailing partial
    /// segment on its own; it hands it to the caller, which chooses
    /// whether to emit or to discard it.
    pub fn into_remainder(self) -> (r: Option<Segment>)
        requires
            self.wf(),
        ensures
            r is Some <==> self.frames().len() > 0,
            r is Some ==> r->Some_0.frames@ == self.frames() && r->Some_0.wf(),
    {
        if self.current.len() == 0 {
            None
        } else {
            Some(Segment { frames: self.current })
        }
    }
}

} // verus!
