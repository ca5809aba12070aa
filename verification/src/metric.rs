//! The frame difference metric: the percentage of pixels whose intensity
//! changed at all between two same-sized buffers.

use vstd::prelude::*;

use crate::pixel::{gray_view, to_gray, PixelBuffer};

verus! {

/// Number of positions at which two equal-length byte sequences differ.
pub open spec fn diff_count(a: Seq<u8>, b: Seq<u8>) -> nat
    decreases a.len(),
{
    if a.len() == 0 || b.len() == 0 {
        0
    } else {
        diff_count(a.drop_last(), b.drop_last()) + if a.last() != b.last() {
            1nat
        } else {
            0nat
        }
    }
}

/// A difference metric failure: the two buffers have different dimensions.
#[derive(Clone, Copy, PartialEq, Eq, Structural, Debug)]
pub enum MetricError {
    ShapeMismatch,
}

/// The outcome of comparing two same-sized buffers: how many of the
/// `total` pixels changed at all.  The difference percentage is the exact
/// rational `changed * 100 / total`.
#[derive(Clone, Copy, PartialEq, Eq, Structural, Debug)]
pub struct DiffScore {
    pub changed: u64,
    pub total: u64,
}

/// Whether the exact percentage `changed * 100 / total` exceeds a
/// threshold given in hundredths of a percent.
pub open spec fn score_exceeds(changed: int, total: int, threshold_hundredths: u32) -> bool {
    changed * 10000 > threshold_hundredths * total
}

impl DiffScore {
    pub open spec fn wf(self) -> bool {
        self.changed <= self.total
    }

    /// Whether this score's exact percentage exceeds a threshold given in
    /// hundredths of a percent (`8500` stands for `85.0`).
    pub fn exceeds(&self, threshold_hundredths: u32) -> (r: bool)
        ensures
            r == score_exceeds(self.changed as int, self.total as int, threshold_hundredths),
    {
        proof {
            let t = threshold_hundredths as int;
            let tot = self.total as int;
            assert(t * tot <= 0xffff_ffff * 0xffff_ffff_ffff_ffff) by (nonlinear_arith)
                requires
                    0 <= t <= 0xffff_ffff,
                    0 <= tot <= 0xffff_ffff_ffff_ffff,
            ;
        }
        (self.changed as u128) * 10000 > (threshold_hundredths as u128) * (self.total as u128)
    }
}

/// Computes the dissimilarity of two equally sized buffers: both are
/// reduced to single-channel intensity, and the score counts the pixels
/// whose intensities differ.  Buffers of unequal dimensions are rejected.
pub fn difference(a: &PixelBuffer, b: &PixelBuffer) -> (r: Result<DiffScore, MetricError>)
    requires
        a.wf(),
        b.wf(),
    ensures
        r is Ok <==> (a.width == b.width && a.height == b.height),
        r is Err ==> r == Result::<DiffScore, MetricError>::Err(MetricError::ShapeMismatch),
        r is Ok ==> {
            let s = r->Ok_0;
            &&& s.total == a.width * a.height
            &&& s.changed == diff_count(gray_view(*a), gray_view(*b))
            &&& s.wf()
        },
{
    if a.width != b.width || a.height != b.height {
        return Err(MetricError::ShapeMismatch);
    }
    let ga = to_gray(a);
    let gb = to_gray(b);
    let n: usize = ga.len();
    let mut changed: u64 = 0;
    let mut i: usize = 0;
    while i < n
        invariant
            n == ga@.len(),
            ga@.len() == gb@.len(),
            i <= n,
            changed == diff_count(ga@.take(i as int), gb@.take(i as int)),
            changed <= i,
        decreases n - i,
    {
        proof {
            assert(ga@.take(i + 1).drop_last() =~= ga@.take(i as int));
            assert(gb@.take(i + 1).drop_last() =~= gb@.take(i as int));
        }
        if ga[i] != gb[i] {
            changed = changed + 1;
        }
        i = i + 1;
    }
    proof {
        assert(ga@.take(n as int) =~= ga@);
        assert(gb@.take(n as int) =~= gb@);
    }
    let total: u64 = (a.width as u64) * (a.height as u64);
    proof {
        lemma_diff_count_le_len(ga@, gb@);
    }
    Ok(DiffScore { changed, total })
}

/// The count of differing positions never exceeds the length.
pub proof fn lemma_diff_count_le_len(a: Seq<u8>, b: Seq<u8>)
    ensures
        diff_count(a, b) <= a.len(),
    decreases a.len(),
{
    if a.len() != 0 && b.len() != 0 {
        lemma_diff_count_le_len(a.drop_last(), b.drop_last());
    }
}

/// A buffer compared against itself changes nowhere, so its difference
/// percentage is exactly zero.
pub proof fn lemma_diff_count_self_zero(a: Seq<u8>)
    ensures
        diff_count(a, a) == 0,
    decreases a.len(),
{
    if a.len() != 0 {
        lemma_diff_count_self_zero(a.drop_last());
    }
}

/// Two sequences that differ at every position yield a count equal to
/// their length, so the difference percentage is exactly one hundred.
pub proof fn lemma_diff_count_all_differ(a: Seq<u8>, b: Seq<u8>)
    requires
        a.len() == b.len(),
        forall|i: int| 0 <= i < a.len() ==> a[i] != b[i],
    ensures
        diff_count(a, b) == a.len(),
    decreases a.len(),
{
    if a.len() != 0 {
        lemma_diff_count_all_differ(a.drop_last(), b.drop_last());
    }
}

/// The difference metric is symmetric in its two arguments.
pub proof fn lemma_diff_count_symmetric(a: Seq<u8>, b: Seq<u8>)
    ensures
        diff_count(a, b) == diff_count(b, a),
    decreases a.len(),
{
    if a.len() != 0 && b.len() != 0 {
        lemma_diff_count_symmetric(a.drop_last(), b.drop_last());
    }
}

/// Comparing a frame with an identical one scores zero changed pixels:
/// the difference percentage is exactly `0.0`.
pub proof fn lemma_difference_of_identical_is_zero(a: PixelBuffer, b: PixelBuffer)
    requires
        a == b,
    ensures
        diff_count(gray_view(a), gray_view(b)) == 0,
{
    lemma_diff_count_self_zero(gray_view(a));
}

/// Comparing two same-sized frames that differ in the intensity of
/// every pixel scores every pixel as changed: the difference
/// percentage is exactly `100.0`.
pub proof fn lemma_difference_of_fully_distinct_is_total(a: PixelBuffer, b: PixelBuffer)
    requires
        a.width == b.width,
        a.height == b.height,
        forall|p: int|
            0 <= p < a.width * a.height ==> gray_view(a)[p] != gray_view(b)[p],
    ensures
        diff_count(gray_view(a), gray_view(b)) == a.width * a.height,
{
    lemma_diff_count_all_differ(gray_view(a), gray_view(b));
}

/// The difference of two frames does not depend on their order.
pub proof fn lemma_difference_symmetric(a: PixelBuffer, b: PixelBuffer)
    ensures
        diff_count(gray_view(a), gray_view(b)) == diff_count(gray_view(b), gray_view(a)),
{
    lemma_diff_count_symmetric(gray_view(a), gray_view(b));
}

} // verus!
