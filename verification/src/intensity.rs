//! Rescaling of voxel intensities to the unit interval.
//!
//! Intensities are whole numbers of some fixed unit. A rescaled intensity is
//! a fraction between 0 and 1, kept exactly: a numerator, here called its
//! level, over a denominator that is the same for the whole buffer, the span.
//! Level 0 is the value 0, and a level equal to the span is the value 1.

use vstd::prelude::*;

use crate::error_ty::{ErrorTy, Failure};

verus! {

/// `x`, brought into the window from `lo` to `hi`.
pub open spec fn clamped(x: int, lo: int, hi: int) -> int {
    if x < lo {
        lo
    } else if x > hi {
        hi
    } else {
        x
    }
}

/// The denominator of the intensities rescaled with the window from `lo` to
/// `hi`. A window that is empty or a single point gives 1.
pub open spec fn unit_span(lo: int, hi: int) -> int {
    if lo < hi {
        hi - lo
    } else {
        1
    }
}

/// The numerator of `x` rescaled with the window from `lo` to `hi`: over
/// `unit_span(lo, hi)` it is `(clamped(x, lo, hi) - lo) / (hi - lo)`. A window
/// that is empty or a single point sends every intensity to 0.
pub open spec fn unit_level(x: int, lo: int, hi: int) -> int {
    if lo < hi {
        clamped(x, lo, hi) - lo
    } else {
        0
    }
}

/// The smallest sample of a buffer; 0 for an empty one.
pub open spec fn least(buffer: Seq<i64>) -> int
    decreases buffer.len(),
{
    if buffer.len() == 0 {
        0
    } else if buffer.len() == 1 {
        buffer[0] as int
    } else {
        let rest = least(buffer.drop_last());
        if buffer.last() < rest {
            buffer.last() as int
        } else {
            rest
        }
    }
}

/// The largest sample of a buffer; 0 for an empty one.
pub open spec fn greatest(buffer: Seq<i64>) -> int
    decreases buffer.len(),
{
    if buffer.len() == 0 {
        0
    } else if buffer.len() == 1 {
        buffer[0] as int
    } else {
        let rest = greatest(buffer.drop_last());
        if buffer.last() > rest {
            buffer.last() as int
        } else {
            rest
        }
    }
}

/// The window with which a buffer is rescaled: the one asked for, or else
/// the range that the buffer's own samples cover.
pub open spec fn window_of(buffer: Seq<i64>, minmax: Option<(u64, u64)>) -> (int, int) {
    match minmax {
        Some((lo, hi)) => (lo as int, hi as int),
        None => (least(buffer), greatest(buffer)),
    }
}

/// Whether a window given in whole intensities can be told in units of
/// which `units` make up one intensity.
pub open spec fn window_fits(minmax: Option<(u64, u64)>, units: u64) -> bool {
    minmax matches Some((lo, hi)) ==> lo * units <= u64::MAX && hi * units <= u64::MAX
}

/// A window given in whole intensities, in units of which `units` make up
/// one intensity.
pub open spec fn window_units(minmax: Option<(u64, u64)>, units: u64) -> Option<(u64, u64)> {
    match minmax {
        Some((lo, hi)) => Some(((lo * units) as u64, (hi * units) as u64)),
        None => None,
    }
}

/// The samples of a buffer as mathematical integers.
pub open spec fn sample_values(buffer: Seq<i64>) -> Seq<int> {
    Seq::new(buffer.len(), |i: int| buffer[i] as int)
}

/// The levels of a rescaled buffer as mathematical integers.
pub open spec fn level_values(levels: Seq<u64>) -> Seq<int> {
    Seq::new(levels.len(), |i: int| levels[i] as int)
}

/// The levels of the samples rescaled with the window from `lo` to `hi`.
pub open spec fn rescaled(samples: Seq<int>, lo: int, hi: int) -> Seq<int> {
    Seq::new(samples.len(), |i: int| unit_level(samples[i], lo, hi))
}

/// The levels of a buffer rescaled with the window given, or else with the
/// range that its samples cover.
pub open spec fn rescaled_levels(buffer: Seq<i64>, minmax: Option<(u64, u64)>) -> Seq<u64> {
    let (lo, hi) = window_of(buffer, minmax);
    Seq::new(buffer.len(), |i: int| unit_level(buffer[i] as int, lo, hi) as u64)
}

/// Whether levels and a span make up fractions between 0 and 1.
pub open spec fn unit_fractions(levels: Seq<int>, span: int) -> bool {
    &&& span >= 1
    &&& forall|i: int| 0 <= i < levels.len() ==> 0 <= #[trigger] levels[i] <= span
}

/// `least` is a sample of the buffer, and no sample is below it.
pub proof fn lemma_least_is_minimum(buffer: Seq<i64>)
    requires
        buffer.len() > 0,
    ensures
        exists|i: int| 0 <= i < buffer.len() && #[trigger] buffer[i] == least(buffer),
        forall|i: int| 0 <= i < buffer.len() ==> least(buffer) <= #[trigger] buffer[i],
    decreases buffer.len(),
{
    if buffer.len() == 1 {
        assert(buffer[0] == least(buffer));
    } else {
        let front = buffer.drop_last();
        lemma_least_is_minimum(front);
        let at = choose|i: int| 0 <= i < front.len() && #[trigger] front[i] == least(front);
        assert(buffer[at] == front[at]);
        assert forall|i: int| 0 <= i < buffer.len() implies least(buffer) <= #[trigger] buffer[i] by {
            if i < front.len() {
                assert(buffer[i] == front[i]);
            }
        }
    }
}

/// `greatest` is a sample of the buffer, and no sample is above it.
pub proof fn lemma_greatest_is_maximum(buffer: Seq<i64>)
    requires
        buffer.len() > 0,
    ensures
        exists|i: int| 0 <= i < buffer.len() && #[trigger] buffer[i] == greatest(buffer),
        forall|i: int| 0 <= i < buffer.len() ==> greatest(buffer) >= #[trigger] buffer[i],
    decreases buffer.len(),
{
    if buffer.len() == 1 {
        assert(buffer[0] == greatest(buffer));
    } else {
        let front = buffer.drop_last();
        lemma_greatest_is_maximum(front);
        let at = choose|i: int| 0 <= i < front.len() && #[trigger] front[i] == greatest(front);
        assert(buffer[at] == front[at]);
        assert forall|i: int| 0 <= i < buffer.len() implies greatest(buffer) >= #[trigger] buffer[i] by {
            if i < front.len() {
                assert(buffer[i] == front[i]);
            }
        }
    }
}

/// With a window that is more than a point, every rescaled intensity lies
/// between 0 and 1: what is at or below the window's lower end becomes
/// exactly 0, what is at or above its upper end exactly 1.
pub proof fn lemma_rescaled_within_unit_interval(samples: Seq<int>, lo: int, hi: int)
    requires
        lo < hi,
    ensures
        unit_fractions(rescaled(samples, lo, hi), unit_span(lo, hi)),
        forall|i: int|
            0 <= i < samples.len() && #[trigger] samples[i] <= lo ==> rescaled(samples, lo, hi)[i]
                == 0,
        forall|i: int|
            0 <= i < samples.len() && #[trigger] samples[i] >= hi ==> rescaled(samples, lo, hi)[i]
                == unit_span(lo, hi),
{
}

/// Rescaling is idempotent: levels that already are fractions of their span,
/// rescaled with the window from 0 to 1 (that is, from level 0 to the span),
/// come out unchanged, over the same span.
pub proof fn lemma_rescale_idempotent(levels: Seq<int>, span: int)
    requires
        unit_fractions(levels, span),
    ensures
        rescaled(levels, 0, span) == levels,
        unit_span(0, span) == span,
{
}

/// Whatever the window, rescaling yields fractions between 0 and 1.
pub proof fn lemma_rescaled_is_unit_fractions(samples: Seq<int>, lo: int, hi: int)
    ensures
        unit_fractions(rescaled(samples, lo, hi), unit_span(lo, hi)),
{
}

/// Brings a window that is given in whole intensities to the units of the
/// samples, of which `units` make up one intensity. No window stays no
/// window. A window whose ends do not fit in these units is an error.
pub fn window_in_units(minmax: Option<(u64, u64)>, units: u64) -> (r: Result<
    Option<(u64, u64)>,
    ErrorTy,
>)
    ensures
        match r {
            Ok(window) => window_fits(minmax, units) && window == window_units(minmax, units),
            Err(e) => {
                &&& !window_fits(minmax, units)
                &&& minmax matches Some((lo, hi))
                &&& e@ == Failure::WindowTooWide(lo, hi)
            },
        },
{
    match minmax {
        None => Ok(None),
        Some((lo, hi)) => match (lo.checked_mul(units), hi.checked_mul(units)) {
            (Some(low), Some(high)) => Ok(Some((low, high))),
            _ => Err(ErrorTy::WindowTooWide(lo, hi)),
        },
    }
}

/// The smallest and the largest sample of a buffer, or nothing for an empty
/// one.
pub fn min_max(buffer: &Vec<i64>) -> (range: Option<(i64, i64)>)
    ensures
        range is None <==> buffer@.len() == 0,
        range matches Some((lo, hi)) ==> lo == least(buffer@) && hi == greatest(buffer@),
{
    if buffer.len() == 0 {
        return None;
    }
    let mut lo: i64 = buffer[0];
    let mut hi: i64 = buffer[0];
    let mut i: usize = 1;
    while i < buffer.len()
        invariant
            1 <= i <= buffer@.len(),
            lo == least(buffer@.subrange(0, i as int)),
            hi == greatest(buffer@.subrange(0, i as int)),
        decreases buffer@.len() - i,
    {
        let x: i64 = buffer[i];
        proof {
            let next = buffer@.subrange(0, i + 1);
            assert(next.drop_last() =~= buffer@.subrange(0, i as int));
        }
        if x < lo {
            lo = x;
        }
        if x > hi {
            hi = x;
        }
        i += 1;
    }
    assert(buffer@.subrange(0, i as int) =~= buffer@);
    Some((lo, hi))
}

/// One sample rescaled with the window from `lo` to `hi`.
fn level_of(x: i64, lo: i128, hi: i128) -> (level: u64)
    requires
        lo < hi,
        hi - lo <= u64::MAX,
        i64::MIN <= lo <= u64::MAX,
        i64::MIN <= hi <= u64::MAX,
    ensures
        level == unit_level(x as int, lo as int, hi as int),
{
    let x: i128 = x as i128;
    if x <= lo {
        0
    } else if x >= hi {
        (hi - lo) as u64
    } else {
        (x - lo) as u64
    }
}

/// Rescales a buffer to the unit interval: every sample is clamped to the
/// window and then measured from the window's lower end, in units of the
/// window's width. The window is the one given, or else the range of the
/// buffer's own samples. Returns the levels and their span; the buffer
/// itself is left as it is.
///
/// A window that is empty or a single point (also that of a buffer whose
/// samples are all equal) sends every sample to 0, over the span 1.
pub fn rescale(buffer: &Vec<i64>, minmax: Option<(u64, u64)>) -> (out: (Vec<u64>, u64))
    ensures
        ({
            let (lo, hi) = window_of(buffer@, minmax);
            &&& out.0@ == rescaled_levels(buffer@, minmax)
            &&& level_values(out.0@) == rescaled(sample_values(buffer@), lo, hi)
            &&& out.1 == unit_span(lo, hi)
            &&& unit_fractions(level_values(out.0@), out.1 as int)
        }),
{
    let (lo, hi): (i128, i128) = match minmax {
        Some((lo, hi)) => (lo as i128, hi as i128),
        None => match min_max(buffer) {
            Some((lo, hi)) => (lo as i128, hi as i128),
            None => (0, 0),
        },
    };
    let mut levels: Vec<u64> = Vec::new();
    if lo < hi {
        let mut i: usize = 0;
        while i < buffer.len()
            invariant
                i <= buffer@.len(),
                lo < hi,
                hi - lo <= u64::MAX,
                i64::MIN <= lo <= u64::MAX,
                i64::MIN <= hi <= u64::MAX,
                levels@.len() == i,
                forall|j: int|
                    0 <= j < i ==> #[trigger] levels@[j] == unit_level(
                        buffer@[j] as int,
                        lo as int,
                        hi as int,
                    ),
            decreases buffer@.len() - i,
        {
            levels.push(level_of(buffer[i], lo, hi));
            i += 1;
        }
        (levels, (hi - lo) as u64)
    } else {
        let mut i: usize = 0;
        while i < buffer.len()
            invariant
                i <= buffer@.len(),
                levels@.len() == i,
                forall|j: int| 0 <= j < i ==> #[trigger] levels@[j] == 0,
            decreases buffer@.len() - i,
        {
            levels.push(0);
            i += 1;
        }
        (levels, 1)
    }
}

} // verus!
