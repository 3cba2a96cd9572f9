//! Notes-per-second histogram over a beatmap's note start times.
//!
//! The span from the first to the last note is cut into equal intervals whose
//! width is a percentage of the span. Widths are kept exactly, in hundredths of
//! a millisecond, so that every boundary is an integer.
use vstd::prelude::*;

verus! {

/// One interval of the histogram.
#[derive(Debug, PartialEq, Eq, Structural, Clone, Copy)]
pub struct NpsSample {
    /// Start of the interval, in ms, rounded down.
    pub start_ms: i32,
    /// Number of notes that fall in the interval.
    pub notes: usize,
}

/// The histogram: all intervals share one width.
pub struct NpsHistogram {
    /// Width of each interval in hundredths of a millisecond.
    pub width_centi_ms: u64,
    /// The intervals in chronological order.
    pub samples: Vec<NpsSample>,
}

impl NpsHistogram {
    /// Notes per second in interval `k`, in thousandths, rounded down:
    /// `notes / (width / 1000 ms)`.
    pub fn nps_milli(&self, k: usize) -> (r: u128)
        requires
            k < self.samples@.len(),
            self.width_centi_ms > 0,
        ensures
            r == self.samples@[k as int].notes * 100_000_000 / self.width_centi_ms as int,
    {
        let notes = self.samples[k].notes as u128;
        assert(notes * 100_000_000 <= 0xFFFF_FFFF_FFFF_FFFF * 100_000_000) by (nonlinear_arith)
            requires
                notes <= 0xFFFF_FFFF_FFFF_FFFF,
        ;
        notes * 100_000_000 / self.width_centi_ms as u128
    }
}

#[derive(Debug, PartialEq, Eq, Structural, Clone, Copy)]
pub enum NpsError {
    /// There are no notes.
    EmptyInput,
    /// The interval width is not positive.
    InvalidInterval,
}

/// Interval width in hundredths of a ms: `(last - first) * frequency`, that is
/// `100 * (last - first) * frequency / 100`.
pub open spec fn width_centi(t: Seq<i32>, frequency: u32) -> int {
    (t.last() - t[0]) * frequency
}

/// Whether note time `x` lies in the interval that starts at `lo` (hundredths
/// of a ms) with width `w`; the last interval is open to the right, so that
/// it takes the notes at the end of the span.
pub open spec fn in_interval(x: i32, lo: int, w: int, open_end: bool) -> bool {
    lo <= 100 * x && (open_end || 100 * x < lo + w)
}

/// Number of notes of `t` in an interval.
pub open spec fn count_in(t: Seq<i32>, lo: int, w: int, open_end: bool) -> nat
    decreases t.len(),
{
    if t.len() == 0 {
        0
    } else {
        count_in(t.drop_last(), lo, w, open_end) + if in_interval(t.last(), lo, w, open_end) {
            1nat
        } else {
            0nat
        }
    }
}

/// The `k`-th interval of the histogram of `t`; it is the last one when the
/// next start would reach the end of the span.
pub open spec fn sample_spec(t: Seq<i32>, frequency: u32, k: int) -> NpsSample {
    let w = width_centi(t, frequency);
    let span = 100 * (t.last() - t[0]);
    NpsSample {
        start_ms: (t[0] + k * w / 100) as i32,
        notes: count_in(t, 100 * t[0] + k * w, w, (k + 1) * w >= span) as usize,
    }
}

/// `samples` is the histogram of `t`: one interval for each `k` whose start
/// `k * w` lies inside the span, in order.
pub open spec fn is_histogram(t: Seq<i32>, frequency: u32, samples: Seq<NpsSample>) -> bool {
    let w = width_centi(t, frequency);
    let span = 100 * (t.last() - t[0]);
    &&& forall|k: int| 0 <= k < samples.len() ==> #[trigger] (k * w) < span
    &&& samples.len() * w >= span
    &&& forall|k: int|
        0 <= k < samples.len() ==> #[trigger] samples[k] == sample_spec(t, frequency, k)
}

fn count_notes(timings: &[i32], lo: i128, w: i128, open_end: bool) -> (r: usize)
    requires
        timings@.len() < usize::MAX,
        -0x1_0000_0000_0000_0000_0000 <= lo <= 0x1_0000_0000_0000_0000_0000,
        0 <= w <= 0x1_0000_0000_0000_0000_0000,
    ensures
        r == count_in(timings@, lo as int, w as int, open_end),
{
    let mut count: usize = 0;
    let mut j: usize = 0;
    while j < timings.len()
        invariant
            j <= timings@.len() < usize::MAX,
            -0x1_0000_0000_0000_0000_0000 <= lo <= 0x1_0000_0000_0000_0000_0000,
            0 <= w <= 0x1_0000_0000_0000_0000_0000,
            count <= j,
            count == count_in(timings@.subrange(0, j as int), lo as int, w as int, open_end),
        decreases timings@.len() - j,
    {
        let x = timings[j] as i128 * 100;
        if lo <= x && (open_end || x < lo + w) {
            count = count + 1;
        }
        assert(timings@.subrange(0, j as int + 1).drop_last() =~= timings@.subrange(0, j as int));
        j = j + 1;
    }
    assert(timings@.subrange(0, j as int) =~= timings@);
    count
}

/// Cuts the span of `timings` into intervals of `frequency` percent of the span
/// and counts the notes in each. The first and last elements are taken as the
/// ends of the span, as note times come in chronological order.
pub fn calculate_average_notes_per_second(timings: &[i32], frequency: u32) -> (r: Result<
    NpsHistogram,
    NpsError,
>)
    requires
        timings@.len() < usize::MAX,
    ensures
        timings@.len() == 0 ==> r == Err::<NpsHistogram, NpsError>(NpsError::EmptyInput),
        timings@.len() > 0 && width_centi(timings@, frequency) <= 0 ==> r == Err::<
            NpsHistogram,
            NpsError,
        >(NpsError::InvalidInterval),
        timings@.len() > 0 && width_centi(timings@, frequency) > 0 ==> (r matches Ok(h)
            && h.width_centi_ms == width_centi(timings@, frequency) && is_histogram(
            timings@,
            frequency,
            h.samples@,
        )),
{
    if timings.len() == 0 {
        return Err(NpsError::EmptyInput);
    }
    let first = timings[0];
    let last = timings[timings.len() - 1];
    let duration: i64 = last as i64 - first as i64;
    if duration <= 0 || frequency == 0 {
        proof {
            assert(duration * frequency <= 0) by (nonlinear_arith)
                requires
                    duration <= 0 || frequency == 0,
                    frequency >= 0,
            ;
        }
        return Err(NpsError::InvalidInterval);
    }
    let ghost t = timings@;
    assert(duration * frequency <= 0xFFFF_FFFF * 0xFFFF_FFFF) by (nonlinear_arith)
        requires
            0 < duration <= 0xFFFF_FFFF,
            0 <= frequency <= 0xFFFF_FFFF,
    ;
    assert(duration * frequency > 0) by (nonlinear_arith)
        requires
            duration > 0,
            frequency > 0,
    ;
    let w64: u64 = duration as u64 * frequency as u64;
    assert(w64 == width_centi(t, frequency));
    let w: i128 = w64 as i128;
    let span: i128 = 100 * duration as i128;
    let base: i128 = 100 * first as i128;
    let mut samples: Vec<NpsSample> = Vec::new();
    // offset of the current interval's start from the first note: k * w
    let mut offset: i128 = 0;
    let mut k: usize = 0;
    while offset < span
        invariant
            t == timings@,
            t.len() > 0,
            timings@.len() < usize::MAX,
            frequency >= 1,
            w <= 0xFFFF_FFFF * 0xFFFF_FFFF,
            first == t[0],
            last == t.last(),
            duration == last - first,
            duration > 0,
            w == width_centi(t, frequency),
            w > 0,
            span == 100 * duration,
            base == 100 * first,
            offset == k * w,
            0 <= offset,
            k <= 100,
            samples@.len() == k,
            forall|i: int| 0 <= i < k ==> #[trigger] (i * w) < span,
            forall|i: int| 0 <= i < k ==> #[trigger] samples@[i] == sample_spec(t, frequency, i),
        decreases 100 - k,
    {
        let next: i128 = offset + w;
        let open_end = next >= span;
        let notes = count_notes(timings, base + offset, w, open_end);
        let start: i128 = first as i128 + offset / 100;
        samples.push(NpsSample { start_ms: start as i32, notes });
        proof {
            assert((k + 1) * w == k * w + w) by (nonlinear_arith);
            assert(k < 100) by (nonlinear_arith)
                requires
                    k * w < 100 * duration,
                    w == duration * frequency,
                    frequency >= 1,
                    duration > 0,
                    k >= 0,
            ;
            assert(samples@.last() == sample_spec(t, frequency, k as int));
        }
        offset = next;
        k = k + 1;
    }
    Ok(NpsHistogram { width_centi_ms: w64, samples })
}

} // verus!
