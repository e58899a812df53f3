//! Telling a male voice from a female one by its fundamental frequency.
//!
//! A voice is analysed in frames of 30 ms. A frame in which the signal repeats itself after `lag`
//! samples has the frequency `sample_rate / lag`. All the comparisons of frequencies are done on
//! whole numbers: `sample_rate / lag < 165` is `sample_rate < 165 * lag`.
use vstd::prelude::*;

use crate::ieee::F32;

verus! {

/// Below this frequency in Hz a voice counts as male.
pub const F0_THRESHOLD: u64 = 165;

/// The lowest frequency of a voice in Hz.
pub const F0_MIN: u64 = 50;

/// The highest frequency of a voice in Hz.
pub const F0_MAX: u64 = 400;

/// The seconds that are analysed.
pub const MAX_SECS: u64 = 10;

/// The bit pattern of 0.3: a frame with less autocorrelation does not repeat itself.
pub const AUTOCORR_THRESHOLD: u32 = 0x3e99_999a;

/// The bit pattern of 0.001: a frame with less energy is silent.
pub const SILENCE_THRESHOLD: u32 = 0x3a83_126f;

/// A kind of voice.
#[derive(Debug, Clone, Copy, PartialEq, Eq, Structural)]
pub enum VoiceGender {
    /// A male voice.
    Male,
    /// A female voice.
    Female,
}

/// How a recording is cut into frames.
#[derive(Debug, Clone, Copy, PartialEq, Eq, Structural)]
pub struct Frames {
    /// The samples of a frame.
    pub size: usize,
    /// How many frames there are.
    pub count: usize,
    /// The least lag.
    pub min_lag: usize,
    /// The end of the lags.
    pub max_lag: usize,
}

/// The smaller of two numbers.
pub open spec fn least(a: int, b: int) -> int {
    if a < b {
        a
    } else {
        b
    }
}

/// How `len` samples are cut into frames, nothing where there is not one whole frame.
pub fn frames(len: usize, sample_rate: u32) -> (r: Option<Frames>)
    ensures
        ({
            let size = sample_rate * 3 / 100;
            let used = least(len as int, sample_rate * MAX_SECS);
            match r {
                Some(f) => {
                    &&& 0 < size <= used
                    &&& f.size == size
                    &&& f.count == used / size
                    &&& f.min_lag == sample_rate as int / F0_MAX as int
                    &&& f.max_lag == least(sample_rate as int / F0_MIN as int, size / 2)
                },
                None => size == 0 || used < size,
            }
        }),
        r matches Some(f) ==> {
            &&& f.count >= 1
            &&& f.count * f.size <= len
            &&& f.count * f.size <= sample_rate * 10
            &&& f.min_lag == sample_rate as int / 400
            &&& f.max_lag * 50 <= sample_rate
            &&& f.max_lag * 2 <= f.size
            &&& (f.max_lag + 1) * 50 > sample_rate || (f.max_lag + 1) * 2 > f.size
            &&& (f.count + 1) * f.size > len || (f.count + 1) * f.size > sample_rate * 10
        },
        r is None <==> sample_rate < 34 || len < sample_rate * 3 / 100,
{
    let size: u64 = sample_rate as u64 * 3 / 100;
    let limit: u64 = sample_rate as u64 * MAX_SECS;
    let used: u64 = if (len as u64) < limit {
        len as u64
    } else {
        limit
    };
    if size == 0 || used < size {
        return None;
    }
    let top: u64 = sample_rate as u64 / F0_MIN;
    let half: u64 = size / 2;
    assert(0 < size <= used <= len);
    assert(used / size <= used && 1 <= used / size && (used / size) * size <= used && (used / size
        + 1) * size > used) by (nonlinear_arith)
        requires
            0 < size <= used,
    ;
    assert(sample_rate as u64 / F0_MAX <= u32::MAX);
    Some(
        Frames {
            size: size as usize,
            count: (used / size) as usize,
            min_lag: (sample_rate / 400) as usize,
            max_lag: if top < half {
                top as usize
            } else {
                half as usize
            },
        },
    )
}

/// The frames cover no sample twice and none that is not there, and every lag falls into the first
/// half of a frame.
pub proof fn law_frames_fit(len: int, size: int, i: int)
    requires
        0 < size,
        0 <= i < len / size,
    ensures
        0 <= i * size,
        (i + 1) * size <= len,
{
    assert(0 <= i * size && (i + 1) * size <= len) by (nonlinear_arith)
        requires
            0 < size,
            0 <= i < len / size,
    ;
}

/// `choice` is the first of the greatest values above the threshold, or there is none.
pub open spec fn is_peak(values: Seq<F32>, choice: Option<int>) -> bool {
    let threshold = F32 { bits: AUTOCORR_THRESHOLD };
    match choice {
        Some(b) => {
            &&& 0 <= b < values.len()
            &&& threshold.less(values[b])
            &&& forall|k: int| 0 <= k < values.len() ==> !values[b].less(#[trigger] values[k])
            &&& forall|k: int|
                0 <= k < b && threshold.less(#[trigger] values[k]) ==> values[k].less(values[b])
        },
        None => forall|k: int| 0 <= k < values.len() ==> !threshold.less(#[trigger] values[k]),
    }
}

/// The place of the first of the greatest values above the threshold.
pub fn peak(values: &Vec<F32>) -> (r: Option<usize>)
    ensures
        is_peak(
            values@,
            match r {
                Some(b) => Some(b as int),
                None => None,
            },
        ),
        match r {
            Some(b) => {
                &&& b < values@.len()
                &&& (F32 { bits: 0x3e99_999a }).less(values@[b as int])
                &&& forall|k: int|
                    0 <= k < values@.len() ==> !values@[b as int].less(#[trigger] values@[k])
                &&& forall|k: int|
                    0 <= k < b && (F32 { bits: 0x3e99_999a }).less(#[trigger] values@[k])
                        ==> values@[k].less(values@[b as int])
            },
            None => forall|k: int|
                0 <= k < values@.len() ==> !(F32 { bits: 0x3e99_999a }).less(#[trigger] values@[k]),
        },
{
    let threshold = F32::from_bits(AUTOCORR_THRESHOLD);
    let mut best: Option<usize> = None;
    let mut i: usize = 0;
    while i < values.len()
        invariant
            threshold.bits == AUTOCORR_THRESHOLD,
            i <= values@.len(),
            is_peak(
                values@.take(i as int),
                match best {
                    Some(b) => Some(b as int),
                    None => None,
                },
            ),
        decreases values@.len() - i,
    {
        let ghost seen = values@.take(i as int);
        let ghost more = values@.take(i + 1);
        assert(more =~= seen.push(values@[i as int]));
        let better = match best {
            Some(b) => values[b].lt(values[i]),
            None => threshold.lt(values[i]),
        };
        proof {
            assert forall|k: int| 0 <= k < i implies more[k] == seen[k] by {}
            if let Some(b) = best {
                assert(seen[b as int] == values@[b as int]);
            }
        }
        if better {
            best = Some(i);
        }
        i += 1;
    }
    assert(values@.take(values@.len() as int) =~= values@);
    best
}

/// Each frame repeats itself after its lag, 0 standing for one that does not. `rows` holds, for each
/// frame, the normalised autocorrelation at each lag from `min_lag` on.
pub open spec fn repeat_after(rows: Seq<Vec<F32>>, min_lag: usize, lags: Seq<usize>) -> bool {
    &&& lags.len() == rows.len()
    &&& forall|i: int|
        0 <= i < lags.len() ==> {
            ||| is_peak(rows[i]@, None) && #[trigger] lags[i] == 0
            ||| is_peak(rows[i]@, Some(lags[i] - min_lag))
        }
}

/// The lags of the frames are determined.
pub proof fn law_lags_are_unique(
    rows: Seq<Vec<F32>>,
    min_lag: usize,
    a: Seq<usize>,
    b: Seq<usize>,
)
    requires
        repeat_after(rows, min_lag, a),
        repeat_after(rows, min_lag, b),
    ensures
        a == b,
{
    let threshold = F32 { bits: AUTOCORR_THRESHOLD };
    assert forall|i: int| 0 <= i < a.len() implies a[i] == b[i] by {
        let row = rows[i]@;
        let (x, y) = (a[i] - min_lag, b[i] - min_lag);
        if is_peak(row, Some(x)) && is_peak(row, Some(y)) {
            assert(!row[x].less(row[y]) && !row[y].less(row[x]));
        } else if is_peak(row, Some(x)) {
            assert(threshold.less(row[x]));
        } else if is_peak(row, Some(y)) {
            assert(threshold.less(row[y]));
        }
    }
    assert(a =~= b);
}

/// The lag at which each frame repeats itself, 0 for one that does not. `correlations` holds, for
/// each frame, the normalised autocorrelation at each lag from `min_lag` on, nothing for a silent
/// frame.
pub fn peak_lags(correlations: &Vec<Vec<F32>>, min_lag: usize) -> (r: Vec<usize>)
    requires
        forall|i: int|
            0 <= i < correlations@.len() ==> min_lag + (#[trigger] correlations@[i])@.len()
                <= usize::MAX,
    ensures
        repeat_after(correlations@, min_lag, r@),
        r@.len() == correlations@.len(),
        forall|i: int|
            #![trigger r@[i]]
            0 <= i < r@.len() ==> {
                let row = correlations@[i]@;
                if forall|k: int|
                    0 <= k < row.len() ==> !(F32 { bits: 0x3e99_999a }).less(#[trigger] row[k]) {
                    r@[i] == 0
                } else {
                    &&& min_lag <= r@[i] < min_lag + row.len()
                    &&& (F32 { bits: 0x3e99_999a }).less(row[r@[i] - min_lag])
                    &&& forall|k: int|
                        0 <= k < row.len() ==> !row[r@[i] - min_lag].less(#[trigger] row[k])
                }
            },
{
    let mut out: Vec<usize> = Vec::new();
    let mut i: usize = 0;
    while i < correlations.len()
        invariant
            i <= correlations@.len(),
            out@.len() == i,
            forall|k: int|
                0 <= k < correlations@.len() ==> min_lag + (#[trigger] correlations@[k])@.len()
                    <= usize::MAX,
            forall|k: int|
                0 <= k < i ==> {
                    let row = correlations@[k]@;
                    ||| is_peak(row, None) && #[trigger] out@[k] == 0
                    ||| is_peak(row, Some(out@[k] - min_lag))
                },
        decreases correlations@.len() - i,
    {
        let ghost row = correlations@[i as int]@;
        let lag: usize = match peak(&correlations[i]) {
            Some(p) => min_lag + p,
            None => 0,
        };
        assert(is_peak(row, None) && lag == 0 || is_peak(row, Some(lag - min_lag)));
        out.push(lag);
        i += 1;
    }
    out
}

/// The lag is that of a voice: its frequency lies between the bounds.
pub open spec fn voiced(lag: usize, sample_rate: u32) -> bool {
    lag > 0 && F0_MIN * lag <= sample_rate <= F0_MAX * lag
}

/// The frequency at this lag lies below the threshold.
pub open spec fn low(lag: usize, sample_rate: u32) -> bool {
    sample_rate < F0_THRESHOLD * lag
}

/// The lags of a voice.
pub open spec fn voiced_lags(lags: Seq<usize>, sample_rate: u32) -> Seq<usize> {
    lags.filter(|lag: usize| voiced(lag, sample_rate))
}

/// How many of the first `n` lags have a low frequency.
pub open spec fn low_count(lags: Seq<usize>, sample_rate: u32) -> int
    decreases lags.len(),
{
    if lags.len() == 0 {
        0
    } else {
        low_count(lags.drop_last(), sample_rate) + if low(lags.last(), sample_rate) {
            1int
        } else {
            0int
        }
    }
}

/// The kind of voice with these lags. With fewer than three frames that repeat themselves it is
/// female. Otherwise it is male exactly where the median frequency is low, that is, where more than
/// half of the frequencies are.
pub open spec fn gender_of(lags: Seq<usize>, sample_rate: u32) -> VoiceGender {
    let kept = voiced_lags(lags, sample_rate);
    if kept.len() >= 3 && low_count(kept, sample_rate) > kept.len() as int / 2 {
        VoiceGender::Male
    } else {
        VoiceGender::Female
    }
}

/// Among frequencies in ascending order, that is lags in descending order, the one in the middle is
/// low exactly where more than half of them are.
pub proof fn law_median(lags: Seq<usize>, sample_rate: u32)
    requires
        lags.len() > 0,
        forall|i: int, j: int| 0 <= i <= j < lags.len() ==> lags[i] >= lags[j],
    ensures
        low(lags[lags.len() as int / 2], sample_rate) <==> low_count(lags, sample_rate)
            > lags.len() as int / 2,
{
    lemma_low_first(lags, sample_rate);
    let n = low_count(lags, sample_rate);
    let middle = lags.len() as int / 2;
    assert(low(lags[middle], sample_rate) <==> middle < n);
}

proof fn lemma_low_first(lags: Seq<usize>, sample_rate: u32)
    requires
        forall|i: int, j: int| 0 <= i <= j < lags.len() ==> lags[i] >= lags[j],
    ensures
        0 <= low_count(lags, sample_rate) <= lags.len(),
        forall|i: int|
            0 <= i < lags.len() ==> (low(#[trigger] lags[i], sample_rate) <==> i < low_count(
                lags,
                sample_rate,
            )),
    decreases lags.len(),
{
    if lags.len() > 0 {
        let rest = lags.drop_last();
        lemma_low_first(rest, sample_rate);
        let n = low_count(rest, sample_rate);
        assert forall|i: int| 0 <= i < rest.len() implies #[trigger] lags[i] == rest[i] by {}
        if low(lags.last(), sample_rate) && n < rest.len() {
            assert(lags[n] >= lags[lags.len() - 1]);
            assert(low(rest[n], sample_rate) <==> n < n);
            assert(false);
        }
    }
}

proof fn lemma_low_count_of_bag(lags: Seq<usize>, sample_rate: u32)
    ensures
        low_count(lags, sample_rate) == lags.to_multiset().filter(
            |lag: usize| low(lag, sample_rate),
        ).len(),
    decreases lags.len(),
{
    broadcast use vstd::seq_lib::group_to_multiset_ensures;

    let is_low = |lag: usize| low(lag, sample_rate);
    if lags.len() == 0 {
        assert(lags.to_multiset().filter(is_low) =~= vstd::multiset::Multiset::empty());
    } else {
        let rest = lags.drop_last();
        lemma_low_count_of_bag(rest, sample_rate);
        assert(lags =~= rest.push(lags.last()));
        let before = rest.to_multiset().filter(is_low);
        let after = lags.to_multiset().filter(is_low);
        if low(lags.last(), sample_rate) {
            assert(after =~= before.insert(lags.last()));
        } else {
            assert(after =~= before);
        }
    }
}

/// The median decides: of at least three frequencies between 50 and 400 Hz, put in ascending order, that
/// is with the lags in descending order, the voice is male exactly where the one in the middle is below
/// 165 Hz. With fewer the voice is female.
pub proof fn law_median_decides(lags: Seq<usize>, sample_rate: u32, sorted: Seq<usize>)
    requires
        sorted.to_multiset() == lags.filter(
            |lag: usize| lag > 0 && 50 * lag <= sample_rate && sample_rate <= 400 * lag,
        ).to_multiset(),
        forall|i: int, j: int| 0 <= i <= j < sorted.len() ==> sorted[i] >= sorted[j],
    ensures
        gender_of(lags, sample_rate) is Male <==> sorted.len() >= 3 && sample_rate < 165
            * sorted[sorted.len() as int / 2],
        gender_of(lags, sample_rate) is Female <==> !(gender_of(lags, sample_rate) is Male),
{
    broadcast use vstd::seq_lib::group_to_multiset_ensures;

    let kept = lags.filter(
        |lag: usize| lag > 0 && 50 * lag <= sample_rate && sample_rate <= 400 * lag,
    );
    lemma_same_filter(lags, sample_rate);
    assert(kept == voiced_lags(lags, sample_rate));
    assert(sorted.len() == sorted.to_multiset().len() && kept.len() == kept.to_multiset().len());
    lemma_low_count_of_bag(kept, sample_rate);
    lemma_low_count_of_bag(sorted, sample_rate);
    if sorted.len() > 0 {
        law_median(sorted, sample_rate);
    }
}

proof fn lemma_same_filter(lags: Seq<usize>, sample_rate: u32)
    ensures
        lags.filter(|lag: usize| lag > 0 && 50 * lag <= sample_rate && sample_rate <= 400 * lag)
            == voiced_lags(lags, sample_rate),
    decreases lags.len(),
{
    reveal(Seq::filter);
    if lags.len() > 0 {
        lemma_same_filter(lags.drop_last(), sample_rate);
    }
}

/// The kind of voice with these lags.
pub fn gender_from_lags(lags: &Vec<usize>, sample_rate: u32) -> (r: VoiceGender)
    ensures
        r == gender_of(lags@, sample_rate),
{
    let mut kept: usize = 0;
    let mut lows: usize = 0;
    let mut i: usize = 0;
    let ghost of_voice = |lag: usize| voiced(lag, sample_rate);
    proof {
        reveal(Seq::filter);
        assert(lags@.take(0).filter(of_voice) =~= Seq::empty());
    }
    while i < lags.len()
        invariant
            i <= lags@.len(),
            lows <= kept <= i,
            of_voice == (|lag: usize| voiced(lag, sample_rate)),
            kept == lags@.take(i as int).filter(of_voice).len(),
            lows == low_count(lags@.take(i as int).filter(of_voice), sample_rate),
        decreases lags@.len() - i,
    {
        let lag: u128 = lags[i] as u128;
        let rate: u128 = sample_rate as u128;
        proof {
            reveal(Seq::filter);
            let seen = lags@.take(i as int);
            let more = lags@.take(i + 1);
            assert(more.drop_last() =~= seen);
            assert(more.last() == lags@[i as int]);
            let grown = seen.filter(of_voice).push(lags@[i as int]);
            assert(grown.drop_last() =~= seen.filter(of_voice));
            assert(low_count(grown, sample_rate) == low_count(
                seen.filter(of_voice),
                sample_rate,
            ) + if low(lags@[i as int], sample_rate) {
                1int
            } else {
                0int
            });
        }
        if lag > 0 && 50 * lag <= rate && rate <= 400 * lag {
            kept += 1;
            if rate < 165 * lag {
                lows += 1;
            }
        }
        i += 1;
    }
    assert(lags@.take(lags@.len() as int) =~= lags@);
    if kept >= 3 && lows > kept / 2 {
        VoiceGender::Male
    } else {
        VoiceGender::Female
    }
}

/// The kind of voice whose frames have these normalised autocorrelations, each from `min_lag` on.
pub fn detect_gender(
    correlations: &Vec<Vec<F32>>,
    min_lag: usize,
    sample_rate: u32,
) -> (r: VoiceGender)
    requires
        forall|i: int|
            0 <= i < correlations@.len() ==> min_lag + (#[trigger] correlations@[i])@.len()
                <= usize::MAX,
    ensures
        exists|lags: Seq<usize>|
            #[trigger] repeat_after(correlations@, min_lag, lags) && r == gender_of(
                lags,
                sample_rate,
            ),
{
    let lags = peak_lags(correlations, min_lag);
    let r = gender_from_lags(&lags, sample_rate);
    assert(repeat_after(correlations@, min_lag, lags@));
    r
}

/// The kind of voice in a recording, given the lags of its frames and its sample rate; female where
/// the recording cannot be read.
pub fn detect_gender_from_wav(lags: &Option<(Vec<usize>, u32)>) -> (r: VoiceGender)
    ensures
        r == match *lags {
            Some(l) => gender_of(l.0@, l.1),
            None => VoiceGender::Female,
        },
{
    match lags {
        Some(l) => gender_from_lags(&l.0, l.1),
        None => VoiceGender::Female,
    }
}

} // verus!
