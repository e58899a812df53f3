//! Speech recognition: finding speech, choosing models, numbering segments.
use vstd::prelude::*;

use crate::audio_post_process::WavFormat;
use crate::error::AppError;
use crate::ieee::{F32, F64};
use crate::order;
use crate::order::{sorted_order, total_key};
use crate::text;
use crate::text::{
    append2, cat3, chars_of, decimal_text, padded_text, path_join, same_text, string_of, trim,
};

verus! {

/// How speech is told from silence.
#[derive(Debug, Clone)]
pub struct VadConfig {
    /// The length of a frame in milliseconds.
    pub frame_size_ms: u32,
    /// The RMS above which a frame is speech.
    pub energy_threshold: F32,
    /// The shortest speech in milliseconds.
    pub min_speech_duration_ms: u32,
    /// The shortest silence that ends speech, in milliseconds.
    pub min_silence_duration_ms: u32,
    /// What is added at either end of speech, in milliseconds.
    pub speech_pad_ms: u32,
}

impl Default for VadConfig {
    fn default() -> (r: Self)
        ensures
            r.frame_size_ms == 30,
            r.energy_threshold.bits == 0x3cf5_c28f,
            r.min_speech_duration_ms == 500,
            r.min_silence_duration_ms == 700,
            r.speech_pad_ms == 200,
    {
        VadConfig {
            frame_size_ms: 30,
            energy_threshold: F32::from_bits(0x3cf5_c28f),
            min_speech_duration_ms: 500,
            min_silence_duration_ms: 700,
            speech_pad_ms: 200,
        }
    }
}

/// A stretch of speech.
#[derive(Debug, Clone, Copy, PartialEq, Eq, Structural)]
pub struct SpeechSegment {
    /// Its start in milliseconds.
    pub start_ms: i64,
    /// Its end in milliseconds.
    pub end_ms: i64,
}

/// How many samples a frame has.
pub fn frame_samples(sample_rate: u32, frame_size_ms: u32) -> (r: u64)
    ensures
        r == sample_rate * frame_size_ms / 1000,
{
    assert(sample_rate * frame_size_ms <= u64::MAX) by (nonlinear_arith)
        requires
            sample_rate <= u32::MAX,
            frame_size_ms <= u32::MAX,
    ;
    sample_rate as u64 * frame_size_ms as u64 / 1000
}

/// The first frame from `i` on that is speech, or the number of frames.
pub open spec fn next_speech(speech: Seq<bool>, i: int) -> int
    decreases speech.len() - i,
{
    if 0 <= i < speech.len() && !speech[i] {
        next_speech(speech, i + 1)
    } else {
        i
    }
}

/// The frame from `i` on at which `quiet` silent frames in a row have passed, `count` of them before
/// `i`; nothing where that does not happen.
pub open spec fn quiet_at(speech: Seq<bool>, i: int, count: int, quiet: int) -> Option<int>
    decreases speech.len() - i,
{
    if i < 0 || i >= speech.len() {
        None
    } else if speech[i] {
        quiet_at(speech, i + 1, 0, quiet)
    } else if count + 1 >= quiet {
        Some(i)
    } else {
        quiet_at(speech, i + 1, count + 1, quiet)
    }
}

/// The stretches of speech from frame `i` on, as pairs of the first frame and the one after the last:
/// each starts with speech, and lasts until the first `quiet` silent frames in a row, or to the end
/// where there are none.
pub open spec fn stretches(speech: Seq<bool>, i: int, quiet: int) -> Seq<(int, int)>
    decreases speech.len() - i,
    when quiet > 0
    via stretches_decreases
{
    let start = next_speech(speech, i);
    if i < 0 || start >= speech.len() {
        Seq::empty()
    } else {
        match quiet_at(speech, start, 0, quiet) {
            Some(j) => seq![(start, j - quiet + 1)] + stretches(speech, j + 1, quiet),
            None => seq![(start, speech.len() as int)],
        }
    }
}

#[via_fn]
proof fn stretches_decreases(speech: Seq<bool>, i: int, quiet: int) {
    if 0 <= i < speech.len() {
        lemma_next_speech(speech, i);
        let start = next_speech(speech, i);
        if start < speech.len() {
            lemma_quiet_at(speech, start, 0, quiet);
        }
    }
}

proof fn lemma_next_speech(speech: Seq<bool>, i: int)
    requires
        0 <= i <= speech.len(),
    ensures
        i <= next_speech(speech, i) <= speech.len(),
        next_speech(speech, i) < speech.len() ==> speech[next_speech(speech, i)],
    decreases speech.len() - i,
{
    if i < speech.len() && !speech[i] {
        lemma_next_speech(speech, i + 1);
    }
}

proof fn lemma_quiet_at(speech: Seq<bool>, i: int, count: int, quiet: int)
    requires
        0 <= i <= speech.len(),
        0 <= count < quiet,
    ensures
        quiet_at(speech, i, count, quiet) matches Some(j) ==> i <= j < speech.len() && j - quiet
            >= i - count - 1,
    decreases speech.len() - i,
{
    if i < speech.len() {
        if speech[i] {
            lemma_quiet_at(speech, i + 1, 0, quiet);
        } else if count + 1 < quiet {
            lemma_quiet_at(speech, i + 1, count + 1, quiet);
        }
    }
}

/// The stretches of speech come one after the other, with silence between them.
pub proof fn law_stretches_ordered(speech: Seq<bool>, i: int, quiet: int)
    requires
        0 <= i <= speech.len(),
        quiet > 0,
    ensures
        forall|k: int|
            0 <= k < stretches(speech, i, quiet).len() ==> {
                let s = #[trigger] stretches(speech, i, quiet)[k];
                i <= s.0 <= s.1 <= speech.len()
            },
        forall|k: int, l: int|
            0 <= k < l < stretches(speech, i, quiet).len() ==> (#[trigger] stretches(
                speech,
                i,
                quiet,
            )[k]).1 < (#[trigger] stretches(speech, i, quiet)[l]).0,
    decreases speech.len() - i,
{
    lemma_next_speech(speech, i);
    let start = next_speech(speech, i);
    if start < speech.len() {
        lemma_quiet_at_after_speech(speech, start, quiet);
        if let Some(j) = quiet_at(speech, start, 0, quiet) {
            let rest = stretches(speech, j + 1, quiet);
            let all = stretches(speech, i, quiet);
            law_stretches_ordered(speech, j + 1, quiet);
            assert(all =~= seq![(start, j - quiet + 1)] + rest);
            assert forall|k: int| 0 <= k < all.len() implies {
                let s = #[trigger] all[k];
                i <= s.0 <= s.1 <= speech.len()
            } by {
                if k > 0 {
                    assert(all[k] == rest[k - 1]);
                }
            }
            assert forall|k: int, l: int| 0 <= k < l < all.len() implies (#[trigger] all[k]).1 < (
            #[trigger] all[l]).0 by {
                assert(all[l] == rest[l - 1]);
                if k > 0 {
                    assert(all[k] == rest[k - 1]);
                }
            }
        }
    }
}

proof fn lemma_quiet_at_after_speech(speech: Seq<bool>, start: int, quiet: int)
    requires
        0 <= start < speech.len(),
        speech[start],
        quiet > 0,
    ensures
        quiet_at(speech, start, 0, quiet) matches Some(j) ==> start < j < speech.len() && j - quiet
            >= start,
{
    lemma_quiet_at(speech, start + 1, 0, quiet);
}

/// `quiet` silent frames in a row start at `x`.
spec fn silent_run(speech: Seq<bool>, x: int, quiet: int) -> bool {
    0 <= x && x + quiet <= speech.len() && forall|y: int| x <= y < x + quiet ==> !speech[y]
}

proof fn lemma_quiet_at_is_first(speech: Seq<bool>, i: int, count: int, quiet: int)
    requires
        0 <= count < quiet,
        count <= i <= speech.len(),
        forall|y: int| i - count <= y < i ==> !speech[y],
        count < i ==> speech[i - count - 1],
    ensures
        match quiet_at(speech, i, count, quiet) {
            Some(j) => silent_run(speech, j - quiet + 1, quiet) && j - quiet + 1 >= i - count
                && forall|x: int|
                i - count <= x < j - quiet + 1 ==> !#[trigger] silent_run(speech, x, quiet),
            None => forall|x: int|
                i - count <= x ==> !#[trigger] silent_run(speech, x, quiet),
        },
    decreases speech.len() - i,
{
    if i < speech.len() {
        if speech[i] {
            lemma_quiet_at_is_first(speech, i + 1, 0, quiet);
            assert forall|x: int| i - count <= x <= i implies !#[trigger] silent_run(
                speech,
                x,
                quiet,
            ) by {
                if x + quiet <= i {
                    assert(x + quiet - 1 >= i - count + quiet - 1);
                }
            }
        } else if count + 1 >= quiet {
        } else {
            lemma_quiet_at_is_first(speech, i + 1, count + 1, quiet);
        }
    } else {
        assert forall|x: int| i - count <= x implies !#[trigger] silent_run(speech, x, quiet) by {
            assert(x + quiet > speech.len());
        }
    }
}

/// The ends of a stretch are justified by the frames. It starts with speech. It is ended by `quiet`
/// silent frames in a row, with speech right before them, or by the last frame, and wherever `quiet`
/// frames in a row lie inside it, one of them is speech.
pub proof fn law_stretches_justified(speech: Seq<bool>, quiet: int, k: int, x: int)
    requires
        quiet > 0,
        0 <= k < stretches(speech, 0, quiet).len(),
    ensures
        ({
            let (s, e) = stretches(speech, 0, quiet)[k];
            &&& 0 <= s < e <= speech.len()
            &&& speech[s]
            &&& e < speech.len() ==> speech[e - 1] && e + quiet <= speech.len()
            &&& e < speech.len() && e <= x < e + quiet ==> !speech[x]
            &&& s <= x && x + quiet <= e ==> exists|y: int| x <= y < x + quiet && speech[y]
        }),
{
    lemma_stretches_justified(speech, 0, quiet);
    reveal(justified);
    let (s, e) = stretches(speech, 0, quiet)[k];
    assert(justified(speech, stretches(speech, 0, quiet)[k], quiet));
    if s <= x && x + quiet <= e {
        assert(!silent_run(speech, x, quiet));
    }
}

/// All speech lies in some stretch.
pub proof fn law_speech_is_found(speech: Seq<bool>, quiet: int, x: int)
    requires
        quiet > 0,
        0 <= x < speech.len(),
        speech[x],
    ensures
        exists|k: int|
            0 <= k < stretches(speech, 0, quiet).len() && (#[trigger] stretches(
                speech,
                0,
                quiet,
            )[k]).0 <= x < stretches(speech, 0, quiet)[k].1,
{
    lemma_stretches_justified(speech, 0, quiet);
}

#[verifier::opaque]
spec fn justified(speech: Seq<bool>, s: (int, int), quiet: int) -> bool {
    &&& 0 <= s.0 < s.1 <= speech.len()
    &&& speech[s.0]
    &&& s.1 < speech.len() ==> speech[s.1 - 1] && silent_run(speech, s.1, quiet)
    &&& forall|x: int| s.0 <= x && x + quiet <= s.1 ==> !#[trigger] silent_run(speech, x, quiet)
}

proof fn lemma_next_speech_is_first(speech: Seq<bool>, i: int)
    requires
        0 <= i <= speech.len(),
    ensures
        forall|x: int| i <= x < next_speech(speech, i) ==> !speech[x],
    decreases speech.len() - i,
{
    if i < speech.len() && !speech[i] {
        lemma_next_speech_is_first(speech, i + 1);
    }
}

proof fn lemma_first_stretch_justified(speech: Seq<bool>, start: int, quiet: int)
    requires
        0 <= start < speech.len(),
        speech[start],
        quiet > 0,
    ensures
        match quiet_at(speech, start, 0, quiet) {
            Some(j) => {
                &&& start <= j < speech.len()
                &&& justified(speech, (start, j - quiet + 1), quiet)
                &&& forall|x: int| j - quiet < x <= j ==> !speech[x]
            },
            None => justified(speech, (start, speech.len() as int), quiet),
        },
{
    reveal(justified);
    lemma_quiet_at_is_first(speech, start + 1, 0, quiet);
    lemma_quiet_at_after_speech(speech, start, quiet);
    assert(!silent_run(speech, start, quiet)) by {
        assert(speech[start]);
    }
    if let Some(j) = quiet_at(speech, start, 0, quiet) {
        if j - quiet > start && !speech[j - quiet] {
            assert(silent_run(speech, j - quiet, quiet));
        }
    }
}

proof fn lemma_stretches_justified(speech: Seq<bool>, i: int, quiet: int)
    requires
        0 <= i <= speech.len(),
        quiet > 0,
    ensures
        forall|k: int|
            0 <= k < stretches(speech, i, quiet).len() ==> justified(
                speech,
                #[trigger] stretches(speech, i, quiet)[k],
                quiet,
            ),
        forall|x: int|
            i <= x < speech.len() && #[trigger] speech[x] ==> exists|k: int|
                0 <= k < stretches(speech, i, quiet).len() && (#[trigger] stretches(
                    speech,
                    i,
                    quiet,
                )[k]).0 <= x < stretches(speech, i, quiet)[k].1,
    decreases speech.len() - i,
{
    lemma_next_speech(speech, i);
    lemma_next_speech_is_first(speech, i);
    let start = next_speech(speech, i);
    if start < speech.len() {
        lemma_first_stretch_justified(speech, start, quiet);
        let all = stretches(speech, i, quiet);
        match quiet_at(speech, start, 0, quiet) {
            Some(j) => {
                let first = (start, j - quiet + 1);
                let rest = stretches(speech, j + 1, quiet);
                assert(all =~= seq![first] + rest);
                lemma_stretches_justified(speech, j + 1, quiet);
                assert forall|k: int| 0 <= k < all.len() implies justified(
                    speech,
                    #[trigger] all[k],
                    quiet,
                ) by {
                    if k > 0 {
                        assert(all[k] == rest[k - 1]);
                    }
                }
                assert forall|x: int| i <= x < speech.len() && #[trigger] speech[x] implies exists|
                    k: int,
                |
                    0 <= k < all.len() && (#[trigger] all[k]).0 <= x < all[k].1 by {
                    if x <= j {
                        assert(all[0] == first);
                    } else {
                        let k = choose|k: int|
                            0 <= k < rest.len() && (#[trigger] rest[k]).0 <= x < rest[k].1;
                        assert(all[k + 1] == rest[k]);
                    }
                }
            },
            None => {
                let only = (start, speech.len() as int);
                assert(all =~= seq![only]);
                assert(all[0] == only);
            },
        }
    }
}

/// What is reported is what is long enough: the stretches of at least the shortest speech, in order,
/// each in milliseconds with the padding at either end, but not before the start.
pub proof fn law_long_speech_is_reported(list: Seq<(int, int)>, config: VadConfig)
    requires
        forall|k: int|
            0 <= k < list.len() ==> 0 <= (#[trigger] list[k]).0 <= list[k].1 && list[k].1
                * config.frame_size_ms + config.speech_pad_ms <= i64::MAX,
    ensures
        ({
            let long = list.filter(
                |s: (int, int)| s.1 * config.frame_size_ms - s.0 * config.frame_size_ms
                    >= config.min_speech_duration_ms,
            );
            let found = long_stretches(list, config);
            &&& found.len() == long.len()
            &&& forall|k: int|
                #![trigger found[k]]
                0 <= k < found.len() ==> {
                    &&& found[k].end_ms == long[k].1 * config.frame_size_ms + config.speech_pad_ms
                    &&& found[k].start_ms >= 0
                    &&& found[k].start_ms == 0 || found[k].start_ms == long[k].0
                        * config.frame_size_ms - config.speech_pad_ms
                    &&& long[k].0 * config.frame_size_ms >= config.speech_pad_ms
                        ==> found[k].start_ms + config.speech_pad_ms == long[k].0
                        * config.frame_size_ms
                }
        }),
    decreases list.len(),
{
    reveal(Seq::filter);
    if list.len() > 0 {
        let rest = list.drop_last();
        assert forall|k: int| 0 <= k < rest.len() implies 0 <= (#[trigger] rest[k]).0 <= rest[k].1
            && rest[k].1 * config.frame_size_ms + config.speech_pad_ms <= i64::MAX by {
            assert(rest[k] == list[k]);
        }
        law_long_speech_is_reported(rest, config);
        let s = list.last();
        assert(list[list.len() - 1] == s);
        assert((s.1 - s.0) * config.frame_size_ms == s.1 * config.frame_size_ms - s.0
            * config.frame_size_ms) by (nonlinear_arith);
        assert(0 <= s.0 * config.frame_size_ms <= s.1 * config.frame_size_ms) by (nonlinear_arith)
            requires
                0 <= s.0 <= s.1,
        ;
    }
}

/// Speech ends after at least one silent frame, and after as many as fit into the shortest silence.
pub proof fn law_silence_that_ends_speech(config: VadConfig)
    requires
        config.frame_size_ms > 0,
    ensures
        quiet_frames(config) >= 1,
        quiet_frames(config) == 1 || quiet_frames(config) * config.frame_size_ms
            <= config.min_silence_duration_ms,
        (quiet_frames(config) + 1) * config.frame_size_ms > config.min_silence_duration_ms,
{
    let n = config.min_silence_duration_ms as int / config.frame_size_ms as int;
    assert(n * config.frame_size_ms <= config.min_silence_duration_ms && (n + 1)
        * config.frame_size_ms > config.min_silence_duration_ms) by (nonlinear_arith)
        requires
            config.frame_size_ms > 0,
            n == config.min_silence_duration_ms as int / config.frame_size_ms as int,
    ;
    assert(n < 1 ==> 2 * config.frame_size_ms > config.min_silence_duration_ms);
}

/// The stretch in milliseconds, with the padding of `config`.
pub open spec fn padded_stretch(s: (int, int), config: VadConfig) -> SpeechSegment {
    let start = s.0 * config.frame_size_ms - config.speech_pad_ms;
    SpeechSegment {
        start_ms: if start < 0 {
            0
        } else {
            start as i64
        },
        end_ms: (s.1 * config.frame_size_ms + config.speech_pad_ms) as i64,
    }
}

/// The stretches that are long enough, in milliseconds and padded.
pub open spec fn long_stretches(list: Seq<(int, int)>, config: VadConfig) -> Seq<SpeechSegment>
    decreases list.len(),
{
    if list.len() == 0 {
        Seq::empty()
    } else {
        let before = long_stretches(list.drop_last(), config);
        let s = list.last();
        if (s.1 - s.0) * config.frame_size_ms >= config.min_speech_duration_ms {
            before.push(padded_stretch(s, config))
        } else {
            before
        }
    }
}

/// How many silent frames end speech.
pub open spec fn quiet_frames(config: VadConfig) -> int {
    let n = (config.min_silence_duration_ms / config.frame_size_ms) as int;
    if n > 1 {
        n
    } else {
        1
    }
}

/// The frames that are speech.
pub open spec fn speech_frames(energies: Seq<F32>, config: VadConfig) -> Seq<bool> {
    Seq::new(energies.len(), |i: int| config.energy_threshold.less(energies[i]))
}

/// A frame is speech exactly where its energy lies above the threshold.
pub proof fn law_speech_is_loud(energies: Seq<F32>, config: VadConfig, i: int)
    requires
        0 <= i < energies.len(),
    ensures
        speech_frames(energies, config).len() == energies.len(),
        speech_frames(energies, config)[i] <==> config.energy_threshold.less(energies[i]),
{
}

fn push_stretch(out: &mut Vec<SpeechSegment>, from: usize, to: usize, config: &VadConfig)
    requires
        from <= to,
        to * config.frame_size_ms + config.speech_pad_ms <= i64::MAX,
    ensures
        final(out)@ == if (to - from) * config.frame_size_ms >= config.min_speech_duration_ms {
            old(out)@.push(padded_stretch((from as int, to as int), *config))
        } else {
            old(out)@
        },
{
    let frame: i128 = config.frame_size_ms as i128;
    assert(0 <= from * config.frame_size_ms <= to * config.frame_size_ms) by (nonlinear_arith)
        requires
            from <= to,
    ;
    assert((to - from) * config.frame_size_ms == to * config.frame_size_ms - from
        * config.frame_size_ms) by (nonlinear_arith);
    let start: i64 = (from as i128 * frame) as i64;
    let end: i64 = (to as i128 * frame) as i64;
    if end - start >= config.min_speech_duration_ms as i64 {
        let pad: i64 = config.speech_pad_ms as i64;
        out.push(
            SpeechSegment {
                start_ms: if start < pad {
                    0
                } else {
                    start - pad
                },
                end_ms: end + pad,
            },
        );
    }
}

/// Finds the speech in audio, given the RMS of its frames. Frames without a length hold none.
pub fn detect_speech_segments(energies: &Vec<F32>, config: &VadConfig) -> (r: Vec<SpeechSegment>)
    requires
        config.frame_size_ms > 0 ==> energies@.len() * config.frame_size_ms + config.speech_pad_ms <= i64::MAX,
    ensures
        r@ == if config.frame_size_ms == 0 {
            Seq::empty()
        } else {
            long_stretches(
                stretches(speech_frames(energies@, *config), 0, quiet_frames(*config)),
                *config,
            )
        },
{
    if config.frame_size_ms == 0 {
        return Vec::new();
    }
    let ghost speech = speech_frames(energies@, *config);
    let ghost quiet = quiet_frames(*config);
    let n: usize = energies.len();
    let wanted: u32 = if config.min_silence_duration_ms / config.frame_size_ms > 1 {
        config.min_silence_duration_ms / config.frame_size_ms
    } else {
        1
    };
    let mut out: Vec<SpeechSegment> = Vec::new();
    let mut i: usize = 0;
    let ghost mut done: Seq<(int, int)> = Seq::empty();
    proof {
        assert(done + stretches(speech, 0, quiet) =~= stretches(speech, 0, quiet));
    }
    while i < n
        invariant
            i <= n == energies@.len() == speech.len(),
            speech == speech_frames(energies@, *config),
            quiet == wanted == quiet_frames(*config),
            quiet > 0,
            config.frame_size_ms > 0,
            n * config.frame_size_ms + config.speech_pad_ms <= i64::MAX,
            done + stretches(speech, i as int, quiet) == stretches(speech, 0, quiet),
            out@ == long_stretches(done, *config),
        decreases n - i,
    {
        let ghost from = i as int;
        while i < n && !config.energy_threshold.lt(energies[i])
            invariant
                from <= i <= n == energies@.len() == speech.len(),
                0 <= from,
                speech == speech_frames(energies@, *config),
                next_speech(speech, from) == next_speech(speech, i as int),
            decreases n - i,
        {
            i += 1;
        }
        if i < n {
            let start = i;
            let mut count: u32 = 0;
            while i < n && count < wanted
                invariant
                    start <= i <= n == energies@.len() == speech.len(),
                    speech == speech_frames(energies@, *config),
                    speech[start as int],
                    quiet == wanted,
                    count <= wanted,
                    count <= i - start,
                    i > start ==> i - start > count,
                    count < wanted ==> quiet_at(speech, start as int, 0, quiet) == quiet_at(
                        speech,
                        i as int,
                        count as int,
                        quiet,
                    ),
                    count == wanted ==> i > start && quiet_at(speech, start as int, 0, quiet)
                        == Some(i - 1),
                decreases n - i,
            {
                if config.energy_threshold.lt(energies[i]) {
                    count = 0;
                } else {
                    count += 1;
                }
                i += 1;
            }
            let end: usize = if count == wanted {
                i - wanted as usize
            } else {
                n
            };
            proof {
                let s = (start as int, end as int);
                assert(end * config.frame_size_ms <= n * config.frame_size_ms)
                    by (nonlinear_arith)
                    requires
                        end <= n,
                ;
                if count == wanted {
                    assert(done + (seq![s] + stretches(speech, i as int, quiet)) =~= done.push(s)
                        + stretches(speech, i as int, quiet));
                } else {
                    assert(stretches(speech, n as int, quiet) =~= Seq::empty());
                    assert(done + seq![s] =~= done.push(s) + stretches(speech, n as int, quiet));
                }
                assert(done.push(s).drop_last() =~= done);
                done = done.push(s);
            }
            push_stretch(&mut out, start, end, config);
        } else {
            assert(stretches(speech, from, quiet) =~= Seq::empty());
            assert(stretches(speech, n as int, quiet) =~= Seq::empty());
        }
    }
    assert(stretches(speech, n as int, quiet) =~= Seq::empty());
    assert(done =~= stretches(speech, 0, quiet));
    out
}

/// The result is a decoding error with this message.
pub open spec fn decode_error(r: Result<(), AppError>, message: Seq<char>) -> bool {
    r matches Err(AppError::AudioDecodeError(m)) && m@ == message
}

/// A decoding error is an error of that kind with exactly that message.
pub proof fn law_decode_error(r: Result<(), AppError>, message: Seq<char>)
    requires
        decode_error(r, message),
    ensures
        r is Err,
        r->Err_0 is AudioDecodeError,
        r->Err_0->AudioDecodeError_0@ == message,
{
}

/// Checks that a WAV file is what speech recognition needs: 16 kHz, mono, 16 bits. The first of these
/// that does not hold is reported.
pub fn check_wav_format(format: &WavFormat) -> (r: Result<(), AppError>)
    ensures
        if format.sample_rate != 16000 {
            decode_error(
                r,
                "Expected 16kHz sample rate, got "@ + text::decimal(format.sample_rate as nat)
                    + "Hz"@,
            )
        } else if format.channels != 1 {
            decode_error(
                r,
                "Expected mono audio (1 channel), got "@ + text::decimal(format.channels as nat)
                    + " channels"@,
            )
        } else if format.bits_per_sample != 16 {
            decode_error(
                r,
                "Expected 16-bit PCM, got "@ + text::decimal(format.bits_per_sample as nat)
                    + "-bit"@,
            )
        } else {
            r is Ok
        },
{
    if format.sample_rate != 16000 {
        return Err(
            AppError::AudioDecodeError(
                cat3(
                    "Expected 16kHz sample rate, got ",
                    decimal_text(format.sample_rate as u64).as_str(),
                    "Hz",
                ),
            ),
        );
    }
    if format.channels != 1 {
        return Err(
            AppError::AudioDecodeError(
                cat3(
                    "Expected mono audio (1 channel), got ",
                    decimal_text(format.channels as u64).as_str(),
                    " channels",
                ),
            ),
        );
    }
    if format.bits_per_sample != 16 {
        return Err(
            AppError::AudioDecodeError(
                cat3(
                    "Expected 16-bit PCM, got ",
                    decimal_text(format.bits_per_sample as u64).as_str(),
                    "-bit",
                ),
            ),
        );
    }
    Ok(())
}

/// The part of `len` samples between `start` and `end`, nothing where that is empty.
pub open spec fn span(start: usize, end: usize, len: usize) -> Option<(usize, usize)> {
    let from = if start < len {
        start
    } else {
        len
    };
    let to = if end < len {
        end
    } else {
        len
    };
    if from < to {
        Some((from, to))
    } else {
        None
    }
}

/// The part of `len` samples between `start` and `end`, nothing where that is empty.
pub fn sample_span(start: usize, end: usize, len: usize) -> (r: Option<(usize, usize)>)
    ensures
        r == span(start, end, len),
        r is Some <==> start < end && start < len,
        r matches Some((from, to)) ==> from == start && to <= end && to <= len && (to == end || to
            == len),
{
    let from: usize = if start < len {
        start
    } else {
        len
    };
    let to: usize = if end < len {
        end
    } else {
        len
    };
    if from < to {
        Some((from, to))
    } else {
        None
    }
}

/// The file of a model. A name that starts with `ggml-` is that of the file; a model that there is no
/// file of has that of the next smaller one, and an unknown name that of the default model.
pub open spec fn model_file(name: Seq<char>) -> Seq<char> {
    if name == "whisper-tiny"@ || name == "whisper-tiny.en"@ || name == "whisper-base"@ || name
        == "whisper-base.en"@ {
        "ggml-tiny.bin"@
    } else if name == "whisper-small"@ || name == "whisper-small.en"@ || name == "whisper-medium"@
        || name == "whisper-medium.en"@ {
        "ggml-small.bin"@
    } else if name == "whisper-large-v3"@ || name == "whisper-large-v3-turbo"@ {
        "ggml-large-v3-turbo.bin"@
    } else if name == "whisper-large-v3-turbo-q5"@ || name == "whisper-large-v3-turbo-q5_0"@ {
        "ggml-large-v3-turbo-q5_0.bin"@
    } else if name.len() >= 5 && name.take(5) == seq!['g', 'g', 'm', 'l', '-'] {
        name
    } else {
        "ggml-large-v3-turbo-q5_0.bin"@
    }
}

/// The file of a model.
pub fn resolve_model_filename(model_name: &str) -> (r: String)
    ensures
        r@ == model_file(model_name@),
        model_name@ == "whisper-tiny"@ ==> r@ == "ggml-tiny.bin"@,
        model_name@ == "whisper-tiny.en"@ ==> r@ == "ggml-tiny.bin"@,
        model_name@ == "whisper-base"@ ==> r@ == "ggml-tiny.bin"@,
        model_name@ == "whisper-base.en"@ ==> r@ == "ggml-tiny.bin"@,
        model_name@ == "whisper-small"@ ==> r@ == "ggml-small.bin"@,
        model_name@ == "whisper-small.en"@ ==> r@ == "ggml-small.bin"@,
        model_name@ == "whisper-medium"@ ==> r@ == "ggml-small.bin"@,
        model_name@ == "whisper-medium.en"@ ==> r@ == "ggml-small.bin"@,
        model_name@ == "whisper-large-v3"@ ==> r@ == "ggml-large-v3-turbo.bin"@,
        model_name@ == "whisper-large-v3-turbo"@ ==> r@ == "ggml-large-v3-turbo.bin"@,
        model_name@ == "whisper-large-v3-turbo-q5"@ ==> r@ == "ggml-large-v3-turbo-q5_0.bin"@,
        model_name@ == "whisper-large-v3-turbo-q5_0"@ ==> r@ == "ggml-large-v3-turbo-q5_0.bin"@,
        model_name@.len() >= 5 && model_name@[0] == 'g' && model_name@[1] == 'g' && model_name@[2]
            == 'm' && model_name@[3] == 'l' && model_name@[4] == '-' ==> r@ == model_name@,
        r@ == "ggml-tiny.bin"@ || r@ == "ggml-small.bin"@ || r@ == "ggml-large-v3-turbo.bin"@ || r@
            == "ggml-large-v3-turbo-q5_0.bin"@ || r@ == model_name@,
        !(model_name@.len() >= 5 && model_name@[0] == 'g' && model_name@[1] == 'g' && model_name@[2]
            == 'm' && model_name@[3] == 'l' && model_name@[4] == '-')
            && model_name@ != "whisper-tiny"@
            && model_name@ != "whisper-tiny.en"@
            && model_name@ != "whisper-base"@
            && model_name@ != "whisper-base.en"@
            && model_name@ != "whisper-small"@
            && model_name@ != "whisper-small.en"@
            && model_name@ != "whisper-medium"@
            && model_name@ != "whisper-medium.en"@
            && model_name@ != "whisper-large-v3"@
            && model_name@ != "whisper-large-v3-turbo"@
            ==> r@ == "ggml-large-v3-turbo-q5_0.bin"@,
{
    proof {
        reveal_strlit("whisper-tiny");
        reveal_strlit("whisper-tiny.en");
        reveal_strlit("whisper-base");
        reveal_strlit("whisper-base.en");
        reveal_strlit("whisper-small");
        reveal_strlit("whisper-small.en");
        reveal_strlit("whisper-medium");
        reveal_strlit("whisper-medium.en");
        reveal_strlit("whisper-large-v3");
        reveal_strlit("whisper-large-v3-turbo");
        reveal_strlit("whisper-large-v3-turbo-q5");
        reveal_strlit("whisper-large-v3-turbo-q5_0");
        assert("whisper-large-v3"@[8] == 'l' && "whisper-small.en"@[8] == 's');
        if model_name@.len() >= 5 && model_name@[0] == 'g' {
            assert(model_name@ != "whisper-tiny"@);
        }
    }
    if same_text(model_name, "whisper-tiny") || same_text(model_name, "whisper-tiny.en")
        || same_text(model_name, "whisper-base") || same_text(model_name, "whisper-base.en") {
        return "ggml-tiny.bin".to_owned();
    }
    if same_text(model_name, "whisper-small") || same_text(model_name, "whisper-small.en")
        || same_text(model_name, "whisper-medium") || same_text(model_name, "whisper-medium.en") {
        return "ggml-small.bin".to_owned();
    }
    if same_text(model_name, "whisper-large-v3") || same_text(
        model_name,
        "whisper-large-v3-turbo",
    ) {
        return "ggml-large-v3-turbo.bin".to_owned();
    }
    if same_text(model_name, "whisper-large-v3-turbo-q5") || same_text(
        model_name,
        "whisper-large-v3-turbo-q5_0",
    ) {
        return "ggml-large-v3-turbo-q5_0.bin".to_owned();
    }
    let chars = chars_of(model_name);
    let is_file = chars.len() >= 5 && chars[0] == 'g' && chars[1] == 'g' && chars[2] == 'm'
        && chars[3] == 'l' && chars[4] == '-';
    proof {
        let prefix = seq!['g', 'g', 'm', 'l', '-'];
        if chars@.len() >= 5 {
            let head = chars@.take(5);
            assert(head[0] == chars@[0] && head[1] == chars@[1] && head[2] == chars@[2] && head[3]
                == chars@[3] && head[4] == chars@[4]);
            if is_file {
                assert(head =~= prefix);
            }
        }
    }
    if is_file {
        return model_name.to_owned();
    }
    "ggml-large-v3-turbo-q5_0.bin".to_owned()
}

/// Where the models lie.
#[derive(Debug, Clone)]
pub struct ModelManager {
    /// The directory of the models.
    pub dir: String,
}

impl ModelManager {
    /// The models in the cache of the user whose home directory is `home`.
    pub fn new(home: Option<&str>) -> (r: Result<Self, AppError>)
        ensures
            match home {
                Some(h) => r matches Ok(m) && m.dir@ == text::path_joined(
                    text::path_joined(text::path_joined(h@, ".cache"@), "video-translator"@),
                    "models"@,
                ),
                None => r matches Err(AppError::Config(m)) && m@
                    == "HOME environment variable not set"@,
            },
    {
        match home {
            Some(h) => {
                let cache = path_join(h, ".cache");
                let own = path_join(cache.as_str(), "video-translator");
                Ok(ModelManager { dir: path_join(own.as_str(), "models") })
            },
            None => Err(AppError::Config("HOME environment variable not set".to_owned())),
        }
    }

    /// The models in `cache_dir`.
    pub fn with_cache_dir(cache_dir: &str) -> (r: Self)
        ensures
            r.dir@ == cache_dir@,
    {
        ModelManager { dir: cache_dir.to_owned() }
    }

    /// The models in a temporary directory, for where the cache of the user cannot be had.
    pub fn fallback() -> (r: Self)
        ensures
            r.dir@ == "/tmp/video-translator/models"@,
    {
        ModelManager { dir: "/tmp/video-translator/models".to_owned() }
    }

    /// The directory of the models.
    pub fn cache_dir(&self) -> (r: &str)
        ensures
            r@ == self.dir@,
    {
        self.dir.as_str()
    }

    /// The path of a model.
    pub fn model_path(&self, model_name: &str) -> (r: String)
        ensures
            r@ == text::path_joined(self.dir@, model_file(model_name@)),
    {
        path_join(self.dir.as_str(), resolve_model_filename(model_name).as_str())
    }

    /// Where a model can be fetched from.
    pub fn download_url(model_name: &str) -> (r: String)
        ensures
            r@
                == "https://modelscope.cn/api/v1/models/Whisper/whisper-large-v3-turbo-gguf/repo?Revision=master&FilePath="@
                + model_file(model_name@),
    {
        append2(
            "https://modelscope.cn/api/v1/models/Whisper/whisper-large-v3-turbo-gguf/repo?Revision=master&FilePath=",
            resolve_model_filename(model_name).as_str(),
        )
    }
}

/// The settings of the recogniser.
#[derive(Debug, Clone)]
pub struct WhisperConfig {
    /// The path of the model, empty for the default one.
    pub model_path: String,
    /// The language that is spoken.
    pub language: String,
    /// Whether Metal is used.
    pub use_metal: bool,
    /// Whether silence is skipped.
    pub use_vad: bool,
    /// How speech is told from silence.
    pub vad_config: VadConfig,
    /// The number of threads.
    pub n_threads: i32,
    /// A text to start from.
    pub initial_prompt: Option<String>,
}

impl Default for WhisperConfig {
    fn default() -> (r: Self)
        ensures
            r.model_path@ == ""@,
            r.language@ == "en"@,
            r.use_metal,
            r.use_vad,
            r.vad_config.frame_size_ms == 30,
            r.vad_config.energy_threshold.bits == 0x3cf5_c28f,
            r.vad_config.min_speech_duration_ms == 500,
            r.vad_config.min_silence_duration_ms == 700,
            r.vad_config.speech_pad_ms == 200,
            r.n_threads == 4,
            r.initial_prompt is None,
    {
        WhisperConfig {
            model_path: "".to_owned(),
            language: "en".to_owned(),
            use_metal: true,
            use_vad: true,
            vad_config: VadConfig::default(),
            n_threads: 4,
            initial_prompt: None,
        }
    }
}

impl WhisperConfig {
    /// The settings with another model.
    pub fn with_model_path(self, path: &str) -> (r: Self)
        ensures
            r.model_path@ == path@,
            r == (WhisperConfig { model_path: r.model_path, ..self }),
    {
        WhisperConfig { model_path: path.to_owned(), ..self }
    }

    /// The settings with another language.
    pub fn with_language(self, language: &str) -> (r: Self)
        ensures
            r.language@ == language@,
            r == (WhisperConfig { language: r.language, ..self }),
    {
        WhisperConfig { language: language.to_owned(), ..self }
    }

    /// The settings with or without Metal.
    pub fn with_metal(self, use_metal: bool) -> (r: Self)
        ensures
            r == (WhisperConfig { use_metal, ..self }),
    {
        WhisperConfig { use_metal, ..self }
    }

    /// The settings with or without skipping of silence.
    pub fn with_vad(self, use_vad: bool) -> (r: Self)
        ensures
            r == (WhisperConfig { use_vad, ..self }),
    {
        WhisperConfig { use_vad, ..self }
    }

    /// The settings with another number of threads.
    pub fn with_n_threads(self, n_threads: i32) -> (r: Self)
        ensures
            r == (WhisperConfig { n_threads, ..self }),
    {
        WhisperConfig { n_threads, ..self }
    }

    /// The settings with a text to start from.
    pub fn with_initial_prompt(self, prompt: &str) -> (r: Self)
        ensures
            r.initial_prompt matches Some(p) && p@ == prompt@,
            r == (WhisperConfig { initial_prompt: r.initial_prompt, ..self }),
    {
        WhisperConfig { initial_prompt: Some(prompt.to_owned()), ..self }
    }

    /// The name of the model to fetch where the settings name no path.
    pub fn default_model(&self) -> (r: Option<&'static str>)
        ensures
            match r {
                Some(name) => self.model_path@.len() == 0 && name@ == "whisper-large-v3-turbo-q5"@,
                None => self.model_path@.len() > 0,
            },
    {
        if self.model_path.as_str().is_empty() {
            Some("whisper-large-v3-turbo-q5")
        } else {
            None
        }
    }
}

/// A recognised piece of text.
#[derive(Debug, Clone)]
pub struct LabelledText {
    /// Which of the recognised pieces it is.
    pub index: usize,
    /// Its identifier.
    pub id: String,
    /// The text.
    pub text: String,
}

/// A recognised piece of text as a value: index, identifier and text.
pub open spec fn label_view(l: LabelledText) -> (nat, Seq<char>, Seq<char>) {
    (l.index as nat, l.id@, l.text@)
}

/// The identifier of the `n`-th segment.
pub open spec fn segment_id(n: nat) -> Seq<char> {
    "seg-"@ + text::padded(n, 4)
}

/// How many of `pieces` have text.
pub open spec fn spoken_count(pieces: Seq<Seq<char>>) -> nat
    decreases pieces.len(),
{
    if pieces.len() == 0 {
        0
    } else if text::trimmed(pieces.last()).len() > 0 {
        spoken_count(pieces.drop_last()) + 1
    } else {
        spoken_count(pieces.drop_last())
    }
}

/// The pieces that have text, trimmed, with identifiers that go on after `counter`.
pub open spec fn labelled(pieces: Seq<Seq<char>>, counter: nat) -> Seq<(nat, Seq<char>, Seq<char>)>
    decreases pieces.len(),
{
    if pieces.len() == 0 {
        Seq::empty()
    } else {
        let rest = pieces.drop_last();
        if text::trimmed(pieces.last()).len() > 0 {
            labelled(rest, counter).push(
                (
                    rest.len(),
                    segment_id(counter + spoken_count(rest) + 1),
                    text::trimmed(pieces.last()),
                ),
            )
        } else {
            labelled(rest, counter)
        }
    }
}

/// Which pieces are kept: those with text, each once and in their order, trimmed, and numbered one
/// after the other from the number after `counter`.
pub proof fn law_spoken_pieces_are_numbered(pieces: Seq<Seq<char>>, counter: nat, k: int, i: int)
    ensures
        labelled(pieces, counter).len() == pieces.filter(
            |p: Seq<char>| text::trimmed(p).len() > 0,
        ).len(),
        spoken_count(pieces) == labelled(pieces, counter).len(),
        0 <= k < labelled(pieces, counter).len() ==> {
            let l = labelled(pieces, counter)[k];
            &&& l.0 < pieces.len()
            &&& l.1 == "seg-"@ + text::padded(counter + k as nat + 1, 4)
            &&& l.2 == text::trimmed(pieces[l.0 as int])
            &&& l.2.len() > 0
            &&& k > 0 ==> labelled(pieces, counter)[k - 1].0 < l.0
        },
        0 <= i < pieces.len() && text::trimmed(pieces[i]).len() > 0 ==> exists|j: int|
            0 <= j < labelled(pieces, counter).len() && (#[trigger] labelled(pieces, counter)[j]).0
                == i,
    decreases pieces.len(),
{
    reveal(Seq::filter);
    if pieces.len() > 0 {
        let rest = pieces.drop_last();
        let list = labelled(pieces, counter);
        let part = labelled(rest, counter);
        law_spoken_pieces_are_numbered(rest, counter, k, i);
        if text::trimmed(pieces.last()).len() > 0 {
            law_spoken_pieces_are_numbered(rest, counter, part.len() - 1, i);
            assert(list[part.len() as int].0 == rest.len());
        }
        if 0 <= i < rest.len() && text::trimmed(pieces[i]).len() > 0 {
            let j = choose|j: int| 0 <= j < part.len() && (#[trigger] part[j]).0 == i;
            assert(list[j] == part[j]);
        }
    }
}

/// Trims the recognised pieces, leaves out those without text, and numbers the others on from
/// `counter`.
pub fn label_segments(pieces: &Vec<String>, counter: &mut usize) -> (r: Vec<LabelledText>)
    requires
        *old(counter) + pieces@.len() <= usize::MAX,
    ensures
        r@.map_values(|l: LabelledText| label_view(l)) == labelled(
            text::texts(pieces@),
            *old(counter) as nat,
        ),
        *final(counter) == *old(counter) + spoken_count(text::texts(pieces@)),
{
    let ghost all = text::texts(pieces@);
    let ghost view = |l: LabelledText| label_view(l);
    let mut out: Vec<LabelledText> = Vec::new();
    assert(out@.map_values(view) =~= Seq::empty());
    let mut i: usize = 0;
    while i < pieces.len()
        invariant
            i <= pieces@.len(),
            all == text::texts(pieces@),
            view == (|l: LabelledText| label_view(l)),
            *old(counter) + pieces@.len() <= usize::MAX,
            spoken_count(all.take(i as int)) <= i,
            *counter == *old(counter) + spoken_count(all.take(i as int)),
            out@.map_values(view) == labelled(all.take(i as int), *old(counter) as nat),
        decreases pieces@.len() - i,
    {
        assert(all.take(i + 1).drop_last() == all.take(i as int));
        assert(all.take(i + 1).last() == pieces@[i as int]@);
        let ghost before = out@.map_values(view);
        let trimmed = trim(&chars_of(pieces[i].as_str()));
        if trimmed.len() > 0 {
            *counter = *counter + 1;
            let label = LabelledText {
                index: i,
                id: append2("seg-", padded_text(*counter as u64, 4).as_str()),
                text: string_of(&trimmed, 0, trimmed.len()),
            };
            assert(label.text@ =~= trimmed@);
            out.push(label);
            assert(out@.map_values(view) =~= before.push(label_view(label)));
        }
        i += 1;
    }
    assert(all.take(all.len() as int) == all);
    out
}

/// The order of segments by their start times, those that start together in their own order.
pub fn order_by_start(starts: &Vec<F64>) -> (r: Vec<usize>)
    ensures
        order::is_order(
            Seq::new(starts@.len(), |i: int| order::total_rank(starts@[i]) as u64),
            r@,
        ),
        r@.len() == starts@.len(),
        r@.no_duplicates(),
        forall|i: int| 0 <= i < r@.len() ==> (#[trigger] r@[i]) < starts@.len(),
        forall|i: int, j: int|
            0 <= i < j < r@.len() ==> !starts@[(#[trigger] r@[j]) as int].less(
                starts@[(#[trigger] r@[i]) as int],
            ),
        forall|i: int, j: int|
            0 <= i < j < r@.len() && starts@[(#[trigger] r@[i]) as int].bits
                == starts@[(#[trigger] r@[j]) as int].bits ==> r@[i] < r@[j],
{
    let mut keys: Vec<u64> = Vec::new();
    let mut i: usize = 0;
    while i < starts.len()
        invariant
            i <= starts@.len(),
            keys@.len() == i,
            forall|j: int| 0 <= j < i ==> keys@[j] == order::total_rank(starts@[j]) as u64,
        decreases starts@.len() - i,
    {
        keys.push(total_key(starts[i]));
        i += 1;
    }
    assert(keys@ =~= Seq::new(starts@.len(), |i: int| order::total_rank(starts@[i]) as u64));
    let r = sorted_order(&keys);
    proof {
        order::law_order_has_no_duplicates(keys@, r@);
        assert forall|i: int, j: int| 0 <= i < j < r@.len() implies !starts@[(
        #[trigger] r@[j]) as int].less(starts@[(#[trigger] r@[i]) as int]) by {
            assert(order::before(keys@, r@[i], r@[j]));
            if starts@[r@[j] as int].less(starts@[r@[i] as int]) {
                order::law_total_order(starts@[r@[j] as int], starts@[r@[i] as int]);
            }
        }
    }
    r
}

} // verus!
