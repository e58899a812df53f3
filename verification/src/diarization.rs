//! Diarization: who speaks when.
use vstd::prelude::*;

use crate::error::{AppError, AppResult};
use crate::ieee::F64;
use crate::segment::Segment;
use crate::text;
use crate::text::{append2, comes_before, padded_text, path_join, same_text};

verus! {

/// The bit pattern of 1.0.
pub const ONE: u64 = 0x3ff0_0000_0000_0000;

/// The bit pattern of 5.0, the seconds of a made-up segment.
pub const DEFAULT_SEGMENT_SECS: u64 = 0x4014_0000_0000_0000;

/// The bit pattern of 0.1, the fewest seconds of a made-up segment.
pub const MIN_SEGMENT_SECS: u64 = 0x3fb9_9999_9999_999a;

/// A stretch of time in which someone speaks.
#[derive(Debug, Clone)]
pub struct SpeakerSegment {
    /// Who speaks.
    pub speaker_id: String,
    /// The start in seconds.
    pub start: F64,
    /// The end in seconds.
    pub end: F64,
    /// How sure this is, from 0 to 1.
    pub confidence: Option<F64>,
}

/// `value` brought between 0 and 1; NaN stays.
pub open spec fn clamped(value: F64) -> F64 {
    if value.less(F64 { bits: 0 }) {
        F64 { bits: 0 }
    } else if (F64 { bits: ONE }).less(value) {
        F64 { bits: ONE }
    } else {
        value
    }
}

impl SpeakerSegment {
    /// A stretch of time without a confidence.
    pub fn new(speaker_id: String, start: F64, end: F64) -> (r: Self)
        ensures
            r == (SpeakerSegment { speaker_id, start, end, confidence: None }),
    {
        SpeakerSegment { speaker_id, start, end, confidence: None }
    }

    /// The same with a confidence.
    pub fn with_confidence(self, confidence: F64) -> (r: Self)
        ensures
            r == (SpeakerSegment { confidence: Some(clamped(confidence)), ..self }),
            confidence.less(F64 { bits: 0 }) ==> r.confidence == Some(F64 { bits: 0 }),
            (F64 { bits: 0x3ff0_0000_0000_0000 }).less(confidence) ==> r.confidence == Some(
                F64 { bits: 0x3ff0_0000_0000_0000 },
            ),
            !confidence.less(F64 { bits: 0 }) && !(F64 { bits: 0x3ff0_0000_0000_0000 }).less(
                confidence,
            ) ==> r.confidence == Some(confidence),
    {
        let zero = F64::from_bits(0);
        let one = F64::from_bits(ONE);
        let kept = if confidence.lt(zero) {
            zero
        } else if one.lt(confidence) {
            one
        } else {
            confidence
        };
        SpeakerSegment {
            speaker_id: self.speaker_id,
            start: self.start,
            end: self.end,
            confidence: Some(kept),
        }
    }

    /// Each of the two starts before the other ends.
    pub open spec fn meets(self, other: SpeakerSegment) -> bool {
        self.start.less(other.end) && other.start.less(self.end)
    }

    /// Whether the two overlap.
    pub fn overlaps(&self, other: &Self) -> (r: bool)
        ensures
            r == self.meets(*other),
            r <==> self.start.less(other.end) && other.start.less(self.end),
    {
        self.start.lt(other.end) && other.start.lt(self.end)
    }
}

/// Who speaks in each segment.
pub open spec fn ids(segments: Seq<SpeakerSegment>) -> Seq<Seq<char>> {
    segments.map_values(|s: SpeakerSegment| s.speaker_id@)
}

/// One of the segments is that of the speaker `id`.
pub open spec fn speaks(segments: Seq<SpeakerSegment>, id: Seq<char>) -> bool {
    exists|k: int| 0 <= k < segments.len() && (#[trigger] segments[k]).speaker_id@ == id
}

/// Each text precedes the next.
pub open spec fn increasing(list: Seq<Seq<char>>) -> bool {
    forall|i: int, j: int| 0 <= i < j < list.len() ==> text::precedes(#[trigger] list[i], #[trigger] list[j])
}

/// A list in which each text precedes the next holds nothing twice.
pub proof fn law_increasing_is_distinct(list: Seq<Seq<char>>)
    requires
        increasing(list),
    ensures
        list.no_duplicates(),
        list.to_set().len() == list.len(),
{
    assert forall|i: int, j: int| 0 <= i < list.len() && 0 <= j < list.len() && i != j implies list[i]
        != list[j] by {
        text::law_precedes(list[i], list[i], list[i]);
        text::law_precedes(list[j], list[j], list[j]);
        if i < j {
            assert(text::precedes(list[i], list[j]));
        } else {
            assert(text::precedes(list[j], list[i]));
        }
    }
    list.unique_seq_to_set();
}

/// Who speaks at all, in order.
fn distinct_ids(segments: &Vec<SpeakerSegment>) -> (r: Vec<String>)
    ensures
        increasing(text::texts(r@)),
        text::texts(r@).to_set() == ids(segments@).to_set(),
{
    let mut out: Vec<String> = Vec::new();
    let mut i: usize = 0;
    let ghost all = ids(segments@);
    assert(text::texts(out@).to_set() =~= all.take(0).to_set());
    while i < segments.len()
        invariant
            i <= segments@.len(),
            all == ids(segments@),
            increasing(text::texts(out@)),
            text::texts(out@).to_set() == all.take(i as int).to_set(),
        decreases segments@.len() - i,
    {
        let ghost before = text::texts(out@);
        let ghost id = segments@[i as int].speaker_id@;
        let mut at: usize = 0;
        while at < out.len() && comes_before(out[at].as_str(), segments[i].speaker_id.as_str())
            invariant
                i < segments@.len(),
                id == segments@[i as int].speaker_id@,
                at <= out@.len(),
                before == text::texts(out@),
                forall|k: int| 0 <= k < at ==> text::precedes(#[trigger] before[k], id),
            ensures
                at <= out@.len(),
                before == text::texts(out@),
                forall|k: int| 0 <= k < at ==> text::precedes(#[trigger] before[k], id),
                at < out@.len() ==> !text::precedes(before[at as int], id),
            decreases out@.len() - at,
        {
            at += 1;
        }
        let known = at < out.len() && same_text(
            out[at].as_str(),
            segments[i].speaker_id.as_str(),
        );
        if !known {
            out.insert(at, segments[i].speaker_id.as_str().to_owned());
        }
        proof {
            let after = text::texts(out@);
            if known {
                assert(after == before);
                assert(before[at as int] == id);
            } else {
                assert(after =~= before.insert(at as int, id));
                lemma_inserted(before, at as int, id);
            }
            assert(after.to_set() =~= before.to_set().insert(id)) by {
                assert forall|t: Seq<char>| after.contains(t) == (before.contains(t) || t == id) by {
                    if known {
                        assert(before[at as int] == id);
                    } else {
                        lemma_insert_contains(before, at as int, id, t);
                    }
                }
            }
            let seen = all.take(i as int);
            let more = all.take(i + 1);
            assert(more =~= seen.push(id));
            assert(more.to_set() =~= seen.to_set().insert(id)) by {
                assert forall|t: Seq<char>| more.contains(t) == (seen.contains(t) || t == id) by {
                    if seen.contains(t) {
                        let k = choose|k: int| 0 <= k < seen.len() && seen[k] == t;
                        assert(more[k] == t);
                    }
                    assert(more[seen.len() as int] == id);
                }
            }
        }
        i += 1;
    }
    assert(all.take(all.len() as int) =~= all);
    out
}

proof fn lemma_insert_contains(list: Seq<Seq<char>>, at: int, id: Seq<char>, t: Seq<char>)
    requires
        0 <= at <= list.len(),
    ensures
        list.insert(at, id).contains(t) == (list.contains(t) || t == id),
{
    let after = list.insert(at, id);
    assert(after[at] == id);
    if list.contains(t) {
        let k = choose|k: int| 0 <= k < list.len() && list[k] == t;
        assert(after[if k < at { k } else { k + 1 }] == t);
    }
    if after.contains(t) && t != id {
        let k = choose|k: int| 0 <= k < after.len() && after[k] == t;
        assert(list[if k < at { k } else { k - 1 }] == t);
    }
}

proof fn lemma_inserted(list: Seq<Seq<char>>, at: int, id: Seq<char>)
    requires
        increasing(list),
        0 <= at <= list.len(),
        forall|k: int| 0 <= k < at ==> text::precedes(#[trigger] list[k], id),
        at < list.len() ==> !text::precedes(list[at], id) && list[at] != id,
    ensures
        increasing(list.insert(at, id)),
{
    let after = list.insert(at, id);
    assert forall|i: int, j: int| 0 <= i < j < after.len() implies text::precedes(
        #[trigger] after[i],
        #[trigger] after[j],
    ) by {
        if at < list.len() {
            text::law_precedes(id, list[at], list[at]);
        }
        if j < at {
            assert(text::precedes(list[i], list[j]));
        } else if j == at {
            assert(text::precedes(list[i], id));
        } else if i == at {
            if j - 1 > at {
                assert(text::precedes(list[at], list[j - 1]));
                text::law_precedes(id, list[at], list[j - 1]);
            }
        } else if i < at {
            assert(text::precedes(list[i], list[j - 1]));
        } else {
            assert(text::precedes(list[i - 1], list[j - 1]));
        }
    }
}

/// What diarization finds.
#[derive(Debug, Clone)]
pub struct DiarizationResult {
    /// Who speaks when.
    pub segments: Vec<SpeakerSegment>,
    /// How many speak.
    pub speaker_count: usize,
    /// The seconds that this took.
    pub processing_time_secs: F64,
}

/// Two segments of one speaker overlap.
pub open spec fn collide(a: SpeakerSegment, b: SpeakerSegment) -> bool {
    a.speaker_id@ == b.speaker_id@ && a.meets(b)
}

impl DiarizationResult {
    /// The result with these segments.
    pub fn new(segments: Vec<SpeakerSegment>, processing_time_secs: F64) -> (r: Self)
        ensures
            r.segments == segments,
            r.speaker_count == ids(segments@).to_set().len(),
            r.speaker_count == Seq::new(
                segments@.len(),
                |i: int| segments@[i].speaker_id@,
            ).to_set().len(),
            r.processing_time_secs == processing_time_secs,
    {
        let found = distinct_ids(&segments);
        proof {
            law_increasing_is_distinct(text::texts(found@));
        }
        assert(ids(segments@) =~= Seq::new(segments@.len(), |i: int| segments@[i].speaker_id@));
        DiarizationResult { speaker_count: found.len(), segments, processing_time_secs }
    }

    /// Someone speaks, and nobody speaks twice at once.
    pub open spec fn sound(self) -> bool {
        &&& self.segments@.len() > 0
        &&& self.speaker_count > 0
        &&& forall|i: int, j: int|
            0 <= i < j < self.segments@.len() ==> !collide(
                #[trigger] self.segments@[i],
                #[trigger] self.segments@[j],
            )
    }

    /// Whether someone speaks, and nobody speaks twice at once.
    pub fn is_valid(&self) -> (r: bool)
        ensures
            r == self.sound(),
            r <==> self.segments@.len() > 0 && self.speaker_count > 0 && forall|i: int, j: int|
                0 <= i < j < self.segments@.len() && (
                #[trigger] self.segments@[i]).start.less(self.segments@[j].end) && (
                #[trigger] self.segments@[j]).start.less(self.segments@[i].end)
                    ==> self.segments@[i].speaker_id@ != self.segments@[j].speaker_id@,
    {
        if self.segments.is_empty() || self.speaker_count == 0 {
            return false;
        }
        let mut j: usize = 0;
        while j < self.segments.len()
            invariant
                j <= self.segments@.len(),
                forall|a: int, b: int|
                    0 <= a < b < j ==> !collide(
                        #[trigger] self.segments@[a],
                        #[trigger] self.segments@[b],
                    ),
            decreases self.segments@.len() - j,
        {
            let mut i: usize = 0;
            while i < j
                invariant
                    i <= j < self.segments@.len(),
                    forall|a: int|
                        0 <= a < i ==> !collide(
                            #[trigger] self.segments@[a],
                            self.segments@[j as int],
                        ),
                decreases j - i,
            {
                let a = &self.segments[i];
                let b = &self.segments[j];
                if same_text(a.speaker_id.as_str(), b.speaker_id.as_str()) && a.overlaps(b) {
                    assert(collide(self.segments@[i as int], self.segments@[j as int]));
                    return false;
                }
                i += 1;
            }
            j += 1;
        }
        true
    }

    /// The segments of one speaker, in order.
    pub fn segments_for_speaker(&self, speaker_id: &str) -> (r: Vec<&SpeakerSegment>)
        ensures
            r@.map_values(|s: &SpeakerSegment| *s) == self.segments@.filter(
                |s: SpeakerSegment| s.speaker_id@ == speaker_id@,
            ),
    {
        let mut out: Vec<&SpeakerSegment> = Vec::new();
        let ghost wanted = |s: SpeakerSegment| s.speaker_id@ == speaker_id@;
        let ghost plain = |s: &SpeakerSegment| *s;
        let mut i: usize = 0;
        proof {
            reveal(Seq::filter);
            assert(out@.map_values(plain) =~= self.segments@.take(0).filter(wanted));
        }
        while i < self.segments.len()
            invariant
                i <= self.segments@.len(),
                wanted == (|s: SpeakerSegment| s.speaker_id@ == speaker_id@),
                plain == (|s: &SpeakerSegment| *s),
                out@.map_values(plain) == self.segments@.take(i as int).filter(wanted),
            decreases self.segments@.len() - i,
        {
            let ghost before = out@;
            if same_text(self.segments[i].speaker_id.as_str(), speaker_id) {
                out.push(&self.segments[i]);
                assert(out@.map_values(plain) =~= before.map_values(plain).push(
                    self.segments@[i as int],
                ));
            }
            proof {
                reveal(Seq::filter);
                let more = self.segments@.take(i + 1);
                assert(more.drop_last() =~= self.segments@.take(i as int));
                assert(more.last() == self.segments@[i as int]);
            }
            i += 1;
        }
        assert(self.segments@.take(self.segments@.len() as int) =~= self.segments@);
        out
    }

    /// Who speaks, in order.
    pub fn speaker_ids(&self) -> (r: Vec<String>)
        ensures
            increasing(text::texts(r@)),
            text::texts(r@).to_set() == ids(self.segments@).to_set(),
            forall|i: int, j: int|
                0 <= i < j < r@.len() ==> text::precedes(
                    (#[trigger] r@[i])@,
                    (#[trigger] r@[j])@,
                ),
            forall|id: Seq<char>|
                text::texts(r@).contains(id) <==> #[trigger] speaks(self.segments@, id),
    {
        let r = distinct_ids(&self.segments);
        proof {
            let all = ids(self.segments@);
            let found = text::texts(r@);
            assert forall|i: int, j: int| 0 <= i < j < r@.len() implies text::precedes(
                (#[trigger] r@[i])@,
                (#[trigger] r@[j])@,
            ) by {
                assert(text::precedes(found[i], found[j]));
            }
            assert forall|id: Seq<char>|
                found.contains(id) <==> #[trigger] speaks(self.segments@, id) by {
                assert(found.contains(id) == found.to_set().contains(id));
                assert(all.contains(id) == all.to_set().contains(id));
                if all.contains(id) {
                    let k = choose|k: int| 0 <= k < all.len() && all[k] == id;
                    assert(self.segments@[k].speaker_id@ == id);
                }
                if speaks(self.segments@, id) {
                    let k = choose|k: int|
                        0 <= k < self.segments@.len() && (#[trigger] self.segments@[k]).speaker_id@
                            == id;
                    assert(all[k] == id);
                }
            }
        }
        r
    }

    /// The place of the segment of `speaker_id` that lasts longest, the last of several. `durations`
    /// holds the seconds of each segment.
    pub fn longest_segment(&self, speaker_id: &str, durations: &Vec<F64>) -> (r: AppResult<usize>)
        requires
            durations@.len() == self.segments@.len(),
        ensures
            match r {
                Ok(i) => longest(
                    self.segments@,
                    durations@,
                    speaker_id@,
                    self.segments@.len() as int,
                ) == Some(i as int),
                Err(e) => {
                    &&& longest(
                        self.segments@,
                        durations@,
                        speaker_id@,
                        self.segments@.len() as int,
                    ) is None
                    &&& e is DiarizationError
                    &&& e->DiarizationError_0@ == "No segments found for speaker "@ + speaker_id@
                },
            },
            r is Err <==> forall|k: int|
                0 <= k < self.segments@.len() ==> (#[trigger] self.segments@[k]).speaker_id@
                    != speaker_id@,
            r matches Ok(i) ==> {
                &&& i < self.segments@.len()
                &&& self.segments@[i as int].speaker_id@ == speaker_id@
                &&& forall|k: int|
                    i < k < self.segments@.len() && (#[trigger] self.segments@[k]).speaker_id@
                        == speaker_id@ ==> durations@[k].less(durations@[i as int])
                &&& (forall|k: int|
                    0 <= k < durations@.len() ==> (#[trigger] durations@[k]).is_number())
                    ==> forall|k: int|
                    0 <= k < self.segments@.len() && (#[trigger] self.segments@[k]).speaker_id@
                        == speaker_id@ ==> durations@[k].at_most(durations@[i as int])
            },
    {
        let mut best: Option<usize> = None;
        let mut i: usize = 0;
        while i < self.segments.len()
            invariant
                i <= self.segments@.len() == durations@.len(),
                match best {
                    Some(b) => b < i && longest(
                        self.segments@,
                        durations@,
                        speaker_id@,
                        i as int,
                    ) == Some(b as int),
                    None => longest(self.segments@, durations@, speaker_id@, i as int) is None,
                },
            decreases self.segments@.len() - i,
        {
            if same_text(self.segments[i].speaker_id.as_str(), speaker_id) {
                best = match best {
                    Some(b) => if durations[i].lt(durations[b]) {
                        Some(b)
                    } else {
                        Some(i)
                    },
                    None => Some(i),
                };
            }
            i += 1;
        }
        proof {
            law_longest(self.segments@, durations@, speaker_id@, i as int);
            law_longest_is_last(self.segments@, durations@, speaker_id@, i as int);
        }
        match best {
            Some(b) => Ok(b),
            None => Err(
                AppError::DiarizationError(append2("No segments found for speaker ", speaker_id)),
            ),
        }
    }
}

/// Among the first `n` segments, the place of the one of `speaker` that lasts longest, the last of
/// several.
pub open spec fn longest(
    segments: Seq<SpeakerSegment>,
    durations: Seq<F64>,
    speaker: Seq<char>,
    n: int,
) -> Option<int>
    decreases n,
{
    if n <= 0 {
        None
    } else {
        let before = longest(segments, durations, speaker, n - 1);
        if segments[n - 1].speaker_id@ != speaker {
            before
        } else {
            match before {
                Some(b) => if durations[n - 1].less(durations[b]) {
                    Some(b)
                } else {
                    Some(n - 1)
                },
                None => Some(n - 1),
            }
        }
    }
}

/// The longest segment is one of the speaker's, and where all durations are numbers none of the
/// speaker's segments lasts longer. It exists exactly where the speaker speaks.
pub proof fn law_longest(
    segments: Seq<SpeakerSegment>,
    durations: Seq<F64>,
    speaker: Seq<char>,
    n: int,
)
    requires
        0 <= n <= segments.len() == durations.len(),
    ensures
        match longest(segments, durations, speaker, n) {
            Some(b) => {
                &&& 0 <= b < n
                &&& segments[b].speaker_id@ == speaker
                &&& (forall|i: int| 0 <= i < n ==> (#[trigger] durations[i]).is_number())
                    ==> forall|i: int|
                    0 <= i < n && (#[trigger] segments[i]).speaker_id@ == speaker
                        ==> durations[i].at_most(durations[b])
            },
            None => forall|i: int|
                0 <= i < n ==> (#[trigger] segments[i]).speaker_id@ != speaker,
        },
    decreases n,
{
    if n > 0 {
        law_longest(segments, durations, speaker, n - 1);
    }
}

/// The longest segment is the last of those that last longest.
pub proof fn law_longest_is_last(
    segments: Seq<SpeakerSegment>,
    durations: Seq<F64>,
    speaker: Seq<char>,
    n: int,
)
    requires
        0 <= n <= segments.len() == durations.len(),
    ensures
        longest(segments, durations, speaker, n) matches Some(b) ==> forall|i: int|
            b < i < n && (#[trigger] segments[i]).speaker_id@ == speaker ==> durations[i].less(
                durations[b],
            ),
    decreases n,
{
    if n > 0 {
        law_longest_is_last(segments, durations, speaker, n - 1);
    }
}

/// Makes segments up.
#[derive(Debug, Clone)]
pub struct MockDiarizationEngine {
    /// How many speak.
    pub speaker_count: usize,
    /// The seconds of a segment.
    pub segment_duration: F64,
}

impl MockDiarizationEngine {
    /// An engine with that many speakers, at least one.
    pub fn new(speaker_count: usize) -> (r: Self)
        ensures
            r.speaker_count == (if speaker_count == 0 {
                1
            } else {
                speaker_count
            }),
            r.segment_duration.bits == DEFAULT_SEGMENT_SECS,
            r.segment_duration.bits == 0x4014_0000_0000_0000,
    {
        MockDiarizationEngine {
            speaker_count: if speaker_count == 0 {
                1
            } else {
                speaker_count
            },
            segment_duration: F64::from_bits(DEFAULT_SEGMENT_SECS),
        }
    }

    /// The engine with segments of that many seconds, at least 0.1.
    pub fn with_segment_duration(self, duration: F64) -> (r: Self)
        ensures
            r.speaker_count == self.speaker_count,
            r.segment_duration == (if (F64 { bits: MIN_SEGMENT_SECS }).less(duration) {
                duration
            } else {
                F64 { bits: MIN_SEGMENT_SECS }
            }),
            (F64 { bits: 0x3fb9_9999_9999_999a }).less(duration) ==> r.segment_duration == duration,
            !(F64 { bits: 0x3fb9_9999_9999_999a }).less(duration) ==> r.segment_duration.bits
                == 0x3fb9_9999_9999_999a,
    {
        let least = F64::from_bits(MIN_SEGMENT_SECS);
        MockDiarizationEngine {
            speaker_count: self.speaker_count,
            segment_duration: if least.lt(duration) {
                duration
            } else {
                least
            },
        }
    }

    /// Who speaks in the segment at `place`: the speakers take turns.
    pub fn speaker_at(&self, place: usize) -> (r: String)
        requires
            self.speaker_count > 0,
        ensures
            r@ == "SPEAKER_"@ + text::padded((place % self.speaker_count) as nat, 2),
    {
        append2(
            "SPEAKER_",
            padded_text((place % self.speaker_count) as u64, 2).as_str(),
        )
    }

    /// The segments between the times of `edges`, one speaker after the other.
    pub fn alternate(&self, edges: &Vec<F64>) -> (r: Vec<SpeakerSegment>)
        requires
            self.speaker_count > 0,
        ensures
            r@.len() == (if edges@.len() == 0 {
                0
            } else {
                edges@.len() - 1
            }),
            forall|i: int|
                0 <= i < r@.len() ==> {
                    let s = #[trigger] r@[i];
                    &&& s.speaker_id@ == "SPEAKER_"@ + text::padded(
                        (i % self.speaker_count as int) as nat,
                        2,
                    )
                    &&& s.start == edges@[i]
                    &&& s.end == edges@[i + 1]
                    &&& s.confidence is None
                },
    {
        let mut out: Vec<SpeakerSegment> = Vec::new();
        let mut i: usize = 1;
        while i < edges.len()
            invariant
                self.speaker_count > 0,
                i == out@.len() + 1,
                i <= edges@.len() || out@.len() == 0,
                forall|k: int|
                    0 <= k < out@.len() ==> {
                        let s = #[trigger] out@[k];
                        &&& s.speaker_id@ == "SPEAKER_"@ + text::padded(
                            (k % self.speaker_count as int) as nat,
                            2,
                        )
                        &&& s.start == edges@[k]
                        &&& s.end == edges@[k + 1]
                        &&& s.confidence is None
                    },
            decreases edges@.len() - i,
        {
            out.push(SpeakerSegment::new(self.speaker_at(i - 1), edges[i - 1], edges[i]));
            i += 1;
        }
        out
    }

    /// The name of the engine.
    pub fn name(&self) -> (r: &'static str)
        ensures
            r@ == "mock"@,
    {
        "mock"
    }
}

/// Nobody speaks while someone else does where the speakers take turns: of segments that lie between
/// times in ascending order no two overlap.
pub proof fn law_turns_do_not_overlap(edges: Seq<F64>, segments: Seq<SpeakerSegment>)
    requires
        edges.len() == segments.len() + 1,
        forall|i: int, j: int|
            0 <= i <= j < edges.len() ==> (#[trigger] edges[i]).at_most(#[trigger] edges[j]),
        forall|i: int|
            0 <= i < segments.len() ==> (#[trigger] segments[i]).start == edges[i]
                && segments[i].end == edges[i + 1],
    ensures
        forall|i: int, j: int|
            0 <= i < j < segments.len() ==> !(#[trigger] segments[i]).meets(
                #[trigger] segments[j],
            ),
{
    assert forall|i: int, j: int| 0 <= i < j < segments.len() implies !(
    #[trigger] segments[i]).meets(#[trigger] segments[j]) by {
        assert(edges[i + 1].at_most(edges[j]));
    }
}

/// `choice` is the place of the first of the greatest positive numbers, or there is none.
pub open spec fn is_best(overlaps: Seq<F64>, choice: Option<int>) -> bool {
    match choice {
        Some(b) => {
            &&& 0 <= b < overlaps.len()
            &&& (F64 { bits: 0 }).less(overlaps[b])
            &&& forall|k: int|
                0 <= k < overlaps.len() ==> !overlaps[b].less(#[trigger] overlaps[k])
            &&& forall|k: int|
                0 <= k < b && (F64 { bits: 0 }).less(#[trigger] overlaps[k])
                    ==> overlaps[k].less(overlaps[b])
        },
        None => forall|k: int|
            0 <= k < overlaps.len() ==> !(F64 { bits: 0 }).less(#[trigger] overlaps[k]),
    }
}

/// No two places are both best.
pub proof fn law_best_is_unique(overlaps: Seq<F64>, a: Option<int>, b: Option<int>)
    requires
        is_best(overlaps, a),
        is_best(overlaps, b),
    ensures
        a == b,
{
    if a is Some && b is Some {
        let (x, y) = (a->0, b->0);
        assert(!overlaps[x].less(overlaps[y]) && !overlaps[y].less(overlaps[x]));
    } else if a is Some {
        assert((F64 { bits: 0 }).less(overlaps[a->0]));
    } else if b is Some {
        assert((F64 { bits: 0 }).less(overlaps[b->0]));
    }
}

/// The place of the first of the greatest positive numbers.
pub fn best_overlap(overlaps: &Vec<F64>) -> (r: Option<usize>)
    ensures
        is_best(
            overlaps@,
            match r {
                Some(b) => Some(b as int),
                None => None,
            },
        ),
        match r {
            Some(b) => {
                &&& b < overlaps@.len()
                &&& (F64 { bits: 0 }).less(overlaps@[b as int])
                &&& forall|k: int|
                    0 <= k < overlaps@.len() ==> !overlaps@[b as int].less(#[trigger] overlaps@[k])
                &&& forall|k: int|
                    0 <= k < b && (F64 { bits: 0 }).less(#[trigger] overlaps@[k])
                        ==> overlaps@[k].less(overlaps@[b as int])
            },
            None => forall|k: int|
                0 <= k < overlaps@.len() ==> !(F64 { bits: 0 }).less(#[trigger] overlaps@[k]),
        },
{
    let zero = F64::from_bits(0);
    let mut best: Option<usize> = None;
    let mut i: usize = 0;
    while i < overlaps.len()
        invariant
            zero.bits == 0,
            i <= overlaps@.len(),
            is_best(
                overlaps@.take(i as int),
                match best {
                    Some(b) => Some(b as int),
                    None => None,
                },
            ),
        decreases overlaps@.len() - i,
    {
        let ghost seen = overlaps@.take(i as int);
        let ghost more = overlaps@.take(i + 1);
        assert(more =~= seen.push(overlaps@[i as int]));
        let better = match best {
            Some(b) => overlaps[b].lt(overlaps[i]),
            None => zero.lt(overlaps[i]),
        };
        proof {
            assert forall|k: int| 0 <= k < i implies more[k] == seen[k] by {}
            if let Some(b) = best {
                assert(seen[b as int] == overlaps@[b as int]);
            }
        }
        if better {
            best = Some(i);
        }
        i += 1;
    }
    assert(overlaps@.take(overlaps@.len() as int) =~= overlaps@);
    best
}

/// The segment with the speaker of the stretch that it overlaps most, unchanged where it overlaps
/// none.
pub open spec fn assigned(
    before: Segment,
    after: Segment,
    stretches: Seq<SpeakerSegment>,
    overlaps: Seq<F64>,
) -> bool {
    &&& after == (Segment { speaker: after.speaker, ..before })
    &&& forall|b: int| #[trigger]
        is_best(overlaps, Some(b)) ==> after.speaker is Some && after.speaker->0@
            == stretches[b].speaker_id@
    &&& is_best(overlaps, None) ==> after.speaker == before.speaker
}

/// How many of the first `n` rows have a positive number.
pub open spec fn hits(rows: Seq<Vec<F64>>, n: int) -> int
    decreases n,
{
    if n <= 0 {
        0
    } else {
        hits(rows, n - 1) + if is_best(rows[n - 1]@, None) {
            0int
        } else {
            1int
        }
    }
}

/// The segments that get a speaker are those that share some time with a stretch.
pub proof fn law_hits(rows: Seq<Vec<F64>>, n: int)
    requires
        0 <= n <= rows.len(),
    ensures
        hits(rows, n) == rows.take(n).filter(
            |row: Vec<F64>|
                exists|k: int| 0 <= k < row@.len() && (F64 { bits: 0 }).less(#[trigger] row@[k]),
        ).len(),
    decreases n,
{
    reveal(Seq::filter);
    if n > 0 {
        law_hits(rows, n - 1);
        assert(rows.take(n).drop_last() =~= rows.take(n - 1));
        assert(rows.take(n).last() == rows[n - 1]);
    }
}

/// Where a segment shares some time with a stretch, it gets the speaker of a stretch with which it shares
/// most, and of several such stretches that of the first; otherwise it keeps the speaker that it had.
pub proof fn law_speaker_of_greatest_overlap(
    before: Segment,
    after: Segment,
    stretches: Seq<SpeakerSegment>,
    overlaps: Seq<F64>,
    b: int,
)
    requires
        assigned(before, after, stretches, overlaps),
    ensures
        after.speaker is Some && before.speaker is None ==> exists|k: int|
            0 <= k < overlaps.len() && (F64 { bits: 0 }).less(#[trigger] overlaps[k]),
        (forall|k: int| 0 <= k < overlaps.len() ==> !(F64 { bits: 0 }).less(#[trigger] overlaps[k]))
            ==> after == before,
        0 <= b < overlaps.len() && (F64 { bits: 0 }).less(overlaps[b]) && (forall|k: int|
            0 <= k < overlaps.len() ==> !overlaps[b].less(#[trigger] overlaps[k])) && (forall|
            k: int,
        |
            0 <= k < b && (F64 { bits: 0 }).less(#[trigger] overlaps[k]) ==> overlaps[k].less(
                overlaps[b],
            )) ==> after.speaker is Some && after.speaker->0@ == stretches[b].speaker_id@,
        after == (Segment { speaker: after.speaker, ..before }),
{
    if (forall|k: int| 0 <= k < overlaps.len() ==> !(F64 { bits: 0 }).less(#[trigger] overlaps[k])) {
        assert(is_best(overlaps, None));
    }
    let best = is_best(overlaps, Some(b));
}

/// Gives each segment the speaker of the stretch that it overlaps most. `overlaps` holds, for each
/// segment, the seconds that it shares with each stretch. The result says how many segments got a
/// speaker.
pub fn assign_speakers_to_segments(
    segments: &mut Vec<Segment>,
    diarization: &DiarizationResult,
    overlaps: &Vec<Vec<F64>>,
) -> (r: usize)
    requires
        overlaps@.len() == old(segments)@.len(),
        forall|i: int|
            0 <= i < overlaps@.len() ==> (#[trigger] overlaps@[i])@.len()
                == diarization.segments@.len(),
    ensures
        final(segments)@.len() == old(segments)@.len(),
        forall|i: int|
            0 <= i < final(segments)@.len() ==> assigned(
                old(segments)@[i],
                #[trigger] final(segments)@[i],
                diarization.segments@,
                overlaps@[i]@,
            ),
        r == hits(overlaps@, overlaps@.len() as int),
{
    let mut count: usize = 0;
    let mut i: usize = 0;
    while i < segments.len()
        invariant
            i <= segments@.len() == old(segments)@.len(),
            count <= i,
            overlaps@.len() == old(segments)@.len(),
            forall|k: int|
                0 <= k < overlaps@.len() ==> (#[trigger] overlaps@[k])@.len()
                    == diarization.segments@.len(),
            forall|k: int|
                0 <= k < i ==> assigned(
                    old(segments)@[k],
                    #[trigger] segments@[k],
                    diarization.segments@,
                    overlaps@[k]@,
                ),
            forall|k: int|
                i <= k < segments@.len() ==> #[trigger] segments@[k] == old(segments)@[k],
            count == hits(overlaps@, i as int),
        decreases segments@.len() - i,
    {
        let best = best_overlap(&overlaps[i]);
        proof {
            let row = overlaps@[i as int]@;
            let choice: Option<int> = match best {
                Some(b) => Some(b as int),
                None => None,
            };
            assert forall|b: int| #[trigger] is_best(row, Some(b)) implies choice == Some(b) by {
                law_best_is_unique(row, choice, Some(b));
            }
            if is_best(row, None) {
                law_best_is_unique(row, choice, None);
            }
        }
        match best {
            Some(b) => {
                segments[i].speaker = Some(
                    diarization.segments[b].speaker_id.as_str().to_owned(),
                );
                count += 1;
            },
            None => {},
        }
        i += 1;
    }
    count
}

/// The file of a speaker's reference.
pub fn reference_path(output_dir: &str, speaker_id: &str) -> (r: String)
    ensures
        r@ == text::path_joined(output_dir@, speaker_id@ + "_reference.wav"@),
{
    path_join(output_dir, append2(speaker_id, "_reference.wav").as_str())
}

/// The arguments with which FFmpeg cuts a reference out of `audio`. `start` and `duration` are the
/// seconds written with three decimals.
pub fn reference_args(audio: &str, start: &str, duration: &str, output: &str) -> (r: Vec<String>)
    ensures
        text::texts(r@) == seq![
            "-y"@,
            "-i"@,
            audio@,
            "-ss"@,
            start@,
            "-t"@,
            duration@,
            "-ar"@,
            "16000"@,
            "-ac"@,
            "1"@,
            "-sample_fmt"@,
            "s16"@,
            output@,
        ],
{
    let mut args: Vec<String> = Vec::new();
    args.push("-y".to_owned());
    args.push("-i".to_owned());
    args.push(audio.to_owned());
    args.push("-ss".to_owned());
    args.push(start.to_owned());
    args.push("-t".to_owned());
    args.push(duration.to_owned());
    args.push("-ar".to_owned());
    args.push("16000".to_owned());
    args.push("-ac".to_owned());
    args.push("1".to_owned());
    args.push("-sample_fmt".to_owned());
    args.push("s16".to_owned());
    args.push(output.to_owned());
    assert(text::texts(args@) =~= seq![
        "-y"@,
        "-i"@,
        audio@,
        "-ss"@,
        start@,
        "-t"@,
        duration@,
        "-ar"@,
        "16000"@,
        "-ac"@,
        "1"@,
        "-sample_fmt"@,
        "s16"@,
        output@,
    ]);
    args
}

} // verus!
