//! Checkpoints: how far a video has come, and where that is kept.
use vstd::prelude::*;

use crate::clock;
use crate::clock::Timestamp;
use crate::config::CheckpointConfig;
use crate::segment::Segment;
use crate::text;
use crate::text::{append2, chars_of, json_stem, path_join, string_of};

verus! {

/// The nanoseconds of a day.
pub const DAY: i128 = 86_400_000_000_000;

/// A stage of the pipeline.
#[derive(Debug, Clone, Copy, PartialEq, Eq, Structural)]
pub enum ProcessingStage {
    /// Speech recognition.
    Asr,
    /// Translation.
    Translate,
    /// Speech synthesis.
    Tts,
    /// Putting the video together.
    Compose,
}

impl Default for ProcessingStage {
    fn default() -> (r: Self)
        ensures
            r == ProcessingStage::Asr,
    {
        ProcessingStage::Asr
    }
}

impl ProcessingStage {
    /// The name of the stage.
    pub fn name(self) -> (r: &'static str)
        ensures
            r@ == match self {
                ProcessingStage::Asr => "ASR"@,
                ProcessingStage::Translate => "Translate"@,
                ProcessingStage::Tts => "TTS"@,
                ProcessingStage::Compose => "Compose"@,
            },
    {
        match self {
            ProcessingStage::Asr => "ASR",
            ProcessingStage::Translate => "Translate",
            ProcessingStage::Tts => "TTS",
            ProcessingStage::Compose => "Compose",
        }
    }

    /// The place of the stage, from 0.
    pub fn order(self) -> (r: usize)
        ensures
            r == match self {
                ProcessingStage::Asr => 0usize,
                ProcessingStage::Translate => 1,
                ProcessingStage::Tts => 2,
                ProcessingStage::Compose => 3,
            },
    {
        match self {
            ProcessingStage::Asr => 0,
            ProcessingStage::Translate => 1,
            ProcessingStage::Tts => 2,
            ProcessingStage::Compose => 3,
        }
    }
}

/// How far a video has come.
#[derive(Debug, Clone)]
pub struct Checkpoint {
    /// The identifier of the job.
    pub job_id: String,
    /// The path of the video.
    pub video_path: String,
    /// The segments that are done.
    pub processed_segments: Vec<Segment>,
    /// The stage.
    pub current_stage: ProcessingStage,
    /// The segment to go on with.
    pub next_segment_index: usize,
    /// When this was written down.
    pub timestamp: Timestamp,
}

/// The checkpoint after one more segment at `now`.
pub open spec fn with_segment(
    before: Checkpoint,
    after: Checkpoint,
    segment: Segment,
    now: Timestamp,
) -> bool {
    &&& after.processed_segments@ == before.processed_segments@.push(segment)
    &&& after.next_segment_index == before.processed_segments@.len() + 1
    &&& after.timestamp == now
    &&& after.job_id == before.job_id
    &&& after.video_path == before.video_path
    &&& after.current_stage == before.current_stage
}

/// The checkpoint is older than `days` days at `now`.
pub open spec fn has_expired(checkpoint: Checkpoint, days: u32, now: Timestamp) -> bool {
    now.nanos - checkpoint.timestamp.nanos > days * DAY
}

/// The segment has a file of which it is known that it is not there.
pub open spec fn lacks_audio(segment: Segment, exists: bool) -> bool {
    segment.tts_audio_path is Some && !exists
}

/// The places of the first `n` segments whose file is not there, in order.
pub open spec fn missing(segments: Seq<Segment>, exists: Seq<bool>, n: int) -> Seq<usize>
    decreases n,
{
    if n <= 0 {
        Seq::empty()
    } else if lacks_audio(segments[n - 1], exists[n - 1]) {
        missing(segments, exists, n - 1).push((n - 1) as usize)
    } else {
        missing(segments, exists, n - 1)
    }
}

/// Those of the first `n` segments that need no file or whose file is there, in order.
pub open spec fn intact(segments: Seq<Segment>, exists: Seq<bool>, n: int) -> Seq<Segment>
    decreases n,
{
    if n <= 0 {
        Seq::empty()
    } else if lacks_audio(segments[n - 1], exists[n - 1]) {
        intact(segments, exists, n - 1)
    } else {
        intact(segments, exists, n - 1).push(segments[n - 1])
    }
}

/// Segments and missing files account for all segments; where nothing is missing, nothing is lost.
pub proof fn law_intact_or_missing(segments: Seq<Segment>, exists: Seq<bool>, n: int)
    requires
        0 <= n <= segments.len(),
    ensures
        intact(segments, exists, n).len() + missing(segments, exists, n).len() == n,
        missing(segments, exists, n).len() == 0 ==> intact(segments, exists, n) == segments.take(n),
    decreases n,
{
    if n > 0 {
        law_intact_or_missing(segments, exists, n - 1);
        assert(segments.take(n) =~= segments.take(n - 1).push(segments[n - 1]));
    } else {
        assert(segments.take(0) =~= Seq::empty());
    }
}

/// The missing ones are named once each and in order, and they are exactly those that have a path of
/// a file that is not there.
pub proof fn law_missing_have_no_file(segments: Seq<Segment>, exists: Seq<bool>, n: int)
    requires
        0 <= n <= segments.len() <= usize::MAX,
    ensures
        forall|j: int, k: int|
            0 <= j < k < missing(segments, exists, n).len() ==> missing(segments, exists, n)[j]
                < missing(segments, exists, n)[k],
        forall|i: usize|
            #[trigger] missing(segments, exists, n).contains(i) <==> i < n
                && segments[i as int].tts_audio_path is Some && !exists[i as int],
    decreases n,
{
    if n > 0 {
        law_missing_have_no_file(segments, exists, n - 1);
        let before = missing(segments, exists, n - 1);
        let after = missing(segments, exists, n);
        assert forall|j: int| 0 <= j < before.len() implies before[j] < n - 1 by {
            assert(before.contains(before[j]));
        }
        assert forall|i: usize|
            #[trigger] after.contains(i) <==> i < n && segments[i as int].tts_audio_path is Some
                && !exists[i as int] by {
            if before.contains(i) {
                let j = choose|j: int| 0 <= j < before.len() && before[j] == i;
                assert(after[j] == i);
            }
            if i == n - 1 && lacks_audio(segments[n - 1], exists[n - 1]) {
                assert(after[before.len() as int] == i);
            }
            if after.contains(i) {
                let j = choose|j: int| 0 <= j < after.len() && after[j] == i;
                if j < before.len() {
                    assert(before[j] == i);
                    assert(before.contains(i));
                }
            }
        }
    }
}

/// A segment that has no path of a file, or whose file is there, is kept, and it moves up by as many
/// places as there are missing ones before it.
pub proof fn law_intact_segments_move_up(segments: Seq<Segment>, exists: Seq<bool>, n: int, i: int)
    requires
        0 <= i < n <= segments.len(),
        segments[i].tts_audio_path is None || exists[i],
    ensures
        0 <= i - missing(segments, exists, i).len() < intact(segments, exists, n).len(),
        intact(segments, exists, n)[i - missing(segments, exists, i).len()] == segments[i],
    decreases n,
{
    law_intact_or_missing(segments, exists, i);
    if i < n - 1 {
        law_intact_segments_move_up(segments, exists, n - 1, i);
    }
}

impl Checkpoint {
    /// The checkpoint of a job that has done nothing, written down at `now`.
    pub fn new_at(
        job_id: String,
        video_path: String,
        current_stage: ProcessingStage,
        now: Timestamp,
    ) -> (r: Self)
        ensures
            r.job_id == job_id,
            r.video_path == video_path,
            r.processed_segments@.len() == 0,
            r.current_stage == current_stage,
            r.next_segment_index == 0,
            r.timestamp == now,
    {
        Checkpoint {
            job_id,
            video_path,
            processed_segments: Vec::new(),
            current_stage,
            next_segment_index: 0,
            timestamp: now,
        }
    }

    /// The checkpoint of a job that has done nothing, written down now.
    pub fn new(job_id: String, video_path: String, current_stage: ProcessingStage) -> (r: Self)
        ensures
            r.job_id == job_id,
            r.video_path == video_path,
            r.processed_segments@.len() == 0,
            r.current_stage == current_stage,
            r.next_segment_index == 0,
            r.timestamp.in_range(),
    {
        Checkpoint::new_at(job_id, video_path, current_stage, clock::now())
    }

    /// Adds a segment that is done, at `now`.
    pub fn add_segment_at(&mut self, segment: Segment, now: Timestamp)
        ensures
            with_segment(*old(self), *final(self), segment, now),
            final(self).processed_segments@ == old(self).processed_segments@.push(segment),
            final(self).next_segment_index == final(self).processed_segments@.len(),
            final(self).timestamp == now,
            final(self).job_id == old(self).job_id,
            final(self).video_path == old(self).video_path,
            final(self).current_stage == old(self).current_stage,
    {
        self.processed_segments.push(segment);
        self.next_segment_index = self.processed_segments.len();
        self.timestamp = now;
    }

    /// Adds a segment that is done, now.
    pub fn add_segment(&mut self, segment: Segment)
        ensures
            final(self).timestamp.in_range(),
            with_segment(*old(self), *final(self), segment, final(self).timestamp),
            final(self).processed_segments@ == old(self).processed_segments@.push(segment),
            final(self).next_segment_index == final(self).processed_segments@.len(),
            final(self).job_id == old(self).job_id,
            final(self).video_path == old(self).video_path,
            final(self).current_stage == old(self).current_stage,
    {
        self.add_segment_at(segment, clock::now());
    }

    /// Sets the stage, at `now`.
    pub fn update_stage_at(&mut self, stage: ProcessingStage, now: Timestamp)
        ensures
            *final(self) == (Checkpoint { current_stage: stage, timestamp: now, ..*old(self) }),
    {
        self.current_stage = stage;
        self.timestamp = now;
    }

    /// Sets the stage, now.
    pub fn update_stage(&mut self, stage: ProcessingStage)
        ensures
            final(self).timestamp.in_range(),
            *final(self) == (Checkpoint {
                current_stage: stage,
                timestamp: final(self).timestamp,
                ..*old(self)
            }),
    {
        self.update_stage_at(stage, clock::now());
    }

    /// How many segments are done.
    pub fn completed_count(&self) -> (r: usize)
        ensures
            r == self.processed_segments@.len(),
    {
        self.processed_segments.len()
    }

    /// The segments whose file is not there. `exists` says of each segment whether its file is.
    pub fn validate_audio_files(&self, exists: &Vec<bool>) -> (r: Vec<usize>)
        requires
            exists@.len() == self.processed_segments@.len(),
        ensures
            r@ == missing(
                self.processed_segments@,
                exists@,
                self.processed_segments@.len() as int,
            ),
            forall|j: int, k: int| 0 <= j < k < r@.len() ==> r@[j] < r@[k],
            forall|i: usize|
                #[trigger] r@.contains(i) <==> i < self.processed_segments@.len()
                    && self.processed_segments@[i as int].tts_audio_path is Some && !exists@[i as int],
    {
        let mut out: Vec<usize> = Vec::new();
        let mut i: usize = 0;
        while i < self.processed_segments.len()
            invariant
                i <= self.processed_segments@.len() == exists@.len(),
                out@ == missing(self.processed_segments@, exists@, i as int),
            decreases self.processed_segments@.len() - i,
        {
            if self.processed_segments[i].tts_audio_path.is_some() && !exists[i] {
                out.push(i);
            }
            i += 1;
        }
        proof {
            law_missing_have_no_file(self.processed_segments@, exists@, i as int);
        }
        out
    }

    /// Whether, at `now`, the checkpoint is older than `retention_days` days.
    pub fn is_expired_at(&self, retention_days: u32, now: Timestamp) -> (r: bool)
        requires
            self.timestamp.in_range(),
            now.in_range(),
        ensures
            r == has_expired(*self, retention_days, now),
            r <==> now.nanos > self.timestamp.nanos + retention_days * 86_400_000_000_000,
    {
        now.nanos - self.timestamp.nanos > retention_days as i128 * DAY
    }

    /// Whether the checkpoint is now older than `retention_days` days. A checkpoint that is older than
    /// the clock can ever stand is, one that lies in the future is not.
    pub fn is_expired(&self, retention_days: u32) -> (r: bool)
        requires
            self.timestamp.in_range(),
        ensures
            self.timestamp.nanos < -(retention_days * DAY) ==> r,
            r ==> self.timestamp.nanos + retention_days * DAY < clock::MAX_INSTANT,
    {
        self.is_expired_at(retention_days, clock::now())
    }

    /// Leaves out the segments whose file is not there, so that they are done again. The result says
    /// whether there were any.
    pub fn drop_missing(&mut self, exists: &Vec<bool>) -> (r: bool)
        requires
            exists@.len() == old(self).processed_segments@.len(),
        ensures
            ({
                let n = old(self).processed_segments@.len() as int;
                let lost = missing(old(self).processed_segments@, exists@, n).len() > 0;
                &&& r == lost
                &&& final(self).processed_segments@ == intact(
                    old(self).processed_segments@,
                    exists@,
                    n,
                )
                &&& final(self).next_segment_index == if lost {
                    final(self).processed_segments@.len() as usize
                } else {
                    old(self).next_segment_index
                }
            }),
            final(self).job_id == old(self).job_id,
            final(self).video_path == old(self).video_path,
            final(self).current_stage == old(self).current_stage,
            final(self).timestamp == old(self).timestamp,
    {
        let ghost segments = self.processed_segments@;
        let ghost n = segments.len() as int;
        let lost = !self.validate_audio_files(exists).is_empty();
        proof {
            law_intact_or_missing(segments, exists@, n);
        }
        if !lost {
            assert(segments.take(n) =~= segments);
            return false;
        }
        let mut i: usize = self.processed_segments.len();
        while i > 0
            invariant
                i <= n == segments.len() == exists@.len(),
                self.processed_segments@.len() >= i,
                self.processed_segments@.take(i as int) == segments.take(i as int),
                self.processed_segments@.skip(i as int) == intact_from(segments, exists@, i as int),
                self.job_id == old(self).job_id,
                self.video_path == old(self).video_path,
                self.current_stage == old(self).current_stage,
                self.timestamp == old(self).timestamp,
                self.next_segment_index == old(self).next_segment_index,
            decreases i,
        {
            i -= 1;
            let ghost before = self.processed_segments@;
            assert(before[i as int] == before.take(i + 1)[i as int]);
            if self.processed_segments[i].tts_audio_path.is_some() && !exists[i] {
                let _ = self.processed_segments.remove(i);
                assert(self.processed_segments@.skip(i as int) =~= before.skip(i + 1));
            } else {
                assert(before.skip(i as int) =~= seq![before[i as int]] + before.skip(i + 1));
            }
            assert(self.processed_segments@.take(i as int) =~= before.take(i + 1).take(i as int));
            assert(segments.take(i + 1).take(i as int) =~= segments.take(i as int));
        }
        proof {
            assert(self.processed_segments@.skip(0) =~= self.processed_segments@);
            lemma_intact_from(segments, exists@, n);
            assert(segments.take(n) =~= segments);
        }
        self.next_segment_index = self.processed_segments.len();
        true
    }

    /// The checkpoint after one more segment at `now`, where `loaded` is the one that was kept: a
    /// new one where there was none.
    pub fn record_at(
        loaded: Option<Checkpoint>,
        job_id: &str,
        segment: Segment,
        stage: ProcessingStage,
        now: Timestamp,
    ) -> (r: Checkpoint)
        ensures
            r.current_stage == stage,
            r.timestamp == now,
            match loaded {
                Some(c) => {
                    &&& r.job_id == c.job_id
                    &&& r.video_path == c.video_path
                    &&& r.processed_segments@ == c.processed_segments@.push(segment)
                    &&& r.next_segment_index == c.processed_segments@.len() + 1
                },
                None => {
                    &&& r.job_id@ == job_id@
                    &&& r.video_path@ == ""@
                    &&& r.processed_segments@ == seq![segment]
                    &&& r.next_segment_index == 1
                },
            },
    {
        let mut checkpoint = match loaded {
            Some(c) => c,
            None => Checkpoint::new_at(job_id.to_owned(), "".to_owned(), stage, now),
        };
        checkpoint.add_segment_at(segment, now);
        checkpoint.update_stage_at(stage, now);
        assert(loaded is None ==> checkpoint.processed_segments@ =~= seq![segment]);
        checkpoint
    }
}

/// The segments from `from` on that need no file or whose file is there.
spec fn intact_from(segments: Seq<Segment>, exists: Seq<bool>, from: int) -> Seq<Segment>
    decreases segments.len() - from,
{
    if from < 0 || from >= segments.len() {
        Seq::empty()
    } else if lacks_audio(segments[from], exists[from]) {
        intact_from(segments, exists, from + 1)
    } else {
        seq![segments[from]] + intact_from(segments, exists, from + 1)
    }
}

proof fn lemma_intact_from(segments: Seq<Segment>, exists: Seq<bool>, n: int)
    requires
        0 <= n <= segments.len(),
    ensures
        intact_from(segments, exists, 0) == intact(segments, exists, n) + intact_from(
            segments,
            exists,
            n,
        ),
        intact_from(segments, exists, segments.len() as int) == Seq::<Segment>::empty(),
    decreases n,
{
    if n > 0 {
        lemma_intact_from(segments, exists, n - 1);
        let rest = intact_from(segments, exists, n);
        if lacks_audio(segments[n - 1], exists[n - 1]) {
        } else {
            assert(intact(segments, exists, n - 1) + (seq![segments[n - 1]] + rest) =~= intact(
                segments,
                exists,
                n - 1,
            ).push(segments[n - 1]) + rest);
        }
    } else {
        assert(intact(segments, exists, 0) + intact_from(segments, exists, 0) =~= intact_from(
            segments,
            exists,
            0,
        ));
    }
}

/// The path starts in the home directory.
pub open spec fn in_home(path: Seq<char>) -> bool {
    path.len() >= 2 && path[0] == '~' && path[1] == '/'
}

/// `path` with `~` replaced by the home directory, where that is known.
pub open spec fn expanded(path: Seq<char>, home: Option<Seq<char>>) -> Seq<char> {
    match home {
        Some(h) => if in_home(path) {
            text::path_joined(h, path.skip(2))
        } else {
            path
        },
        None => path,
    }
}

/// `dirs::home_dir`, as text; nothing where it is not Unicode. It comes from the environment, so
/// nothing is known of it.
#[verifier::external_body]
fn home_dir() -> (r: Option<String>) {
    dirs::home_dir()?.into_os_string().into_string().ok()
}

/// `path` with `~` replaced by `home`, where that is known.
pub fn expand_tilde_with(path: &str, home: &Option<String>) -> (r: String)
    ensures
        r@ == expanded(
            path@,
            match *home {
                Some(h) => Some(h@),
                None => None,
            },
        ),
        path@.len() >= 2 && path@[0] == '~' && path@[1] == '/' ==> match *home {
            Some(h) => r@ == text::path_joined(h@, path@.subrange(2, path@.len() as int)),
            None => r@ == path@,
        },
        !(path@.len() >= 2 && path@[0] == '~' && path@[1] == '/') ==> r@ == path@,
{
    let chars = chars_of(path);
    match home {
        Some(h) => {
            if chars.len() >= 2 && chars[0] == '~' && chars[1] == '/' {
                let rest = string_of(&chars, 2, chars.len());
                assert(rest@ =~= path@.skip(2));
                return path_join(h.as_str(), rest.as_str());
            }
            path.to_owned()
        },
        None => path.to_owned(),
    }
}

/// `path` with `~` replaced by the home directory of the user, where that is known.
pub fn expand_tilde(path: &str) -> (r: String)
    ensures
        exists|home: Option<Seq<char>>| r@ == #[trigger] expanded(path@, home),
        !in_home(path@) ==> r@ == path@,
        !(path@.len() >= 2 && path@[0] == '~' && path@[1] == '/') ==> r@ == path@,
{
    let home = home_dir();
    expand_tilde_with(path, &home)
}

/// Keeps checkpoints in files.
#[derive(Debug, Clone)]
pub struct CheckpointManager {
    /// The directory of the files.
    pub dir: String,
    /// How many days they are kept.
    pub retention_days: u32,
    /// Whether checkpoints are kept at all.
    pub enabled: bool,
}

impl CheckpointManager {
    /// The checkpoints that `config` describes.
    pub fn new(config: &CheckpointConfig) -> (r: Self)
        ensures
            exists|home: Option<Seq<char>>| r.dir@ == #[trigger] expanded(config.dir@, home),
            !in_home(config.dir@) ==> r.dir@ == config.dir@,
            r.retention_days == config.retention_days,
            r.enabled == config.enabled,
    {
        CheckpointManager {
            dir: expand_tilde(config.dir.as_str()),
            retention_days: config.retention_days,
            enabled: config.enabled,
        }
    }

    /// The checkpoints in `dir`, kept for 7 days.
    pub fn with_dir(dir: String) -> (r: Self)
        ensures
            r.dir == dir,
            r.retention_days == 7,
            r.enabled,
    {
        CheckpointManager { dir, retention_days: 7, enabled: true }
    }

    /// The path of a job's file.
    pub fn checkpoint_path(&self, job_id: &str) -> (r: String)
        ensures
            r@ == text::path_joined(self.dir@, text::json_name(job_id@)),
            r@ == text::path_joined(self.dir@, job_id@ + ".json"@),
    {
        path_join(self.dir.as_str(), append2(job_id, ".json").as_str())
    }

    /// Whether checkpoints are kept.
    pub fn is_enabled(&self) -> (r: bool)
        ensures
            r == self.enabled,
    {
        self.enabled
    }

    /// The file to which a checkpoint is to be written, nothing where checkpoints are not kept.
    pub fn save(&self, checkpoint: &Checkpoint) -> (r: Option<String>)
        ensures
            match r {
                Some(path) => self.enabled && path@ == text::path_joined(
                    self.dir@,
                    text::json_name(checkpoint.job_id@),
                ),
                None => !self.enabled,
            },
            r matches Some(path) ==> path@ == text::path_joined(
                self.dir@,
                checkpoint.job_id@ + ".json"@,
            ),
    {
        if self.enabled {
            Some(self.checkpoint_path(checkpoint.job_id.as_str()))
        } else {
            None
        }
    }

    /// The places of those of `checkpoints` that are to be cleaned up at `now`, in order.
    pub fn expired_at(&self, checkpoints: &Vec<Checkpoint>, now: Timestamp) -> (r: Vec<usize>)
        requires
            now.in_range(),
            forall|i: int|
                0 <= i < checkpoints@.len() ==> (#[trigger] checkpoints@[i]).timestamp.in_range(),
        ensures
            forall|k: int|
                0 <= k < r@.len() ==> {
                    &&& (#[trigger] r@[k]) < checkpoints@.len()
                    &&& has_expired(checkpoints@[r@[k] as int], self.retention_days, now)
                    &&& now.nanos > checkpoints@[r@[k] as int].timestamp.nanos + self.retention_days
                        * 86_400_000_000_000
                },
            forall|j: int, k: int| 0 <= j < k < r@.len() ==> r@[j] < r@[k],
            forall|i: int|
                0 <= i < checkpoints@.len() && has_expired(
                    #[trigger] checkpoints@[i],
                    self.retention_days,
                    now,
                ) ==> r@.contains(i as usize),
            forall|i: int|
                0 <= i < checkpoints@.len() && now.nanos > (
                #[trigger] checkpoints@[i]).timestamp.nanos + self.retention_days
                    * 86_400_000_000_000 ==> r@.contains(i as usize),
    {
        let mut out: Vec<usize> = Vec::new();
        let mut i: usize = 0;
        while i < checkpoints.len()
            invariant
                i <= checkpoints@.len(),
                now.in_range(),
                forall|j: int|
                    0 <= j < checkpoints@.len() ==> (
                    #[trigger] checkpoints@[j]).timestamp.in_range(),
                forall|k: int|
                    0 <= k < out@.len() ==> {
                        &&& (#[trigger] out@[k]) < i
                        &&& has_expired(checkpoints@[out@[k] as int], self.retention_days, now)
                    },
                forall|j: int, k: int| 0 <= j < k < out@.len() ==> out@[j] < out@[k],
                forall|j: int|
                    0 <= j < i && has_expired(
                        #[trigger] checkpoints@[j],
                        self.retention_days,
                        now,
                    ) ==> out@.contains(j as usize),
            decreases checkpoints@.len() - i,
        {
            let ghost before = out@;
            if checkpoints[i].is_expired_at(self.retention_days, now) {
                out.push(i);
                assert(out@[before.len() as int] == i);
            }
            assert forall|j: int|
                0 <= j < i + 1 && has_expired(
                    #[trigger] checkpoints@[j],
                    self.retention_days,
                    now,
                ) implies out@.contains(j as usize) by {
                if j < i {
                    let k = choose|k: int| 0 <= k < before.len() && before[k] == j as usize;
                    assert(out@[k] == j as usize);
                }
            }
            i += 1;
        }
        out
    }

    /// The job whose file has the name `file`, nothing where it is not the name of a checkpoint.
    pub fn job_id_of(file: &str) -> (r: Option<String>)
        ensures
            match r {
                Some(id) => text::json_stem_of(file@) == Some(id@),
                None => text::json_stem_of(file@) is None,
            },
            r matches Some(id) ==> id@.len() > 0 && file@ == id@ + ".json"@,
            forall|id: Seq<char>| id.len() > 0 && file@ == #[trigger] (id + ".json"@) ==> r is Some,
    {
        json_stem(file)
    }
}

} // verus!
