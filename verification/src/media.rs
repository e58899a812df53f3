//! Sound and picture: what FFmpeg is asked, and how speech is fitted to the picture.
use vstd::prelude::*;

use crate::config::AudioSyncMode;
use crate::error::{AppError, AppResult};
use crate::ieee::{F32, F64};
use crate::text;
use crate::text::{append2, cat4, cat5, chars_of, join, same_text, signed_text};

verus! {

/// The samples of a second.
pub const SAMPLE_RATE: u32 = 16000;

/// The bit pattern of 1.0 as a double.
pub const ONE: u64 = 0x3ff0_0000_0000_0000;

/// The bit pattern of 1.0 as a single.
pub const ONE_SINGLE: u32 = 0x3f80_0000;

/// The bit pattern of 0.01, the least number of seconds by which anything is made longer.
pub const MIN_EXTENSION: u64 = 0x3f84_7ae1_47ae_147b;

/// A stream of a file.
#[derive(Debug, Clone)]
pub struct StreamInfo {
    /// `video` or `audio`.
    pub codec_type: String,
    /// The name of the codec.
    pub codec_name: String,
    /// The sample rate in Hz of sound.
    pub sample_rate: Option<i32>,
    /// The channels of sound.
    pub channels: Option<i32>,
    /// The width of the picture.
    pub width: Option<i32>,
    /// The height of the picture.
    pub height: Option<i32>,
}

/// What is known of a file.
#[derive(Debug, Clone)]
pub struct MediaInfo {
    /// The seconds.
    pub duration: F64,
    /// The streams.
    pub streams: Vec<StreamInfo>,
}

/// Every character is a decimal digit, and there is one.
pub open spec fn all_digits(s: Seq<char>) -> bool {
    s.len() > 0 && forall|i: int| 0 <= i < s.len() ==> 0x30 <= (#[trigger] s[i]) as u32 <= 0x39
}

/// The number that `s` writes: digits after at most one sign.
pub open spec fn number_in(s: Seq<char>) -> Option<int> {
    if all_digits(s) {
        Some(text::value_of(s))
    } else if s.len() > 0 && s[0] == '+' && all_digits(s.skip(1)) {
        Some(text::value_of(s.skip(1)))
    } else if s.len() > 0 && s[0] == '-' && all_digits(s.skip(1)) {
        Some(-text::value_of(s.skip(1)))
    } else {
        None
    }
}

/// The number that `s` writes, nothing where it writes none or one that does not fit.
pub open spec fn parsed(s: Seq<char>) -> Option<i32> {
    match number_in(s) {
        Some(n) => if i32::MIN <= n <= i32::MAX {
            Some(n as i32)
        } else {
            None
        },
        None => None,
    }
}

proof fn lemma_value_grows(s: Seq<char>, n: int)
    requires
        0 <= n <= s.len(),
        forall|i: int| 0 <= i < s.len() ==> 0x30 <= (#[trigger] s[i]) as u32 <= 0x39,
    ensures
        0 <= text::value_of(s.take(n)) <= text::value_of(s),
    decreases s.len() - n, n,
{
    if n < s.len() {
        lemma_value_grows(s, n + 1);
        assert(s.take(n + 1).drop_last() =~= s.take(n));
        assert(s.take(n + 1).last() == s[n]);
        lemma_value_not_negative(s.take(n));
    } else {
        assert(s.take(n) =~= s);
        lemma_value_not_negative(s);
    }
}

proof fn lemma_value_not_negative(s: Seq<char>)
    requires
        forall|i: int| 0 <= i < s.len() ==> 0x30 <= (#[trigger] s[i]) as u32 <= 0x39,
    ensures
        0 <= text::value_of(s),
    decreases s.len(),
{
    if s.len() > 0 {
        lemma_value_not_negative(s.drop_last());
    }
}

/// The number that the digits from `from` on write, capped where it would not fit.
fn digits_value(chars: &Vec<char>, from: usize) -> (r: Option<i64>)
    requires
        from <= chars@.len(),
    ensures
        r is None == !all_digits(chars@.skip(from as int)),
        match r {
            Some(v) => {
                let n = text::value_of(chars@.skip(from as int));
                0 <= v && (v == n || (v > i32::MAX + 1 && n > i32::MAX + 1))
            },
            None => true,
        },
{
    let ghost digits = chars@.skip(from as int);
    if from == chars.len() {
        return None;
    }
    let mut value: i64 = 0;
    let mut i: usize = from;
    assert(digits.take(0) =~= Seq::empty());
    while i < chars.len()
        invariant
            from <= i <= chars@.len(),
            digits == chars@.skip(from as int),
            forall|k: int| 0 <= k < i - from ==> 0x30 <= (#[trigger] digits[k]) as u32 <= 0x39,
            0 <= value <= 0xffff_ffff,
            ({
                let n = text::value_of(digits.take(i - from));
                0 <= n && (value == n || (value > i32::MAX + 1 && n > i32::MAX + 1))
            }),
        decreases chars@.len() - i,
    {
        let u: u32 = chars[i] as u32;
        assert(digits[i - from] == chars@[i as int]);
        if u < 0x30 || u > 0x39 {
            return None;
        }
        proof {
            assert(digits.take(i - from + 1).drop_last() =~= digits.take(i - from));
            assert(digits.take(i - from + 1).last() == digits[i - from]);
        }
        let next: i64 = value * 10 + (u - 0x30) as i64;
        value = if next > 0xffff_ffff {
            0xffff_ffff
        } else {
            next
        };
        i += 1;
    }
    assert(digits.take(digits.len() as int) =~= digits);
    Some(value)
}

/// The number that `s` writes, nothing where it writes none or one that does not fit.
pub fn parse_i32(s: &str) -> (r: Option<i32>)
    ensures
        r == parsed(s@),
{
    let chars = chars_of(s);
    if chars.is_empty() {
        return None;
    }
    assert(s@.skip(0) =~= s@);
    let negative = chars[0] == '-';
    let signed = negative || chars[0] == '+';
    proof {
        if signed {
            assert(!all_digits(s@)) by {
                assert(!(0x30 <= s@[0] as u32 <= 0x39));
            }
        }
    }
    let value = digits_value(
        &chars,
        if signed {
            1
        } else {
            0
        },
    );
    match value {
        Some(v) => {
            let n: i64 = if negative {
                -v
            } else {
                v
            };
            if i32::MIN as i64 <= n && n <= i32::MAX as i64 {
                Some(n as i32)
            } else {
                None
            }
        },
        None => None,
    }
}

/// Reading a number gives back what was written, with any zeros or a plus sign in front.
pub proof fn law_number_is_read_back(n: i32, width: nat)
    ensures
        parsed(text::signed_decimal(n as int)) == Some(n),
        n >= 0 ==> parsed(text::padded(n as nat, width)) == Some(n),
        n >= 0 ==> parsed(seq!['+'] + text::padded(n as nat, width)) == Some(n),
{
    if n >= 0 {
        lemma_decimal_digits(n as nat);
        text::law_padded_value(n as nat, width);
        let digits = text::padded(n as nat, width);
        assert(all_digits(digits));
        let signed = seq!['+'] + digits;
        assert(signed.skip(1) =~= digits);
        assert(!all_digits(signed)) by {
            assert(signed[0] == '+');
        }
    } else {
        let m = (-n) as nat;
        lemma_decimal_digits(m);
        text::law_padded_value(m, 0);
        let signed = seq!['-'] + text::decimal(m);
        assert(signed.skip(1) =~= text::decimal(m));
        assert(!all_digits(signed)) by {
            assert(signed[0] == '-');
        }
    }
}

proof fn lemma_decimal_digits(n: nat)
    ensures
        all_digits(text::decimal(n)),
    decreases n,
{
    if n >= 10 {
        lemma_decimal_digits(n / 10);
    }
}

/// Only digits after at most one sign are read as a number, and at least one digit.
pub proof fn law_only_digits_are_read(s: Seq<char>, i: int)
    requires
        parsed(s) is Some,
    ensures
        s.len() > 0,
        0 < i < s.len() ==> 0x30 <= s[i] as u32 <= 0x39,
        0x30 <= s[0] as u32 <= 0x39 || ((s[0] == '+' || s[0] == '-') && s.len() > 1),
{
    if 0 < i < s.len() {
        assert(s.skip(1)[i - 1] == s[i]);
    }
}

impl StreamInfo {
    /// The stream that FFprobe describes. It writes the sample rate as text.
    pub fn from_probe(
        codec_type: String,
        codec_name: String,
        sample_rate: Option<&str>,
        channels: Option<i32>,
        width: Option<i32>,
        height: Option<i32>,
    ) -> (r: Self)
        ensures
            r.codec_type == codec_type,
            r.codec_name == codec_name,
            r.sample_rate == match sample_rate {
                Some(s) => parsed(s@),
                None => None,
            },
            r.channels == channels,
            r.width == width,
            r.height == height,
    {
        let rate = match sample_rate {
            Some(s) => parse_i32(s),
            None => None,
        };
        StreamInfo { codec_type, codec_name, sample_rate: rate, channels, width, height }
    }
}

/// `r` is the first of `streams` of the kind `kind`, or there is none.
pub open spec fn is_first(
    streams: Seq<StreamInfo>,
    kind: Seq<char>,
    r: Option<&StreamInfo>,
) -> bool {
    match r {
        Some(s) => exists|i: int|
            {
                &&& 0 <= i < streams.len()
                &&& #[trigger] streams[i] == *s
                &&& s.codec_type@ == kind
                &&& forall|j: int| 0 <= j < i ==> (#[trigger] streams[j]).codec_type@ != kind
            },
        None => forall|j: int|
            0 <= j < streams.len() ==> (#[trigger] streams[j]).codec_type@ != kind,
    }
}

fn find_stream<'a>(info: &'a MediaInfo, kind: &str) -> (r: Option<&'a StreamInfo>)
    ensures
        is_first(info.streams@, kind@, r),
{
    let mut i: usize = 0;
    while i < info.streams.len()
        invariant
            i <= info.streams@.len(),
            forall|j: int|
                0 <= j < i ==> (#[trigger] info.streams@[j]).codec_type@ != kind@,
        decreases info.streams@.len() - i,
    {
        if same_text(info.streams[i].codec_type.as_str(), kind) {
            return Some(&info.streams[i]);
        }
        i += 1;
    }
    None
}

/// The first stream of sound.
pub fn find_audio_stream(info: &MediaInfo) -> (r: Option<&StreamInfo>)
    ensures
        is_first(info.streams@, "audio"@, r),
        r is None <==> forall|i: int|
            0 <= i < info.streams@.len() ==> (#[trigger] info.streams@[i]).codec_type@ != "audio"@,
        forall|i: int|
            0 <= i < info.streams@.len() && (#[trigger] info.streams@[i]).codec_type@ == "audio"@ && (
            forall|j: int|
                0 <= j < i ==> (#[trigger] info.streams@[j]).codec_type@ != "audio"@) ==> r is Some
                && *r->0 == info.streams@[i],
{
    find_stream(info, "audio")
}

/// The first stream of pictures.
pub fn find_video_stream(info: &MediaInfo) -> (r: Option<&StreamInfo>)
    ensures
        is_first(info.streams@, "video"@, r),
        r is None <==> forall|i: int|
            0 <= i < info.streams@.len() ==> (#[trigger] info.streams@[i]).codec_type@ != "video"@,
        forall|i: int|
            0 <= i < info.streams@.len() && (#[trigger] info.streams@[i]).codec_type@ == "video"@ && (
            forall|j: int|
                0 <= j < i ==> (#[trigger] info.streams@[j]).codec_type@ != "video"@) ==> r is Some
                && *r->0 == info.streams@[i],
{
    find_stream(info, "video")
}

/// An exit code as it is shown.
pub open spec fn shown_code(code: Option<i32>) -> Seq<char> {
    match code {
        Some(c) => "Some("@ + text::signed_decimal(c as int) + ")"@,
        None => "None"@,
    }
}

/// What is said of a command that failed: what it was for, its exit code and what it wrote.
pub fn failure_text(what: &str, code: Option<i32>, stderr: &str) -> (r: String)
    ensures
        r@ == what@ + " failed (exit code "@ + shown_code(code) + "): "@ + stderr@,
        code is None ==> r@ == what@ + " failed (exit code "@ + "None"@ + "): "@ + stderr@,
        code matches Some(n) ==> r@ == what@ + " failed (exit code "@ + ("Some("@
            + text::signed_decimal(n as int) + ")"@) + "): "@ + stderr@,
{
    let shown = match code {
        Some(c) => {
            let mut out = "Some(".to_owned();
            out.append(signed_text(c).as_str());
            out.append(")");
            out
        },
        None => "None".to_owned(),
    };
    cat5(what, " failed (exit code ", shown.as_str(), "): ", stderr)
}

/// Takes the sound out of a video.
#[derive(Debug, Clone, Copy, PartialEq, Eq, Structural)]
pub struct FfmpegAudioExtractor;

impl FfmpegAudioExtractor {
    /// The extractor.
    pub fn new() -> (r: Self)
        ensures
            r == FfmpegAudioExtractor,
    {
        FfmpegAudioExtractor
    }

    /// The arguments with which FFmpeg takes the sound out of `input`: one channel of 16-bit samples at
    /// 16 kHz. `exists` says whether `input` is there.
    pub fn extract_audio(&self, input: &str, output: &str, exists: bool) -> (r: AppResult<Vec<String>>)
        ensures
            match r {
                Ok(args) => exists && text::texts(args@) == seq![
                    "-y"@,
                    "-i"@,
                    input@,
                    "-vn"@,
                    "-ar"@,
                    "16000"@,
                    "-ac"@,
                    "1"@,
                    "-c:a"@,
                    "pcm_s16le"@,
                    output@,
                ],
                Err(e) => !exists && e is FileNotFound && e->FileNotFound_0@ == input@,
            },
    {
        if !exists {
            return Err(AppError::FileNotFound(input.to_owned()));
        }
        let mut args: Vec<String> = Vec::new();
        args.push("-y".to_owned());
        args.push("-i".to_owned());
        args.push(input.to_owned());
        args.push("-vn".to_owned());
        args.push("-ar".to_owned());
        args.push("16000".to_owned());
        args.push("-ac".to_owned());
        args.push("1".to_owned());
        args.push("-c:a".to_owned());
        args.push("pcm_s16le".to_owned());
        args.push(output.to_owned());
        assert(text::texts(args@) =~= seq![
            "-y"@,
            "-i"@,
            input@,
            "-vn"@,
            "-ar"@,
            "16000"@,
            "-ac"@,
            "1"@,
            "-c:a"@,
            "pcm_s16le"@,
            output@,
        ]);
        Ok(args)
    }
}

impl Default for FfmpegAudioExtractor {
    fn default() -> (r: Self)
        ensures
            r == FfmpegAudioExtractor,
    {
        FfmpegAudioExtractor
    }
}

/// Puts new sound to a picture.
#[derive(Debug, Clone)]
pub struct FfmpegVideoComposer {
    /// The encoder.
    pub video_encoder: String,
    /// The quality, where the picture is encoded anew.
    pub video_quality: Option<i32>,
}

/// What goes into a video. The flags say whether the files are there.
#[derive(Debug, Clone)]
pub struct Composition {
    /// The file with the picture.
    pub video: String,
    /// Whether it is there.
    pub video_exists: bool,
    /// The file with the sound.
    pub audio: String,
    /// Whether it is there.
    pub audio_exists: bool,
    /// The file to write.
    pub output: String,
    /// Whether subtitles are burnt into the picture.
    pub burn_subtitles: bool,
    /// The file with the subtitles.
    pub subtitles: Option<String>,
    /// Whether it is there.
    pub subtitles_exist: bool,
    /// The factor by which the picture is slowed down.
    pub stretch: F64,
    /// The factor with six decimals.
    pub stretch_text: String,
}

impl Composition {
    /// The picture is slowed down.
    pub open spec fn slow(self) -> bool {
        (F64 { bits: ONE }).less(self.stretch)
    }

    /// What is wrong with the composition, in the order in which it is looked at.
    pub open spec fn is_fault(self, e: AppError) -> bool {
        if !self.video_exists {
            e is FileNotFound && e->FileNotFound_0@ == self.video@
        } else if !self.audio_exists {
            e is FileNotFound && e->FileNotFound_0@ == self.audio@
        } else if self.burn_subtitles && self.subtitles is None {
            e is FFmpeg && e->FFmpeg_0@ == "burn_subtitles is true but no subtitle_path provided"@
        } else {
            &&& self.subtitles is Some && !self.subtitles_exist
            &&& e is FileNotFound && e->FileNotFound_0@ == self.subtitles->0@
        }
    }

    /// Nothing is wrong with the composition.
    pub open spec fn sound(self) -> bool {
        &&& self.video_exists
        &&& self.audio_exists
        &&& self.burn_subtitles ==> self.subtitles is Some
        &&& self.subtitles is Some ==> self.subtitles_exist
    }

    /// The filters of the picture.
    pub open spec fn filters(self) -> Seq<Seq<char>> {
        let slow = if self.slow() {
            seq!["setpts=PTS/"@ + self.stretch_text@]
        } else {
            Seq::empty()
        };
        if self.burn_subtitles {
            slow.push("subtitles="@ + self.subtitles->0@)
        } else {
            slow
        }
    }
}

impl FfmpegVideoComposer {
    /// The composer that encodes by hardware.
    pub fn new() -> (r: Self)
        ensures
            r.video_encoder@ == "h264_videotoolbox"@,
            r.video_quality == Some(35i32),
    {
        FfmpegVideoComposer {
            video_encoder: "h264_videotoolbox".to_owned(),
            video_quality: Some(35),
        }
    }

    /// The composer that encodes by `video_encoder`.
    pub fn with_encoder(video_encoder: String) -> (r: Self)
        ensures
            r.video_encoder == video_encoder,
            r.video_quality == Some(35i32),
    {
        FfmpegVideoComposer { video_encoder, video_quality: Some(35) }
    }

    /// The encoder.
    pub fn encoder(&self) -> (r: &str)
        ensures
            r@ == self.video_encoder@,
    {
        self.video_encoder.as_str()
    }

    /// The composer with another quality.
    pub fn with_quality(self, quality: Option<i32>) -> (r: Self)
        ensures
            r.video_encoder == self.video_encoder,
            r.video_quality == quality,
    {
        FfmpegVideoComposer { video_encoder: self.video_encoder, video_quality: quality }
    }

    /// The arguments that set the quality.
    pub open spec fn quality_args(self) -> Seq<Seq<char>> {
        match self.video_quality {
            Some(q) => if self.video_encoder@ == "h264_videotoolbox"@ {
                seq!["-q:v"@, text::signed_decimal(q as int)]
            } else if self.video_encoder@ == "libx264"@ || self.video_encoder@ == "libx265"@ {
                seq!["-crf"@, text::signed_decimal(q as int)]
            } else {
                Seq::empty()
            },
            None => Seq::empty(),
        }
    }

    /// The arguments for the picture: it is copied where it stays as it is, and encoded anew where it
    /// is slowed down or gets subtitles.
    pub open spec fn picture_args(self, c: Composition) -> Seq<Seq<char>> {
        if c.burn_subtitles || c.slow() {
            seq!["-vf"@, text::joined(c.filters(), ","@), "-c:v"@, self.video_encoder@]
                + self.quality_args()
        } else {
            seq!["-c:v"@, "copy"@]
        }
    }

    /// The arguments with which FFmpeg makes the video.
    pub open spec fn args(self, c: Composition) -> Seq<Seq<char>> {
        seq!["-y"@, "-i"@, c.video@, "-i"@, c.audio@] + self.picture_args(c) + seq![
            "-c:a"@,
            "aac"@,
            "-map"@,
            "0:v:0"@,
            "-map"@,
            "1:a:0"@,
            c.output@,
        ]
    }

    /// The arguments with which FFmpeg makes the video.
    pub fn compose_video(&self, c: &Composition) -> (r: AppResult<Vec<String>>)
        ensures
            match r {
                Ok(args) => c.sound() && text::texts(args@) == self.args(*c),
                Err(e) => !c.sound() && c.is_fault(e),
            },
            r is Ok <==> c.video_exists && c.audio_exists && (c.burn_subtitles
                ==> c.subtitles is Some) && (c.subtitles is Some ==> c.subtitles_exist),
            !c.video_exists ==> (r matches Err(AppError::FileNotFound(m)) && m@ == c.video@),
            c.video_exists && !c.audio_exists ==> (r matches Err(AppError::FileNotFound(m)) && m@
                == c.audio@),
            c.video_exists && c.audio_exists && c.burn_subtitles && c.subtitles is None ==> (
            r matches Err(AppError::FFmpeg(m)) && m@
                == "burn_subtitles is true but no subtitle_path provided"@),
            c.video_exists && c.audio_exists && c.subtitles is Some && !c.subtitles_exist ==> (
            r matches Err(AppError::FileNotFound(m)) && m@ == c.subtitles->0@),
    {
        if !c.video_exists {
            return Err(AppError::FileNotFound(c.video.as_str().to_owned()));
        }
        if !c.audio_exists {
            return Err(AppError::FileNotFound(c.audio.as_str().to_owned()));
        }
        if c.burn_subtitles && c.subtitles.is_none() {
            return Err(
                AppError::FFmpeg(
                    "burn_subtitles is true but no subtitle_path provided".to_owned(),
                ),
            );
        }
        if let Some(s) = &c.subtitles {
            if !c.subtitles_exist {
                return Err(AppError::FileNotFound(s.as_str().to_owned()));
            }
        }
        let slow = F64::from_bits(ONE).lt(c.stretch);
        let mut args: Vec<String> = Vec::new();
        args.push("-y".to_owned());
        args.push("-i".to_owned());
        args.push(c.video.as_str().to_owned());
        args.push("-i".to_owned());
        args.push(c.audio.as_str().to_owned());
        assert(text::texts(args@) =~= seq!["-y"@, "-i"@, c.video@, "-i"@, c.audio@]);
        let ghost head = text::texts(args@);
        if c.burn_subtitles || slow {
            let mut filters: Vec<String> = Vec::new();
            if slow {
                filters.push(append2("setpts=PTS/", c.stretch_text.as_str()));
            }
            if c.burn_subtitles {
                if let Some(s) = &c.subtitles {
                    filters.push(append2("subtitles=", s.as_str()));
                }
            }
            assert(text::texts(filters@) =~= c.filters());
            args.push("-vf".to_owned());
            args.push(join(&filters, ","));
            args.push("-c:v".to_owned());
            args.push(self.video_encoder.as_str().to_owned());
            let ghost plain = text::texts(args@);
            assert(plain =~= head + seq![
                "-vf"@,
                text::joined(c.filters(), ","@),
                "-c:v"@,
                self.video_encoder@,
            ]);
            if let Some(q) = self.video_quality {
                if same_text(self.video_encoder.as_str(), "h264_videotoolbox") {
                    args.push("-q:v".to_owned());
                    args.push(signed_text(q));
                } else if same_text(self.video_encoder.as_str(), "libx264") || same_text(
                    self.video_encoder.as_str(),
                    "libx265",
                ) {
                    args.push("-crf".to_owned());
                    args.push(signed_text(q));
                }
            }
            assert(text::texts(args@) =~= plain + self.quality_args());
            assert(text::texts(args@) =~= head + self.picture_args(*c));
        } else {
            args.push("-c:v".to_owned());
            args.push("copy".to_owned());
            assert(text::texts(args@) =~= head + self.picture_args(*c));
        }
        args.push("-c:a".to_owned());
        args.push("aac".to_owned());
        args.push("-map".to_owned());
        args.push("0:v:0".to_owned());
        args.push("-map".to_owned());
        args.push("1:a:0".to_owned());
        args.push(c.output.as_str().to_owned());
        assert(text::texts(args@) =~= self.args(*c));
        Ok(args)
    }
}

/// A picture that is neither slowed down nor gets subtitles is copied, whatever the encoder.
pub proof fn law_untouched_picture_is_copied(composer: FfmpegVideoComposer, c: Composition)
    requires
        !c.burn_subtitles,
        !c.slow(),
    ensures
        composer.picture_args(c) == seq!["-c:v"@, "copy"@],
{
}

/// What FFmpeg is asked to do to the picture: nothing where it is neither slowed down nor gets subtitles;
/// else the filters for what is to be done, and the encoder with its way to set the quality.
pub proof fn law_picture_is_asked_for(composer: FfmpegVideoComposer, c: Composition)
    ensures
        ({
            let slow = (F64 { bits: 0x3ff0_0000_0000_0000 }).less(c.stretch);
            let before = seq!["-y"@, "-i"@, c.video@, "-i"@, c.audio@];
            let after = seq!["-c:a"@, "aac"@, "-map"@, "0:v:0"@, "-map"@, "1:a:0"@, c.output@];
            let stretch = "setpts=PTS/"@ + c.stretch_text@;
            let burn = "subtitles="@ + c.subtitles->0@;
            let filter = if slow && c.burn_subtitles {
                stretch + ","@ + burn
            } else if slow {
                stretch
            } else {
                burn
            };
            let encode = seq!["-vf"@, filter, "-c:v"@, composer.video_encoder@];
            let hardware = composer.video_encoder@ == "h264_videotoolbox"@;
            let software = composer.video_encoder@ == "libx264"@ || composer.video_encoder@
                == "libx265"@;
            &&& !slow && !c.burn_subtitles ==> composer.args(c) == before + seq!["-c:v"@, "copy"@]
                + after
            &&& (slow || c.burn_subtitles) && (composer.video_quality is None || (!hardware
                && !software)) ==> composer.args(c) == before + encode + after
            &&& (slow || c.burn_subtitles) && hardware ==> (composer.video_quality matches Some(q)
                ==> composer.args(c) == before + (encode + seq![
                "-q:v"@,
                text::signed_decimal(q as int),
            ]) + after)
            &&& (slow || c.burn_subtitles) && software ==> (composer.video_quality matches Some(q)
                ==> composer.args(c) == before + (encode + seq![
                "-crf"@,
                text::signed_decimal(q as int),
            ]) + after)
        }),
{
    reveal_strlit("h264_videotoolbox");
    reveal_strlit("libx264");
    reveal_strlit("libx265");
    let stretch = "setpts=PTS/"@ + c.stretch_text@;
    let burn = "subtitles="@ + c.subtitles->0@;
    let none = Seq::<Seq<char>>::empty();
    text::law_joined(seq![stretch], burn, ","@);
    text::law_joined(none, stretch, ","@);
    text::law_joined(none, burn, ","@);
    assert(seq![stretch].push(burn) =~= seq![stretch, burn]);
    assert(none.push(burn) =~= seq![burn]);
    let encode = seq!["-vf"@, text::joined(c.filters(), ","@), "-c:v"@, composer.video_encoder@];
    assert(encode + none =~= encode);
    if c.slow() && c.burn_subtitles {
        assert(c.filters() =~= seq![stretch, burn]);
    } else if c.slow() {
        assert(c.filters() =~= seq![stretch]);
    } else if c.burn_subtitles {
        assert(c.filters() =~= seq![burn]);
    }
    assert("libx264"@[6] == '4' && "libx265"@[6] == '5');
}

impl Default for FfmpegVideoComposer {
    fn default() -> (r: Self)
        ensures
            r.video_encoder@ == "h264_videotoolbox"@,
            r.video_quality == Some(35i32),
    {
        FfmpegVideoComposer::new()
    }
}

/// Whether it is worth while to make something `secs` seconds longer.
pub fn worth_extending(secs: F64) -> (r: bool)
    ensures
        r == !secs.less(F64 { bits: MIN_EXTENSION }),
        r <==> !secs.less(F64 { bits: 0x3f84_7ae1_47ae_147b }),
{
    !secs.lt(F64::from_bits(MIN_EXTENSION))
}

/// The arguments with which FFmpeg holds the last frame of `video`, whose `secs` are the seconds with
/// three decimals.
pub fn extend_video_args(video: &str, secs: &str, output: &str) -> (r: Vec<String>)
    ensures
        text::texts(r@) == seq![
            "-y"@,
            "-i"@,
            video@,
            "-vf"@,
            "tpad=stop_mode=clone:stop_duration="@ + secs@,
            "-c:v"@,
            "libx264"@,
            "-crf"@,
            "23"@,
            "-preset"@,
            "veryfast"@,
            "-an"@,
            output@,
        ],
{
    let mut args: Vec<String> = Vec::new();
    args.push("-y".to_owned());
    args.push("-i".to_owned());
    args.push(video.to_owned());
    args.push("-vf".to_owned());
    args.push(append2("tpad=stop_mode=clone:stop_duration=", secs));
    args.push("-c:v".to_owned());
    args.push("libx264".to_owned());
    args.push("-crf".to_owned());
    args.push("23".to_owned());
    args.push("-preset".to_owned());
    args.push("veryfast".to_owned());
    args.push("-an".to_owned());
    args.push(output.to_owned());
    assert(text::texts(args@) =~= seq![
        "-y"@,
        "-i"@,
        video@,
        "-vf"@,
        "tpad=stop_mode=clone:stop_duration="@ + secs@,
        "-c:v"@,
        "libx264"@,
        "-crf"@,
        "23"@,
        "-preset"@,
        "veryfast"@,
        "-an"@,
        output@,
    ]);
    args
}

/// The arguments with which FFmpeg appends silence to `audio`, whose `secs` are the seconds with three
/// decimals.
pub fn pad_audio_args(audio: &str, secs: &str, output: &str) -> (r: Vec<String>)
    ensures
        text::texts(r@) == seq![
            "-y"@,
            "-i"@,
            audio@,
            "-af"@,
            "apad=pad_dur="@ + secs@,
            "-c:a"@,
            "pcm_s16le"@,
            output@,
        ],
{
    let mut args: Vec<String> = Vec::new();
    args.push("-y".to_owned());
    args.push("-i".to_owned());
    args.push(audio.to_owned());
    args.push("-af".to_owned());
    args.push(append2("apad=pad_dur=", secs));
    args.push("-c:a".to_owned());
    args.push("pcm_s16le".to_owned());
    args.push(output.to_owned());
    assert(text::texts(args@) =~= seq![
        "-y"@,
        "-i"@,
        audio@,
        "-af"@,
        "apad=pad_dur="@ + secs@,
        "-c:a"@,
        "pcm_s16le"@,
        output@,
    ]);
    args
}

/// The arguments with which FFprobe tells the duration of `audio`.
pub fn duration_args(audio: &str) -> (r: Vec<String>)
    ensures
        text::texts(r@) == seq![
            "-v"@,
            "quiet"@,
            "-show_entries"@,
            "format=duration"@,
            "-of"@,
            "default=noprint_wrappers=1:nokey=1"@,
            audio@,
        ],
{
    let mut args: Vec<String> = Vec::new();
    args.push("-v".to_owned());
    args.push("quiet".to_owned());
    args.push("-show_entries".to_owned());
    args.push("format=duration".to_owned());
    args.push("-of".to_owned());
    args.push("default=noprint_wrappers=1:nokey=1".to_owned());
    args.push(audio.to_owned());
    assert(text::texts(args@) =~= seq![
        "-v"@,
        "quiet"@,
        "-show_entries"@,
        "format=duration"@,
        "-of"@,
        "default=noprint_wrappers=1:nokey=1"@,
        audio@,
    ]);
    args
}

/// The arguments with which FFprobe describes `path`.
pub fn probe_args(path: &str) -> (r: Vec<String>)
    ensures
        text::texts(r@) == seq![
            "-v"@,
            "quiet"@,
            "-print_format"@,
            "json"@,
            "-show_streams"@,
            "-show_format"@,
            path@,
        ],
{
    let mut args: Vec<String> = Vec::new();
    args.push("-v".to_owned());
    args.push("quiet".to_owned());
    args.push("-print_format".to_owned());
    args.push("json".to_owned());
    args.push("-show_streams".to_owned());
    args.push("-show_format".to_owned());
    args.push(path.to_owned());
    assert(text::texts(args@) =~= seq![
        "-v"@,
        "quiet"@,
        "-print_format"@,
        "json"@,
        "-show_streams"@,
        "-show_format"@,
        path@,
    ]);
    args
}

/// What was done to speech to fit it to the picture.
#[derive(Debug, Clone, Copy, PartialEq, Eq, Structural)]
pub struct AudioMixStats {
    /// The segments.
    pub total: usize,
    /// Those that were cut off.
    pub trimmed: usize,
    /// Those that were played faster.
    pub sped_up: usize,
    /// Those for which the picture was played slower.
    pub video_slowed: usize,
}

impl Default for AudioMixStats {
    fn default() -> (r: Self)
        ensures
            r == (AudioMixStats { total: 0, trimmed: 0, sped_up: 0, video_slowed: 0 }),
    {
        AudioMixStats { total: 0, trimmed: 0, sped_up: 0, video_slowed: 0 }
    }
}

/// What comes of mixing.
#[derive(Debug, Clone, Copy)]
pub struct AudioMixResult {
    /// The seconds of the sound.
    pub audio_duration_secs: F64,
    /// The factor by which the picture is slowed down.
    pub video_stretch_factor: F64,
    /// What was done.
    pub stats: AudioMixStats,
}

/// Speech and the slot that it goes into.
#[derive(Debug, Clone, Copy)]
pub struct SegmentTiming {
    /// The samples of the speech.
    pub samples: usize,
    /// The samples of the slot, none where it ends before it starts.
    pub slot_samples: usize,
    /// The seconds of the speech.
    pub tts_duration: F64,
    /// The seconds of the slot, at least 0.01.
    pub slot_duration: F64,
    /// The seconds of the speech for each second of the slot.
    pub speed_ratio: F64,
    /// The samples of the slot, at least those of 0.01 seconds.
    pub slot_target: usize,
    /// The samples of the speech played as fast as may be.
    pub limit_target: usize,
}

/// How speech is fitted.
#[derive(Debug, Clone, Copy, PartialEq, Eq, Structural)]
pub enum Fit {
    /// It is left out.
    Skip,
    /// It stays as it is.
    Keep,
    /// Silence is appended up to that many samples.
    Pad(usize),
    /// It is cut off after that many samples.
    Cut(usize),
    /// It is played faster, in that many samples.
    Resample(usize),
    /// It is played faster, in the first number of samples, and cut off after the second.
    ResampleCut(usize, usize),
}

/// The samples of speech after it is fitted.
pub open spec fn fitted_len(fit: Fit, samples: usize) -> usize {
    match fit {
        Fit::Skip => 0,
        Fit::Keep => samples,
        Fit::Pad(n) => n,
        Fit::Cut(n) => n,
        Fit::Resample(n) => n,
        Fit::ResampleCut(_, n) => n,
    }
}

/// How speech is fitted, where the speech may be played `limit` times as fast.
///
/// Where the slot is fixed, what does not fit is cut off or played faster, up to the limit and then cut
/// off, and what is too short is followed by silence. Otherwise the speech may go on beyond its slot:
/// the picture is played slower, at once or where playing the speech faster up to the limit is not
/// enough.
pub open spec fn fit_of(mode: AudioSyncMode, t: SegmentTiming, limit: F64) -> Fit {
    match mode {
        AudioSyncMode::Trim => if t.slot_samples == 0 {
            Fit::Skip
        } else if t.samples > t.slot_samples {
            Fit::Cut(t.slot_samples)
        } else {
            Fit::Pad(t.slot_samples)
        },
        AudioSyncMode::SpeedUp => if t.slot_samples == 0 {
            Fit::Skip
        } else if t.samples > t.slot_samples {
            if t.limit_target > t.slot_samples {
                Fit::ResampleCut(t.limit_target, t.slot_samples)
            } else {
                Fit::Resample(t.slot_samples)
            }
        } else {
            Fit::Pad(t.slot_samples)
        },
        AudioSyncMode::VideoSlow => Fit::Keep,
        AudioSyncMode::Hybrid => if limit.less(t.speed_ratio) {
            Fit::Resample(t.limit_target)
        } else if (F64 { bits: ONE }).less(t.speed_ratio) {
            Fit::Resample(t.slot_target)
        } else {
            Fit::Keep
        },
    }
}

/// The speech is cut off because it does not fit.
pub open spec fn is_trimmed(mode: AudioSyncMode, t: SegmentTiming, limit: F64) -> bool {
    mode == AudioSyncMode::Trim && fit_of(mode, t, limit) is Cut
}

/// The speech is played faster.
pub open spec fn is_sped_up(mode: AudioSyncMode, t: SegmentTiming, limit: F64) -> bool {
    fit_of(mode, t, limit) is Resample || fit_of(mode, t, limit) is ResampleCut
}

/// The picture is played slower.
pub open spec fn is_slowed(mode: AudioSyncMode, t: SegmentTiming, limit: F64) -> bool {
    match mode {
        AudioSyncMode::VideoSlow => t.slot_duration.less(t.tts_duration),
        AudioSyncMode::Hybrid => limit.less(t.speed_ratio),
        _ => false,
    }
}

/// How many of the timings have the property.
pub open spec fn count_timings(
    timings: Seq<SegmentTiming>,
    property: spec_fn(SegmentTiming) -> bool,
) -> nat
    decreases timings.len(),
{
    if timings.len() == 0 {
        0
    } else {
        count_timings(timings.drop_last(), property) + if property(timings.last()) {
            1nat
        } else {
            0nat
        }
    }
}

/// What is done to the speech of `total` segments, of which those with sound have these timings.
pub open spec fn stats_of(
    mode: AudioSyncMode,
    timings: Seq<SegmentTiming>,
    limit: F64,
    total: usize,
    stats: AudioMixStats,
) -> bool {
    &&& stats.total == total
    &&& stats.trimmed == count_timings(timings, |t: SegmentTiming| is_trimmed(mode, t, limit))
    &&& stats.sped_up == count_timings(timings, |t: SegmentTiming| is_sped_up(mode, t, limit))
    &&& stats.video_slowed == count_timings(timings, |t: SegmentTiming| is_slowed(mode, t, limit))
}

/// How one segment is fitted.
pub fn fit_segment(mode: AudioSyncMode, t: &SegmentTiming, limit: F64) -> (r: Fit)
    ensures
        r == fit_of(mode, *t, limit),
        mode is VideoSlow ==> r is Keep,
        mode is Hybrid ==> {
            &&& limit.less(t.speed_ratio) ==> r == Fit::Resample(t.limit_target)
            &&& !limit.less(t.speed_ratio) && (F64 { bits: 0x3ff0_0000_0000_0000 }).less(
                t.speed_ratio,
            ) ==> r == Fit::Resample(t.slot_target)
            &&& !limit.less(t.speed_ratio) && !(F64 { bits: 0x3ff0_0000_0000_0000 }).less(
                t.speed_ratio,
            ) ==> r is Keep
        },
        mode is Trim || mode is SpeedUp ==> {
            &&& t.slot_samples == 0 ==> r is Skip
            &&& 0 < t.slot_samples && t.samples <= t.slot_samples ==> r == Fit::Pad(t.slot_samples)
        },
        mode is Trim && 0 < t.slot_samples < t.samples ==> r == Fit::Cut(t.slot_samples),
        mode is SpeedUp && 0 < t.slot_samples < t.samples ==> {
            &&& t.limit_target <= t.slot_samples ==> r == Fit::Resample(t.slot_samples)
            &&& t.limit_target > t.slot_samples ==> r == Fit::ResampleCut(
                t.limit_target,
                t.slot_samples,
            )
        },
{
    match mode {
        AudioSyncMode::Trim => if t.slot_samples == 0 {
            Fit::Skip
        } else if t.samples > t.slot_samples {
            Fit::Cut(t.slot_samples)
        } else {
            Fit::Pad(t.slot_samples)
        },
        AudioSyncMode::SpeedUp => if t.slot_samples == 0 {
            Fit::Skip
        } else if t.samples > t.slot_samples {
            if t.limit_target > t.slot_samples {
                Fit::ResampleCut(t.limit_target, t.slot_samples)
            } else {
                Fit::Resample(t.slot_samples)
            }
        } else {
            Fit::Pad(t.slot_samples)
        },
        AudioSyncMode::VideoSlow => Fit::Keep,
        AudioSyncMode::Hybrid => if limit.lt(t.speed_ratio) {
            Fit::Resample(t.limit_target)
        } else if F64::from_bits(ONE).lt(t.speed_ratio) {
            Fit::Resample(t.slot_target)
        } else {
            Fit::Keep
        },
    }
}

/// How the speech of `total` segments is fitted, and what is done to it. `timings` are those of the
/// segments with sound.
pub fn mix_audio_segments(
    mode: AudioSyncMode,
    timings: &Vec<SegmentTiming>,
    limit: F64,
    total: usize,
) -> (r: (Vec<Fit>, AudioMixStats))
    ensures
        r.0@.len() == timings@.len(),
        forall|i: int|
            0 <= i < timings@.len() ==> #[trigger] r.0@[i] == fit_of(mode, timings@[i], limit),
        stats_of(mode, timings@, limit, total, r.1),
{
    let mut fits: Vec<Fit> = Vec::new();
    let mut stats = AudioMixStats::default();
    stats.total = total;
    let mut i: usize = 0;
    while i < timings.len()
        invariant
            i <= timings@.len(),
            fits@.len() == i,
            forall|k: int| 0 <= k < i ==> #[trigger] fits@[k] == fit_of(mode, timings@[k], limit),
            stats_of(mode, timings@.take(i as int), limit, total, stats),
            stats.trimmed <= i,
            stats.sped_up <= i,
            stats.video_slowed <= i,
        decreases timings@.len() - i,
    {
        let t = timings[i];
        proof {
            let more = timings@.take(i + 1);
            assert(more.drop_last() =~= timings@.take(i as int));
            assert(more.last() == t);
        }
        let fit = fit_segment(mode, &t, limit);
        let slowed = match mode {
            AudioSyncMode::VideoSlow => t.slot_duration.lt(t.tts_duration),
            AudioSyncMode::Hybrid => limit.lt(t.speed_ratio),
            _ => false,
        };
        match fit {
            Fit::Cut(_) => {
                stats.trimmed += 1;
            },
            Fit::Resample(_) | Fit::ResampleCut(_, _) => {
                stats.sped_up += 1;
            },
            _ => {},
        }
        if slowed {
            stats.video_slowed += 1;
        }
        fits.push(fit);
        i += 1;
    }
    assert(timings@.take(timings@.len() as int) =~= timings@);
    (fits, stats)
}

/// What is counted: as trimmed the speech that was cut off, as sped up that which was played faster, and
/// as slowed down that for which the picture is.
pub proof fn law_stats_count(
    mode: AudioSyncMode,
    timings: Seq<SegmentTiming>,
    limit: F64,
    total: usize,
    stats: AudioMixStats,
)
    requires
        stats_of(mode, timings, limit, total, stats),
    ensures
        stats.total == total,
        stats.trimmed == timings.filter(
            |t: SegmentTiming| mode is Trim && 0 < t.slot_samples < t.samples,
        ).len(),
        stats.sped_up == timings.filter(
            |t: SegmentTiming|
                (mode is SpeedUp && 0 < t.slot_samples < t.samples) || (mode is Hybrid && (
                limit.less(t.speed_ratio) || (F64 { bits: 0x3ff0_0000_0000_0000 }).less(
                    t.speed_ratio,
                ))),
        ).len(),
        stats.video_slowed == timings.filter(
            |t: SegmentTiming|
                (mode is VideoSlow && t.slot_duration.less(t.tts_duration)) || (mode is Hybrid
                    && limit.less(t.speed_ratio)),
        ).len(),
{
    lemma_count_is_filter(
        timings,
        |t: SegmentTiming| is_trimmed(mode, t, limit),
        |t: SegmentTiming| mode is Trim && 0 < t.slot_samples < t.samples,
    );
    lemma_count_is_filter(
        timings,
        |t: SegmentTiming| is_sped_up(mode, t, limit),
        |t: SegmentTiming|
            (mode is SpeedUp && 0 < t.slot_samples < t.samples) || (mode is Hybrid && (limit.less(
                t.speed_ratio,
            ) || (F64 { bits: 0x3ff0_0000_0000_0000 }).less(t.speed_ratio))),
    );
    lemma_count_is_filter(
        timings,
        |t: SegmentTiming| is_slowed(mode, t, limit),
        |t: SegmentTiming|
            (mode is VideoSlow && t.slot_duration.less(t.tts_duration)) || (mode is Hybrid
                && limit.less(t.speed_ratio)),
    );
}

proof fn lemma_count_is_filter(
    timings: Seq<SegmentTiming>,
    a: spec_fn(SegmentTiming) -> bool,
    b: spec_fn(SegmentTiming) -> bool,
)
    requires
        forall|t: SegmentTiming| #[trigger] a(t) == b(t),
    ensures
        count_timings(timings, a) == timings.filter(b).len(),
    decreases timings.len(),
{
    reveal(Seq::filter);
    if timings.len() > 0 {
        lemma_count_is_filter(timings.drop_last(), a, b);
        assert(a(timings.last()) == b(timings.last()));
    }
}

/// Where the slot is fixed, speech that is not left out fills its slot to the sample.
pub proof fn law_fixed_slot_is_filled(mode: AudioSyncMode, t: SegmentTiming, limit: F64)
    requires
        mode == AudioSyncMode::Trim || mode == AudioSyncMode::SpeedUp,
    ensures
        (fit_of(mode, t, limit) is Skip) == (t.slot_samples == 0),
        fitted_len(fit_of(mode, t, limit), t.samples) == t.slot_samples,
{
}

/// Where the picture makes up for long speech, no speech is left out, cut off or padded; where it does
/// all of it, no speech is changed.
pub proof fn law_speech_stays_whole(mode: AudioSyncMode, t: SegmentTiming, limit: F64)
    requires
        mode == AudioSyncMode::VideoSlow || mode == AudioSyncMode::Hybrid,
    ensures
        fit_of(mode, t, limit) is Keep || fit_of(mode, t, limit) is Resample,
        mode == AudioSyncMode::VideoSlow ==> fit_of(mode, t, limit) is Keep,
{
}

/// Each way of fitting speech does only what it is named after, and the picture is slowed down besides
/// only for speech that is also played faster.
pub proof fn law_stats_by_mode(
    mode: AudioSyncMode,
    timings: Seq<SegmentTiming>,
    limit: F64,
    total: usize,
    stats: AudioMixStats,
)
    requires
        stats_of(mode, timings, limit, total, stats),
    ensures
        mode != AudioSyncMode::Trim ==> stats.trimmed == 0,
        mode == AudioSyncMode::Trim || mode == AudioSyncMode::VideoSlow ==> stats.sped_up == 0,
        !may_slow(mode) ==> stats.video_slowed == 0,
        mode == AudioSyncMode::Hybrid ==> stats.video_slowed <= stats.sped_up,
        stats.trimmed <= timings.len(),
        stats.sped_up <= timings.len(),
        stats.video_slowed <= timings.len(),
{
    let trimmed = |t: SegmentTiming| is_trimmed(mode, t, limit);
    let sped_up = |t: SegmentTiming| is_sped_up(mode, t, limit);
    let slowed = |t: SegmentTiming| is_slowed(mode, t, limit);
    let none = |t: SegmentTiming| false;
    let all = |t: SegmentTiming| true;
    lemma_count_all(timings);
    lemma_count_more(timings, trimmed, all);
    lemma_count_more(timings, sped_up, all);
    lemma_count_more(timings, slowed, all);
    lemma_count_none(timings);
    if mode != AudioSyncMode::Trim {
        lemma_count_more(timings, trimmed, none);
    }
    if mode == AudioSyncMode::Trim || mode == AudioSyncMode::VideoSlow {
        lemma_count_more(timings, sped_up, none);
    }
    if mode == AudioSyncMode::Trim || mode == AudioSyncMode::SpeedUp {
        lemma_count_more(timings, slowed, none);
    }
    if mode == AudioSyncMode::Hybrid {
        lemma_count_more(timings, slowed, sped_up);
    }
}

proof fn lemma_count_more(
    timings: Seq<SegmentTiming>,
    a: spec_fn(SegmentTiming) -> bool,
    b: spec_fn(SegmentTiming) -> bool,
)
    requires
        forall|t: SegmentTiming| #[trigger] a(t) ==> b(t),
    ensures
        count_timings(timings, a) <= count_timings(timings, b),
    decreases timings.len(),
{
    if timings.len() > 0 {
        lemma_count_more(timings.drop_last(), a, b);
    }
}

proof fn lemma_count_all(timings: Seq<SegmentTiming>)
    ensures
        count_timings(timings, |t: SegmentTiming| true) == timings.len(),
    decreases timings.len(),
{
    if timings.len() > 0 {
        lemma_count_all(timings.drop_last());
    }
}

proof fn lemma_count_none(timings: Seq<SegmentTiming>)
    ensures
        count_timings(timings, |t: SegmentTiming| false) == 0,
    decreases timings.len(),
{
    if timings.len() > 0 {
        lemma_count_none(timings.drop_last());
    }
}

/// The first `len` of `samples`, followed by silence where there are fewer.
pub fn cut_or_pad<T: Copy>(samples: &Vec<T>, len: usize, silence: T) -> (r: Vec<T>)
    ensures
        r@.len() == len,
        forall|i: int|
            0 <= i < len ==> #[trigger] r@[i] == if i < samples@.len() {
                samples@[i]
            } else {
                silence
            },
{
    let mut out: Vec<T> = Vec::new();
    let mut i: usize = 0;
    while i < len
        invariant
            i <= len,
            out@.len() == i,
            forall|k: int|
                0 <= k < i ==> #[trigger] out@[k] == if k < samples@.len() {
                    samples@[k]
                } else {
                    silence
                },
        decreases len - i,
    {
        out.push(
            if i < samples.len() {
                samples[i]
            } else {
                silence
            },
        );
        i += 1;
    }
    out
}

/// When speech that may push what follows starts: not before its slot, and not before `cursor`, the end
/// of what came before.
pub fn placement(start: F64, cursor: F64) -> (r: F64)
    ensures
        r == if !start.is_number() || start.less(cursor) {
            cursor
        } else {
            start
        },
{
    if !start.number() || start.lt(cursor) {
        cursor
    } else {
        start
    }
}

/// The latest of the first `n` times, at least 0.
pub open spec fn latest(times: Seq<F64>, n: int) -> F64
    decreases n,
{
    if n <= 0 {
        F64 { bits: 0 }
    } else {
        let before = latest(times, n - 1);
        if before.less(times[n - 1]) {
            times[n - 1]
        } else {
            before
        }
    }
}

/// The latest time is one of them or 0, and none of them is later.
pub proof fn law_latest(times: Seq<F64>, n: int)
    requires
        0 <= n <= times.len(),
    ensures
        latest(times, n).is_number(),
        latest(times, n).bits == 0 || exists|i: int| 0 <= i < n && #[trigger] times[i] == latest(
            times,
            n,
        ),
        forall|i: int| 0 <= i < n ==> !latest(times, n).less(#[trigger] times[i]),
    decreases n,
{
    if n > 0 {
        law_latest(times, n - 1);
        let before = latest(times, n - 1);
        let after = latest(times, n);
        if before.less(times[n - 1]) {
            assert(times[n - 1] == after);
        } else if before.bits != 0 {
            let i = choose|i: int| 0 <= i < n - 1 && #[trigger] times[i] == before;
            assert(times[i] == after);
        }
    }
}

/// The seconds of the sound: up to the end of the last speech, given the end of each, and not less than
/// those of the video.
pub fn mix_duration(ends: &Vec<F64>, video: F64) -> (r: F64)
    ensures
        ({
            let last = latest(ends@, ends@.len() as int);
            r == if last.less(video) {
                video
            } else {
                last
            }
        }),
        !r.less(video),
        forall|i: int| 0 <= i < ends@.len() ==> !r.less(#[trigger] ends@[i]),
        r == video || r.bits == 0 || exists|i: int| 0 <= i < ends@.len() && #[trigger] ends@[i] == r,
{
    let mut last = F64::from_bits(0);
    let mut i: usize = 0;
    while i < ends.len()
        invariant
            i <= ends@.len(),
            last == latest(ends@, i as int),
        decreases ends@.len() - i,
    {
        if last.lt(ends[i]) {
            last = ends[i];
        }
        i += 1;
    }
    proof {
        law_latest(ends@, ends@.len() as int);
    }
    if last.lt(video) {
        video
    } else {
        last
    }
}

/// The picture may be slowed down, so that it lasts as long as the sound.
pub open spec fn may_slow(mode: AudioSyncMode) -> bool {
    mode == AudioSyncMode::VideoSlow || mode == AudioSyncMode::Hybrid
}

/// The factor by which the picture is slowed down, given the seconds of the sound for each second of
/// the picture: 1 where the slots are fixed, and never less than 1.
pub open spec fn stretch_of(mode: AudioSyncMode, ratio: F64) -> F64 {
    if may_slow(mode) && (F64 { bits: ONE }).less(ratio) {
        ratio
    } else {
        F64 { bits: ONE }
    }
}

/// What comes of mixing. `sound` is nothing where there was no speech; otherwise it holds the seconds of
/// the sound and their ratio to those of the video.
pub fn mix_result(
    mode: AudioSyncMode,
    video: F64,
    sound: Option<(F64, F64)>,
    stats: AudioMixStats,
) -> (r: AudioMixResult)
    ensures
        r.stats == stats,
        match sound {
            None => r.audio_duration_secs == video && r.video_stretch_factor.bits == ONE,
            Some((secs, ratio)) => r.audio_duration_secs == secs && r.video_stretch_factor
                == stretch_of(mode, ratio),
        },
        (mode is Trim || mode is SpeedUp) ==> r.video_stretch_factor.bits == 0x3ff0_0000_0000_0000,
        sound is None ==> r.video_stretch_factor.bits == 0x3ff0_0000_0000_0000,
        (mode is VideoSlow || mode is Hybrid) ==> (sound matches Some((_, ratio)) ==> {
            &&& (F64 { bits: 0x3ff0_0000_0000_0000 }).less(ratio) ==> r.video_stretch_factor == ratio
            &&& !(F64 { bits: 0x3ff0_0000_0000_0000 }).less(ratio) ==> r.video_stretch_factor.bits
                == 0x3ff0_0000_0000_0000
        }),
{
    let one = F64::from_bits(ONE);
    match sound {
        None => AudioMixResult { audio_duration_secs: video, video_stretch_factor: one, stats },
        Some((secs, ratio)) => {
            let slow = match mode {
                AudioSyncMode::VideoSlow | AudioSyncMode::Hybrid => one.lt(ratio),
                _ => false,
            };
            AudioMixResult {
                audio_duration_secs: secs,
                video_stretch_factor: if slow {
                    ratio
                } else {
                    one
                },
                stats,
            }
        },
    }
}

/// Whether sound with this peak must be made softer.
pub fn too_loud(peak: F32) -> (r: bool)
    ensures
        r == (F32 { bits: ONE_SINGLE }).less(peak),
        r <==> (F32 { bits: 0x3f80_0000 }).less(peak),
{
    F32::from_bits(ONE_SINGLE).lt(peak)
}

/// Checks that a recording has one channel. `path` is the path as it is shown.
pub fn check_mono(channels: u16, path: &str) -> (r: AppResult<()>)
    ensures
        match r {
            Ok(_) => channels == 1,
            Err(e) => {
                &&& channels != 1
                &&& e is AudioDecodeError
                &&& e->AudioDecodeError_0@ == "Expected mono, got "@ + text::decimal(
                    channels as nat,
                ) + " channels for "@ + path@
            },
        },
{
    if channels != 1 {
        return Err(
            AppError::AudioDecodeError(
                cat4(
                    "Expected mono, got ",
                    text::decimal_text(channels as u64).as_str(),
                    " channels for ",
                    path,
                ),
            ),
        );
    }
    Ok(())
}

} // verus!
