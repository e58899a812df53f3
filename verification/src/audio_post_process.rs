//! The post-processing of synthesised audio: filter chains, command lines, silence.
use vstd::prelude::*;

use crate::error::AppError;
use crate::ieee::{F32, F64};
use crate::text;
use crate::text::{append2, cat3, cat4, cat5, decimal_text, join, padded_text};

verus! {

/// The sample rate of the output of `say`.
pub const SAY_BASE_SAMPLE_RATE: u32 = 24000;

/// The frequency, in Hz, above which sibilants are attenuated.
pub const EQ_HIGH_SHELF_FREQ: u32 = 6000;

/// The frequency, in Hz, below which warmth is added.
pub const EQ_LOW_SHELF_FREQ: u32 = 300;

/// The default length of a cross-fade in milliseconds.
pub const DEFAULT_CROSSFADE_MS: u64 = 50;

/// The least single for which the distance to 1 is at most 0.001, by its bit pattern.
pub const NEAR_ONE_MIN: u32 = 0x3f7f_be77;

/// The greatest single for which the distance to 1 is at most 0.001, by its bit pattern.
pub const NEAR_ONE_MAX: u32 = 0x3f80_20c4;

/// The double nearest to 0.01, by its bit pattern.
pub const HUNDREDTH: u64 = 0x3f84_7ae1_47ae_147b;

/// The double nearest to -0.01, by its bit pattern.
pub const MINUS_HUNDREDTH: u64 = 0xbf84_7ae1_47ae_147b;

/// The single nearest to 0.1, by its bit pattern.
pub const TENTH: u32 = 0x3dcc_cccd;

/// The single nearest to 0.000001, by its bit pattern.
pub const MILLIONTH: u32 = 0x3586_37bd;

/// The number is further than 0.001 from 1.
pub open spec fn off_one(x: F32) -> bool {
    x.less(F32 { bits: NEAR_ONE_MIN }) || F32 { bits: NEAR_ONE_MAX }.less(x)
}

fn is_off_one(x: F32) -> (r: bool)
    ensures
        r == off_one(x),
{
    x.lt(F32::from_bits(NEAR_ONE_MIN)) || F32::from_bits(NEAR_ONE_MAX).lt(x)
}

/// The number is further than 0.01 from 0.
pub open spec fn off_zero(x: F64) -> bool {
    x.less(F64 { bits: MINUS_HUNDREDTH }) || F64 { bits: HUNDREDTH }.less(x)
}

/// A number of thousandths as seconds with three decimals.
pub open spec fn thousandths(ms: u64) -> Seq<char> {
    text::decimal((ms / 1000) as nat) + "."@ + text::padded((ms % 1000) as nat, 3)
}

/// Seconds with three decimals: whole seconds, a point, and three digits that make up the milliseconds.
pub proof fn law_thousandths(secs: nat, ms: nat, n: u64)
    requires
        ms < 1000,
        n == 1000 * secs + ms,
    ensures
        thousandths(n) == text::decimal(secs) + "."@ + text::padded(ms, 3),
{
}

/// `ms` milliseconds as seconds with three decimals.
pub fn seconds_text(ms: u64) -> (r: String)
    ensures
        r@ == thousandths(ms),
{
    cat3(decimal_text(ms / 1000).as_str(), ".", padded_text(ms % 1000, 3).as_str())
}

/// What the filter chain of a voice is made from.
#[derive(Debug, Clone)]
pub struct FilterSettings {
    /// The pitch of the voice times that of the settings.
    pub combined_pitch: F32,
    /// The sample rate that gives this pitch.
    pub new_rate: u32,
    /// The tempo that makes up for it, with four decimals.
    pub tempo: String,
    /// The volume.
    pub volume: F32,
    /// The volume with four decimals.
    pub volume_text: String,
    /// The attenuation of high frequencies in dB.
    pub eq_high_shelf_db: F64,
    /// The attenuation with two decimals.
    pub eq_text: String,
    /// The length of a cross-fade in milliseconds.
    pub crossfade_duration_ms: u64,
}

/// The list with one element where `cond` holds, else the empty one.
pub open spec fn part(cond: bool, s: Seq<char>) -> Seq<Seq<char>> {
    if cond {
        seq![s]
    } else {
        Seq::empty()
    }
}

/// The filters of a voice: pitch, volume and sibilants only where the settings change them, then
/// warmth, gain control, and a fade at either end.
pub open spec fn filters(s: FilterSettings) -> Seq<Seq<char>> {
    let fade = "afade=t=in:st=0:d="@ + thousandths(s.crossfade_duration_ms);
    part(
        off_one(s.combined_pitch),
        "asetrate="@ + text::decimal(s.new_rate as nat) + ",atempo="@ + s.tempo@,
    ) + part(off_one(s.volume), "volume="@ + s.volume_text@) + part(
        off_zero(s.eq_high_shelf_db),
        "highshelf=f=6000:g="@ + s.eq_text@,
    ) + seq![
        "lowshelf=f=300:g=2.00"@,
        "dynaudnorm=f=150:g=15:p=0.9"@,
        fade,
        "areverse"@,
        fade,
        "areverse"@,
    ]
}

fn push_part(list: &mut Vec<String>, cond: bool, s: String)
    ensures
        text::texts(final(list)@) == text::texts(old(list)@) + part(cond, s@),
{
    if cond {
        list.push(s);
    }
    assert(text::texts(list@) =~= text::texts(old(list)@) + part(cond, s@));
}

/// The filter chain of a voice for ffmpeg.
pub fn build_filter_chain(s: &FilterSettings) -> (r: String)
    ensures
        r@ == text::joined(filters(*s), ","@),
{
    let mut list: Vec<String> = Vec::new();
    let fade = seconds_text(s.crossfade_duration_ms);
    push_part(
        &mut list,
        is_off_one(s.combined_pitch),
        cat4(
            "asetrate=",
            decimal_text(s.new_rate as u64).as_str(),
            ",atempo=",
            s.tempo.as_str(),
        ),
    );
    push_part(&mut list, is_off_one(s.volume), append2("volume=", s.volume_text.as_str()));
    push_part(
        &mut list,
        s.eq_high_shelf_db.lt(F64::from_bits(MINUS_HUNDREDTH)) || F64::from_bits(HUNDREDTH).lt(
            s.eq_high_shelf_db,
        ),
        append2("highshelf=f=6000:g=", s.eq_text.as_str()),
    );
    list.push("lowshelf=f=300:g=2.00".to_owned());
    list.push("dynaudnorm=f=150:g=15:p=0.9".to_owned());
    list.push(append2("afade=t=in:st=0:d=", fade.as_str()));
    list.push("areverse".to_owned());
    list.push(append2("afade=t=in:st=0:d=", fade.as_str()));
    list.push("areverse".to_owned());
    assert(text::texts(list@) =~= filters(*s));
    join(&list, ",")
}

/// The order of the filters does not depend on the settings: the last six are always there, and what
/// comes before them is at most three.
pub proof fn law_fixed_filters(s: FilterSettings)
    ensures
        6 <= filters(s).len() <= 9,
        filters(s)[filters(s).len() - 6] == "lowshelf=f=300:g=2.00"@,
        filters(s)[filters(s).len() - 5] == "dynaudnorm=f=150:g=15:p=0.9"@,
        filters(s).last() == "areverse"@,
{
}

/// Which filters there are: one for the pitch and one for the volume where these are further than 0.001
/// from 1, one for sibilants where the attenuation is further than 0.01 from 0, and then always six.
pub proof fn law_filters_follow_settings(s: FilterSettings)
    ensures
        ({
            let pitch = s.combined_pitch.less(F32 { bits: 0x3f7f_be77 }) || (F32 {
                bits: 0x3f80_20c4,
            }).less(s.combined_pitch);
            let volume = s.volume.less(F32 { bits: 0x3f7f_be77 }) || (F32 {
                bits: 0x3f80_20c4,
            }).less(s.volume);
            let eq = s.eq_high_shelf_db.less(F64 { bits: 0xbf84_7ae1_47ae_147b }) || (F64 {
                bits: 0x3f84_7ae1_47ae_147b,
            }).less(s.eq_high_shelf_db);
            let fade = "afade=t=in:st=0:d="@ + thousandths(s.crossfade_duration_ms);
            let none = Seq::<Seq<char>>::empty();
            filters(s) == (if pitch {
                seq!["asetrate="@ + text::decimal(s.new_rate as nat) + ",atempo="@ + s.tempo@]
            } else {
                none
            }) + (if volume {
                seq!["volume="@ + s.volume_text@]
            } else {
                none
            }) + (if eq {
                seq!["highshelf=f=6000:g="@ + s.eq_text@]
            } else {
                none
            }) + seq![
                "lowshelf=f=300:g=2.00"@,
                "dynaudnorm=f=150:g=15:p=0.9"@,
                fade,
                "areverse"@,
                fade,
                "areverse"@,
            ]
        }),
{
}

/// The arguments of ffmpeg for the post-processing of `input`.
pub open spec fn process_line(
    input: Seq<char>,
    filter_chain: Seq<char>,
    sample_rate: u32,
    output: Seq<char>,
) -> Seq<Seq<char>> {
    seq![
        "-y"@,
        "-i"@,
        input,
        "-af"@,
        filter_chain,
        "-ar"@,
        text::decimal(sample_rate as nat),
        "-ac"@,
        "1"@,
        "-c:a"@,
        "pcm_s16le"@,
        output,
    ]
}

/// The arguments of ffmpeg for the post-processing of `input`.
pub fn process_args(input: &str, filter_chain: &str, sample_rate: u32, output: &str) -> (r: Vec<
    String,
>)
    ensures
        text::texts(r@) == process_line(input@, filter_chain@, sample_rate, output@),
        text::texts(r@) == seq![
            "-y"@,
            "-i"@,
            input@,
            "-af"@,
            filter_chain@,
            "-ar"@,
            text::decimal(sample_rate as nat),
            "-ac"@,
            "1"@,
            "-c:a"@,
            "pcm_s16le"@,
            output@,
        ],
{
    let mut args: Vec<String> = Vec::new();
    args.push("-y".to_owned());
    args.push("-i".to_owned());
    args.push(input.to_owned());
    args.push("-af".to_owned());
    args.push(filter_chain.to_owned());
    args.push("-ar".to_owned());
    args.push(decimal_text(sample_rate as u64));
    args.push("-ac".to_owned());
    args.push("1".to_owned());
    args.push("-c:a".to_owned());
    args.push("pcm_s16le".to_owned());
    args.push(output.to_owned());
    assert(text::texts(args@) =~= process_line(input@, filter_chain@, sample_rate, output@));
    args
}

/// The arguments of ffmpeg for the removal of silence at either end of `input`: of more than a tenth
/// of a second below -40 dB.
pub open spec fn remove_silence_line(input: Seq<char>, output: Seq<char>) -> Seq<Seq<char>> {
    seq![
        "-y"@,
        "-i"@,
        input,
        "-af"@,
        "silenceremove=start_periods=1:start_duration=0.1:start_threshold=-40dB:stop_periods=0:stop_duration=0.1:stop_threshold=-40dB"@,
        "-c:a"@,
        "pcm_s16le"@,
        output,
    ]
}

/// The arguments of ffmpeg for the removal of silence at either end of `input`.
pub fn remove_silence_args(input: &str, output: &str) -> (r: Vec<String>)
    ensures
        text::texts(r@) == remove_silence_line(input@, output@),
        text::texts(r@) == seq![
            "-y"@,
            "-i"@,
            input@,
            "-af"@,
            "silenceremove=start_periods=1:start_duration=0.1:start_threshold=-40dB:stop_periods=0:stop_duration=0.1:stop_threshold=-40dB"@,
            "-c:a"@,
            "pcm_s16le"@,
            output@,
        ],
{
    let mut args: Vec<String> = Vec::new();
    args.push("-y".to_owned());
    args.push("-i".to_owned());
    args.push(input.to_owned());
    args.push("-af".to_owned());
    args.push(
        "silenceremove=start_periods=1:start_duration=0.1:start_threshold=-40dB:stop_periods=0:stop_duration=0.1:stop_threshold=-40dB".to_owned(),
    );
    args.push("-c:a".to_owned());
    args.push("pcm_s16le".to_owned());
    args.push(output.to_owned());
    assert(text::texts(args@) =~= remove_silence_line(input@, output@));
    args
}

/// The arguments of ffmpeg for putting music under a voice. `volume` is the volume of the music with
/// two decimals.
pub open spec fn mix_music_line(
    voice: Seq<char>,
    music: Seq<char>,
    output: Seq<char>,
    volume: Seq<char>,
    repeat: bool,
) -> Seq<Seq<char>> {
    seq!["-y"@, "-i"@, voice] + if repeat {
        seq!["-stream_loop"@, "-1"@]
    } else {
        Seq::empty()
    } + seq![
        "-i"@,
        music,
        "-filter_complex"@,
        "[1:a]volume="@ + volume
            + "[bg];[0:a][bg]amix=inputs=2:duration=first:dropout_transition=2[aout]"@,
        "-map"@,
        "[aout]"@,
        "-c:a"@,
        "pcm_s16le"@,
        output,
    ]
}

/// The arguments of ffmpeg for putting music under a voice.
pub fn mix_music_args(
    voice: &str,
    music: &str,
    output: &str,
    volume: &str,
    repeat: bool,
) -> (r: Vec<String>)
    ensures
        text::texts(r@) == mix_music_line(voice@, music@, output@, volume@, repeat),
        ({
            let mix = "[1:a]volume="@ + volume@
                + "[bg];[0:a][bg]amix=inputs=2:duration=first:dropout_transition=2[aout]"@;
            &&& repeat ==> text::texts(r@) =~= seq![
                "-y"@,
                "-i"@,
                voice@,
                "-stream_loop"@,
                "-1"@,
                "-i"@,
                music@,
                "-filter_complex"@,
                mix,
                "-map"@,
                "[aout]"@,
                "-c:a"@,
                "pcm_s16le"@,
                output@,
            ]
            &&& !repeat ==> text::texts(r@) =~= seq![
                "-y"@,
                "-i"@,
                voice@,
                "-i"@,
                music@,
                "-filter_complex"@,
                mix,
                "-map"@,
                "[aout]"@,
                "-c:a"@,
                "pcm_s16le"@,
                output@,
            ]
        }),
{
    let mut args: Vec<String> = Vec::new();
    args.push("-y".to_owned());
    args.push("-i".to_owned());
    args.push(voice.to_owned());
    if repeat {
        args.push("-stream_loop".to_owned());
        args.push("-1".to_owned());
    }
    args.push("-i".to_owned());
    args.push(music.to_owned());
    args.push("-filter_complex".to_owned());
    args.push(
        cat3(
            "[1:a]volume=",
            volume,
            "[bg];[0:a][bg]amix=inputs=2:duration=first:dropout_transition=2[aout]",
        ),
    );
    args.push("-map".to_owned());
    args.push("[aout]".to_owned());
    args.push("-c:a".to_owned());
    args.push("pcm_s16le".to_owned());
    args.push(output.to_owned());
    assert(text::texts(args@) =~= mix_music_line(voice@, music@, output@, volume@, repeat));
    args
}

/// The arguments of ffmpeg for music of a given length: played at the tempo `tempo`, or repeated
/// where there is none. `length` is in seconds with three decimals, `tempo` has four.
pub open spec fn extend_music_line(
    music: Seq<char>,
    output: Seq<char>,
    length: Seq<char>,
    tempo: Option<Seq<char>>,
) -> Seq<Seq<char>> {
    seq!["-y"@, "-i"@, music] + match tempo {
        Some(t) => seq!["-af"@, "atempo="@ + t],
        None => seq!["-stream_loop"@, "-1"@],
    } + seq!["-t"@, length, "-c:a"@, "pcm_s16le"@, output]
}

/// The arguments of ffmpeg for music of a given length.
pub fn extend_music_args(music: &str, output: &str, length: &str, tempo: Option<&str>) -> (r: Vec<
    String,
>)
    ensures
        text::texts(r@) == extend_music_line(
            music@,
            output@,
            length@,
            match tempo {
                Some(t) => Some(t@),
                None => None,
            },
        ),
        tempo matches Some(t) ==> text::texts(r@) =~= seq![
            "-y"@,
            "-i"@,
            music@,
            "-af"@,
            "atempo="@ + t@,
            "-t"@,
            length@,
            "-c:a"@,
            "pcm_s16le"@,
            output@,
        ],
        tempo is None ==> text::texts(r@) =~= seq![
            "-y"@,
            "-i"@,
            music@,
            "-stream_loop"@,
            "-1"@,
            "-t"@,
            length@,
            "-c:a"@,
            "pcm_s16le"@,
            output@,
        ],
{
    let mut args: Vec<String> = Vec::new();
    args.push("-y".to_owned());
    args.push("-i".to_owned());
    args.push(music.to_owned());
    match tempo {
        Some(t) => {
            args.push("-af".to_owned());
            args.push(append2("atempo=", t));
        },
        None => {
            args.push("-stream_loop".to_owned());
            args.push("-1".to_owned());
        },
    }
    args.push("-t".to_owned());
    args.push(length.to_owned());
    args.push("-c:a".to_owned());
    args.push("pcm_s16le".to_owned());
    args.push(output.to_owned());
    assert(text::texts(args@) =~= extend_music_line(
        music@,
        output@,
        length@,
        match tempo {
            Some(t) => Some(t@),
            None => None,
        },
    ));
    args
}

/// The format of a WAV file.
#[derive(Debug, Clone, Copy)]
pub struct WavFormat {
    /// The sample rate in Hz.
    pub sample_rate: u32,
    /// The number of channels.
    pub channels: u16,
    /// The number of bits in a sample.
    pub bits_per_sample: u16,
}

/// The result is an encoding error with this message.
pub open spec fn encode_error(r: Result<(), AppError>, message: Seq<char>) -> bool {
    r matches Err(AppError::TtsAudioEncodeError(m)) && m@ == message
}

/// An encoding error is an error of that kind with exactly that message.
pub proof fn law_encode_error(r: Result<(), AppError>, message: Seq<char>)
    requires
        encode_error(r, message),
    ensures
        r is Err,
        r->Err_0 is TtsAudioEncodeError,
        r->Err_0->TtsAudioEncodeError_0@ == message,
{
}

/// Checks that a WAV file is mono with 16 bits at the expected rate, and has samples. `shown` is its
/// quoted path.
pub fn validate_wav(
    format: &WavFormat,
    sample_count: usize,
    expected_sample_rate: u32,
    shown: &str,
) -> (r: Result<(), AppError>)
    ensures
        if format.sample_rate != expected_sample_rate || format.channels != 1
            || format.bits_per_sample != 16 {
            encode_error(
                r,
                "Output WAV format mismatch: expected "@ + text::decimal(
                    expected_sample_rate as nat,
                ) + "Hz mono 16-bit, got "@ + text::decimal(format.sample_rate as nat) + "Hz "@
                    + text::decimal(format.channels as nat) + "ch "@ + text::decimal(
                    format.bits_per_sample as nat,
                ) + "bit\n文件: "@ + shown@,
            )
        } else if sample_count == 0 {
            encode_error(r, "Output WAV contains no audio samples\n文件: "@ + shown@)
        } else {
            r is Ok
        },
{
    if format.sample_rate != expected_sample_rate || format.channels != 1 || format.bits_per_sample
        != 16 {
        let mut message = cat5(
            "Output WAV format mismatch: expected ",
            decimal_text(expected_sample_rate as u64).as_str(),
            "Hz mono 16-bit, got ",
            decimal_text(format.sample_rate as u64).as_str(),
            "Hz ",
        );
        message.append(decimal_text(format.channels as u64).as_str());
        message.append("ch ");
        message.append(decimal_text(format.bits_per_sample as u64).as_str());
        message.append("bit\n文件: ");
        message.append(shown);
        return Err(AppError::TtsAudioEncodeError(message));
    }
    if sample_count == 0 {
        let mut message = "Output WAV contains no audio samples\n文件: ".to_owned();
        message.append(shown);
        return Err(AppError::TtsAudioEncodeError(message));
    }
    Ok(())
}

/// How the volume of generated audio is set.
#[derive(Debug, Clone, Copy, PartialEq, Eq, Structural)]
pub enum VolumeRule {
    /// By the reference: scaled by its RMS over 0.1.
    ByReference,
    /// By the peak: scaled so that the peak is 0.5.
    ByPeak,
    /// Left as it is.
    Unchanged,
}

/// How the volume is set: by the reference where its RMS is below 0.1, not at all where it is not,
/// and by the peak where there is no reference, unless the audio is silent.
pub fn volume_rule(ref_rms: Option<F32>, peak: F32) -> (r: VolumeRule)
    ensures
        r == match ref_rms {
            Some(rms) => if rms.less((F32 { bits: TENTH })) {
                VolumeRule::ByReference
            } else {
                VolumeRule::Unchanged
            },
            None => if (F32 { bits: MILLIONTH }).less(peak) {
                VolumeRule::ByPeak
            } else {
                VolumeRule::Unchanged
            },
        },
        r is ByReference <==> (ref_rms matches Some(rms) && rms.less(F32 { bits: 0x3dcc_cccd })),
        r is ByPeak <==> ref_rms is None && (F32 { bits: 0x3586_37bd }).less(peak),
{
    match ref_rms {
        Some(rms) => if rms.lt(F32::from_bits(TENTH)) {
            VolumeRule::ByReference
        } else {
            VolumeRule::Unchanged
        },
        None => if F32::from_bits(MILLIONTH).lt(peak) {
            VolumeRule::ByPeak
        } else {
            VolumeRule::Unchanged
        },
    }
}

/// How many samples at either end of `len` are faded: as many as were asked for, but no more than
/// half of them.
pub fn fade_len(len: usize, fade_samples: usize) -> (r: usize)
    ensures
        r == if fade_samples <= len / 2 {
            fade_samples
        } else {
            len / 2
        },
{
    if fade_samples <= len / 2 {
        fade_samples
    } else {
        len / 2
    }
}

/// `samples` with `pad` times `silence` at either end; nothing is added to no samples.
pub fn pad_silence<T: Copy>(samples: &Vec<T>, silence: T, pad: usize) -> (r: Vec<T>)
    requires
        samples@.len() > 0 ==> samples@.len() + 2 * pad <= usize::MAX,
    ensures
        r@ == if samples@.len() == 0 {
            Seq::empty()
        } else {
            Seq::new(pad as nat, |i: int| silence) + samples@ + Seq::new(
                pad as nat,
                |i: int| silence,
            )
        },
{
    let mut out: Vec<T> = Vec::new();
    if samples.is_empty() {
        return out;
    }
    let ghost edge = Seq::new(pad as nat, |i: int| silence);
    let mut i: usize = 0;
    while i < pad
        invariant
            i <= pad,
            out@ == Seq::new(i as nat, |i: int| silence),
        decreases pad - i,
    {
        out.push(silence);
        i += 1;
        assert(out@ =~= Seq::new(i as nat, |i: int| silence));
    }
    let mut j: usize = 0;
    while j < samples.len()
        invariant
            j <= samples@.len(),
            edge == Seq::new(pad as nat, |i: int| silence),
            out@ == edge + samples@.take(j as int),
        decreases samples@.len() - j,
    {
        out.push(samples[j]);
        j += 1;
        assert(out@ =~= edge + samples@.take(j as int));
    }
    assert(samples@.take(samples@.len() as int) == samples@);
    let mut k: usize = 0;
    assert(out@ =~= edge + samples@ + Seq::new(0, |i: int| silence));
    while k < pad
        invariant
            k <= pad,
            out@ == edge + samples@ + Seq::new(k as nat, |i: int| silence),
        decreases pad - k,
    {
        out.push(silence);
        k += 1;
        assert(out@ =~= edge + samples@ + Seq::new(k as nat, |i: int| silence));
    }
    out
}

/// How many frames of `fs` samples cover `len` samples; the last may be shorter.
pub open spec fn frame_count(len: nat, fs: nat) -> nat {
    (len + fs - 1) as nat / fs
}

/// The `f`-th frame of `fs` samples.
pub open spec fn frame<T>(samples: Seq<T>, fs: nat, f: int) -> Seq<T> {
    let end = (f + 1) * fs;
    samples.subrange(
        f * fs,
        if end < samples.len() {
            end
        } else {
            samples.len() as int
        },
    )
}

/// The first frame of the run of silent frames that ends right before `f`.
pub open spec fn run_start(silent: Seq<bool>, f: int) -> int
    decreases f,
{
    if 0 < f <= silent.len() && silent[f - 1] {
        run_start(silent, f - 1)
    } else {
        f
    }
}

/// The frame after the run of silent frames that starts at `f`.
pub open spec fn run_end(silent: Seq<bool>, f: int) -> int
    decreases silent.len() - f,
{
    if 0 <= f < silent.len() && silent[f] {
        run_end(silent, f + 1)
    } else {
        f
    }
}

/// How many frames are kept of a pause that is too long: a third of the longest one that is not, but
/// at least one.
pub open spec fn kept_of_pause(mid: nat) -> nat {
    if mid / 3 > 1 {
        mid / 3
    } else {
        1
    }
}

/// The frame `f` stays: of the silence before the first sound the last `lead` frames, of that after
/// the last sound the first `trail` frames; of a pause in between all of it, or its first frames
/// where it is longer than `mid`; and all sound.
pub open spec fn stays(silent: Seq<bool>, mid: nat, lead: nat, trail: nat, f: int) -> bool {
    let first = run_end(silent, 0);
    let last = run_start(silent, silent.len() as int) - 1;
    if f < first {
        first - f <= lead
    } else if f > last {
        f - last <= trail
    } else if silent[f] {
        run_end(silent, f) - run_start(silent, f) <= mid || f - run_start(silent, f)
            < kept_of_pause(mid)
    } else {
        true
    }
}

/// The samples of those of the first `n` frames that stay.
pub open spec fn kept_samples<T>(
    samples: Seq<T>,
    fs: nat,
    silent: Seq<bool>,
    mid: nat,
    lead: nat,
    trail: nat,
    n: int,
) -> Seq<T>
    decreases n,
{
    if n <= 0 {
        Seq::empty()
    } else if stays(silent, mid, lead, trail, n - 1) {
        kept_samples(samples, fs, silent, mid, lead, trail, n - 1) + frame(samples, fs, n - 1)
    } else {
        kept_samples(samples, fs, silent, mid, lead, trail, n - 1)
    }
}

/// All frames are silent.
pub open spec fn all_silent(silent: Seq<bool>) -> bool {
    forall|i: int| 0 <= i < silent.len() ==> #[trigger] silent[i]
}

proof fn lemma_frame_start(len: nat, fs: nat, f: int)
    requires
        fs > 0,
        0 <= f < frame_count(len, fs),
    ensures
        0 <= f * fs < len,
{
    assert(0 <= f * fs < len) by (nonlinear_arith)
        requires
            fs > 0,
            0 <= f < ((len + fs - 1) as nat / fs),
    ;
}

proof fn lemma_run_end(silent: Seq<bool>, f: int)
    requires
        0 <= f <= silent.len(),
    ensures
        f <= run_end(silent, f) <= silent.len(),
        forall|i: int| f <= i < run_end(silent, f) ==> #[trigger] silent[i],
        run_end(silent, f) < silent.len() ==> !silent[run_end(silent, f)],
    decreases silent.len() - f,
{
    if f < silent.len() && silent[f] {
        lemma_run_end(silent, f + 1);
    }
}

proof fn lemma_run_start(silent: Seq<bool>, f: int)
    requires
        0 <= f <= silent.len(),
    ensures
        0 <= run_start(silent, f) <= f,
        forall|i: int| run_start(silent, f) <= i < f ==> #[trigger] silent[i],
        run_start(silent, f) > 0 ==> !silent[run_start(silent, f) - 1],
    decreases f,
{
    if f > 0 && silent[f - 1] {
        lemma_run_start(silent, f - 1);
    }
}

proof fn lemma_inside_run(silent: Seq<bool>, from: int, to: int, f: int)
    requires
        0 <= from <= f < to <= silent.len(),
        from > 0 ==> !silent[from - 1],
        to < silent.len() ==> !silent[to],
        forall|i: int| from <= i < to ==> #[trigger] silent[i],
    ensures
        run_start(silent, f) == from,
        run_end(silent, f) == to,
{
    lemma_run_start(silent, f);
    lemma_run_end(silent, f);
    let s = run_start(silent, f);
    let e = run_end(silent, f);
    assert(s <= from) by {
        if s > from {
            assert(silent[s - 1]);
        }
    }
    assert(s >= from) by {
        if s < from {
            assert(silent[from - 1]);
        }
    }
    assert(e >= to) by {
        if e < to {
            assert(silent[e]);
        }
    }
    assert(e <= to) by {
        if e > to {
            assert(silent[to]);
        }
    }
}

fn push_frame<T: Copy>(out: &mut Vec<T>, samples: &Vec<T>, fs: usize, f: usize)
    requires
        fs > 0,
        f < frame_count(samples@.len(), fs as nat),
    ensures
        final(out)@ == old(out)@ + frame(samples@, fs as nat, f as int),
{
    proof {
        lemma_frame_start(samples@.len(), fs as nat, f as int);
        assert((f + 1) * fs == f * fs + fs) by (nonlinear_arith);
    }
    let len: usize = samples.len();
    let start: usize = f * fs;
    let end: usize = if fs < samples.len() - start {
        start + fs
    } else {
        samples.len()
    };
    let mut i: usize = start;
    while i < end
        invariant
            start <= i <= end <= samples@.len(),
            out@ == old(out)@ + samples@.subrange(start as int, i as int),
        decreases end - i,
    {
        out.push(samples[i]);
        i += 1;
        assert(out@ =~= old(out)@ + samples@.subrange(start as int, i as int));
    }
}

/// Shortens the silence in `samples`, of which `silent` says frame by frame (of a fiftieth of a
/// second) which are silent: pauses of more than `mid_sil_ms` milliseconds, and the silence at the
/// start and at the end down to `lead_sil_ms` and `trail_sil_ms`. What is all silent is left as it
/// is, and so is what has too low a sample rate to have frames.
pub fn remove_mid_silence<T: Copy>(
    samples: &Vec<T>,
    silent: &Vec<bool>,
    sample_rate: u32,
    mid_sil_ms: u32,
    lead_sil_ms: u32,
    trail_sil_ms: u32,
) -> (r: Vec<T>)
    requires
        sample_rate >= 50 ==> silent@.len() == frame_count(
            samples@.len(),
            (sample_rate / 50) as nat,
        ),
    ensures
        r@ == if sample_rate < 50 || all_silent(silent@) {
            samples@
        } else {
            kept_samples(
                samples@,
                (sample_rate / 50) as nat,
                silent@,
                (mid_sil_ms / 20) as nat,
                (lead_sil_ms / 20) as nat,
                (trail_sil_ms / 20) as nat,
                silent@.len() as int,
            )
        },
{
    let fs: usize = (sample_rate / 50) as usize;
    let total: usize = silent.len();
    let mut first: usize = 0;
    if fs > 0 {
        while first < total && silent[first]
            invariant
                first <= total == silent@.len(),
                forall|i: int| 0 <= i < first ==> #[trigger] silent@[i],
            decreases total - first,
        {
            first += 1;
        }
    }
    if fs == 0 || first == total {
        let mut copy: Vec<T> = Vec::new();
        let mut i: usize = 0;
        while i < samples.len()
            invariant
                i <= samples@.len(),
                copy@ == samples@.take(i as int),
            decreases samples@.len() - i,
        {
            copy.push(samples[i]);
            i += 1;
        }
        assert(samples@.take(samples@.len() as int) == samples@);
        return copy;
    }
    let mut after: usize = total;
    while silent[after - 1]
        invariant
            first < after <= total == silent@.len(),
            !silent@[first as int],
            forall|i: int| after <= i < total ==> #[trigger] silent@[i],
        decreases after,
    {
        after -= 1;
    }
    let mid: usize = (mid_sil_ms / 20) as usize;
    let lead: usize = (lead_sil_ms / 20) as usize;
    let trail: usize = (trail_sil_ms / 20) as usize;
    let keep: usize = if mid / 3 > 1 {
        mid / 3
    } else {
        1
    };
    let ghost fsn = fs as nat;
    let ghost (m, l, t) = (mid as nat, lead as nat, trail as nat);
    proof {
        assert(!silent@[first as int]);
        lemma_run_end(silent@, 0);
        lemma_run_start(silent@, total as int);
        let e = run_end(silent@, 0);
        let b = run_start(silent@, total as int);
        assert(e == first) by {
            if e < first {
                assert(silent@[e]);
            }
            if e > first {
                assert(silent@[first as int]);
            }
        }
        assert(b == after) by {
            if b > after {
                assert(silent@[b - 1]);
            }
            if b < after {
                assert(silent@[after - 1]);
            }
        }
    }
    let mut out: Vec<T> = Vec::new();
    let mut i: usize = 0;
    while i < first
        invariant
            0 <= i <= first < after <= total == silent@.len(),
            fs > 0,
            fsn == fs,
            total == frame_count(samples@.len(), fsn),
            m == mid && l == lead && t == trail,
            first == run_end(silent@, 0),
            after == run_start(silent@, total as int),
            out@ == kept_samples(samples@, fsn, silent@, m, l, t, i as int),
        decreases first - i,
    {
        if first - i <= lead {
            push_frame(&mut out, samples, fs, i);
        }
        i += 1;
    }
    while i < after
        invariant
            first <= i <= after <= total == silent@.len(),
            fs > 0,
            fsn == fs,
            total == frame_count(samples@.len(), fsn),
            m == mid && l == lead && t == trail,
            keep == kept_of_pause(m),
            first == run_end(silent@, 0),
            after == run_start(silent@, total as int),
            !silent@[first as int],
            !silent@[after - 1],
            i > 0 ==> !silent@[i - 1] || i == first,
            out@ == kept_samples(samples@, fsn, silent@, m, l, t, i as int),
        decreases after - i,
    {
        if !silent[i] {
            push_frame(&mut out, samples, fs, i);
            i += 1;
        } else {
            let from = i;
            let mut to: usize = i;
            while silent[to]
                invariant
                    first <= from <= to < after <= total == silent@.len(),
                    !silent@[after - 1],
                    forall|k: int| from <= k < to ==> #[trigger] silent@[k],
                decreases after - to,
            {
                assert(to != after - 1);
                to += 1;
            }
            let count: usize = if to - from <= mid {
                to - from
            } else {
                keep
            };
            while i < to
                invariant
                    first < from <= i <= to < after <= total == silent@.len(),
                    fs > 0,
                    fsn == fs,
                    total == frame_count(samples@.len(), fsn),
                    m == mid && l == lead && t == trail,
                    keep == kept_of_pause(m),
                    first == run_end(silent@, 0),
                    after == run_start(silent@, total as int),
                    !silent@[from - 1],
                    !silent@[to as int],
                    forall|k: int| from <= k < to ==> #[trigger] silent@[k],
                    count == if to - from <= mid {
                        to - from
                    } else {
                        keep as int
                    },
                    out@ == kept_samples(samples@, fsn, silent@, m, l, t, i as int),
                decreases to - i,
            {
                proof {
                    lemma_inside_run(silent@, from as int, to as int, i as int);
                }
                if i - from < count {
                    push_frame(&mut out, samples, fs, i);
                }
                i += 1;
            }
            push_frame(&mut out, samples, fs, i);
            i += 1;
        }
    }
    while i < total
        invariant
            first < after <= i <= total == silent@.len(),
            fs > 0,
            fsn == fs,
            total == frame_count(samples@.len(), fsn),
            m == mid && l == lead && t == trail,
            first == run_end(silent@, 0),
            after == run_start(silent@, total as int),
            out@ == kept_samples(samples@, fsn, silent@, m, l, t, i as int),
        decreases total - i,
    {
        if i - (after - 1) <= trail {
            push_frame(&mut out, samples, fs, i);
        }
        i += 1;
    }
    out
}

/// Sound is never removed: a frame that is not silent stays.
pub proof fn law_sound_stays(silent: Seq<bool>, mid: nat, lead: nat, trail: nat, f: int)
    requires
        0 <= f < silent.len(),
        !silent[f],
    ensures
        stays(silent, mid, lead, trail, f),
{
    lemma_run_end(silent, 0);
    lemma_run_start(silent, silent.len() as int);
    if f < run_end(silent, 0) {
        assert(silent[f]);
    }
    if f >= run_start(silent, silent.len() as int) {
        assert(silent[f]);
    }
}

/// A pause between sounds that is no longer than the limit stays whole.
pub proof fn law_short_pause_stays(
    silent: Seq<bool>,
    mid: nat,
    lead: nat,
    trail: nat,
    from: int,
    to: int,
    f: int,
)
    requires
        0 < from <= f < to < silent.len(),
        !silent[from - 1],
        !silent[to],
        forall|i: int| from <= i < to ==> #[trigger] silent[i],
        to - from <= mid,
    ensures
        stays(silent, mid, lead, trail, f),
{
    lemma_run_end(silent, 0);
    lemma_run_start(silent, silent.len() as int);
    lemma_inside_run(silent, from, to, f);
    if from - 1 < run_end(silent, 0) {
        assert(silent[from - 1]);
    }
    if to >= run_start(silent, silent.len() as int) {
        assert(silent[to]);
    }
}

/// Of a pause between sounds that is longer than the limit the first `k` frames stay and no others: a
/// third of the limit, but at least one.
pub proof fn law_long_pause_is_shortened(
    silent: Seq<bool>,
    mid: nat,
    lead: nat,
    trail: nat,
    from: int,
    to: int,
    f: int,
    k: nat,
)
    requires
        0 < from <= f < to < silent.len(),
        !silent[from - 1],
        !silent[to],
        forall|i: int| from <= i < to ==> #[trigger] silent[i],
        to - from > mid,
        k >= 1,
        k == 1 || 3 * k <= mid,
        3 * (k + 1) > mid,
    ensures
        stays(silent, mid, lead, trail, f) <==> f - from < k,
{
    lemma_inside_run(silent, from, to, f);
    lemma_run_end(silent, 0);
    lemma_run_start(silent, silent.len() as int);
    assert(run_end(silent, 0) <= from - 1) by {
        if run_end(silent, 0) > from - 1 {
            assert(silent[from - 1]);
        }
    }
    assert(run_start(silent, silent.len() as int) > to) by {
        if run_start(silent, silent.len() as int) <= to {
            assert(silent[to]);
        }
    }
}

/// Of the silence before the first sound the last `lead` frames stay, and of that after the last sound the
/// first `trail` frames.
pub proof fn law_silence_at_ends_is_shortened(
    silent: Seq<bool>,
    mid: nat,
    lead: nat,
    trail: nat,
    sound: int,
    f: int,
)
    requires
        0 <= f < silent.len(),
        0 <= sound < silent.len(),
        !silent[sound],
        silent[f],
    ensures
        (forall|i: int| 0 <= i < sound ==> #[trigger] silent[i]) && f < sound ==> (stays(
            silent,
            mid,
            lead,
            trail,
            f,
        ) <==> sound - f <= lead),
        (forall|i: int| sound < i < silent.len() ==> #[trigger] silent[i]) && f > sound ==> (stays(
            silent,
            mid,
            lead,
            trail,
            f,
        ) <==> f - sound <= trail),
{
    lemma_run_end(silent, 0);
    lemma_run_start(silent, silent.len() as int);
    let first = run_end(silent, 0);
    let last = run_start(silent, silent.len() as int) - 1;
    assert(first <= sound) by {
        if first > sound {
            assert(silent[sound]);
        }
    }
    assert(last >= sound) by {
        if last < sound {
            assert(silent[sound]);
        }
    }
    if (forall|i: int| 0 <= i < sound ==> #[trigger] silent[i]) && first < sound {
        assert(silent[first]);
    }
    if (forall|i: int| sound < i < silent.len() ==> #[trigger] silent[i]) && last > sound {
        assert(silent[last]);
    }
}

/// The frames hold the samples in their order: the sample at `i` stands in the frame `i / fs`, at
/// `i % fs`.
pub proof fn law_frames_hold_samples<T>(samples: Seq<T>, fs: nat, i: int)
    requires
        fs > 0,
        0 <= i < samples.len(),
    ensures
        (i / (fs as int)) < frame_count(samples.len(), fs),
        i % (fs as int) < frame(samples, fs, i / fs as int).len() <= fs,
        frame(samples, fs, i / fs as int)[i % (fs as int)] == samples[i],
{
    let f = i / fs as int;
    let len = samples.len();
    assert(f * fs + i % (fs as int) == i && 0 <= i % (fs as int) < fs) by (nonlinear_arith)
        requires
            fs > 0,
            0 <= i,
            f == i / fs as int,
    ;
    assert((f + 1) * fs == f * fs + fs) by (nonlinear_arith);
    assert(f < (len + fs - 1) as nat / fs) by (nonlinear_arith)
        requires
            fs > 0,
            f * fs < len,
            0 <= f,
    ;
    assert(0 <= f * fs) by (nonlinear_arith)
        requires
            0 <= f,
    ;
}

/// What is left are the frames that stay, one after the other.
pub proof fn law_frames_that_stay_are_kept<T>(
    samples: Seq<T>,
    fs: nat,
    silent: Seq<bool>,
    mid: nat,
    lead: nat,
    trail: nat,
    n: int,
)
    requires
        0 <= n,
    ensures
        kept_samples(samples, fs, silent, mid, lead, trail, 0) == Seq::<T>::empty(),
        stays(silent, mid, lead, trail, n) ==> kept_samples(
            samples,
            fs,
            silent,
            mid,
            lead,
            trail,
            n + 1,
        ) == kept_samples(samples, fs, silent, mid, lead, trail, n) + frame(samples, fs, n),
        !stays(silent, mid, lead, trail, n) ==> kept_samples(
            samples,
            fs,
            silent,
            mid,
            lead,
            trail,
            n + 1,
        ) == kept_samples(samples, fs, silent, mid, lead, trail, n),
        all_silent(silent) <==> !silent.contains(false),
{
    if !all_silent(silent) {
        let i = choose|i: int| 0 <= i < silent.len() && !#[trigger] silent[i];
        assert(silent[i] == false);
    }
}

} // verus!
