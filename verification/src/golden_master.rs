//! Golden master tests: an output is boiled down to a fingerprint, which is compared with the one
//! that was accepted before.
use vstd::prelude::*;

use crate::ieee;
use crate::ieee::{F32, F64};
use crate::text;
use crate::text::{
    append2, cat3, cat5, chars_of, count_text, decimal_text, is_whitespace, join, json_stem,
    path_join, same_text,
};

verus! {

/// One byte more than SHA-256 can take.
pub const HASH_LIMIT: u64 = 0x2000_0000_0000_0000;

/// The SHA-256 digest of `data`.
pub uninterp spec fn sha256(data: Seq<u8>) -> Seq<u8>;

/// `sha2::Sha256::digest`: the digest of `data` depends on nothing else, and it has 32 bytes. The
/// length in bits is kept in 64 bits, so `data` must be shorter than 2^61 bytes.
#[verifier::external_body]
fn sha256_digest(data: &[u8]) -> (r: Vec<u8>)
    requires
        data@.len() < HASH_LIMIT,
    ensures
        r@ == sha256(data@),
        r@.len() == 32,
{
    <sha2::Sha256 as sha2::Digest>::digest(data).to_vec()
}

/// `bytes` in hexadecimal, two digits for each.
pub open spec fn hex(bytes: Seq<u8>) -> Seq<char>
    decreases bytes.len(),
{
    if bytes.len() == 0 {
        Seq::empty()
    } else {
        hex(bytes.drop_last()) + seq![
            text::hex_digit(bytes.last() as int / 16),
            text::hex_digit(bytes.last() as int % 16),
        ]
    }
}

/// Different bytes are written differently.
pub proof fn law_hex_tells_apart(a: Seq<u8>, b: Seq<u8>)
    requires
        hex(a) == hex(b),
    ensures
        a == b,
    decreases a.len(),
{
    lemma_hex_len(a);
    lemma_hex_len(b);
    if a.len() > 0 {
        let (x, y) = (hex(a), hex(b));
        assert(x.drop_last().drop_last() =~= hex(a.drop_last()));
        assert(y.drop_last().drop_last() =~= hex(b.drop_last()));
        law_hex_tells_apart(a.drop_last(), b.drop_last());
        assert(x[x.len() - 1] == text::hex_digit(a.last() as int % 16));
        assert(x[x.len() - 2] == text::hex_digit(a.last() as int / 16));
        assert(y[y.len() - 1] == text::hex_digit(b.last() as int % 16));
        assert(y[y.len() - 2] == text::hex_digit(b.last() as int / 16));
        assert(a =~= a.drop_last().push(a.last()));
        assert(b =~= b.drop_last().push(b.last()));
    } else {
        assert(a =~= b);
    }
}

/// Each byte is written with two digits, the upper half first.
pub proof fn law_hex_digits(bytes: Seq<u8>, i: int)
    requires
        0 <= i < bytes.len(),
    ensures
        hex(bytes).len() == 2 * bytes.len(),
        hex(bytes)[2 * i] == "0123456789abcdef"@[bytes[i] as int / 16],
        hex(bytes)[2 * i + 1] == "0123456789abcdef"@[bytes[i] as int % 16],
    decreases bytes.len(),
{
    lemma_hex_len(bytes);
    lemma_hex_len(bytes.drop_last());
    text::law_hex_digit(bytes[i] as int / 16);
    text::law_hex_digit(bytes[i] as int % 16);
    if i < bytes.len() - 1 {
        law_hex_digits(bytes.drop_last(), i);
    }
}

proof fn lemma_hex_len(bytes: Seq<u8>)
    ensures
        hex(bytes).len() == 2 * bytes.len(),
    decreases bytes.len(),
{
    if bytes.len() > 0 {
        lemma_hex_len(bytes.drop_last());
    }
}

fn digit_of(d: u8) -> (r: char)
    requires
        d < 16,
    ensures
        r == text::hex_digit(d as int),
{
    if d < 10 {
        (0x30 + d) as char
    } else {
        (0x57 + d) as char
    }
}

/// The SHA-256 digest of `data` in hexadecimal.
pub fn sha2_hash(data: &[u8]) -> (r: String)
    requires
        data@.len() < HASH_LIMIT,
    ensures
        r@ == hex(sha256(data@)),
        r@.len() == 64,
{
    let digest = sha256_digest(data);
    let mut out = String::new();
    let mut i: usize = 0;
    assert(hex(digest@.take(0)) =~= Seq::empty());
    while i < digest.len()
        invariant
            i <= digest@.len(),
            out@ == hex(digest@.take(i as int)),
        decreases digest@.len() - i,
    {
        let ghost before = out@;
        out.push(digit_of(digest[i] / 16));
        out.push(digit_of(digest[i] % 16));
        proof {
            let more = digest@.take(i + 1);
            assert(more.drop_last() =~= digest@.take(i as int));
            assert(out@ =~= before + seq![
                text::hex_digit(digest@[i as int] as int / 16),
                text::hex_digit(digest@[i as int] as int % 16),
            ]);
        }
        i += 1;
    }
    proof {
        assert(digest@.take(digest@.len() as int) =~= digest@);
        lemma_hex_len(digest@);
    }
    out
}

/// What comes of comparing two fingerprints.
#[derive(Debug, Clone, PartialEq)]
pub enum FingerprintCompare {
    /// The same output.
    Match,
    /// An output with nearly the same features.
    ApproximateMatch,
    /// Another output.
    Changed {
        /// What is different.
        changes: Vec<String>,
    },
}

impl FingerprintCompare {
    /// Whether the output is the same or nearly the same.
    pub fn is_pass(&self) -> (r: bool)
        ensures
            r == !(self is Changed),
    {
        match self {
            FingerprintCompare::Changed { .. } => false,
            _ => true,
        }
    }

    /// The outcome in words.
    pub open spec fn message(self) -> Seq<char> {
        match self {
            FingerprintCompare::Match => "Exact match"@,
            FingerprintCompare::ApproximateMatch => "Approximate match (within tolerance)"@,
            FingerprintCompare::Changed { changes } => "Changed ("@ + text::decimal(
                changes@.len(),
            ) + " differences):\n  - "@ + text::joined(text::texts(changes@), "\n  - "@),
        }
    }

    /// The outcome in words.
    pub fn diff_message(&self) -> (r: String)
        ensures
            r@ == self.message(),
            self is Match ==> r@ == "Exact match"@,
            self is ApproximateMatch ==> r@ == "Approximate match (within tolerance)"@,
            self matches FingerprintCompare::Changed { changes } ==> r@ == "Changed ("@
                + text::decimal(changes@.len()) + " differences):\n  - "@ + text::joined(
                Seq::new(changes@.len(), |i: int| changes@[i]@),
                "\n  - "@,
            ),
    {
        match self {
            FingerprintCompare::Match => "Exact match".to_owned(),
            FingerprintCompare::ApproximateMatch => "Approximate match (within tolerance)".to_owned(),
            FingerprintCompare::Changed { changes } => {
                let mut out = cat3(
                    "Changed (",
                    count_text(changes.len()).as_str(),
                    " differences):\n  - ",
                );
                out.append(join(changes, "\n  - ").as_str());
                out
            },
        }
    }
}

/// How far a feature differs between two fingerprints.
#[derive(Debug, Clone)]
pub struct FeatureChange {
    /// The difference is at most the tolerance.
    pub within: bool,
    /// The difference is above the tolerance.
    pub beyond: bool,
    /// The difference in words.
    pub message: String,
}

/// The words for the features that differ too much, in order.
pub open spec fn changes_among(found: Seq<FeatureChange>) -> Seq<Seq<char>>
    decreases found.len(),
{
    if found.len() == 0 {
        Seq::empty()
    } else if found.last().beyond {
        changes_among(found.drop_last()).push(found.last().message@)
    } else {
        changes_among(found.drop_last())
    }
}

/// The outcome for two outputs with these differences.
pub open spec fn judged(same: bool, found: Seq<FeatureChange>, r: FingerprintCompare) -> bool {
    if same {
        r is Match
    } else if forall|i: int| 0 <= i < found.len() ==> (#[trigger] found[i]).within {
        r is ApproximateMatch
    } else {
        r is Changed && text::texts(r->changes@) == changes_among(found)
    }
}

/// What has changed are the features beyond their tolerance, in order.
pub proof fn law_changes_are_beyond(found: Seq<FeatureChange>)
    ensures
        changes_among(found) == found.filter(|c: FeatureChange| c.beyond).map_values(
            |c: FeatureChange| c.message@,
        ),
    decreases found.len(),
{
    reveal(Seq::filter);
    let kept = found.filter(|c: FeatureChange| c.beyond);
    if found.len() > 0 {
        law_changes_are_beyond(found.drop_last());
        let before = found.drop_last().filter(|c: FeatureChange| c.beyond);
        assert(before.push(found.last()).map_values(|c: FeatureChange| c.message@)
            =~= before.map_values(|c: FeatureChange| c.message@).push(found.last().message@));
    } else {
        assert(kept.map_values(|c: FeatureChange| c.message@) =~= Seq::empty());
    }
}

/// The outcome for two outputs with these differences; `same` says that they have the same digest.
pub fn judge(same: bool, found: &Vec<FeatureChange>) -> (r: FingerprintCompare)
    ensures
        judged(same, found@, r),
        r is Match <==> same,
        r is ApproximateMatch <==> !same && forall|i: int|
            0 <= i < found@.len() ==> (#[trigger] found@[i]).within,
        r is Changed ==> text::texts(r->changes@) == found@.filter(
            |c: FeatureChange| c.beyond,
        ).map_values(|c: FeatureChange| c.message@),
{
    if same {
        return FingerprintCompare::Match;
    }
    let mut close = true;
    let mut changes: Vec<String> = Vec::new();
    let mut i: usize = 0;
    assert(text::texts(changes@) =~= changes_among(found@.take(0)));
    while i < found.len()
        invariant
            i <= found@.len(),
            close == forall|k: int| 0 <= k < i ==> (#[trigger] found@[k]).within,
            text::texts(changes@) == changes_among(found@.take(i as int)),
        decreases found@.len() - i,
    {
        let ghost before = changes@;
        if !found[i].within {
            close = false;
        }
        if found[i].beyond {
            changes.push(found[i].message.as_str().to_owned());
            assert(text::texts(changes@) =~= text::texts(before).push(found@[i as int].message@));
        }
        assert(found@.take(i + 1).drop_last() =~= found@.take(i as int));
        i += 1;
    }
    assert(found@.take(found@.len() as int) =~= found@);
    proof {
        law_changes_are_beyond(found@);
    }
    if close {
        FingerprintCompare::ApproximateMatch
    } else {
        FingerprintCompare::Changed { changes }
    }
}

/// A feature of two fingerprints, and how it is written.
#[derive(Debug, Clone)]
pub struct Measured {
    /// The feature of the one.
    pub before: String,
    /// The feature of the other.
    pub after: String,
    /// How far they are apart.
    pub diff: F64,
    /// How that is written.
    pub diff_text: String,
}

/// The difference of a feature in words.
pub open spec fn change_text(
    name: Seq<char>,
    unit: Seq<char>,
    before: Seq<char>,
    after: Seq<char>,
    diff: Seq<char>,
    tolerance: Seq<char>,
) -> Seq<char> {
    name + ": "@ + before + unit + " → "@ + after + unit + " (Δ="@ + diff + unit + ", tol="@
        + tolerance + unit + ")"@
}

fn change_message(
    name: &str,
    unit: &str,
    before: &str,
    after: &str,
    diff: &str,
    tolerance: &str,
) -> (r: String)
    ensures
        r@ == change_text(name@, unit@, before@, after@, diff@, tolerance@),
{
    let mut out = cat5(name, ": ", before, unit, " → ");
    out.append(after);
    out.append(unit);
    out.append(" (Δ=");
    out.append(diff);
    out.append(unit);
    out.append(", tol=");
    out.append(tolerance);
    out.append(unit);
    out.append(")");
    out
}

/// The difference of a feature that may differ by `tolerance`.
pub open spec fn is_change(
    change: FeatureChange,
    name: Seq<char>,
    unit: Seq<char>,
    measured: Measured,
    tolerance: u64,
    tolerance_text: Seq<char>,
) -> bool {
    &&& change.within == measured.diff.at_most(F64 { bits: tolerance })
    &&& change.beyond == (F64 { bits: tolerance }).less(measured.diff)
    &&& change.message@ == change_text(
        name,
        unit,
        measured.before@,
        measured.after@,
        measured.diff_text@,
        tolerance_text,
    )
}

fn change(
    name: &str,
    unit: &str,
    measured: &Measured,
    tolerance: u64,
    tolerance_text: &str,
) -> (r: FeatureChange)
    ensures
        is_change(r, name@, unit@, *measured, tolerance, tolerance_text@),
{
    let limit = F64::from_bits(tolerance);
    FeatureChange {
        within: measured.diff.le(limit),
        beyond: limit.lt(measured.diff),
        message: change_message(
            name,
            unit,
            measured.before.as_str(),
            measured.after.as_str(),
            measured.diff_text.as_str(),
            tolerance_text,
        ),
    }
}

/// The differences that audio may show.
#[derive(Debug, Clone)]
pub struct AudioTolerances {
    /// That of the duration in seconds.
    pub duration: F64,
    /// That of the root mean square.
    pub rms: F64,
    /// That of the peak.
    pub peak: F64,
    /// That of the mean.
    pub dc_offset: F64,
    /// That of the zero crossing rate.
    pub zero_crossing_rate: F64,
    /// That of the spectral flatness.
    pub spectral_flatness: F64,
    /// That of the share of energy in the band of speech.
    pub energy_in_speech_band: F64,
}

/// The bit pattern of 0.01.
pub const HUNDREDTH: u64 = 0x3f84_7ae1_47ae_147b;

/// The bit pattern of 0.005.
pub const RMS_TOLERANCE: u64 = 0x3f74_7ae1_47ae_147b;

/// The bit pattern of 0.001.
pub const DC_TOLERANCE: u64 = 0x3f50_624d_d2f1_a9fc;

/// The bit pattern of 0.02.
pub const BAND_TOLERANCE: u64 = 0x3f94_7ae1_47ae_147b;

impl Default for AudioTolerances {
    fn default() -> (r: Self)
        ensures
            r.duration.bits == HUNDREDTH,
            r.rms.bits == RMS_TOLERANCE,
            r.peak.bits == HUNDREDTH,
            r.dc_offset.bits == DC_TOLERANCE,
            r.zero_crossing_rate.bits == HUNDREDTH,
            r.spectral_flatness.bits == HUNDREDTH,
            r.energy_in_speech_band.bits == BAND_TOLERANCE,
            r.duration.bits == 0x3f84_7ae1_47ae_147b && r.rms.bits == 0x3f74_7ae1_47ae_147b,
            r.peak.bits == 0x3f84_7ae1_47ae_147b && r.dc_offset.bits == 0x3f50_624d_d2f1_a9fc,
            r.zero_crossing_rate.bits == 0x3f84_7ae1_47ae_147b && r.spectral_flatness.bits
                == 0x3f84_7ae1_47ae_147b,
            r.energy_in_speech_band.bits == 0x3f94_7ae1_47ae_147b,
    {
        AudioTolerances {
            duration: F64::from_bits(HUNDREDTH),
            rms: F64::from_bits(RMS_TOLERANCE),
            peak: F64::from_bits(HUNDREDTH),
            dc_offset: F64::from_bits(DC_TOLERANCE),
            zero_crossing_rate: F64::from_bits(HUNDREDTH),
            spectral_flatness: F64::from_bits(HUNDREDTH),
            energy_in_speech_band: F64::from_bits(BAND_TOLERANCE),
        }
    }
}

/// The fingerprint of audio.
#[derive(Debug, Clone)]
pub struct AudioFingerprint {
    /// How many samples there are.
    pub sample_count: usize,
    /// The sample rate in Hz.
    pub sample_rate: u32,
    /// The duration in seconds.
    pub duration_secs: F64,
    /// The root mean square.
    pub rms: F64,
    /// The greatest magnitude.
    pub peak: F64,
    /// The mean.
    pub dc_offset: F64,
    /// The share of neighbours that differ in sign.
    pub zero_crossing_rate: F64,
    /// The spectral flatness.
    pub spectral_flatness: F64,
    /// The share of energy in the band of speech.
    pub energy_in_speech_band: F64,
    /// The digest of the samples.
    pub sha256_hash: String,
}

/// The features of audio that are computed on the samples as numbers.
#[derive(Debug, Clone, Copy)]
pub struct AudioFeatures {
    /// The duration in seconds.
    pub duration_secs: F64,
    /// The root mean square.
    pub rms: F64,
    /// The greatest magnitude.
    pub peak: F64,
    /// The mean.
    pub dc_offset: F64,
    /// The share of neighbours that differ in sign.
    pub zero_crossing_rate: F64,
    /// The spectral flatness.
    pub spectral_flatness: F64,
    /// The share of energy in the band of speech.
    pub energy_in_speech_band: F64,
}

/// The four bytes of `word`, the lowest first.
pub open spec fn word_bytes(word: u32) -> Seq<u8> {
    seq![
        (word as int % 0x100) as u8,
        (word as int / 0x100 % 0x100) as u8,
        (word as int / 0x1_0000 % 0x100) as u8,
        (word as int / 0x100_0000) as u8,
    ]
}

/// The bytes of samples, the lowest of each first.
pub open spec fn bytes_of(samples: Seq<F32>) -> Seq<u8>
    decreases samples.len(),
{
    if samples.len() == 0 {
        Seq::empty()
    } else {
        bytes_of(samples.drop_last()) + word_bytes(samples.last().bits)
    }
}

/// There are four bytes for each sample.
pub proof fn law_four_bytes_each(samples: Seq<F32>)
    ensures
        bytes_of(samples).len() == 4 * samples.len(),
    decreases samples.len(),
{
    if samples.len() > 0 {
        law_four_bytes_each(samples.drop_last());
    }
}

/// The four bytes of a sample stand in its place, and make up its bit pattern with the lowest first.
pub proof fn law_bytes_of_sample(samples: Seq<F32>, i: int)
    requires
        0 <= i < samples.len(),
    ensures
        bytes_of(samples).len() == 4 * samples.len(),
        bytes_of(samples)[4 * i] + 0x100 * bytes_of(samples)[4 * i + 1] + 0x1_0000 * bytes_of(
            samples,
        )[4 * i + 2] + 0x100_0000 * bytes_of(samples)[4 * i + 3] == samples[i].bits,
    decreases samples.len(),
{
    law_four_bytes_each(samples);
    law_four_bytes_each(samples.drop_last());
    let before = bytes_of(samples.drop_last());
    if i < samples.len() - 1 {
        law_bytes_of_sample(samples.drop_last(), i);
        assert(bytes_of(samples)[4 * i] == before[4 * i] && bytes_of(samples)[4 * i + 1]
            == before[4 * i + 1] && bytes_of(samples)[4 * i + 2] == before[4 * i + 2] && bytes_of(
            samples,
        )[4 * i + 3] == before[4 * i + 3]);
    } else {
        let word = word_bytes(samples.last().bits);
        assert(bytes_of(samples)[4 * i] == word[0] && bytes_of(samples)[4 * i + 1] == word[1]
            && bytes_of(samples)[4 * i + 2] == word[2] && bytes_of(samples)[4 * i + 3] == word[3]);
    }
}

/// The bytes of samples.
pub fn sample_bytes(samples: &Vec<F32>) -> (r: Vec<u8>)
    ensures
        r@ == bytes_of(samples@),
{
    let mut out: Vec<u8> = Vec::new();
    let mut i: usize = 0;
    assert(out@ =~= bytes_of(samples@.take(0)));
    while i < samples.len()
        invariant
            i <= samples@.len(),
            out@ == bytes_of(samples@.take(i as int)),
        decreases samples@.len() - i,
    {
        let ghost before = out@;
        let word: u32 = samples[i].bits;
        out.push((word % 0x100) as u8);
        out.push((word / 0x100 % 0x100) as u8);
        out.push((word / 0x1_0000 % 0x100) as u8);
        out.push((word / 0x100_0000) as u8);
        proof {
            assert(out@ =~= before + word_bytes(word));
            assert(samples@.take(i + 1).drop_last() =~= samples@.take(i as int));
        }
        i += 1;
    }
    assert(samples@.take(samples@.len() as int) =~= samples@);
    out
}

/// The two samples lie on different sides of zero.
pub open spec fn crosses(a: F32, b: F32) -> bool {
    (F32 { bits: 0 }).at_most(a) != (F32 { bits: 0 }).at_most(b)
}

/// How many neighbours lie on different sides of zero.
pub open spec fn crossings(samples: Seq<F32>) -> nat
    decreases samples.len(),
{
    if samples.len() < 2 {
        0
    } else {
        crossings(samples.drop_last()) + if crosses(
            samples[samples.len() - 2],
            samples[samples.len() - 1],
        ) {
            1nat
        } else {
            0nat
        }
    }
}

/// The crossings are the places where one of two neighbours is at least zero and the other is not.
pub proof fn law_crossings_are_places(samples: Seq<F32>)
    ensures
        ({
            let places = Set::new(
                |i: int|
                    0 <= i < samples.len() - 1 && ((F32 { bits: 0 }).at_most(samples[i]) != (F32 {
                        bits: 0,
                    }).at_most(samples[i + 1])),
            );
            places.finite() && crossings(samples) == places.len()
        }),
    decreases samples.len(),
{
    let places = Set::new(
        |i: int|
            0 <= i < samples.len() - 1 && ((F32 { bits: 0 }).at_most(samples[i]) != (F32 {
                bits: 0,
            }).at_most(samples[i + 1])),
    );
    if samples.len() < 2 {
        assert(places =~= Set::empty());
    } else {
        let rest = samples.drop_last();
        law_crossings_are_places(rest);
        let before = Set::new(
            |i: int|
                0 <= i < rest.len() - 1 && ((F32 { bits: 0 }).at_most(rest[i]) != (F32 {
                    bits: 0,
                }).at_most(rest[i + 1])),
        );
        let last = samples.len() - 2;
        if crosses(samples[last], samples[last + 1]) {
            assert(places =~= before.insert(last));
        } else {
            assert(places =~= before);
        }
    }
}

/// How many neighbours lie on different sides of zero.
pub fn zero_crossings(samples: &Vec<F32>) -> (r: usize)
    ensures
        r == crossings(samples@),
{
    let zero = F32::from_bits(0);
    let mut count: usize = 0;
    let mut i: usize = 0;
    while i < samples.len()
        invariant
            zero.bits == 0,
            i <= samples@.len(),
            count == crossings(samples@.take(i as int)),
            count <= i,
        decreases samples@.len() - i,
    {
        assert(samples@.take(i + 1).drop_last() =~= samples@.take(i as int));
        if i > 0 && zero.le(samples[i - 1]) != zero.le(samples[i]) {
            count += 1;
        }
        i += 1;
    }
    assert(samples@.take(samples@.len() as int) =~= samples@);
    count
}

/// The magnitude of a number.
pub open spec fn magnitude(x: F32) -> F32 {
    if x.bits < ieee::SIGN32 {
        x
    } else {
        F32 { bits: (x.bits - ieee::SIGN32) as u32 }
    }
}

/// `r` is the greatest magnitude of the samples that are numbers, 0 where there is none.
pub open spec fn is_greatest(samples: Seq<F32>, r: F32) -> bool {
    &&& r.is_number()
    &&& r.bits == 0 || exists|i: int|
        0 <= i < samples.len() && r == magnitude(#[trigger] samples[i])
    &&& forall|i: int|
        0 <= i < samples.len() && magnitude(#[trigger] samples[i]).is_number() ==> magnitude(
            samples[i],
        ).at_most(r)
}

/// The greatest magnitude of the samples.
pub fn greatest_magnitude(samples: &Vec<F32>) -> (r: F32)
    ensures
        is_greatest(samples@, r),
        r.bits <= 0x7f80_0000,
        r.bits == 0 || exists|i: int|
            0 <= i < samples@.len() && r.bits as int == (#[trigger] samples@[i]).bits as int
                % 0x8000_0000,
        forall|i: int|
            0 <= i < samples@.len() && (#[trigger] samples@[i]).bits as int % 0x8000_0000
                <= 0x7f80_0000 ==> samples@[i].bits as int % 0x8000_0000 <= r.bits,
{
    let mut best = F32::from_bits(0);
    let mut i: usize = 0;
    while i < samples.len()
        invariant
            i <= samples@.len(),
            best.is_number(),
            0 <= ieee::rank32(best.bits),
            best.bits == 0 || exists|k: int|
                0 <= k < i && best == magnitude(#[trigger] samples@[k]),
            forall|k: int|
                0 <= k < i && magnitude(#[trigger] samples@[k]).is_number() ==> magnitude(
                    samples@[k],
                ).at_most(best),
        decreases samples@.len() - i,
    {
        let size = if samples[i].bits < ieee::SIGN32 {
            samples[i]
        } else {
            F32::from_bits(samples[i].bits - ieee::SIGN32)
        };
        assert(size == magnitude(samples@[i as int]));
        if best.lt(size) {
            best = size;
        }
        i += 1;
    }
    best
}

impl AudioFingerprint {
    /// The fingerprint of `samples`, whose features are `features`.
    pub fn from_samples(
        samples: &Vec<F32>,
        sample_rate: u32,
        features: &AudioFeatures,
    ) -> (r: Self)
        requires
            4 * samples@.len() < HASH_LIMIT,
        ensures
            r.sample_count == samples@.len(),
            r.sample_rate == sample_rate,
            r.duration_secs == features.duration_secs,
            r.rms == features.rms,
            r.peak == features.peak,
            r.dc_offset == features.dc_offset,
            r.zero_crossing_rate == features.zero_crossing_rate,
            r.spectral_flatness == features.spectral_flatness,
            r.energy_in_speech_band == features.energy_in_speech_band,
            r.sha256_hash@ == hex(sha256(bytes_of(samples@))),
    {
        let bytes = sample_bytes(samples);
        proof {
            law_four_bytes_each(samples@);
        }
        AudioFingerprint {
            sample_count: samples.len(),
            sample_rate,
            duration_secs: features.duration_secs,
            rms: features.rms,
            peak: features.peak,
            dc_offset: features.dc_offset,
            zero_crossing_rate: features.zero_crossing_rate,
            spectral_flatness: features.spectral_flatness,
            energy_in_speech_band: features.energy_in_speech_band,
            sha256_hash: sha2_hash(bytes.as_slice()),
        }
    }

    /// Checks the format of a recording: its sample rate is the one that is wanted, if any, and its
    /// samples have 8, 16 or 32 bits.
    pub fn check_format(
        sample_rate: u32,
        bits_per_sample: u16,
        wanted: Option<u32>,
    ) -> (r: Result<(), String>)
        ensures
            match r {
                Ok(_) => {
                    &&& wanted is Some ==> wanted->0 == sample_rate
                    &&& bits_per_sample == 8 || bits_per_sample == 16 || bits_per_sample == 32
                },
                Err(e) => if wanted is Some && wanted->0 != sample_rate {
                    e@ == "Sample rate mismatch: expected "@ + text::decimal(wanted->0 as nat)
                        + " Hz, got "@ + text::decimal(sample_rate as nat) + " Hz"@
                } else {
                    &&& bits_per_sample != 8 && bits_per_sample != 16 && bits_per_sample != 32
                    &&& e@ == "Unsupported bits_per_sample: "@ + text::decimal(
                        bits_per_sample as nat,
                    )
                },
            },
    {
        if let Some(expected) = wanted {
            if expected != sample_rate {
                return Err(
                    cat5(
                        "Sample rate mismatch: expected ",
                        decimal_text(expected as u64).as_str(),
                        " Hz, got ",
                        decimal_text(sample_rate as u64).as_str(),
                        " Hz",
                    ),
                );
            }
        }
        if bits_per_sample == 8 || bits_per_sample == 16 || bits_per_sample == 32 {
            Ok(())
        } else {
            Err(
                append2(
                    "Unsupported bits_per_sample: ",
                    decimal_text(bits_per_sample as u64).as_str(),
                ),
            )
        }
    }

    /// `found` holds the difference of each feature.
    pub open spec fn differences(measured: Seq<Measured>, found: Seq<FeatureChange>) -> bool {
        &&& found.len() == 7
        &&& is_change(found[0], "duration"@, "s"@, measured[0], HUNDREDTH, "0.0100"@)
        &&& is_change(found[1], "rms"@, ""@, measured[1], RMS_TOLERANCE, "0.005000"@)
        &&& is_change(found[2], "peak"@, ""@, measured[2], HUNDREDTH, "0.010000"@)
        &&& is_change(found[3], "dc_offset"@, ""@, measured[3], DC_TOLERANCE, "0.001000"@)
        &&& is_change(found[4], "zcr"@, ""@, measured[4], HUNDREDTH, "0.010000"@)
        &&& is_change(found[5], "spectral_flatness"@, ""@, measured[5], HUNDREDTH, "0.010000"@)
        &&& is_change(
            found[6],
            "speech_band_energy"@,
            ""@,
            measured[6],
            BAND_TOLERANCE,
            "0.020000"@,
        )
    }

    /// Compares two fingerprints. `measured` holds the seven features from the duration to the share
    /// of energy in the band of speech, the duration with four decimals and the others with six.
    pub fn compare(&self, other: &Self, measured: &Vec<Measured>) -> (r: FingerprintCompare)
        requires
            measured@.len() == 7,
        ensures
            exists|found: Seq<FeatureChange>| #[trigger]
                Self::differences(measured@, found) && judged(
                    self.sha256_hash@ == other.sha256_hash@,
                    found,
                    r,
                ),
            (r is Match) == (self.sha256_hash@ == other.sha256_hash@),
    {
        let mut found: Vec<FeatureChange> = Vec::new();
        found.push(change("duration", "s", &measured[0], HUNDREDTH, "0.0100"));
        found.push(change("rms", "", &measured[1], RMS_TOLERANCE, "0.005000"));
        found.push(change("peak", "", &measured[2], HUNDREDTH, "0.010000"));
        found.push(change("dc_offset", "", &measured[3], DC_TOLERANCE, "0.001000"));
        found.push(change("zcr", "", &measured[4], HUNDREDTH, "0.010000"));
        found.push(change("spectral_flatness", "", &measured[5], HUNDREDTH, "0.010000"));
        found.push(change("speech_band_energy", "", &measured[6], BAND_TOLERANCE, "0.020000"));
        assert(Self::differences(measured@, found@));
        judge(same_text(self.sha256_hash.as_str(), other.sha256_hash.as_str()), &found)
    }

    /// The fingerprint in words. `shown` holds the seven features, the duration with three decimals
    /// and the others with six.
    pub fn summary(&self, shown: &Vec<String>) -> (r: String)
        requires
            shown@.len() == 7,
        ensures
            r@ == "samples="@ + text::decimal(self.sample_count as nat) + ", sr="@ + text::decimal(
                self.sample_rate as nat,
            ) + "Hz, dur="@ + shown@[0]@ + "s, rms="@ + shown@[1]@ + ", peak="@ + shown@[2]@
                + ", dc="@ + shown@[3]@ + ", zcr="@ + shown@[4]@ + ", sf="@ + shown@[5]@ + ", esb="@
                + shown@[6]@,
    {
        let mut out = cat5(
            "samples=",
            count_text(self.sample_count).as_str(),
            ", sr=",
            decimal_text(self.sample_rate as u64).as_str(),
            "Hz, dur=",
        );
        out.append(shown[0].as_str());
        out.append("s, rms=");
        out.append(shown[1].as_str());
        out.append(", peak=");
        out.append(shown[2].as_str());
        out.append(", dc=");
        out.append(shown[3].as_str());
        out.append(", zcr=");
        out.append(shown[4].as_str());
        out.append(", sf=");
        out.append(shown[5].as_str());
        out.append(", esb=");
        out.append(shown[6].as_str());
        out
    }
}

/// The fingerprint of a text. The average length of words is `word_char_count / word_count`; the
/// shares of the kinds of characters are those of `char_count`.
#[derive(Debug, Clone)]
pub struct TextFingerprint {
    /// The characters.
    pub char_count: usize,
    /// The words.
    pub word_count: usize,
    /// The characters of the words.
    pub word_char_count: usize,
    /// The lines, at least one.
    pub line_count: usize,
    /// The sentences, at least one.
    pub sentence_count: usize,
    /// The Chinese characters.
    pub cjk_count: usize,
    /// The ASCII characters.
    pub ascii_count: usize,
    /// The digits.
    pub digit_count: usize,
    /// The punctuation marks.
    pub punctuation_count: usize,
    /// The digest of the text.
    pub sha256_hash: String,
}

/// A Chinese character.
pub open spec fn cjk(c: char) -> bool {
    let u = c as u32;
    ||| 0x4e00 <= u <= 0x9fff
    ||| 0x3400 <= u <= 0x4dbf
    ||| 0xf900 <= u <= 0xfaff
}

/// An ASCII character.
pub open spec fn ascii(c: char) -> bool {
    c as u32 <= 0x7f
}

/// A decimal digit.
pub open spec fn decimal_digit(c: char) -> bool {
    0x30 <= c as u32 <= 0x39
}

/// A punctuation mark.
pub open spec fn punctuation(c: char) -> bool {
    let u = c as u32;
    ||| 0x21 <= u <= 0x2f
    ||| 0x3a <= u <= 0x40
    ||| 0x5b <= u <= 0x60
    ||| 0x7b <= u <= 0x7e
    ||| c == '。' || c == '，' || c == '！' || c == '？' || c == '；' || c == '：' || c == '、'
    ||| c == '《' || c == '》' || c == '【' || c == '】' || c == '「' || c == '」' || c == '『'
    ||| c == '』'
}

/// A mark that ends a sentence.
pub open spec fn terminator(c: char) -> bool {
    c == '.' || c == '!' || c == '?' || c == '。' || c == '！' || c == '？'
}

/// A character that makes a sentence.
pub open spec fn sentence_char(c: char) -> bool {
    !text::whitespace(c) && !terminator(c)
}

/// How many characters of `s` have the property.
pub open spec fn count_of(s: Seq<char>, property: spec_fn(char) -> bool) -> nat
    decreases s.len(),
{
    if s.len() == 0 {
        0
    } else {
        count_of(s.drop_last(), property) + if property(s.last()) {
            1nat
        } else {
            0nat
        }
    }
}

/// How many stretches of characters between white space there are.
pub open spec fn words_of(s: Seq<char>) -> nat
    decreases s.len(),
{
    if s.len() == 0 {
        0
    } else {
        words_of(s.drop_last()) + if !text::whitespace(s.last()) && (s.len() == 1
            || text::whitespace(s[s.len() - 2])) {
            1nat
        } else {
            0nat
        }
    }
}

/// What follows the last mark that ends a sentence has more than white space.
pub open spec fn in_sentence(s: Seq<char>) -> bool
    decreases s.len(),
{
    if s.len() == 0 || terminator(s.last()) {
        false
    } else {
        sentence_char(s.last()) || in_sentence(s.drop_last())
    }
}

/// How many stretches between marks that end sentences have more than white space.
pub open spec fn sentences_of(s: Seq<char>) -> nat
    decreases s.len(),
{
    if s.len() == 0 {
        0
    } else {
        sentences_of(s.drop_last()) + if sentence_char(s.last()) && !in_sentence(s.drop_last()) {
            1nat
        } else {
            0nat
        }
    }
}

/// How many lines there are. A line break at the end starts no new line.
pub open spec fn lines_of(s: Seq<char>) -> nat {
    count_of(s, |c: char| c == '\n') + if s.len() > 0 && s.last() != '\n' {
        1nat
    } else {
        0nat
    }
}

/// The number, at least one.
pub open spec fn at_least_one(n: nat) -> nat {
    if n == 0 {
        1
    } else {
        n
    }
}

/// `counts` counts the characters of `s`.
pub open spec fn counted(s: Seq<char>, counts: TextFingerprint) -> bool {
    &&& counts.char_count == s.len()
    &&& counts.word_count == words_of(s)
    &&& counts.word_char_count == count_of(s, |c: char| !text::whitespace(c))
    &&& counts.line_count == at_least_one(lines_of(s))
    &&& counts.sentence_count == at_least_one(sentences_of(s))
    &&& counts.cjk_count == count_of(s, |c: char| cjk(c))
    &&& counts.ascii_count == count_of(s, |c: char| ascii(c))
    &&& counts.digit_count == count_of(s, |c: char| decimal_digit(c))
    &&& counts.punctuation_count == count_of(s, |c: char| punctuation(c))
}

fn is_punctuation(c: char) -> (r: bool)
    ensures
        r == punctuation(c),
{
    let u: u32 = c as u32;
    (0x21 <= u && u <= 0x2f) || (0x3a <= u && u <= 0x40) || (0x5b <= u && u <= 0x60) || (0x7b <= u
        && u <= 0x7e) || c == '。' || c == '，' || c == '！' || c == '？' || c == '；' || c == '：'
        || c == '、' || c == '《' || c == '》' || c == '【' || c == '】' || c == '「' || c == '」'
        || c == '『' || c == '』'
}

fn is_terminator(c: char) -> (r: bool)
    ensures
        r == terminator(c),
{
    c == '.' || c == '!' || c == '?' || c == '。' || c == '！' || c == '？'
}

/// Counts the characters of `s`, whose digest is `sha256_hash`.
fn fingerprint_of(s: &str, sha256_hash: String) -> (r: TextFingerprint)
    ensures
        counted(s@, r),
        r.sha256_hash == sha256_hash,
{
    let chars = chars_of(s);
    let mut words: usize = 0;
    let mut word_chars: usize = 0;
    let mut breaks: usize = 0;
    let mut sentences: usize = 0;
    let mut cjk_count: usize = 0;
    let mut ascii_count: usize = 0;
    let mut digits: usize = 0;
    let mut marks: usize = 0;
    let mut inside = false;
    let mut i: usize = 0;
    while i < chars.len()
        invariant
            chars@ == s@,
            i <= chars@.len(),
            words == words_of(s@.take(i as int)),
            word_chars == count_of(s@.take(i as int), |c: char| !text::whitespace(c)),
            breaks == count_of(s@.take(i as int), |c: char| c == '\n'),
            sentences == sentences_of(s@.take(i as int)),
            inside == in_sentence(s@.take(i as int)),
            cjk_count == count_of(s@.take(i as int), |c: char| cjk(c)),
            ascii_count == count_of(s@.take(i as int), |c: char| ascii(c)),
            digits == count_of(s@.take(i as int), |c: char| decimal_digit(c)),
            marks == count_of(s@.take(i as int), |c: char| punctuation(c)),
            words <= i,
            word_chars <= i,
            breaks <= i,
            sentences <= i,
            cjk_count <= i,
            ascii_count <= i,
            digits <= i,
            marks <= i,
        decreases chars@.len() - i,
    {
        let c = chars[i];
        let u: u32 = c as u32;
        let blank = is_whitespace(c);
        let end = is_terminator(c);
        proof {
            let more = s@.take(i + 1);
            assert(more.drop_last() =~= s@.take(i as int));
            assert(more.last() == c);
        }
        if !blank {
            word_chars += 1;
            if i == 0 || is_whitespace(chars[i - 1]) {
                words += 1;
            }
        }
        if c == '\n' {
            breaks += 1;
        }
        if !blank && !end {
            if !inside {
                sentences += 1;
            }
            inside = true;
        } else if end {
            inside = false;
        }
        if (0x4e00 <= u && u <= 0x9fff) || (0x3400 <= u && u <= 0x4dbf) || (0xf900 <= u && u
            <= 0xfaff) {
            cjk_count += 1;
        }
        if u <= 0x7f {
            ascii_count += 1;
        }
        if 0x30 <= u && u <= 0x39 {
            digits += 1;
        }
        if is_punctuation(c) {
            marks += 1;
        }
        i += 1;
    }
    assert(s@.take(s@.len() as int) =~= s@);
    let count: usize = chars.len();
    let mut lines: usize = breaks;
    if count > 0 && chars[count - 1] != '\n' {
        proof {
            lemma_breaks_fewer(s@);
        }
        lines += 1;
    }
    TextFingerprint {
        char_count: count,
        word_count: words,
        word_char_count: word_chars,
        line_count: if lines == 0 {
            1
        } else {
            lines
        },
        sentence_count: if sentences == 0 {
            1
        } else {
            sentences
        },
        cjk_count,
        ascii_count,
        digit_count: digits,
        punctuation_count: marks,
        sha256_hash,
    }
}

proof fn lemma_breaks_fewer(s: Seq<char>)
    requires
        s.len() > 0,
        s.last() != '\n',
    ensures
        count_of(s, |c: char| c == '\n') < s.len(),
{
    let property = |c: char| c == '\n';
    lemma_count_bounded(s.drop_last(), property);
    assert(!property(s.last()));
}

proof fn lemma_count_bounded(s: Seq<char>, property: spec_fn(char) -> bool)
    ensures
        count_of(s, property) <= s.len(),
    decreases s.len(),
{
    if s.len() > 0 {
        lemma_count_bounded(s.drop_last(), property);
    }
}

/// The differences that texts may show.
#[derive(Debug, Clone)]
pub struct TextTolerances {
    /// That of the number of characters.
    pub char_count_diff: F64,
    /// That of the number of words.
    pub word_count_diff: F64,
    /// That of the average length of words.
    pub avg_word_length_diff: F64,
    /// That of the share of Chinese characters.
    pub cjk_ratio_diff: F64,
}

/// The bit pattern of 3.0.
pub const CHAR_TOLERANCE: u64 = 0x4008_0000_0000_0000;

/// The bit pattern of 2.0.
pub const WORD_TOLERANCE: u64 = 0x4000_0000_0000_0000;

/// The bit pattern of 0.5.
pub const AVERAGE_TOLERANCE: u64 = 0x3fe0_0000_0000_0000;

/// The bit pattern of 0.05.
pub const CJK_TOLERANCE: u64 = 0x3fa9_9999_9999_999a;

impl Default for TextTolerances {
    fn default() -> (r: Self)
        ensures
            r.char_count_diff.bits == CHAR_TOLERANCE,
            r.word_count_diff.bits == WORD_TOLERANCE,
            r.avg_word_length_diff.bits == AVERAGE_TOLERANCE,
            r.cjk_ratio_diff.bits == CJK_TOLERANCE,
            r.char_count_diff.bits == 0x4008_0000_0000_0000 && r.word_count_diff.bits
                == 0x4000_0000_0000_0000,
            r.avg_word_length_diff.bits == 0x3fe0_0000_0000_0000 && r.cjk_ratio_diff.bits
                == 0x3fa9_9999_9999_999a,
    {
        TextTolerances {
            char_count_diff: F64::from_bits(CHAR_TOLERANCE),
            word_count_diff: F64::from_bits(WORD_TOLERANCE),
            avg_word_length_diff: F64::from_bits(AVERAGE_TOLERANCE),
            cjk_ratio_diff: F64::from_bits(CJK_TOLERANCE),
        }
    }
}

/// How far two numbers are apart.
pub open spec fn distance(a: usize, b: usize) -> nat {
    if a < b {
        (b - a) as nat
    } else {
        (a - b) as nat
    }
}

/// The difference of two counts that may differ by `tolerance`.
pub open spec fn is_count_change(
    change: FeatureChange,
    name: Seq<char>,
    before: usize,
    after: usize,
    tolerance: nat,
) -> bool {
    &&& change.within == (distance(before, after) <= tolerance)
    &&& change.beyond == (distance(before, after) > tolerance)
    &&& change.message@ == change_text(
        name,
        ""@,
        text::decimal(before as nat),
        text::decimal(after as nat),
        text::decimal(distance(before, after)),
        text::decimal(tolerance),
    )
}

fn count_change(name: &str, before: usize, after: usize, tolerance: usize) -> (r: FeatureChange)
    ensures
        is_count_change(r, name@, before, after, tolerance as nat),
{
    let apart: usize = if before < after {
        after - before
    } else {
        before - after
    };
    FeatureChange {
        within: apart <= tolerance,
        beyond: apart > tolerance,
        message: change_message(
            name,
            "",
            count_text(before).as_str(),
            count_text(after).as_str(),
            count_text(apart).as_str(),
            count_text(tolerance).as_str(),
        ),
    }
}

impl TextFingerprint {
    /// The fingerprint of `s`.
    pub fn from_text(s: &str) -> (r: Self)
        requires
            vstd::utf8::encode_utf8(s@).len() < HASH_LIMIT,
        ensures
            counted(s@, r),
            r.sha256_hash@ == hex(sha256(vstd::utf8::encode_utf8(s@))),
    {
        fingerprint_of(s, sha2_hash(s.as_bytes()))
    }

    /// `found` holds the difference of each feature.
    pub open spec fn differences(
        self,
        other: Self,
        average: Measured,
        cjk: Measured,
        found: Seq<FeatureChange>,
    ) -> bool {
        &&& found.len() == 4
        &&& is_count_change(found[0], "char_count"@, self.char_count, other.char_count, 3)
        &&& is_count_change(found[1], "word_count"@, self.word_count, other.word_count, 2)
        &&& is_change(found[2], "avg_word_length"@, ""@, average, AVERAGE_TOLERANCE, "0.50"@)
        &&& is_change(found[3], "cjk_ratio"@, ""@, cjk, CJK_TOLERANCE, "0.0500"@)
    }

    /// Compares two fingerprints. `average` is the average length of words with two decimals, `cjk`
    /// the share of Chinese characters with four.
    pub fn compare(&self, other: &Self, average: &Measured, cjk: &Measured) -> (r: FingerprintCompare)
        ensures
            exists|found: Seq<FeatureChange>| #[trigger]
                self.differences(*other, *average, *cjk, found) && judged(
                    self.sha256_hash@ == other.sha256_hash@,
                    found,
                    r,
                ),
            (r is Match) == (self.sha256_hash@ == other.sha256_hash@),
    {
        let mut found: Vec<FeatureChange> = Vec::new();
        found.push(count_change("char_count", self.char_count, other.char_count, 3));
        found.push(count_change("word_count", self.word_count, other.word_count, 2));
        found.push(change("avg_word_length", "", average, AVERAGE_TOLERANCE, "0.50"));
        found.push(change("cjk_ratio", "", cjk, CJK_TOLERANCE, "0.0500"));
        assert(self.differences(*other, *average, *cjk, found@));
        judge(same_text(self.sha256_hash.as_str(), other.sha256_hash.as_str()), &found)
    }

    /// The fingerprint in words, given the average length of words and the shares of Chinese and of
    /// ASCII characters in percent, each with two decimals.
    pub fn summary(&self, average: &str, cjk: &str, ascii: &str) -> (r: String)
        ensures
            r@ == "chars="@ + text::decimal(self.char_count as nat) + ", words="@ + text::decimal(
                self.word_count as nat,
            ) + ", lines="@ + text::decimal(self.line_count as nat) + ", sentences="@
                + text::decimal(self.sentence_count as nat) + ", avg_wl="@ + average@ + ", cjk="@
                + cjk@ + "%, ascii="@ + ascii@ + "%"@,
    {
        let mut out = cat5(
            "chars=",
            count_text(self.char_count).as_str(),
            ", words=",
            count_text(self.word_count).as_str(),
            ", lines=",
        );
        out.append(count_text(self.line_count).as_str());
        out.append(", sentences=");
        out.append(count_text(self.sentence_count).as_str());
        out.append(", avg_wl=");
        out.append(average);
        out.append(", cjk=");
        out.append(cjk);
        out.append("%, ascii=");
        out.append(ascii);
        out.append("%");
        out
    }
}

proof fn lemma_count_is_filter(
    s: Seq<char>,
    a: spec_fn(char) -> bool,
    b: spec_fn(char) -> bool,
)
    requires
        forall|c: char| #[trigger] a(c) == b(c),
    ensures
        count_of(s, a) == s.filter(b).len(),
    decreases s.len(),
{
    reveal(Seq::filter);
    if s.len() > 0 {
        lemma_count_is_filter(s.drop_last(), a, b);
        assert(a(s.last()) == b(s.last()));
    }
}

proof fn lemma_words_counted(s: Seq<char>)
    ensures
        words_of(s) == text::words(s).len(),
    decreases s.len(),
{
    if s.len() > 0 {
        let rest = s.drop_last();
        lemma_words_counted(rest);
        if !text::whitespace(s.last()) && s.len() > 1 && !text::whitespace(s[s.len() - 2]) {
            assert(rest.last() == s[s.len() - 2]);
            text::law_last_word(rest);
        }
    }
}

proof fn lemma_lines_counted(s: Seq<char>)
    ensures
        count_of(s, |c: char| c == '\n') + 1 == text::lines(s).len(),
    decreases s.len(),
{
    if s.len() > 0 {
        lemma_lines_counted(s.drop_last());
        text::law_lines_joined(s.drop_last());
    }
}

/// What is counted of a text: its characters; its words and their characters; its lines, of which a line
/// feed at the end starts none, but at least one; its Chinese and ASCII characters, its digits, and the
/// punctuation marks of ASCII and of Chinese.
pub proof fn law_counted(s: Seq<char>, counts: TextFingerprint)
    requires
        counted(s, counts),
    ensures
        counts.char_count == s.len(),
        counts.word_count == text::words(s).len(),
        counts.word_char_count == s.filter(|c: char| !text::whitespace(c)).len(),
        s.len() > 0 && s.last() != '\n' ==> counts.line_count == text::lines(s).len(),
        s.len() > 0 && s.last() == '\n' ==> counts.line_count + 1 == text::lines(s).len(),
        s.len() == 0 ==> counts.line_count == 1,
        sentences_of(s) == 0 ==> counts.sentence_count == 1,
        sentences_of(s) > 0 ==> counts.sentence_count == sentences_of(s),
        counts.cjk_count == s.filter(
            |c: char|
                0x4e00 <= c as u32 <= 0x9fff || 0x3400 <= c as u32 <= 0x4dbf || 0xf900 <= c as u32
                    <= 0xfaff,
        ).len(),
        counts.ascii_count == s.filter(|c: char| c as u32 <= 0x7f).len(),
        counts.digit_count == s.filter(|c: char| 0x30 <= c as u32 <= 0x39).len(),
        counts.punctuation_count == s.filter(
            |c: char|
                (0x21 <= c as u32 <= 0x7e && !(0x30 <= c as u32 <= 0x39) && !(0x41 <= c as u32
                    <= 0x5a) && !(0x61 <= c as u32 <= 0x7a))
                    || "。，！？；：、《》【】「」『』"@.contains(c),
        ).len(),
{
    lemma_words_counted(s);
    lemma_lines_counted(s);
    lemma_count_is_filter(
        s,
        |c: char| !text::whitespace(c),
        |c: char| !text::whitespace(c),
    );
    lemma_count_is_filter(
        s,
        |c: char| cjk(c),
        |c: char|
            0x4e00 <= c as u32 <= 0x9fff || 0x3400 <= c as u32 <= 0x4dbf || 0xf900 <= c as u32
                <= 0xfaff,
    );
    lemma_count_is_filter(s, |c: char| ascii(c), |c: char| c as u32 <= 0x7f);
    lemma_count_is_filter(s, |c: char| decimal_digit(c), |c: char| 0x30 <= c as u32 <= 0x39);
    let marks = "。，！？；：、《》【】「」『』"@;
    reveal_strlit("。，！？；：、《》【】「」『』");
    assert forall|c: char|
        #[trigger] punctuation(c) == ((0x21 <= c as u32 <= 0x7e && !(0x30 <= c as u32
            <= 0x39) && !(0x41 <= c as u32 <= 0x5a) && !(0x61 <= c as u32 <= 0x7a)) || marks.contains(c)) by {
        assert(marks[0] == '。');
        assert(marks[1] == '，');
        assert(marks[2] == '！');
        assert(marks[3] == '？');
        assert(marks[4] == '；');
        assert(marks[5] == '：');
        assert(marks[6] == '、');
        assert(marks[7] == '《');
        assert(marks[8] == '》');
        assert(marks[9] == '【');
        assert(marks[10] == '】');
        assert(marks[11] == '「');
        assert(marks[12] == '」');
        assert(marks[13] == '『');
        assert(marks[14] == '』');
        if marks.contains(c) {
            let i = choose|i: int| 0 <= i < marks.len() && marks[i] == c;
            assert(punctuation(marks[i]));
        }
    }
    lemma_count_is_filter(
        s,
        |c: char| punctuation(c),
        |c: char|
            (0x21 <= c as u32 <= 0x7e && !(0x30 <= c as u32 <= 0x39) && !(0x41 <= c as u32
                    <= 0x5a) && !(0x61 <= c as u32 <= 0x7a))
                || "。，！？；：、《》【】「」『』"@.contains(c),
    );
}

/// How sentences are counted: a stretch without a mark that ends a sentence, after such a mark or at the
/// start, is one sentence where it has more than white space; the mark adds none.
pub proof fn law_sentences(s: Seq<char>, piece: Seq<char>, mark: char)
    requires
        forall|i: int| 0 <= i < piece.len() ==> !".!?。！？"@.contains(#[trigger] piece[i]),
        s.len() == 0 || ".!?。！？"@.contains(s.last()),
        ".!?。！？"@.contains(mark),
    ensures
        sentences_of(Seq::empty()) == 0,
        (exists|i: int| 0 <= i < piece.len() && !text::whitespace(#[trigger] piece[i]))
            ==> sentences_of(s + piece) == sentences_of(s) + 1,
        (forall|i: int| 0 <= i < piece.len() ==> text::whitespace(#[trigger] piece[i]))
            ==> sentences_of(s + piece) == sentences_of(s),
        sentences_of((s + piece).push(mark)) == sentences_of(s + piece),
    decreases piece.len(),
{
    lemma_terminators();
    assert((s + piece).push(mark).drop_last() =~= s + piece);
    lemma_piece_is_sentence(s, piece);
}

proof fn lemma_terminators()
    ensures
        forall|c: char| #[trigger] terminator(c) <==> ".!?。！？"@.contains(c),
{
    reveal_strlit(".!?。！？");
    let marks = ".!?。！？"@;
    assert forall|c: char| #[trigger] terminator(c) <==> marks.contains(c) by {
        assert(marks[0] == '.');
        assert(marks[1] == '!');
        assert(marks[2] == '?');
        assert(marks[3] == '。');
        assert(marks[4] == '！');
        assert(marks[5] == '？');
        if marks.contains(c) {
            let i = choose|i: int| 0 <= i < marks.len() && marks[i] == c;
            assert(terminator(marks[i]));
        }
    }
}

proof fn lemma_piece_is_sentence(s: Seq<char>, piece: Seq<char>)
    requires
        forall|i: int| 0 <= i < piece.len() ==> !terminator(#[trigger] piece[i]),
        s.len() == 0 || terminator(s.last()),
    ensures
        in_sentence(s + piece) <==> exists|i: int|
            0 <= i < piece.len() && !text::whitespace(#[trigger] piece[i]),
        sentences_of(s + piece) == sentences_of(s) + if in_sentence(s + piece) {
            1int
        } else {
            0int
        },
    decreases piece.len(),
{
    let whole = s + piece;
    if piece.len() == 0 {
        assert(whole =~= s);
    } else {
        let rest = piece.drop_last();
        assert(whole.drop_last() =~= s + rest);
        assert(whole.last() == piece[piece.len() - 1]);
        lemma_piece_is_sentence(s, rest);
        if exists|i: int| 0 <= i < rest.len() && !text::whitespace(#[trigger] rest[i]) {
            let i = choose|i: int| 0 <= i < rest.len() && !text::whitespace(#[trigger] rest[i]);
            assert(piece[i] == rest[i]);
        }
        if exists|i: int| 0 <= i < piece.len() && !text::whitespace(#[trigger] piece[i]) {
            let i = choose|i: int| 0 <= i < piece.len() && !text::whitespace(#[trigger] piece[i]);
            if i < rest.len() {
                assert(rest[i] == piece[i]);
            }
        }
    }
}

/// How the features of audio are compared: which one it is, how far it may differ, and what is said of
/// it.
pub proof fn law_audio_differences(measured: Seq<Measured>, found: Seq<FeatureChange>)
    requires
        AudioFingerprint::differences(measured, found),
    ensures
        found.len() == 7,
        found[0].within <==> measured[0].diff.at_most(F64 { bits: 0x3f84_7ae1_47ae_147b }),
        found[0].beyond <==> (F64 { bits: 0x3f84_7ae1_47ae_147b }).less(measured[0].diff),
        found[0].message@ == "duration"@ + ": "@ + measured[0].before@ + "s"@ + " → "@ + measured[0].after@ + "s"@
            + " (Δ="@ + measured[0].diff_text@ + "s"@ + ", tol="@ + "0.0100"@ + "s"@ + ")"@,
        found[1].within <==> measured[1].diff.at_most(F64 { bits: 0x3f74_7ae1_47ae_147b }),
        found[1].beyond <==> (F64 { bits: 0x3f74_7ae1_47ae_147b }).less(measured[1].diff),
        found[1].message@ == "rms"@ + ": "@ + measured[1].before@ + ""@ + " → "@ + measured[1].after@ + ""@
            + " (Δ="@ + measured[1].diff_text@ + ""@ + ", tol="@ + "0.005000"@ + ""@ + ")"@,
        found[2].within <==> measured[2].diff.at_most(F64 { bits: 0x3f84_7ae1_47ae_147b }),
        found[2].beyond <==> (F64 { bits: 0x3f84_7ae1_47ae_147b }).less(measured[2].diff),
        found[2].message@ == "peak"@ + ": "@ + measured[2].before@ + ""@ + " → "@ + measured[2].after@ + ""@
            + " (Δ="@ + measured[2].diff_text@ + ""@ + ", tol="@ + "0.010000"@ + ""@ + ")"@,
        found[3].within <==> measured[3].diff.at_most(F64 { bits: 0x3f50_624d_d2f1_a9fc }),
        found[3].beyond <==> (F64 { bits: 0x3f50_624d_d2f1_a9fc }).less(measured[3].diff),
        found[3].message@ == "dc_offset"@ + ": "@ + measured[3].before@ + ""@ + " → "@ + measured[3].after@ + ""@
            + " (Δ="@ + measured[3].diff_text@ + ""@ + ", tol="@ + "0.001000"@ + ""@ + ")"@,
        found[4].within <==> measured[4].diff.at_most(F64 { bits: 0x3f84_7ae1_47ae_147b }),
        found[4].beyond <==> (F64 { bits: 0x3f84_7ae1_47ae_147b }).less(measured[4].diff),
        found[4].message@ == "zcr"@ + ": "@ + measured[4].before@ + ""@ + " → "@ + measured[4].after@ + ""@
            + " (Δ="@ + measured[4].diff_text@ + ""@ + ", tol="@ + "0.010000"@ + ""@ + ")"@,
        found[5].within <==> measured[5].diff.at_most(F64 { bits: 0x3f84_7ae1_47ae_147b }),
        found[5].beyond <==> (F64 { bits: 0x3f84_7ae1_47ae_147b }).less(measured[5].diff),
        found[5].message@ == "spectral_flatness"@ + ": "@ + measured[5].before@ + ""@ + " → "@ + measured[5].after@ + ""@
            + " (Δ="@ + measured[5].diff_text@ + ""@ + ", tol="@ + "0.010000"@ + ""@ + ")"@,
        found[6].within <==> measured[6].diff.at_most(F64 { bits: 0x3f94_7ae1_47ae_147b }),
        found[6].beyond <==> (F64 { bits: 0x3f94_7ae1_47ae_147b }).less(measured[6].diff),
        found[6].message@ == "speech_band_energy"@ + ": "@ + measured[6].before@ + ""@ + " → "@ + measured[6].after@ + ""@
            + " (Δ="@ + measured[6].diff_text@ + ""@ + ", tol="@ + "0.020000"@ + ""@ + ")"@,
{
}

/// How the features of texts are compared.
pub proof fn law_text_differences(
    a: TextFingerprint,
    b: TextFingerprint,
    average: Measured,
    cjk: Measured,
    found: Seq<FeatureChange>,
)
    requires
        a.differences(b, average, cjk, found),
    ensures
        found.len() == 4,
        found[0].within <==> -3 <= a.char_count - b.char_count <= 3,
        found[0].beyond <==> !(-3 <= a.char_count - b.char_count <= 3),
        a.char_count >= b.char_count ==> found[0].message@ == "char_count"@ + ": "@ + text::decimal(a.char_count as nat) + ""@ + " → "@
            + text::decimal(b.char_count as nat) + ""@ + " (Δ="@ + text::decimal((a.char_count - b.char_count) as nat) + ""@
            + ", tol="@ + text::decimal(3) + ""@ + ")"@,
        a.char_count < b.char_count ==> found[0].message@ == "char_count"@ + ": "@ + text::decimal(a.char_count as nat) + ""@ + " → "@
            + text::decimal(b.char_count as nat) + ""@ + " (Δ="@ + text::decimal((b.char_count - a.char_count) as nat) + ""@
            + ", tol="@ + text::decimal(3) + ""@ + ")"@,
        found[1].within <==> -2 <= a.word_count - b.word_count <= 2,
        found[1].beyond <==> !(-2 <= a.word_count - b.word_count <= 2),
        a.word_count >= b.word_count ==> found[1].message@ == "word_count"@ + ": "@ + text::decimal(a.word_count as nat) + ""@ + " → "@
            + text::decimal(b.word_count as nat) + ""@ + " (Δ="@ + text::decimal((a.word_count - b.word_count) as nat) + ""@
            + ", tol="@ + text::decimal(2) + ""@ + ")"@,
        a.word_count < b.word_count ==> found[1].message@ == "word_count"@ + ": "@ + text::decimal(a.word_count as nat) + ""@ + " → "@
            + text::decimal(b.word_count as nat) + ""@ + " (Δ="@ + text::decimal((b.word_count - a.word_count) as nat) + ""@
            + ", tol="@ + text::decimal(2) + ""@ + ")"@,
        found[2].within <==> average.diff.at_most(F64 { bits: 0x3fe0_0000_0000_0000 }),
        found[2].beyond <==> (F64 { bits: 0x3fe0_0000_0000_0000 }).less(average.diff),
        found[2].message@ == "avg_word_length"@ + ": "@ + average.before@ + ""@ + " → "@ + average.after@ + ""@
            + " (Δ="@ + average.diff_text@ + ""@ + ", tol="@ + "0.50"@ + ""@ + ")"@,
        found[3].within <==> cjk.diff.at_most(F64 { bits: 0x3fa9_9999_9999_999a }),
        found[3].beyond <==> (F64 { bits: 0x3fa9_9999_9999_999a }).less(cjk.diff),
        found[3].message@ == "cjk_ratio"@ + ": "@ + cjk.before@ + ""@ + " → "@ + cjk.after@ + ""@
            + " (Δ="@ + cjk.diff_text@ + ""@ + ", tol="@ + "0.0500"@ + ""@ + ")"@,
{
}

/// Two outputs are an exact match exactly where their digests are equal.
pub proof fn law_match_is_equal_digest(a: Seq<u8>, b: Seq<u8>)
    ensures
        (hex(sha256(a)) == hex(sha256(b))) == (sha256(a) == sha256(b)),
{
    if hex(sha256(a)) == hex(sha256(b)) {
        law_hex_tells_apart(sha256(a), sha256(b));
    }
}

/// Keeps accepted fingerprints in files.
#[derive(Debug, Clone)]
pub struct GoldenMaster {
    /// The directory of the files.
    pub baseline_dir: String,
}

/// The names under which the files `files` of `module` are kept, among the first `n`.
pub open spec fn baselines_in(module: Seq<char>, files: Seq<String>, n: int) -> Seq<
    (Seq<char>, Seq<char>),
>
    decreases n,
{
    if n <= 0 {
        Seq::empty()
    } else {
        match text::json_stem_of(files[n - 1]@) {
            Some(stem) => baselines_in(module, files, n - 1).push((module, stem)),
            None => baselines_in(module, files, n - 1),
        }
    }
}

/// The names under which the files of the first `n` modules are kept.
pub open spec fn baselines(modules: Seq<(String, Vec<String>)>, n: int) -> Seq<
    (Seq<char>, Seq<char>),
>
    decreases n,
{
    if n <= 0 {
        Seq::empty()
    } else {
        baselines(modules, n - 1) + baselines_in(
            modules[n - 1].0@,
            modules[n - 1].1@,
            modules[n - 1].1@.len() as int,
        )
    }
}

/// The files that are listed are those whose name ends in `.json` behind something, each under what stands
/// in front of that.
pub proof fn law_json_files_are_listed(
    module: Seq<char>,
    files: Seq<String>,
    n: int,
    stem: Seq<char>,
)
    requires
        0 <= n < files.len(),
    ensures
        baselines_in(module, files, 0) == Seq::<(Seq<char>, Seq<char>)>::empty(),
        stem.len() > 0 && files[n]@ == stem + ".json"@ ==> baselines_in(module, files, n + 1)
            == baselines_in(module, files, n).push((module, stem)),
        (forall|t: Seq<char>| t.len() > 0 ==> files[n]@ != #[trigger] (t + ".json"@))
            ==> baselines_in(module, files, n + 1) == baselines_in(module, files, n),
{
    let name = files[n]@;
    if stem.len() > 0 && name == stem + ".json"@ {
        text::law_json_name_leads_back(stem);
    }
    if text::json_stem_of(name) is Some {
        reveal_strlit(".json");
        assert(name =~= text::json_stem_of(name)->0 + ".json"@);
    }
}

/// The modules are listed one after the other, each with all its files.
pub proof fn law_modules_are_listed(modules: Seq<(String, Vec<String>)>, n: int)
    requires
        0 <= n < modules.len(),
    ensures
        baselines(modules, 0) == Seq::<(Seq<char>, Seq<char>)>::empty(),
        baselines(modules, n + 1) == baselines(modules, n) + baselines_in(
            modules[n].0@,
            modules[n].1@,
            modules[n].1@.len() as int,
        ),
{
}

/// The texts of pairs.
pub open spec fn pairs(list: Seq<(String, String)>) -> Seq<(Seq<char>, Seq<char>)> {
    Seq::new(list.len(), |i: int| (list[i].0@, list[i].1@))
}

impl GoldenMaster {
    /// The fingerprints in `baseline_dir`.
    pub fn new(baseline_dir: &str) -> (r: Self)
        ensures
            r.baseline_dir@ == baseline_dir@,
    {
        GoldenMaster { baseline_dir: baseline_dir.to_owned() }
    }

    /// The fingerprints in `test_golden`.
    pub fn default_path() -> (r: Self)
        ensures
            r.baseline_dir@ == "test_golden"@,
    {
        GoldenMaster::new("test_golden")
    }

    /// The file of a fingerprint.
    pub fn baseline_path(&self, module: &str, test_name: &str) -> (r: String)
        ensures
            r@ == text::path_joined(
                text::path_joined(self.baseline_dir@, module@),
                text::json_name(test_name@),
            ),
    {
        path_join(
            path_join(self.baseline_dir.as_str(), module).as_str(),
            append2(test_name, ".json").as_str(),
        )
    }

    /// The outcome of a test, and whether its fingerprint is to be kept. `compared` is what comes of
    /// comparing it with the one that was kept, nothing on the first run.
    pub fn load_or_create(compared: Option<FingerprintCompare>) -> (r: (FingerprintCompare, bool))
        ensures
            match compared {
                Some(outcome) => r == (outcome, false),
                None => r.0 is Match && r.1,
            },
    {
        match compared {
            Some(outcome) => (outcome, false),
            None => (FingerprintCompare::Match, true),
        }
    }

    /// The module and the test of each fingerprint, given the modules with the files in each.
    pub fn list_baselines(modules: &Vec<(String, Vec<String>)>) -> (r: Vec<(String, String)>)
        ensures
            pairs(r@) == baselines(modules@, modules@.len() as int),
    {
        let mut out: Vec<(String, String)> = Vec::new();
        let mut i: usize = 0;
        assert(pairs(out@) =~= Seq::empty());
        while i < modules.len()
            invariant
                i <= modules@.len(),
                pairs(out@) == baselines(modules@, i as int),
            decreases modules@.len() - i,
        {
            let module = &modules[i].0;
            let files = &modules[i].1;
            let ghost before = pairs(out@);
            let mut j: usize = 0;
            assert(before =~= before + baselines_in(module@, files@, 0));
            while j < files.len()
                invariant
                    j <= files@.len(),
                    pairs(out@) == before + baselines_in(module@, files@, j as int),
                decreases files@.len() - j,
            {
                let ghost earlier = out@;
                if let Some(stem) = json_stem(files[j].as_str()) {
                    out.push((module.as_str().to_owned(), stem));
                    assert(pairs(out@) =~= pairs(earlier).push((module@, stem@)));
                    assert(pairs(out@) =~= before + baselines_in(module@, files@, j + 1));
                }
                j += 1;
            }
            i += 1;
        }
        out
    }
}

/// A golden master test.
#[derive(Debug, Clone)]
pub struct GoldenMasterTestCase {
    /// The module under test.
    pub module: String,
    /// The name of the test.
    pub name: String,
    /// Where the fingerprints are kept.
    pub gm: GoldenMaster,
}

impl GoldenMasterTestCase {
    /// A test whose fingerprint is kept in `test_golden`.
    pub fn new(module: &str, name: &str) -> (r: Self)
        ensures
            r.module@ == module@,
            r.name@ == name@,
            r.gm.baseline_dir@ == "test_golden"@,
    {
        GoldenMasterTestCase {
            module: module.to_owned(),
            name: name.to_owned(),
            gm: GoldenMaster::default_path(),
        }
    }

    /// The test with its fingerprint kept in `dir`.
    pub fn with_baseline_dir(self, dir: &str) -> (r: Self)
        ensures
            r.module == self.module,
            r.name == self.name,
            r.gm.baseline_dir@ == dir@,
    {
        GoldenMasterTestCase {
            module: self.module,
            name: self.name,
            gm: GoldenMaster::new(dir),
        }
    }

    /// What to say where the test does not pass, nothing where it does.
    pub fn failure(&self, outcome: &FingerprintCompare) -> (r: Option<String>)
        ensures
            match r {
                None => !(outcome is Changed),
                Some(message) => {
                    &&& outcome is Changed
                    &&& message@ == "Golden master test "@ + self.module@ + "/"@ + self.name@
                        + " FAILED:\n"@ + outcome.message()
                        + "\n\nIf this change is intentional, run with VT_GOLDEN_ACCEPT=1 to update the baseline."@
                },
            },
    {
        if outcome.is_pass() {
            return None;
        }
        let mut out = cat5(
            "Golden master test ",
            self.module.as_str(),
            "/",
            self.name.as_str(),
            " FAILED:\n",
        );
        out.append(outcome.diff_message().as_str());
        out.append(
            "\n\nIf this change is intentional, run with VT_GOLDEN_ACCEPT=1 to update the baseline.",
        );
        Some(out)
    }
}

} // verus!
