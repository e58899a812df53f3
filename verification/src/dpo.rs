//! Preference training against repetition: finding repetition in token sequences, making degenerate
//! sequences to train against, and banning repetition while generating.
use vstd::prelude::*;

use crate::ieee::F32;
use crate::order;
use crate::order::sorted_order;

verus! {

/// The default strength of the preference, 0.2, by its bit pattern.
pub const DEFAULT_BETA: u32 = 0x3e4c_cccd;

/// The default length of an n-gram.
pub const DEFAULT_NGRAM_SIZE: usize = 3;

/// The default of the distance up to which an n-gram counts as repeated.
pub const DEFAULT_MAX_REPEAT_LEN: usize = 10;

/// Negative infinity as a single, by its bit pattern.
pub const NEGATIVE_INFINITY: u32 = 0xff80_0000;

/// How a degenerate sequence is made.
#[derive(Debug, Clone, Copy, PartialEq, Eq, Structural)]
pub enum RejectionStrategy {
    /// A piece from the middle is repeated.
    RepeatSegment,
    /// Some tokens are replaced by those before them.
    RandomNoise,
    /// The start is repeated to the end.
    TruncateRepeat,
}

/// The settings of the training.
#[derive(Debug, Clone, Copy)]
pub struct DpoConfig {
    /// The strength of the preference.
    pub beta: F32,
    /// The length of an n-gram.
    pub ngram_size: usize,
    /// The longest piece that is repeated.
    pub max_repeat_len: usize,
    /// Whether there is no reference model.
    pub reference_free: bool,
    /// The weight of the preference in the loss.
    pub dpo_weight: F32,
    /// How a degenerate sequence is made.
    pub rejection_strategy: RejectionStrategy,
}

impl Default for DpoConfig {
    fn default() -> (r: Self)
        ensures
            r.beta.bits == DEFAULT_BETA,
            r.ngram_size == DEFAULT_NGRAM_SIZE,
            r.max_repeat_len == DEFAULT_MAX_REPEAT_LEN,
            r.beta.bits == 0x3e4c_cccd && r.ngram_size == 3 && r.max_repeat_len == 10,
            r.reference_free,
            r.dpo_weight.bits == 0x3f80_0000,
            r.rejection_strategy == RejectionStrategy::RepeatSegment,
    {
        DpoConfig {
            beta: F32::from_bits(DEFAULT_BETA),
            ngram_size: DEFAULT_NGRAM_SIZE,
            max_repeat_len: DEFAULT_MAX_REPEAT_LEN,
            reference_free: true,
            dpo_weight: F32::from_bits(0x3f80_0000),
            rejection_strategy: RejectionStrategy::RepeatSegment,
        }
    }
}

/// The n-gram of `tokens` at position `i`.
pub open spec fn ngram_at(tokens: Seq<u32>, n: nat, i: int) -> Seq<u32> {
    tokens.subrange(i, i + n)
}

/// An n-gram of `tokens` starts at `i`.
pub open spec fn ngram_starts(tokens: Seq<u32>, n: nat, i: int) -> bool {
    0 <= i && i + n <= tokens.len()
}

/// The n-gram at `j` occurs at an earlier position, at a distance of at most `limit`.
pub open spec fn recurs(tokens: Seq<u32>, n: nat, limit: nat, j: int) -> bool {
    exists|i: int|
        0 <= i < j && j - i <= limit && #[trigger] ngram_at(tokens, n, i) == ngram_at(tokens, n, j)
}

/// How many of the first `k` positions `gram` starts at.
pub open spec fn occurrences(tokens: Seq<u32>, gram: Seq<u32>, k: int) -> nat
    decreases k,
{
    if k <= 0 {
        0
    } else if ngram_at(tokens, gram.len(), k - 1) == gram {
        occurrences(tokens, gram, k - 1) + 1
    } else {
        occurrences(tokens, gram, k - 1)
    }
}

/// How many of the first `k` n-grams of `tokens` occur at an earlier position.
pub open spec fn recurring(tokens: Seq<u32>, n: nat, k: int) -> nat
    decreases k,
{
    if k <= 0 {
        0
    } else if recurs(tokens, n, tokens.len(), k - 1) {
        recurring(tokens, n, k - 1) + 1
    } else {
        recurring(tokens, n, k - 1)
    }
}

/// How many n-grams `tokens` has.
pub open spec fn ngram_total(tokens: Seq<u32>, n: nat) -> int {
    if tokens.len() < n {
        0
    } else {
        tokens.len() - n + 1
    }
}

fn same_ngram(tokens: &Vec<u32>, n: usize, a: usize, b: usize) -> (r: bool)
    requires
        a + n <= tokens.len(),
        b + n <= tokens.len(),
    ensures
        r == (ngram_at(tokens@, n as nat, a as int) == ngram_at(tokens@, n as nat, b as int)),
{
    let ghost left = ngram_at(tokens@, n as nat, a as int);
    let ghost right = ngram_at(tokens@, n as nat, b as int);
    let mut k: usize = 0;
    while k < n
        invariant
            k <= n,
            a + n <= tokens.len(),
            b + n <= tokens.len(),
            left == ngram_at(tokens@, n as nat, a as int),
            right == ngram_at(tokens@, n as nat, b as int),
            forall|j: int| 0 <= j < k ==> left[j] == right[j],
        decreases n - k,
    {
        assert(left[k as int] == tokens@[a + k] && right[k as int] == tokens@[b + k]);
        if tokens[a + k] != tokens[b + k] {
            return false;
        }
        k += 1;
    }
    assert(left =~= right);
    true
}

fn copy_range(tokens: &Vec<u32>, from: usize, to: usize) -> (r: Vec<u32>)
    requires
        from <= to <= tokens@.len(),
    ensures
        r@ == tokens@.subrange(from as int, to as int),
{
    let mut out: Vec<u32> = Vec::new();
    let mut i: usize = from;
    while i < to
        invariant
            from <= i <= to <= tokens@.len(),
            out@ == tokens@.subrange(from as int, i as int),
        decreases to - i,
    {
        out.push(tokens[i]);
        i += 1;
    }
    out
}

/// Finds repeated n-grams.
#[derive(Debug, Clone, Copy)]
pub struct NgramRepetitionDetector {
    n: usize,
    max_repeat_len: usize,
}

impl NgramRepetitionDetector {
    #[verifier::type_invariant]
    spec fn has_length(self) -> bool {
        self.n >= 1
    }

    /// The length of an n-gram.
    pub closed spec fn ngram_len(&self) -> nat {
        self.n as nat
    }

    /// The distance up to which an n-gram counts as repeated.
    pub closed spec fn limit(&self) -> nat {
        self.max_repeat_len as nat
    }

    /// A detector of n-grams of length `n`, at least 1.
    pub fn new(n: usize, max_repeat_len: usize) -> (r: Self)
        ensures
            r.ngram_len() == if n < 1 {
                1
            } else {
                n as nat
            },
            r.limit() == max_repeat_len,
    {
        NgramRepetitionDetector {
            n: if n < 1 {
                1
            } else {
                n
            },
            max_repeat_len,
        }
    }

    /// A detector with the default settings.
    pub fn with_defaults() -> (r: Self)
        ensures
            r.ngram_len() == DEFAULT_NGRAM_SIZE,
            r.limit() == DEFAULT_MAX_REPEAT_LEN,
            r.ngram_len() == 3 && r.limit() == 10,
    {
        NgramRepetitionDetector::new(DEFAULT_NGRAM_SIZE, DEFAULT_MAX_REPEAT_LEN)
    }

    fn find_earlier(&self, tokens: &Vec<u32>, j: usize, limit: usize) -> (r: bool)
        requires
            j + self.n <= tokens.len(),
        ensures
            r == recurs(tokens@, self.ngram_len(), limit as nat, j as int),
    {
        let mut i: usize = j;
        while i > 0 && j - i < limit
            invariant
                i <= j,
                j + self.n <= tokens.len(),
                j - i <= limit,
                forall|k: int|
                    i <= k < j ==> #[trigger] ngram_at(tokens@, self.ngram_len(), k) != ngram_at(
                        tokens@,
                        self.ngram_len(),
                        j as int,
                    ),
            decreases i,
        {
            i -= 1;
            if same_ngram(tokens, self.n, i, j) {
                return true;
            }
        }
        false
    }

    /// Whether some n-gram of `tokens` is repeated at a distance of at most the limit.
    pub fn has_repetition(&self, tokens: &Vec<u32>) -> (r: bool)
        ensures
            r == exists|j: int|
                ngram_starts(tokens@, self.ngram_len(), j) && #[trigger] recurs(
                    tokens@,
                    self.ngram_len(),
                    self.limit(),
                    j,
                ),
            r <==> exists|i: int, j: int|
                0 <= i < j && j - i <= self.limit() && j + self.ngram_len() <= tokens@.len()
                    && #[trigger] tokens@.subrange(i, i + self.ngram_len() as int)
                    == #[trigger] tokens@.subrange(j, j + self.ngram_len() as int),
    {
        proof {
            use_type_invariant(self);
            law_repetition_is_a_pair(tokens@, self.ngram_len(), self.limit());
        }
        if tokens.len() < self.n {
            return false;
        }
        let total: usize = tokens.len() - self.n + 1;
        let mut j: usize = 0;
        while j < total
            invariant
                total == tokens.len() - self.n + 1,
                self.n <= tokens.len(),
                j <= total,
                forall|k: int|
                    0 <= k < j ==> !#[trigger] recurs(tokens@, self.ngram_len(), self.limit(), k),
            decreases total - j,
        {
            if self.find_earlier(tokens, j, self.max_repeat_len) {
                assert(ngram_starts(tokens@, self.ngram_len(), j as int));
                assert(recurs(tokens@, self.ngram_len(), self.limit(), j as int));
                proof {
                    law_repetition_is_a_pair(tokens@, self.ngram_len(), self.limit());
                }
                return true;
            }
            j += 1;
        }
        false
    }

    fn count_of(&self, tokens: &Vec<u32>, at: usize, total: usize) -> (r: usize)
        requires
            self.n >= 1,
            self.n <= tokens.len(),
            total == tokens.len() - self.n + 1,
            at < total,
        ensures
            r == occurrences(
                tokens@,
                ngram_at(tokens@, self.ngram_len(), at as int),
                total as int,
            ),
    {
        let ghost gram = ngram_at(tokens@, self.ngram_len(), at as int);
        let mut count: usize = 0;
        let mut j: usize = 0;
        while j < total
            invariant
                self.n <= tokens.len(),
                total == tokens.len() - self.n + 1,
                at < total,
                j <= total,
                gram == ngram_at(tokens@, self.ngram_len(), at as int),
                gram.len() == self.n,
                count <= j,
                count == occurrences(tokens@, gram, j as int),
            decreases total - j,
        {
            if same_ngram(tokens, self.n, j, at) {
                count += 1;
            }
            j += 1;
        }
        count
    }

    /// The n-grams that occur more than once, each with the number of its occurrences, the most
    /// frequent first. The order of equally frequent ones is not specified.
    pub fn count_repetitions(&self, tokens: &Vec<u32>) -> (r: Vec<(Vec<u32>, usize)>)
        ensures
            forall|i: int|
                0 <= i < r@.len() ==> (#[trigger] r@[i]).0@.len() == self.ngram_len() && r@[i].1
                    == occurrences(
                    tokens@,
                    r@[i].0@,
                    ngram_total(tokens@, self.ngram_len()),
                ) && r@[i].1 > 1,
            forall|i: int, j: int|
                0 <= i < j < r@.len() ==> (#[trigger] r@[i]).1 >= (#[trigger] r@[j]).1 && r@[i].0@
                    != r@[j].0@,
            forall|g: Seq<u32>|
                g.len() == self.ngram_len() && #[trigger] occurrences(
                    tokens@,
                    g,
                    ngram_total(tokens@, self.ngram_len()),
                ) > 1 ==> exists|i: int| 0 <= i < r@.len() && (#[trigger] r@[i]).0@ == g,
    {
        proof {
            use_type_invariant(self);
        }
        let mut out: Vec<(Vec<u32>, usize)> = Vec::new();
        if tokens.len() < self.n {
            return out;
        }
        let total: usize = tokens.len() - self.n + 1;
        let mut starts: Vec<usize> = Vec::new();
        let mut counts: Vec<usize> = Vec::new();
        let mut keys: Vec<u64> = Vec::new();
        let mut j: usize = 0;
        while j < total
            invariant
                self.n >= 1,
                self.n <= tokens.len(),
                total == tokens.len() - self.n + 1,
                j <= total,
                starts@.len() == counts@.len() == keys@.len(),
                forall|i: int|
                    0 <= i < starts@.len() ==> (#[trigger] starts@[i]) < j && counts@[i] > 1
                        && counts@[i] == occurrences(
                        tokens@,
                        ngram_at(tokens@, self.ngram_len(), starts@[i] as int),
                        total as int,
                    ) && keys@[i] == u64::MAX - counts@[i],
                forall|a: int, b: int|
                    0 <= a < b < starts@.len() ==> ngram_at(
                        tokens@,
                        self.ngram_len(),
                        #[trigger] starts@[a] as int,
                    ) != ngram_at(tokens@, self.ngram_len(), #[trigger] starts@[b] as int),
                forall|k: int|
                    0 <= k < j && occurrences(
                        tokens@,
                        #[trigger] ngram_at(tokens@, self.ngram_len(), k),
                        total as int,
                    ) > 1 ==> exists|i: int|
                        0 <= i < starts@.len() && ngram_at(
                            tokens@,
                            self.ngram_len(),
                            #[trigger] starts@[i] as int,
                        ) == ngram_at(tokens@, self.ngram_len(), k),
            decreases total - j,
        {
            let ghost old_starts = starts@;
            let ghost old_counts = counts@;
            let ghost old_keys = keys@;
            let ghost gram = ngram_at(tokens@, self.ngram_len(), j as int);
            let earlier = self.find_earlier(tokens, j, j);
            let count = self.count_of(tokens, j, total);
            if !earlier && count > 1 {
                proof {
                    assert forall|a: int| 0 <= a < starts@.len() implies ngram_at(
                        tokens@,
                        self.ngram_len(),
                        #[trigger] starts@[a] as int,
                    ) != gram by {
                        if ngram_at(tokens@, self.ngram_len(), starts@[a] as int) == gram {
                            assert(recurs(tokens@, self.ngram_len(), j as nat, j as int));
                        }
                    }
                }
                starts.push(j);
                counts.push(count);
                keys.push(u64::MAX - count as u64);
                proof {
                    assert forall|i: int| 0 <= i < starts@.len() implies (#[trigger] starts@[i]) < j
                        + 1 && counts@[i] > 1 && counts@[i] == occurrences(
                        tokens@,
                        ngram_at(tokens@, self.ngram_len(), starts@[i] as int),
                        total as int,
                    ) && keys@[i] == u64::MAX - counts@[i] by {
                        if i < old_starts.len() {
                            assert(starts@[i] == old_starts[i] && counts@[i] == old_counts[i]
                                && keys@[i] == old_keys[i]);
                        }
                    }
                    assert forall|a: int, b: int| 0 <= a < b < starts@.len() implies ngram_at(
                        tokens@,
                        self.ngram_len(),
                        #[trigger] starts@[a] as int,
                    ) != ngram_at(tokens@, self.ngram_len(), #[trigger] starts@[b] as int) by {
                        assert(starts@[a] == old_starts[a]);
                        if b < old_starts.len() {
                            assert(starts@[b] == old_starts[b]);
                        }
                    }
                }
            }
            proof {
                assert forall|k: int|
                    0 <= k < j + 1 && occurrences(
                        tokens@,
                        #[trigger] ngram_at(tokens@, self.ngram_len(), k),
                        total as int,
                    ) > 1 implies exists|i: int|
                    0 <= i < starts@.len() && ngram_at(
                        tokens@,
                        self.ngram_len(),
                        #[trigger] starts@[i] as int,
                    ) == ngram_at(tokens@, self.ngram_len(), k) by {
                    if k < j {
                        let i = choose|i: int|
                            0 <= i < old_starts.len() && ngram_at(
                                tokens@,
                                self.ngram_len(),
                                #[trigger] old_starts[i] as int,
                            ) == ngram_at(tokens@, self.ngram_len(), k);
                        assert(starts@[i] == old_starts[i]);
                    } else if earlier {
                        let p = choose|p: int|
                            0 <= p < j && j - p <= j && #[trigger] ngram_at(
                                tokens@,
                                self.ngram_len(),
                                p,
                            ) == gram;
                        let i = choose|i: int|
                            0 <= i < old_starts.len() && ngram_at(
                                tokens@,
                                self.ngram_len(),
                                #[trigger] old_starts[i] as int,
                            ) == ngram_at(tokens@, self.ngram_len(), p);
                        assert(starts@[i] == old_starts[i]);
                    } else {
                        assert(starts@[old_starts.len() as int] == j);
                    }
                }
            }
            j += 1;
        }
        let sorted = sorted_order(&keys);
        proof {
            order::law_order_has_no_duplicates(keys@, sorted@);
        }
        let mut p: usize = 0;
        while p < sorted.len()
            invariant
                self.n >= 1,
                self.n <= tokens.len(),
                total == tokens.len() - self.n + 1,
                starts@.len() == counts@.len() == keys@.len(),
                order::is_order(keys@, sorted@),
                p <= sorted@.len(),
                out@.len() == p,
                forall|i: int|
                    0 <= i < starts@.len() ==> (#[trigger] starts@[i]) < total && counts@[i] > 1
                        && counts@[i] == occurrences(
                        tokens@,
                        ngram_at(tokens@, self.ngram_len(), starts@[i] as int),
                        total as int,
                    ) && keys@[i] == u64::MAX - counts@[i],
                forall|i: int|
                    0 <= i < p ==> (#[trigger] out@[i]).0@ == ngram_at(
                        tokens@,
                        self.ngram_len(),
                        starts@[sorted@[i] as int] as int,
                    ) && out@[i].1 == counts@[sorted@[i] as int],
            decreases sorted@.len() - p,
        {
            let at = sorted[p];
            let start = starts[at];
            out.push((copy_range(tokens, start, start + self.n), counts[at]));
            p += 1;
        }
        proof {
            assert forall|i: int, j: int| 0 <= i < j < out@.len() implies (#[trigger] out@[i]).1 >= (
            #[trigger] out@[j]).1 && out@[i].0@ != out@[j].0@ by {
                let a = sorted@[i] as int;
                let b = sorted@[j] as int;
                assert(order::before(keys@, sorted@[i], sorted@[j]));
                assert(starts@[a] < total && starts@[b] < total);
            }
            assert forall|g: Seq<u32>|
                g.len() == self.ngram_len() && #[trigger] occurrences(
                    tokens@,
                    g,
                    total as int,
                ) > 1 implies exists|i: int| 0 <= i < out@.len() && (#[trigger] out@[i]).0@ == g by {
                lemma_occurs(tokens@, g, total as int);
                let k = choose|k: int| 0 <= k < total && #[trigger] ngram_at(tokens@, g.len(), k) == g;
                assert(ngram_at(tokens@, self.ngram_len(), k) == g);
                let a = choose|i: int|
                    0 <= i < starts@.len() && ngram_at(
                        tokens@,
                        self.ngram_len(),
                        #[trigger] starts@[i] as int,
                    ) == g;
                order::law_order_is_complete(keys@, sorted@, a as usize);
                let i = choose|i: int| 0 <= i < sorted@.len() && #[trigger] sorted@[i] == a as usize;
                assert(out@[i].0@ == g);
            }
        }
        out
    }

    /// How many n-grams of `tokens` occur at an earlier position, and how many there are; nothing
    /// where the sequence is too short for one.
    pub fn repetition_counts(&self, tokens: &Vec<u32>) -> (r: Option<(usize, usize)>)
        ensures
            match r {
                Some((repeated, total)) => {
                    &&& tokens@.len() >= self.ngram_len()
                    &&& total == ngram_total(tokens@, self.ngram_len())
                    &&& repeated == recurring(tokens@, self.ngram_len(), total as int)
                    &&& repeated < total
                    &&& total + self.ngram_len() == tokens@.len() + 1
                },
                None => tokens@.len() < self.ngram_len(),
            },
    {
        proof {
            use_type_invariant(self);
        }
        if tokens.len() < self.n {
            return None;
        }
        let total: usize = tokens.len() - self.n + 1;
        let mut repeated: usize = 0;
        let mut j: usize = 0;
        while j < total
            invariant
                self.n <= tokens.len(),
                total == tokens.len() - self.n + 1,
                j <= total,
                repeated == recurring(tokens@, self.ngram_len(), j as int),
                repeated <= j,
                j > 0 ==> repeated < j,
            decreases total - j,
        {
            let found = self.find_earlier(tokens, j, tokens.len());
            if found {
                repeated += 1;
            }
            j += 1;
        }
        Some((repeated, total))
    }
}

proof fn lemma_occurs(tokens: Seq<u32>, g: Seq<u32>, k: int)
    requires
        occurrences(tokens, g, k) > 0,
    ensures
        exists|i: int| 0 <= i < k && #[trigger] ngram_at(tokens, g.len(), i) == g,
    decreases k,
{
    if k > 0 {
        if ngram_at(tokens, g.len(), k - 1) == g {
        } else {
            lemma_occurs(tokens, g, k - 1);
        }
    }
}

proof fn lemma_occurs_twice(tokens: Seq<u32>, g: Seq<u32>, k: int)
    requires
        occurrences(tokens, g, k) > 1,
    ensures
        exists|i: int, j: int|
            0 <= i < j < k && #[trigger] ngram_at(tokens, g.len(), i) == g && #[trigger] ngram_at(
                tokens,
                g.len(),
                j,
            ) == g,
    decreases k,
{
    if k > 0 {
        if ngram_at(tokens, g.len(), k - 1) == g {
            lemma_occurs(tokens, g, k - 1);
        } else {
            lemma_occurs_twice(tokens, g, k - 1);
        }
    }
}

proof fn lemma_counted(tokens: Seq<u32>, g: Seq<u32>, j: int, k: int)
    requires
        0 <= j < k,
        ngram_at(tokens, g.len(), j) == g,
    ensures
        occurrences(tokens, g, k) > occurrences(tokens, g, j),
    decreases k,
{
    if j < k - 1 {
        lemma_counted(tokens, g, j, k - 1);
    }
}

/// A sequence has a repetition, at whatever distance, exactly where some n-gram occurs at least twice.
pub proof fn law_repetition_is_second_occurrence(tokens: Seq<u32>, n: nat, limit: nat)
    requires
        limit >= tokens.len(),
    ensures
        (exists|j: int| ngram_starts(tokens, n, j) && #[trigger] recurs(tokens, n, limit, j))
            <==> exists|g: Seq<u32>|
            g.len() == n && #[trigger] occurrences(tokens, g, ngram_total(tokens, n)) > 1,
{
    let total = ngram_total(tokens, n);
    if exists|j: int| ngram_starts(tokens, n, j) && #[trigger] recurs(tokens, n, limit, j) {
        let j = choose|j: int|
            ngram_starts(tokens, n, j) && #[trigger] recurs(tokens, n, limit, j);
        let g = ngram_at(tokens, n, j);
        let i = choose|i: int| 0 <= i < j && j - i <= limit && #[trigger] ngram_at(tokens, n, i) == g;
        assert(g.len() == n);
        lemma_counted(tokens, g, i, j);
        lemma_counted(tokens, g, j, total);
        assert(occurrences(tokens, g, total) > 1);
    }
    if exists|g: Seq<u32>| g.len() == n && #[trigger] occurrences(tokens, g, total) > 1 {
        let g = choose|g: Seq<u32>| g.len() == n && #[trigger] occurrences(tokens, g, total) > 1;
        lemma_occurs_twice(tokens, g, total);
        let (i, j) = choose|i: int, j: int|
            0 <= i < j < total && #[trigger] ngram_at(tokens, g.len(), i) == g
                && #[trigger] ngram_at(tokens, g.len(), j) == g;
        assert(ngram_starts(tokens, n, j));
        assert(ngram_at(tokens, n, i) == ngram_at(tokens, n, j));
        assert(recurs(tokens, n, limit, j));
    }
}

/// A repetition is an n-gram that stands at two places, no further apart than the limit.
pub proof fn law_repetition_is_a_pair(tokens: Seq<u32>, n: nat, limit: nat)
    ensures
        (exists|j: int| ngram_starts(tokens, n, j) && #[trigger] recurs(tokens, n, limit, j))
            <==> exists|i: int, j: int|
            0 <= i < j && j - i <= limit && j + n <= tokens.len() && #[trigger] tokens.subrange(
                i,
                i + n as int,
            ) == #[trigger] tokens.subrange(j, j + n as int),
{
    if exists|j: int| ngram_starts(tokens, n, j) && #[trigger] recurs(tokens, n, limit, j) {
        let j = choose|j: int|
            ngram_starts(tokens, n, j) && #[trigger] recurs(tokens, n, limit, j);
        let i = choose|i: int|
            0 <= i < j && j - i <= limit && #[trigger] ngram_at(tokens, n, i) == ngram_at(
                tokens,
                n,
                j,
            );
        assert(tokens.subrange(i, i + n as int) == tokens.subrange(j, j + n as int));
    }
    if exists|i: int, j: int|
        0 <= i < j && j - i <= limit && j + n <= tokens.len() && #[trigger] tokens.subrange(
            i,
            i + n as int,
        ) == #[trigger] tokens.subrange(j, j + n as int) {
        let (i, j) = choose|i: int, j: int|
            0 <= i < j && j - i <= limit && j + n <= tokens.len() && #[trigger] tokens.subrange(
                i,
                i + n as int,
            ) == #[trigger] tokens.subrange(j, j + n as int);
        assert(ngram_at(tokens, n, i) == ngram_at(tokens, n, j));
        assert(ngram_starts(tokens, n, j));
        assert(recurs(tokens, n, limit, j));
    }
}

/// The number of occurrences is that of the places at which the n-gram stands.
pub proof fn law_occurrences_are_places(tokens: Seq<u32>, gram: Seq<u32>, k: int)
    requires
        0 <= k,
    ensures
        Set::new(|i: int| 0 <= i < k && tokens.subrange(i, i + gram.len()) == gram).finite(),
        occurrences(tokens, gram, k) == Set::new(
            |i: int| 0 <= i < k && tokens.subrange(i, i + gram.len()) == gram,
        ).len(),
    decreases k,
{
    let places = Set::new(|i: int| 0 <= i < k && tokens.subrange(i, i + gram.len()) == gram);
    if k > 0 {
        law_occurrences_are_places(tokens, gram, k - 1);
        let before = Set::new(
            |i: int| 0 <= i < k - 1 && tokens.subrange(i, i + gram.len()) == gram,
        );
        if tokens.subrange(k - 1, k - 1 + gram.len()) == gram {
            assert(places =~= before.insert(k - 1));
        } else {
            assert(places =~= before);
        }
    } else {
        assert(places =~= Set::empty());
    }
}

/// Of the first `k` n-grams, those that stood earlier and the different ones are all there are.
pub proof fn law_recurring_or_new(tokens: Seq<u32>, n: nat, k: int)
    requires
        0 <= k <= tokens.len() + 1,
    ensures
        recurring(tokens, n, k) + Seq::new(
            k as nat,
            |i: int| tokens.subrange(i, i + n as int),
        ).to_set().len() == k,
    decreases k,
{
    let grams = Seq::new(k as nat, |i: int| tokens.subrange(i, i + n as int));
    vstd::seq_lib::seq_to_set_is_finite(grams);
    if k > 0 {
        law_recurring_or_new(tokens, n, k - 1);
        let before = Seq::new((k - 1) as nat, |i: int| tokens.subrange(i, i + n as int));
        vstd::seq_lib::seq_to_set_is_finite(before);
        let last = tokens.subrange(k - 1, k - 1 + n as int);
        assert(grams =~= before.push(last));
        assert forall|g: Seq<u32>| grams.to_set().contains(g) == before.to_set().insert(
            last,
        ).contains(g) by {
            if before.contains(g) {
                let i = choose|i: int| 0 <= i < before.len() && before[i] == g;
                assert(grams[i] == g);
            }
            assert(grams[k - 1] == last);
            if grams.contains(g) && g != last {
                let i = choose|i: int| 0 <= i < grams.len() && grams[i] == g;
                assert(before[i] == g);
            }
        }
        assert(grams.to_set() =~= before.to_set().insert(last));
        if recurs(tokens, n, tokens.len(), k - 1) {
            let i = choose|i: int|
                0 <= i < k - 1 && k - 1 - i <= tokens.len() && #[trigger] ngram_at(tokens, n, i)
                    == ngram_at(tokens, n, k - 1);
            assert(before[i] == last);
        } else if before.contains(last) {
            let i = choose|i: int| 0 <= i < before.len() && before[i] == last;
            assert(ngram_at(tokens, n, i) == ngram_at(tokens, n, k - 1));
        }
    } else {
        assert(grams.to_set() =~= Set::empty());
    }
}

/// How long a repeated piece of a sequence of `len` tokens is: a quarter, but at least 2, and no
/// longer than the limit.
pub open spec fn piece_len(len: int, max_repeat_len: int) -> int {
    let quarter = if len / 4 > 2 {
        len / 4
    } else {
        2
    };
    if quarter < max_repeat_len {
        quarter
    } else {
        max_repeat_len
    }
}

/// `accepted` with the piece after its first quarter said twice, cut to the same length; a sequence
/// of fewer than 4 tokens becomes its last token over and over.
pub open spec fn repeat_segment(accepted: Seq<u32>, max_repeat_len: int) -> Seq<u32> {
    let len = accepted.len() as int;
    let start = len / 4;
    let piece = piece_len(len, max_repeat_len);
    Seq::new(
        accepted.len(),
        |k: int|
            if len < 4 {
                accepted[len - 1]
            } else if start + piece <= k < start + 2 * piece {
                accepted[k - piece]
            } else {
                accepted[k]
            },
    )
}

/// `accepted` after `k` replacements: the token at position 7 i + 3, counted round, becomes the one
/// before it.
pub open spec fn noisy(accepted: Seq<u32>, k: int) -> Seq<u32>
    decreases k,
{
    if k <= 0 {
        accepted
    } else {
        let before = noisy(accepted, k - 1);
        let at = ((k - 1) * 7 + 3) % (accepted.len() as int);
        if at > 0 {
            before.update(at, before[at - 1])
        } else {
            before
        }
    }
}

/// The first three fifths of `accepted`, but at least 2 tokens, over and over.
pub open spec fn truncate_repeat(accepted: Seq<u32>) -> Seq<u32> {
    let len = accepted.len() as int;
    let keep = if len * 3 / 5 > 2 {
        len * 3 / 5
    } else {
        2
    };
    Seq::new(
        accepted.len(),
        |k: int|
            if len < 2 {
                accepted[k]
            } else {
                accepted[k % keep]
            },
    )
}

/// How many tokens are replaced: a fifth, but at least one.
pub open spec fn noise_count(len: int) -> int {
    if len / 5 > 1 {
        len / 5
    } else {
        1
    }
}

/// The degenerate sequence that is made of `accepted`.
pub open spec fn rejected(accepted: Seq<u32>, config: DpoConfig) -> Seq<u32> {
    if accepted.len() == 0 {
        accepted
    } else {
        match config.rejection_strategy {
            RejectionStrategy::RepeatSegment => repeat_segment(
                accepted,
                config.max_repeat_len as int,
            ),
            RejectionStrategy::RandomNoise => noisy(accepted, noise_count(accepted.len() as int)),
            RejectionStrategy::TruncateRepeat => truncate_repeat(accepted),
        }
    }
}

/// A degenerate sequence is as long as the one that it is made of.
pub proof fn law_rejected_len(accepted: Seq<u32>, config: DpoConfig)
    ensures
        rejected(accepted, config).len() == accepted.len(),
{
    if accepted.len() > 0 {
        lemma_noisy_len(accepted, noise_count(accepted.len() as int));
    }
}

proof fn lemma_noisy_len(accepted: Seq<u32>, k: int)
    requires
        accepted.len() > 0,
    ensures
        noisy(accepted, k).len() == accepted.len(),
    decreases k,
{
    if k > 0 {
        lemma_noisy_len(accepted, k - 1);
    }
}

/// A sequence that is truncated and repeated keeps its first three fifths.
pub proof fn law_truncate_keeps_start(accepted: Seq<u32>, k: int)
    requires
        accepted.len() >= 2,
        0 <= k < accepted.len() as int * 3 / 5,
    ensures
        truncate_repeat(accepted)[k] == accepted[k],
{
    let len = accepted.len() as int;
    let keep = if len * 3 / 5 > 2 {
        len * 3 / 5
    } else {
        2
    };
    vstd::arithmetic::div_mod::lemma_small_mod(k as nat, keep as nat);
}

/// What is repeated of a sequence of at least four tokens: `p` tokens after the first quarter, a
/// quarter but at least two and no more than the limit, which take the place of the next `p`. A shorter
/// sequence becomes its last token over and over.
pub proof fn law_piece_is_repeated(accepted: Seq<u32>, config: DpoConfig, p: int, k: int)
    requires
        config.rejection_strategy is RepeatSegment,
        0 <= k < accepted.len(),
        0 <= p <= config.max_repeat_len,
        p == 2 || 4 * p <= accepted.len(),
        p == config.max_repeat_len || (p >= 2 && 4 * (p + 1) > accepted.len()),
    ensures
        accepted.len() < 4 ==> rejected(accepted, config)[k] == accepted.last(),
        accepted.len() >= 4 ==> {
            let start = accepted.len() as int / 4;
            &&& k < start + p || k >= start + 2 * p ==> rejected(accepted, config)[k] == accepted[k]
            &&& start + p <= k < start + 2 * p ==> rejected(accepted, config)[k] == accepted[k - p]
        },
{
}

/// What is kept of a sequence of at least two tokens that is truncated: three fifths but at least two
/// tokens, and they come again and again. A shorter sequence stays.
pub proof fn law_start_is_repeated(accepted: Seq<u32>, config: DpoConfig, keep: int, k: int)
    requires
        config.rejection_strategy is TruncateRepeat,
        0 <= k < accepted.len(),
        keep == 2 || 5 * keep <= 3 * accepted.len(),
        keep >= 2,
        5 * (keep + 1) > 3 * accepted.len(),
    ensures
        accepted.len() < 2 || k < keep ==> rejected(accepted, config)[k] == accepted[k],
        accepted.len() >= 2 && k >= keep ==> rejected(accepted, config)[k] == rejected(
            accepted,
            config,
        )[k - keep],
{
    if accepted.len() >= 2 {
        let len = accepted.len() as int;
        assert(len * 3 / 5 == keep || (len * 3 / 5 <= 2 && keep == 2));
        if k < keep {
            vstd::arithmetic::div_mod::lemma_small_mod(k as nat, keep as nat);
        } else {
            assert(k % keep == (k - keep) % keep) by (nonlinear_arith)
                requires
                    keep >= 2,
                    k >= keep,
            ;
        }
    } else {
        assert(accepted.len() == 1);
    }
}

/// How noise is made: a fifth of the tokens but at least one, one after the other at the places 3, 10,
/// 17 and so on, counted round, become the token before them.
pub proof fn law_noise(accepted: Seq<u32>, config: DpoConfig, count: int, k: int, x: int)
    requires
        config.rejection_strategy is RandomNoise,
        count >= 1,
        count == 1 || 5 * count <= accepted.len(),
        5 * (count + 1) > accepted.len(),
        0 <= k,
        0 <= x < accepted.len(),
    ensures
        rejected(accepted, config) == noisy(accepted, count),
        noisy(accepted, 0) == accepted,
        x > 0 && x == (7 * k + 3) % (accepted.len() as int) ==> noisy(accepted, k + 1)[x] == noisy(
            accepted,
            k,
        )[x - 1],
        x == 0 || x != (7 * k + 3) % (accepted.len() as int) ==> noisy(accepted, k + 1)[x] == noisy(
            accepted,
            k,
        )[x],
{
    lemma_noisy_len(accepted, k);
    assert(k * 7 + 3 == 7 * k + 3);
}

/// Makes degenerate sequences.
#[derive(Debug, Clone, Copy)]
pub struct RejectionSampler {
    /// The settings.
    pub config: DpoConfig,
}

impl RejectionSampler {
    /// A sampler with the given settings.
    pub fn new(config: DpoConfig) -> (r: Self)
        ensures
            r.config == config,
    {
        RejectionSampler { config }
    }

    /// Makes a degenerate sequence of `accepted`, in the way that the settings say.
    pub fn make_reject(&self, accepted: &Vec<u32>) -> (r: Vec<u32>)
        ensures
            r@ == rejected(accepted@, self.config),
    {
        if accepted.is_empty() {
            let out: Vec<u32> = Vec::new();
            assert(out@ =~= accepted@);
            return out;
        }
        match self.config.rejection_strategy {
            RejectionStrategy::RepeatSegment => self.make_reject_repeat_segment(accepted),
            RejectionStrategy::RandomNoise => self.make_reject_random_noise(accepted),
            RejectionStrategy::TruncateRepeat => self.make_reject_truncate_repeat(accepted),
        }
    }

    fn make_reject_repeat_segment(&self, accepted: &Vec<u32>) -> (r: Vec<u32>)
        requires
            accepted@.len() > 0,
        ensures
            r@ == repeat_segment(accepted@, self.config.max_repeat_len as int),
    {
        let len: usize = accepted.len();
        let start: usize = len / 4;
        let quarter: usize = if start > 2 {
            start
        } else {
            2
        };
        let piece: usize = if quarter < self.config.max_repeat_len {
            quarter
        } else {
            self.config.max_repeat_len
        };
        let ghost wanted = repeat_segment(accepted@, self.config.max_repeat_len as int);
        let mut out: Vec<u32> = Vec::new();
        let mut k: usize = 0;
        while k < len
            invariant
                k <= len == accepted.len(),
                len > 0,
                start == len / 4,
                piece == piece_len(len as int, self.config.max_repeat_len as int),
                piece <= quarter,
                quarter <= len / 4 || quarter == 2,
                wanted == repeat_segment(accepted@, self.config.max_repeat_len as int),
                out@ == wanted.take(k as int),
            decreases len - k,
        {
            let token = if len < 4 {
                accepted[len - 1]
            } else if k >= start + piece && k - piece < start + piece {
                accepted[k - piece]
            } else {
                accepted[k]
            };
            assert(token == wanted[k as int]);
            out.push(token);
            k += 1;
            assert(out@ =~= wanted.take(k as int));
        }
        assert(wanted.take(len as int) =~= wanted);
        out
    }

    fn make_reject_random_noise(&self, accepted: &Vec<u32>) -> (r: Vec<u32>)
        requires
            accepted@.len() > 0,
        ensures
            r@ == noisy(accepted@, noise_count(accepted@.len() as int)),
    {
        let len: usize = accepted.len();
        let count: usize = if len / 5 > 1 {
            len / 5
        } else {
            1
        };
        let mut out = copy_range(accepted, 0, len);
        assert(out@ =~= accepted@);
        let mut k: usize = 0;
        while k < count
            invariant
                k <= count,
                0 < len == accepted@.len(),
                out@.len() == len,
                out@ == noisy(accepted@, k as int),
            decreases count - k,
        {
            let at: usize = ((k as u128 * 7 + 3) % (len as u128)) as usize;
            if at > 0 {
                let token = out[at - 1];
                out.set(at, token);
            }
            k += 1;
        }
        out
    }

    fn make_reject_truncate_repeat(&self, accepted: &Vec<u32>) -> (r: Vec<u32>)
        requires
            accepted@.len() > 0,
        ensures
            r@ == truncate_repeat(accepted@),
    {
        let len: usize = accepted.len();
        let part: usize = (len as u128 * 3 / 5) as usize;
        let keep: usize = if part > 2 {
            part
        } else {
            2
        };
        let ghost wanted = truncate_repeat(accepted@);
        let mut out: Vec<u32> = Vec::new();
        let mut k: usize = 0;
        while k < len
            invariant
                k <= len == accepted.len(),
                len > 0,
                keep == if len * 3 / 5 > 2 {
                    len * 3 / 5
                } else {
                    2
                },
                wanted == truncate_repeat(accepted@),
                out@ == wanted.take(k as int),
            decreases len - k,
        {
            let token = if len < 2 {
                accepted[k]
            } else {
                accepted[k % keep]
            };
            assert(token == wanted[k as int]);
            out.push(token);
            k += 1;
            assert(out@ =~= wanted.take(k as int));
        }
        assert(wanted.take(len as int) =~= wanted);
        out
    }
}

/// A sample for training.
#[derive(Debug, Clone)]
pub struct DpoTrainingSample {
    /// The input.
    pub input_text: String,
    /// The good sequence.
    pub accepted_tokens: Vec<u32>,
    /// The degenerate sequence.
    pub rejected_tokens: Vec<u32>,
    /// What the model gives for the good sequence.
    pub accepted_logits: Vec<F32>,
    /// What the model gives for the degenerate sequence.
    pub rejected_logits: Vec<F32>,
    /// The weight of the sample.
    pub weight: F32,
}

/// The sample can be trained on: both sequences are there and differ, and the model has given a number
/// for each token of the good one.
pub open spec fn trainable(s: DpoTrainingSample) -> bool {
    &&& s.accepted_tokens@.len() > 0
    &&& s.rejected_tokens@.len() > 0
    &&& s.accepted_tokens@ != s.rejected_tokens@
    &&& s.accepted_logits@.len() == s.accepted_tokens@.len()
}

impl DpoTrainingSample {
    /// A sample without a degenerate sequence, of weight 1.
    pub fn new(input_text: String, accepted_tokens: Vec<u32>, accepted_logits: Vec<F32>) -> (r: Self)
        ensures
            r.input_text == input_text,
            r.accepted_tokens == accepted_tokens,
            r.rejected_tokens@.len() == 0,
            r.accepted_logits == accepted_logits,
            r.rejected_logits@.len() == 0,
            r.weight.bits == 0x3f80_0000,
    {
        DpoTrainingSample {
            input_text,
            accepted_tokens,
            rejected_tokens: Vec::new(),
            accepted_logits,
            rejected_logits: Vec::new(),
            weight: F32::from_bits(0x3f80_0000),
        }
    }

    /// Makes the degenerate sequence with `sampler`.
    pub fn generate_rejection(&mut self, sampler: &RejectionSampler)
        ensures
            final(self).rejected_tokens@ == rejected(old(self).accepted_tokens@, sampler.config),
            *final(self) == (DpoTrainingSample {
                rejected_tokens: final(self).rejected_tokens,
                ..*old(self)
            }),
    {
        self.rejected_tokens = sampler.make_reject(&self.accepted_tokens);
    }

    /// Whether the sample can be trained on.
    pub fn is_valid(&self) -> (r: bool)
        ensures
            r == trainable(*self),
            r <==> self.accepted_tokens@.len() > 0 && self.rejected_tokens@.len() > 0
                && self.accepted_tokens@ != self.rejected_tokens@ && self.accepted_logits@.len()
                == self.accepted_tokens@.len(),
    {
        if self.accepted_tokens.is_empty() || self.rejected_tokens.is_empty()
            || self.accepted_logits.len() != self.accepted_tokens.len() {
            return false;
        }
        if self.accepted_tokens.len() != self.rejected_tokens.len() {
            return true;
        }
        let mut i: usize = 0;
        while i < self.accepted_tokens.len()
            invariant
                i <= self.accepted_tokens@.len(),
                self.accepted_tokens@.len() == self.rejected_tokens@.len(),
                self.accepted_tokens@.len() > 0,
                self.accepted_logits@.len() == self.accepted_tokens@.len(),
                forall|j: int| 0 <= j < i ==> self.accepted_tokens@[j] == self.rejected_tokens@[j],
            decreases self.accepted_tokens@.len() - i,
        {
            if self.accepted_tokens[i] != self.rejected_tokens[i] {
                return true;
            }
            i += 1;
        }
        assert(self.accepted_tokens@ =~= self.rejected_tokens@);
        false
    }
}

/// A set of samples for training.
#[derive(Debug, Clone)]
pub struct DpoTrainingData {
    /// The samples.
    pub samples: Vec<DpoTrainingSample>,
    /// The settings.
    pub config: DpoConfig,
}

impl DpoTrainingData {
    /// No samples.
    pub fn new(config: DpoConfig) -> (r: Self)
        ensures
            r.samples@.len() == 0,
            r.config == config,
    {
        DpoTrainingData { samples: Vec::new(), config }
    }

    /// Adds a sample, and makes its degenerate sequence where it has none.
    pub fn add_sample(&mut self, sample: DpoTrainingSample)
        ensures
            final(self).config == old(self).config,
            final(self).samples@.len() == old(self).samples@.len() + 1,
            final(self).samples@.drop_last() == old(self).samples@,
            ({
                let added = final(self).samples@.last();
                if sample.rejected_tokens@.len() > 0 {
                    added == sample
                } else {
                    added.rejected_tokens@ == rejected(
                        sample.accepted_tokens@,
                        old(self).config,
                    ) && added == (DpoTrainingSample {
                        rejected_tokens: added.rejected_tokens,
                        ..sample
                    })
                }
            }),
    {
        let mut sample = sample;
        if sample.rejected_tokens.is_empty() {
            let sampler = RejectionSampler::new(self.config);
            sample.generate_rejection(&sampler);
        }
        self.samples.push(sample);
        assert(self.samples@.drop_last() =~= old(self).samples@);
    }

    /// How many samples can be trained on.
    pub fn valid_count(&self) -> (r: usize)
        ensures
            r == self.samples@.filter(|s: DpoTrainingSample| trainable(s)).len(),
    {
        let ghost good = |s: DpoTrainingSample| trainable(s);
        let mut count: usize = 0;
        let mut i: usize = 0;
        proof {
            reveal(Seq::filter);
        }
        while i < self.samples.len()
            invariant
                i <= self.samples@.len(),
                good == (|s: DpoTrainingSample| trainable(s)),
                count <= i,
                count == self.samples@.take(i as int).filter(good).len(),
            decreases self.samples@.len() - i,
        {
            proof {
                reveal(Seq::filter);
                assert(self.samples@.take(i + 1).drop_last() == self.samples@.take(i as int));
            }
            if self.samples[i].is_valid() {
                count += 1;
            }
            i += 1;
        }
        assert(self.samples@.take(self.samples@.len() as int) == self.samples@);
        count
    }

    /// Whether there are no samples.
    pub fn is_empty(&self) -> (r: bool)
        ensures
            r == (self.samples@.len() == 0),
    {
        self.samples.is_empty()
    }

    /// How many samples there are.
    pub fn len(&self) -> (r: usize)
        ensures
            r == self.samples@.len(),
    {
        self.samples.len()
    }
}

/// What a ban policy knows: the n-grams that were generated, and the last tokens.
#[verifier::ext_equal]
pub struct BanState {
    /// The n-grams that were generated.
    pub grams: Set<Seq<u32>>,
    /// The last tokens.
    pub recent: Seq<u32>,
}

/// The last `k` tokens.
pub open spec fn last_tokens(tokens: Seq<u32>, k: int) -> Seq<u32> {
    if tokens.len() > k {
        tokens.skip(tokens.len() - k)
    } else {
        tokens
    }
}

/// The state after one more token: the n-gram that it completes is remembered, and four times as many
/// tokens are kept as an n-gram has.
pub open spec fn pushed(state: BanState, n: nat, token: u32) -> BanState {
    let recent = state.recent.push(token);
    BanState {
        grams: if recent.len() >= n {
            state.grams.insert(recent.skip(recent.len() - n))
        } else {
            state.grams
        },
        recent: last_tokens(recent, 4 * n as int),
    }
}

/// The state in which nothing has been generated.
pub open spec fn nothing_generated() -> BanState {
    BanState { grams: Set::empty(), recent: Seq::empty() }
}

/// The state after `tokens`.
pub open spec fn generated(tokens: Seq<u32>, n: nat) -> BanState
    decreases tokens.len(),
{
    if tokens.len() == 0 {
        nothing_generated()
    } else {
        pushed(generated(tokens.drop_last(), n), n, tokens.last())
    }
}

/// `candidate` would complete an n-gram that was generated before.
pub open spec fn banned(state: BanState, n: nat, candidate: u32) -> bool {
    state.recent.len() >= n - 1 && state.grams.contains(
        state.recent.skip(state.recent.len() - (n - 1)).push(candidate),
    )
}

proof fn lemma_generated(tokens: Seq<u32>, n: nat)
    requires
        n >= 1,
    ensures
        generated(tokens, n).recent == last_tokens(tokens, 4 * n as int),
        forall|g: Seq<u32>| #[trigger]
            generated(tokens, n).grams.contains(g) <==> exists|i: int|
                ngram_starts(tokens, n, i) && #[trigger] ngram_at(tokens, n, i) == g,
    decreases tokens.len(),
{
    if tokens.len() > 0 {
        let before = tokens.drop_last();
        lemma_generated(before, n);
        let state = generated(before, n);
        let recent = state.recent.push(tokens.last());
        assert(recent =~= last_tokens(tokens, recent.len() as int));
        assert(last_tokens(recent, 4 * n as int) =~= last_tokens(tokens, 4 * n as int));
        if recent.len() >= n {
            assert(recent.skip(recent.len() - n) =~= ngram_at(tokens, n, tokens.len() - n));
        }
        assert forall|g: Seq<u32>| #[trigger]
            generated(tokens, n).grams.contains(g) <==> exists|i: int|
                ngram_starts(tokens, n, i) && #[trigger] ngram_at(tokens, n, i) == g by {
            if state.grams.contains(g) {
                let i = choose|i: int|
                    ngram_starts(before, n, i) && #[trigger] ngram_at(before, n, i) == g;
                assert(ngram_at(tokens, n, i) =~= ngram_at(before, n, i));
                assert(ngram_starts(tokens, n, i));
            }
            if exists|i: int| ngram_starts(tokens, n, i) && #[trigger] ngram_at(tokens, n, i) == g {
                let i = choose|i: int|
                    ngram_starts(tokens, n, i) && #[trigger] ngram_at(tokens, n, i) == g;
                if i + n <= before.len() {
                    assert(ngram_at(before, n, i) =~= ngram_at(tokens, n, i));
                    assert(ngram_starts(before, n, i));
                }
            }
        }
    }
}

/// After `tokens`, exactly those candidates are banned whose n-gram occurs in `tokens`: generation
/// under the ban never repeats an n-gram.
pub proof fn law_ban_is_repetition(tokens: Seq<u32>, n: nat, candidate: u32)
    requires
        n >= 1,
    ensures
        banned(generated(tokens, n), n, candidate) <==> tokens.len() >= n - 1 && exists|i: int|
            ngram_starts(tokens, n, i) && #[trigger] ngram_at(tokens, n, i) == ngram_at(
                tokens.push(candidate),
                n,
                tokens.len() - (n - 1),
            ),
{
    lemma_generated(tokens, n);
    let recent = last_tokens(tokens, 4 * n as int);
    if tokens.len() >= n - 1 {
        assert(recent.skip(recent.len() - (n - 1)).push(candidate) =~= ngram_at(
            tokens.push(candidate),
            n,
            tokens.len() - (n - 1),
        ));
    }
}

/// After `tokens`, the n-grams that are known are those of `tokens`, each once, and the tokens that are
/// kept are the last ones, four times as many as an n-gram has.
pub proof fn law_generated_is_remembered(tokens: Seq<u32>, n: nat)
    requires
        n >= 1,
    ensures
        generated(tokens, n).grams == Seq::new(
            (if tokens.len() < n {
                0
            } else {
                tokens.len() - n + 1
            }) as nat,
            |i: int| tokens.subrange(i, i + n as int),
        ).to_set(),
        tokens.len() <= 4 * n ==> generated(tokens, n).recent == tokens,
        tokens.len() > 4 * n ==> generated(tokens, n).recent == tokens.subrange(
            tokens.len() - 4 * n,
            tokens.len() as int,
        ),
{
    lemma_generated(tokens, n);
    let total = (if tokens.len() < n {
        0
    } else {
        tokens.len() - n + 1
    }) as nat;
    let grams = Seq::new(total, |i: int| tokens.subrange(i, i + n as int));
    assert forall|g: Seq<u32>| generated(tokens, n).grams.contains(g) == grams.to_set().contains(
        g,
    ) by {
        if grams.contains(g) {
            let i = choose|i: int| 0 <= i < grams.len() && grams[i] == g;
            assert(ngram_starts(tokens, n, i) && ngram_at(tokens, n, i) == g);
        }
        if generated(tokens, n).grams.contains(g) {
            let i = choose|i: int|
                ngram_starts(tokens, n, i) && #[trigger] ngram_at(tokens, n, i) == g;
            assert(grams[i] == g);
        }
    }
    assert(generated(tokens, n).grams =~= grams.to_set());
}

/// After `tokens`, a candidate is banned exactly where it and the tokens before it would be an n-gram
/// that stands in `tokens` already.
pub proof fn law_ban_prevents_second_occurrence(tokens: Seq<u32>, n: nat, candidate: u32)
    requires
        n >= 1,
    ensures
        banned(generated(tokens, n), n, candidate) <==> exists|i: int|
            0 <= i && i + n <= tokens.len() && #[trigger] tokens.subrange(i, i + n as int)
                == tokens.push(candidate).subrange(tokens.len() + 1 - n, tokens.len() as int + 1),
{
    law_ban_is_repetition(tokens, n, candidate);
    let last = tokens.push(candidate).subrange(tokens.len() + 1 - n, tokens.len() as int + 1);
    if banned(generated(tokens, n), n, candidate) {
        let i = choose|i: int|
            ngram_starts(tokens, n, i) && #[trigger] ngram_at(tokens, n, i) == ngram_at(
                tokens.push(candidate),
                n,
                tokens.len() - (n - 1),
            );
        assert(tokens.subrange(i, i + n as int) == last);
    }
    if exists|i: int|
        0 <= i && i + n <= tokens.len() && #[trigger] tokens.subrange(i, i + n as int) == last {
        let i = choose|i: int|
            0 <= i && i + n <= tokens.len() && #[trigger] tokens.subrange(i, i + n as int) == last;
        assert(ngram_starts(tokens, n, i) && ngram_at(tokens, n, i) == last);
    }
}

/// Bans tokens that would repeat an n-gram.
#[derive(Debug)]
pub struct NgramBanPolicy {
    n: usize,
    history: Vec<Vec<u32>>,
    recent_tokens: Vec<u32>,
}

/// The n-grams of a list.
pub open spec fn gram_list(list: Seq<Vec<u32>>) -> Seq<Seq<u32>> {
    Seq::new(list.len(), |i: int| list[i]@)
}

impl NgramBanPolicy {
    /// No n-gram is listed twice, and an n-gram has a length.
    pub closed spec fn wf(&self) -> bool {
        &&& self.n >= 1
        &&& gram_list(self.history@).no_duplicates()
    }

    /// The length of an n-gram.
    pub closed spec fn ngram_len(&self) -> nat {
        self.n as nat
    }

    /// What the policy knows.
    pub closed spec fn state(&self) -> BanState {
        BanState {
            grams: gram_list(self.history@).to_set(),
            recent: self.recent_tokens@,
        }
    }

    /// A policy on n-grams of length `n`, at least 1, before anything is generated.
    pub fn new(n: usize) -> (r: Self)
        ensures
            r.wf(),
            r.ngram_len() == if n < 1 {
                1
            } else {
                n as nat
            },
            r.state() == nothing_generated(),
            r.state().grams == Set::<Seq<u32>>::empty() && r.state().recent == Seq::<u32>::empty(),
    {
        let r = NgramBanPolicy {
            n: if n < 1 {
                1
            } else {
                n
            },
            history: Vec::new(),
            recent_tokens: Vec::new(),
        };
        assert(r.state().grams =~= Set::empty());
        assert(r.state().recent =~= Seq::empty());
        r
    }

    /// A policy with the default settings.
    pub fn with_defaults() -> (r: Self)
        ensures
            r.wf(),
            r.ngram_len() == DEFAULT_NGRAM_SIZE,
            r.ngram_len() == 3,
            r.state() == nothing_generated(),
            r.state().grams == Set::<Seq<u32>>::empty() && r.state().recent == Seq::<u32>::empty(),
    {
        NgramBanPolicy::new(DEFAULT_NGRAM_SIZE)
    }

    fn knows(&self, gram: &Vec<u32>) -> (r: bool)
        ensures
            r == self.state().grams.contains(gram@),
    {
        let ghost grams = gram_list(self.history@);
        let mut i: usize = 0;
        while i < self.history.len()
            invariant
                i <= self.history@.len(),
                grams == gram_list(self.history@),
                forall|j: int| 0 <= j < i ==> grams[j] != gram@,
            decreases self.history@.len() - i,
        {
            let known = &self.history[i];
            assert(grams[i as int] == known@);
            let mut same = known.len() == gram.len();
            let mut k: usize = 0;
            while same && k < gram.len()
                invariant
                    k <= gram@.len(),
                    same ==> known@.len() == gram@.len() && forall|j: int|
                        0 <= j < k ==> known@[j] == gram@[j],
                    !same ==> known@ != gram@,
                decreases gram@.len() - k,
            {
                if known[k] != gram[k] {
                    same = false;
                }
                k += 1;
            }
            if same {
                assert(known@ =~= gram@);
                assert(grams.contains(gram@));
                return true;
            }
            i += 1;
        }
        false
    }

    /// Records a token that was generated.
    pub fn push_token(&mut self, token: u32)
        requires
            old(self).wf(),
        ensures
            final(self).wf(),
            final(self).ngram_len() == old(self).ngram_len(),
            final(self).state() == pushed(old(self).state(), old(self).ngram_len(), token),
    {
        let ghost before = self.state();
        self.recent_tokens.push(token);
        let len: usize = self.recent_tokens.len();
        let ghost recent = self.recent_tokens@;
        if len >= self.n {
            let gram = copy_range(&self.recent_tokens, len - self.n, len);
            assert(gram@ =~= recent.skip(recent.len() - self.n));
            if !self.knows(&gram) {
                let ghost listed = gram_list(self.history@);
                self.history.push(gram);
                proof {
                    let now = gram_list(self.history@);
                    assert(now =~= listed.push(gram@));
                    assert(!listed.contains(gram@));
                    assert(now.no_duplicates());
                    assert forall|g: Seq<u32>| now.to_set().contains(g) <==> listed.to_set().insert(
                        gram@,
                    ).contains(g) by {
                        if listed.contains(g) {
                            let i = choose|i: int| 0 <= i < listed.len() && listed[i] == g;
                            assert(now[i] == g);
                        }
                        assert(now[listed.len() as int] == gram@);
                        if now.contains(g) {
                            let i = choose|i: int| 0 <= i < now.len() && now[i] == g;
                            if i < listed.len() {
                                assert(listed[i] == g);
                            }
                        }
                    }
                    assert(now.to_set() =~= listed.to_set().insert(gram@));
                }
            } else {
                assert(before.grams =~= before.grams.insert(gram@));
            }
        }
        if (len - 1) / 4 >= self.n {
            let keep = copy_range(&self.recent_tokens, len - 4 * self.n, len);
            assert(keep@ =~= recent.skip(recent.len() - 4 * self.n));
            self.recent_tokens = keep;
        }
    }

    /// Whether `candidate` would complete an n-gram that was generated before.
    pub fn is_banned(&self, candidate: u32) -> (r: bool)
        requires
            self.wf(),
        ensures
            r == banned(self.state(), self.ngram_len(), candidate),
    {
        let len: usize = self.recent_tokens.len();
        if len < self.n - 1 {
            return false;
        }
        let mut gram = copy_range(&self.recent_tokens, len - (self.n - 1), len);
        gram.push(candidate);
        assert(gram@ =~= self.recent_tokens@.skip(len - (self.n - 1)).push(candidate));
        self.knows(&gram)
    }

    /// Sets what the model gives for each banned token, by its number, to negative infinity.
    pub fn apply_ban(&self, logits: &mut Vec<F32>)
        requires
            self.wf(),
        ensures
            final(logits)@.len() == old(logits)@.len(),
            forall|i: int|
                0 <= i < old(logits)@.len() ==> #[trigger] final(logits)@[i] == if banned(
                    self.state(),
                    self.ngram_len(),
                    i as u32,
                ) {
                    F32 { bits: NEGATIVE_INFINITY }
                } else {
                    old(logits)@[i]
                },
            forall|i: int|
                0 <= i < old(logits)@.len() ==> (#[trigger] final(logits)@[i] == old(logits)@[i]
                    || final(logits)@[i].bits == 0xff80_0000),
            forall|i: int|
                0 <= i < old(logits)@.len() && banned(self.state(), self.ngram_len(), i as u32)
                    ==> (#[trigger] final(logits)@[i]).bits == 0xff80_0000,
    {
        let mut i: usize = 0;
        while i < logits.len()
            invariant
                self.wf(),
                i <= logits@.len() == old(logits)@.len(),
                forall|j: int|
                    0 <= j < i ==> #[trigger] logits@[j] == if banned(
                        self.state(),
                        self.ngram_len(),
                        j as u32,
                    ) {
                        F32 { bits: NEGATIVE_INFINITY }
                    } else {
                        old(logits)@[j]
                    },
                forall|j: int| i <= j < logits@.len() ==> #[trigger] logits@[j] == old(logits)@[j],
            decreases logits@.len() - i,
        {
            #[verifier::truncate]
            let token: u32 = i as u32;
            if self.is_banned(token) {
                logits.set(i, F32::from_bits(NEGATIVE_INFINITY));
            }
            i += 1;
        }
    }

    /// Forgets everything.
    pub fn reset(&mut self)
        requires
            old(self).wf(),
        ensures
            final(self).wf(),
            final(self).ngram_len() == old(self).ngram_len(),
            final(self).state() == nothing_generated(),
            final(self).state().grams == Set::<Seq<u32>>::empty(),
            final(self).state().recent == Seq::<u32>::empty(),
    {
        self.history.clear();
        self.recent_tokens.clear();
        assert(self.state().grams =~= Set::empty());
        assert(self.state().recent =~= Seq::empty());
    }

    /// How many different n-grams were generated.
    pub fn ngram_count(&self) -> (r: usize)
        requires
            self.wf(),
        ensures
            self.state().grams.finite(),
            r == self.state().grams.len(),
    {
        proof {
            gram_list(self.history@).unique_seq_to_set();
        }
        self.history.len()
    }
}

} // verus!
