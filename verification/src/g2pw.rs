//! Readings of Chinese text, with those of polyphonic characters settled by the words around them.
use vstd::prelude::*;

use crate::ieee::F32;
use crate::pinyin_tables;
use crate::pinyin_tables::{basic_pinyin, load_builtin};
use crate::text;
use crate::text::{chars_of, join, occurs, same_text, split_words};

verus! {

/// A polyphonic character.
#[derive(Debug, Clone)]
pub struct Polyphone {
    /// The character.
    pub char: char,
    /// Its readings.
    pub readings: Vec<String>,
    /// The words that settle the reading.
    pub context_rules: Vec<PolyphoneRule>,
}

/// A rule on a word that contains the character.
#[derive(Debug, Clone)]
pub struct PolyphoneRule {
    /// The word.
    pub word: String,
    /// The reading inside the word, as an index into the readings.
    pub reading_index: usize,
    /// What the rule is about.
    pub description: String,
}

/// A rule as a value.
#[verifier::ext_equal]
pub struct RuleView {
    /// The word.
    pub word: Seq<char>,
    /// The index of the reading.
    pub reading_index: nat,
    /// What the rule is about.
    pub description: Seq<char>,
}

/// A polyphonic character as a value.
#[verifier::ext_equal]
pub struct PolyphoneView {
    /// The character.
    pub char: char,
    /// Its readings.
    pub readings: Seq<Seq<char>>,
    /// Its rules.
    pub rules: Seq<RuleView>,
}

impl View for PolyphoneRule {
    type V = RuleView;

    open spec fn view(&self) -> RuleView {
        RuleView {
            word: self.word@,
            reading_index: self.reading_index as nat,
            description: self.description@,
        }
    }
}

impl View for Polyphone {
    type V = PolyphoneView;

    open spec fn view(&self) -> PolyphoneView {
        PolyphoneView {
            char: self.char,
            readings: text::texts(self.readings@),
            rules: Seq::new(self.context_rules@.len(), |i: int| self.context_rules@[i]@),
        }
    }
}

impl Polyphone {
    /// A character with its readings and no rules.
    pub fn new(char: char, readings: Vec<String>) -> (r: Self)
        ensures
            r@ == (PolyphoneView {
                char,
                readings: text::texts(readings@),
                rules: Seq::empty(),
            }),
    {
        Polyphone { char, readings, context_rules: Vec::new() }
    }

    /// Adds a rule after the others.
    pub fn add_rule(&mut self, word: &str, reading_index: usize, description: &str)
        ensures
            final(self)@ == (PolyphoneView {
                rules: old(self)@.rules.push(
                    RuleView {
                        word: word@,
                        reading_index: reading_index as nat,
                        description: description@,
                    },
                ),
                ..old(self)@
            }),
    {
        self.context_rules.push(
            PolyphoneRule {
                word: word.to_owned(),
                reading_index,
                description: description.to_owned(),
            },
        );
        assert(self@.rules =~= old(self)@.rules.push(
            RuleView {
                word: word@,
                reading_index: reading_index as nat,
                description: description@,
            },
        ));
    }

    /// How many readings the character has.
    pub fn reading_count(&self) -> (r: usize)
        ensures
            r == self@.readings.len(),
    {
        self.readings.len()
    }

    /// Whether the character has more than one reading.
    pub fn is_polyphone(&self) -> (r: bool)
        ensures
            r == (self@.readings.len() > 1),
    {
        self.readings.len() > 1
    }

    /// The reading of the character at position `pos` of `text`: that of the first rule that
    /// applies there, with the rule's description, and otherwise the first reading.
    pub fn disambiguate(&self, text: &str, pos: usize) -> (r: (usize, Option<String>))
        ensures
            r.0 == reading_at(self@, text@, pos as nat).0,
            optional_text(r.1) == reading_at(self@, text@, pos as nat).1,
    {
        let chars = chars_of(text);
        let mut i: usize = 0;
        while i < self.context_rules.len()
            invariant
                i <= self.context_rules@.len(),
                chars@ == text@,
                applicable_rule(self@, text@, pos as nat, 0) == applicable_rule(
                    self@,
                    text@,
                    pos as nat,
                    i as int,
                ),
            decreases self.context_rules@.len() - i,
        {
            let word = chars_of(self.context_rules[i].word.as_str());
            assert(self@.rules[i as int] == self.context_rules@[i as int]@);
            if word_covers(&word, self.char, &chars, pos) {
                return (
                    self.context_rules[i].reading_index,
                    Some(self.context_rules[i].description.clone()),
                );
            }
            i += 1;
        }
        (0, None)
    }
}

/// The text of an optional string.
pub open spec fn optional_text(s: Option<String>) -> Option<Seq<char>> {
    match s {
        Some(t) => Some(t@),
        None => None,
    }
}

/// The texts of a list of optional strings.
pub open spec fn optional_texts(list: Seq<Option<String>>) -> Seq<Option<Seq<char>>> {
    Seq::new(list.len(), |i: int| optional_text(list[i]))
}

/// `p` is the first position of `c` in `word`.
pub open spec fn first_at(word: Seq<char>, c: char, p: int) -> bool {
    &&& 0 <= p < word.len()
    &&& word[p] == c
    &&& forall|q: int| 0 <= q < p ==> word[q] != c
}

/// `text` has `word` around position `pos`, laid so that the first `c` of `word` falls on `pos`,
/// or at the start of `text` where `pos` is too small for that.
pub open spec fn covers(word: Seq<char>, c: char, text: Seq<char>, pos: nat) -> bool {
    exists|p: int|
        {
            let start = if pos >= p {
                pos - p
            } else {
                0
            };
            &&& #[trigger] first_at(word, c, p)
            &&& start + word.len() <= text.len()
            &&& text.subrange(start, start + word.len()) == word
        }
}

/// The first rule from index `from` on that applies at position `pos` of `text`.
pub open spec fn applicable_rule(p: PolyphoneView, text: Seq<char>, pos: nat, from: int) -> Option<
    int,
>
    decreases p.rules.len() - from,
{
    if from < 0 || from >= p.rules.len() {
        None
    } else if covers(p.rules[from].word, p.char, text, pos) {
        Some(from)
    } else {
        applicable_rule(p, text, pos, from + 1)
    }
}

/// The index of the reading at position `pos` of `text`, with the description of the rule that
/// settled it.
pub open spec fn reading_at(p: PolyphoneView, text: Seq<char>, pos: nat) -> (
    nat,
    Option<Seq<char>>,
) {
    match applicable_rule(p, text, pos, 0) {
        Some(i) => (p.rules[i].reading_index, Some(p.rules[i].description)),
        None => (0, None),
    }
}

fn word_covers(word: &Vec<char>, c: char, text: &Vec<char>, pos: usize) -> (r: bool)
    ensures
        r == covers(word@, c, text@, pos as nat),
{
    let mut p: usize = 0;
    while p < word.len() && word[p] != c
        invariant
            p <= word@.len(),
            forall|q: int| 0 <= q < p ==> word@[q] != c,
        decreases word@.len() - p,
    {
        p += 1;
    }
    if p == word.len() {
        return false;
    }
    assert(first_at(word@, c, p as int));
    let start: usize = if pos >= p {
        pos - p
    } else {
        0
    };
    proof {
        assert forall|q: int| first_at(word@, c, q) implies q == p by {}
    }
    if start > text.len() || word.len() > text.len() - start {
        return false;
    }
    let mut k: usize = 0;
    while k < word.len()
        invariant
            k <= word@.len(),
            start + word.len() <= text.len(),
            first_at(word@, c, p as int),
            forall|q: int| first_at(word@, c, q) ==> q == p,
            start == if pos >= p {
                pos - p
            } else {
                0
            },
            forall|j: int| 0 <= j < k ==> text@[start + j] == word@[j],
        decreases word@.len() - k,
    {
        if text[start + k] != word[k] {
            assert(text@.subrange(start as int, start + word@.len())[k as int] != word@[k as int]);
            return false;
        }
        k += 1;
    }
    assert(text@.subrange(start as int, start + word@.len()) =~= word@);
    true
}

proof fn lemma_applicable_is(p: PolyphoneView, text: Seq<char>, pos: nat, from: int, i: int)
    requires
        0 <= from <= i < p.rules.len(),
        covers(p.rules[i].word, p.char, text, pos),
        forall|j: int|
            from <= j < i ==> !covers((#[trigger] p.rules[j]).word, p.char, text, pos),
    ensures
        applicable_rule(p, text, pos, from) == Some(i),
    decreases i - from,
{
    if from < i {
        lemma_applicable_is(p, text, pos, from + 1, i);
    }
}

proof fn lemma_applicable_none(p: PolyphoneView, text: Seq<char>, pos: nat, from: int)
    requires
        0 <= from <= p.rules.len(),
        forall|j: int|
            from <= j < p.rules.len() ==> !covers(
                (#[trigger] p.rules[j]).word,
                p.char,
                text,
                pos,
            ),
    ensures
        applicable_rule(p, text, pos, from) is None,
    decreases p.rules.len() - from,
{
    if from < p.rules.len() {
        lemma_applicable_none(p, text, pos, from + 1);
    }
}

/// Where a word counts: with the first `c` of the word at `k`, it counts at each place where it stands
/// in the text with that `c` on the position, and at the start of the text also for the positions before
/// that `c`. A word without `c` counts nowhere.
pub proof fn law_word_counts_where_it_stands(
    word: Seq<char>,
    c: char,
    text: Seq<char>,
    pos: nat,
    k: int,
)
    ensures
        !word.contains(c) ==> !covers(word, c, text, pos),
        0 <= k < word.len() && word[k] == c && !word.take(k).contains(c) ==> (covers(
            word,
            c,
            text,
            pos,
        ) <==> exists|a: Seq<char>, b: Seq<char>|
            text == #[trigger] (a + word + b) && (a.len() + k == pos || (a.len() == 0 && pos <= k))),
{
    if covers(word, c, text, pos) {
        let p = choose|p: int|
            {
                let start = if pos >= p {
                    pos - p
                } else {
                    0
                };
                &&& #[trigger] first_at(word, c, p)
                &&& start + word.len() <= text.len()
                &&& text.subrange(start, start + word.len()) == word
            };
        assert(word[p] == c);
        if 0 <= k < word.len() && word[k] == c && !word.take(k).contains(c) {
            if p < k {
                assert(word.take(k)[p] == c);
            }
            assert(p == k);
            let start: int = if pos >= p {
                pos - p
            } else {
                0
            };
            let a = text.subrange(0, start);
            let b = text.subrange(start + word.len() as int, text.len() as int);
            assert(text =~= a + text.subrange(start, start + word.len() as int) + b);
            assert(text == a + word + b);
        }
    }
    if 0 <= k < word.len() && word[k] == c && !word.take(k).contains(c) {
        if exists|a: Seq<char>, b: Seq<char>|
            text == #[trigger] (a + word + b) && (a.len() + k == pos || (a.len() == 0 && pos <= k)) {
            let (a, b) = choose|a: Seq<char>, b: Seq<char>|
                text == #[trigger] (a + word + b) && (a.len() + k == pos || (a.len() == 0 && pos
                    <= k));
            assert forall|q: int| 0 <= q < k implies word[q] != c by {
                assert(word.take(k)[q] == word[q]);
            }
            assert(first_at(word, c, k));
            assert(text.subrange(a.len() as int, a.len() as int + word.len()) =~= word);
        }
    }
}

/// The first rule that counts settles the reading, and where none counts it is the first reading.
pub proof fn law_first_rule_settles(p: PolyphoneView, text: Seq<char>, pos: nat, i: int)
    requires
        0 <= i <= p.rules.len(),
        forall|j: int| 0 <= j < i ==> !covers((#[trigger] p.rules[j]).word, p.char, text, pos),
        i < p.rules.len() ==> covers(p.rules[i].word, p.char, text, pos),
    ensures
        i < p.rules.len() ==> reading_at(p, text, pos) == (
            p.rules[i].reading_index,
            Some(p.rules[i].description),
        ),
        i == p.rules.len() ==> reading_at(p, text, pos) == (0nat, None::<Seq<char>>),
{
    if i < p.rules.len() {
        lemma_applicable_is(p, text, pos, 0, i);
    } else {
        lemma_applicable_none(p, text, pos, 0);
    }
}

/// A word that covers a position at which the character stands lies over it there.
proof fn lemma_covers_lies_over(word: Seq<char>, c: char, text: Seq<char>, pos: nat)
    requires
        pos < text.len(),
        text[pos as int] == c,
        covers(word, c, text, pos),
    ensures
        exists|m: int|
            0 <= m < word.len() && m <= pos && #[trigger] word[m] == c && pos - m + word.len()
                <= text.len() && text.subrange(pos - m, pos - m + word.len()) == word,
{
    let m = choose|p: int|
        {
            let start = if pos >= p {
                pos - p
            } else {
                0
            };
            &&& #[trigger] first_at(word, c, p)
            &&& start + word.len() <= text.len()
            &&& text.subrange(start, start + word.len()) == word
        };
    if pos < m {
        assert(text.subrange(0, word.len() as int)[pos as int] == text[pos as int]);
        assert(word[pos as int] == c);
    }
    assert(word[m] == c);
}

/// Context settles the reading wherever the word stands: inside any text, a character has the reading
/// of the first rule whose word lies over it, with the description of that rule.
pub proof fn law_word_settles_reading(
    p: PolyphoneView,
    i: int,
    k: int,
    a: Seq<char>,
    b: Seq<char>,
)
    requires
        0 <= i < p.rules.len(),
        0 <= k < p.rules[i].word.len(),
        p.rules[i].word[k] == p.char,
        forall|q: int| 0 <= q < k ==> p.rules[i].word[q] != p.char,
        forall|j: int, m: int|
            #![trigger p.rules[j].word[m]]
            {
                let text = a + p.rules[i].word + b;
                let word = p.rules[j].word;
                let start = a.len() + k - m;
                0 <= j < i && 0 <= m < word.len() && word[m] == p.char && 0 <= start && start
                    + word.len() <= text.len() ==> text.subrange(start, start + word.len()) != word
            },
    ensures
        reading_at(p, a + p.rules[i].word + b, (a.len() + k) as nat) == (
            p.rules[i].reading_index,
            Some(p.rules[i].description),
        ),
{
    let word = p.rules[i].word;
    let text = a + word + b;
    let pos = (a.len() + k) as nat;
    assert(text[pos as int] == word[k]);
    assert(first_at(word, p.char, k));
    assert(text.subrange(a.len() as int, (a.len() + word.len()) as int) =~= word);
    assert(covers(word, p.char, text, pos));
    assert forall|j: int| 0 <= j < i implies !covers((#[trigger] p.rules[j]).word, p.char, text, pos) by {
        if covers(p.rules[j].word, p.char, text, pos) {
            lemma_covers_lies_over(p.rules[j].word, p.char, text, pos);
            let m = choose|m: int|
                0 <= m < p.rules[j].word.len() && m <= pos && #[trigger] p.rules[j].word[m]
                    == p.char && pos - m + p.rules[j].word.len() <= text.len() && text.subrange(
                    pos - m,
                    pos - m + p.rules[j].word.len(),
                ) == p.rules[j].word;
            assert(p.rules[j].word[m] == p.char);
        }
    }
    lemma_applicable_is(p, text, pos, 0, i);
}

/// Without context the first reading counts: where no word of a rule lies over a character, it has
/// its first reading, and no rule is named.
pub proof fn law_first_reading_without_context(p: PolyphoneView, text: Seq<char>, pos: nat)
    requires
        pos < text.len(),
        text[pos as int] == p.char,
        forall|j: int, m: int|
            #![trigger p.rules[j].word[m]]
            {
                let word = p.rules[j].word;
                let start = pos - m;
                0 <= j < p.rules.len() && 0 <= m < word.len() && word[m] == p.char && 0 <= start
                    && start + word.len() <= text.len() ==> text.subrange(
                    start,
                    start + word.len(),
                ) != word
            },
    ensures
        reading_at(p, text, pos) == (0nat, None::<Seq<char>>),
{
    assert forall|j: int| 0 <= j < p.rules.len() implies !covers(
        (#[trigger] p.rules[j]).word,
        p.char,
        text,
        pos,
    ) by {
        if covers(p.rules[j].word, p.char, text, pos) {
            lemma_covers_lies_over(p.rules[j].word, p.char, text, pos);
            let m = choose|m: int|
                0 <= m < p.rules[j].word.len() && m <= pos && #[trigger] p.rules[j].word[m]
                    == p.char && pos - m + p.rules[j].word.len() <= text.len() && text.subrange(
                    pos - m,
                    pos - m + p.rules[j].word.len(),
                ) == p.rules[j].word;
            assert(p.rules[j].word[m] == p.char);
        }
    }
    lemma_applicable_none(p, text, pos, 0);
}

/// Text in front does not change a reading, as long as no word of a rule could reach into it.
pub proof fn law_reading_moves_with_text(
    p: PolyphoneView,
    front: Seq<char>,
    text: Seq<char>,
    pos: nat,
)
    requires
        forall|j: int|
            0 <= j < p.rules.len() ==> (#[trigger] p.rules[j]).word.len() <= pos + 1,
    ensures
        reading_at(p, front + text, (front.len() + pos) as nat) == reading_at(p, text, pos),
{
    lemma_rules_move(p, front, text, pos, 0);
}

proof fn lemma_rules_move(
    p: PolyphoneView,
    front: Seq<char>,
    text: Seq<char>,
    pos: nat,
    from: int,
)
    requires
        0 <= from <= p.rules.len(),
        forall|j: int|
            0 <= j < p.rules.len() ==> (#[trigger] p.rules[j]).word.len() <= pos + 1,
    ensures
        applicable_rule(p, front + text, (front.len() + pos) as nat, from) == applicable_rule(
            p,
            text,
            pos,
            from,
        ),
    decreases p.rules.len() - from,
{
    if from < p.rules.len() {
        let word = p.rules[from].word;
        let all = front + text;
        let far = (front.len() + pos) as nat;
        assert forall|q: int| first_at(word, p.char, q) implies (far - q + word.len() <= all.len()
            && all.subrange(far - q, far - q + word.len()) == word) == (pos - q + word.len()
            <= text.len() && text.subrange(pos - q, pos - q + word.len()) == word) by {
            if pos - q + word.len() <= text.len() {
                assert(all.subrange(far - q, far - q + word.len()) =~= text.subrange(
                    pos - q,
                    pos - q + word.len(),
                ));
            }
        }
        lemma_rules_move(p, front, text, pos, from + 1);
    }
}

/// The polyphonic characters and their readings, at most one entry for a character.
pub struct PolyphoneDictionary {
    entries: Vec<Polyphone>,
}

/// The characters of a list of entries.
pub open spec fn entry_chars(entries: Seq<Polyphone>) -> Seq<char> {
    Seq::new(entries.len(), |i: int| entries[i].char)
}

/// The entry of each character in `entries`.
pub open spec fn entry_map(entries: Seq<Polyphone>) -> Map<char, PolyphoneView> {
    Map::new(
        |c: char| entry_chars(entries).contains(c),
        |c: char| entries[entry_chars(entries).index_of(c)]@,
    )
}

/// Every reading that a rule names exists, and there is a reading where no rule applies.
pub open spec fn resolvable(p: PolyphoneView) -> bool {
    &&& p.readings.len() > 0
    &&& forall|i: int|
        0 <= i < p.rules.len() ==> (#[trigger] p.rules[i]).reading_index < p.readings.len()
}

/// `entries` added one after the other to `dict`, a later entry replacing an earlier one.
pub open spec fn with_entries(
    dict: Map<char, PolyphoneView>,
    entries: Seq<PolyphoneView>,
) -> Map<char, PolyphoneView>
    decreases entries.len(),
{
    if entries.len() == 0 {
        dict
    } else {
        with_entries(dict, entries.drop_last()).insert(entries.last().char, entries.last())
    }
}

impl View for PolyphoneDictionary {
    type V = Map<char, PolyphoneView>;

    closed spec fn view(&self) -> Map<char, PolyphoneView> {
        entry_map(self.entries@)
    }
}

impl PolyphoneDictionary {
    /// No character has two entries.
    pub closed spec fn wf(&self) -> bool {
        entry_chars(self.entries@).no_duplicates()
    }

    /// The dictionary of the built-in characters.
    pub fn builtin() -> (r: Self)
        ensures
            r.wf(),
            r@ == with_entries(Map::empty(), pinyin_tables::builtin_entries()),
    {
        let mut dict = PolyphoneDictionary::empty();
        let list = load_builtin();
        let ghost views = pinyin_tables::builtin_entries();
        for p in it: list
            invariant
                it.seq() == list@,
                dict.wf(),
                list@.len() == views.len(),
                forall|i: int| 0 <= i < list@.len() ==> #[trigger] list@[i]@ == views[i],
                dict@ == with_entries(Map::empty(), views.take(it.index() as int)),
        {
            proof {
                assert(views.take(it.index() + 1).drop_last() == views.take(it.index() as int));
                assert(p == list@[it.index() as int]);
            }
            dict.add(p);
        }
        assert(views.take(views.len() as int) == views);
        dict
    }

    /// The dictionary without entries.
    pub fn empty() -> (r: Self)
        ensures
            r.wf(),
            r@ == Map::<char, PolyphoneView>::empty(),
    {
        let r = PolyphoneDictionary { entries: Vec::new() };
        assert(r@ =~= Map::empty());
        r
    }

    fn position(&self, c: char) -> (r: Option<usize>)
        requires
            self.wf(),
        ensures
            match r {
                Some(i) => i < self.entries@.len() && self.entries@[i as int].char == c
                    && self@.contains_key(c) && self@[c] == self.entries@[i as int]@,
                None => !self@.contains_key(c),
            },
    {
        let ghost chars = entry_chars(self.entries@);
        let mut i: usize = 0;
        while i < self.entries.len()
            invariant
                i <= self.entries@.len(),
                chars == entry_chars(self.entries@),
                chars.no_duplicates(),
                forall|j: int| 0 <= j < i ==> chars[j] != c,
            decreases self.entries@.len() - i,
        {
            if self.entries[i].char == c {
                assert(chars[i as int] == c);
                assert(chars.index_of(c) == i);
                return Some(i);
            }
            i += 1;
        }
        None
    }

    /// Adds an entry, replacing that of the same character.
    pub fn add(&mut self, polyphone: Polyphone)
        requires
            old(self).wf(),
        ensures
            final(self).wf(),
            final(self)@ == old(self)@.insert(polyphone.char, polyphone@),
    {
        let ghost before = self.entries@;
        let ghost c = polyphone.char;
        let found = self.position(polyphone.char);
        match found {
            Some(i) => {
                proof {
                    let after = before.update(i as int, polyphone);
                    assert(entry_chars(after) =~= entry_chars(before));
                    assert forall|d: char| entry_chars(before).contains(d) implies
                        entry_map(after)[d] == entry_map(before).insert(c, polyphone@)[d] by {
                        let k = entry_chars(before).index_of(d);
                        assert(entry_chars(before)[k] == d);
                        assert(entry_chars(before)[i as int] == c);
                    }
                    assert(entry_chars(before)[i as int] == c);
                    assert(entry_map(after) =~= entry_map(before).insert(c, polyphone@));
                }
                self.entries.set(i, polyphone);
            },
            None => {
                proof {
                    let after = before.push(polyphone);
                    assert(entry_chars(after) =~= entry_chars(before).push(c));
                    assert(entry_chars(after)[before.len() as int] == c);
                    assert(!entry_chars(before).contains(c));
                    assert(entry_chars(after).no_duplicates());
                    assert forall|d: char| #[trigger] entry_chars(after).contains(d) implies (d == c
                        || entry_chars(before).contains(d)) && entry_map(after)[d] == entry_map(
                        before,
                    ).insert(c, polyphone@)[d] by {
                        let k = entry_chars(after).index_of(d);
                        assert(entry_chars(after)[k] == d);
                        if k < before.len() {
                            assert(entry_chars(before)[k] == d);
                            let k2 = entry_chars(before).index_of(d);
                            assert(entry_chars(before)[k2] == d);
                        }
                    }
                    assert forall|d: char| entry_chars(before).contains(d) implies
                        #[trigger] entry_chars(after).contains(d) by {
                        let k = entry_chars(before).index_of(d);
                        assert(entry_chars(before)[k] == d);
                        assert(entry_chars(after)[k] == d);
                    }
                    assert(entry_map(after) =~= entry_map(before).insert(c, polyphone@));
                }
                self.entries.push(polyphone);
            },
        }
    }

    /// The entry of `c`.
    pub fn get(&self, c: char) -> (r: Option<&Polyphone>)
        requires
            self.wf(),
        ensures
            match r {
                Some(p) => self@.contains_key(c) && p@ == self@[c],
                None => !self@.contains_key(c),
            },
    {
        match self.position(c) {
            Some(i) => Some(&self.entries[i]),
            None => None,
        }
    }

    /// Whether `c` has an entry.
    pub fn contains(&self, c: char) -> (r: bool)
        requires
            self.wf(),
        ensures
            r == self@.contains_key(c),
    {
        self.position(c).is_some()
    }

    proof fn lemma_dom(&self)
        requires
            self.wf(),
        ensures
            self@.dom() == entry_chars(self.entries@).to_set(),
            self@.dom().finite(),
            self@.dom().len() == self.entries@.len(),
    {
        assert(self@.dom() =~= entry_chars(self.entries@).to_set());
        entry_chars(self.entries@).unique_seq_to_set();
    }

    /// How many entries there are.
    pub fn len(&self) -> (r: usize)
        requires
            self.wf(),
        ensures
            self@.dom().finite(),
            r == self@.dom().len(),
    {
        proof {
            self.lemma_dom();
        }
        self.entries.len()
    }

    /// Whether there is no entry.
    pub fn is_empty(&self) -> (r: bool)
        requires
            self.wf(),
        ensures
            r == (self@ == Map::<char, PolyphoneView>::empty()),
    {
        proof {
            self.lemma_dom();
            if self.entries@.len() == 0 {
                assert(self@ =~= Map::empty());
            }
        }
        self.entries.is_empty()
    }

    /// The characters that have an entry, each once.
    pub fn chars(&self) -> (r: Vec<char>)
        requires
            self.wf(),
        ensures
            r@.no_duplicates(),
            r@.to_set() == self@.dom(),
    {
        proof {
            self.lemma_dom();
        }
        let mut out: Vec<char> = Vec::new();
        let mut i: usize = 0;
        while i < self.entries.len()
            invariant
                i <= self.entries@.len(),
                out@ == entry_chars(self.entries@).take(i as int),
            decreases self.entries@.len() - i,
        {
            out.push(self.entries[i].char);
            i += 1;
        }
        assert(out@ =~= entry_chars(self.entries@));
        out
    }
}

impl Default for PolyphoneDictionary {
    fn default() -> (r: Self)
        ensures
            r.wf(),
            r@ == with_entries(Map::empty(), pinyin_tables::builtin_entries()),
    {
        PolyphoneDictionary::builtin()
    }
}

/// What [`strip_tone`] knows of a letter: the plain letter and the tone, 0 for a letter without a
/// tone mark.
pub open spec fn tone_mark(c: char) -> (char, u8) {
    match c {
        'ā' => ('a', 1u8),
        'á' => ('a', 2u8),
        'ǎ' => ('a', 3u8),
        'à' => ('a', 4u8),
        'ē' => ('e', 1u8),
        'é' => ('e', 2u8),
        'ě' => ('e', 3u8),
        'è' => ('e', 4u8),
        'ī' => ('i', 1u8),
        'í' => ('i', 2u8),
        'ǐ' => ('i', 3u8),
        'ì' => ('i', 4u8),
        'ō' => ('o', 1u8),
        'ó' => ('o', 2u8),
        'ǒ' => ('o', 3u8),
        'ò' => ('o', 4u8),
        'ū' => ('u', 1u8),
        'ú' => ('u', 2u8),
        'ǔ' => ('u', 3u8),
        'ù' => ('u', 4u8),
        'ǖ' => ('ü', 1u8),
        'ǘ' => ('ü', 2u8),
        'ǚ' => ('ü', 3u8),
        'ǜ' => ('ü', 4u8),
        _ => (c, 0u8),
    }
}

/// `pinyin` with every marked vowel replaced by the plain one.
pub open spec fn toneless(pinyin: Seq<char>) -> Seq<char> {
    Seq::new(pinyin.len(), |i: int| tone_mark(pinyin[i]).0)
}

/// The tone of the last marked vowel, 0 where there is none.
pub open spec fn tone_of(pinyin: Seq<char>) -> u8
    decreases pinyin.len(),
{
    if pinyin.len() == 0 {
        0
    } else if tone_mark(pinyin.last()).1 != 0 {
        tone_mark(pinyin.last()).1
    } else {
        tone_of(pinyin.drop_last())
    }
}

/// The marked vowels: four tones of each of the six vowels, and no others.
pub proof fn law_tone_marks(v: int, t: int, c: char)
    requires
        0 <= v < 6,
        1 <= t <= 4,
    ensures
        tone_mark("āáǎàēéěèīíǐìōóǒòūúǔùǖǘǚǜ"@[4 * v + t - 1]) == (
            "aeiouü"@[v],
            t as u8,
        ),
        !"āáǎàēéěèīíǐìōóǒòūúǔùǖǘǚǜ"@.contains(c) ==> tone_mark(c) == (c, 0u8),
{
    reveal_strlit("āáǎàēéěèīíǐìōóǒòūúǔùǖǘǚǜ");
    reveal_strlit("aeiouü");
    let marks = "āáǎàēéěèīíǐìōóǒòūúǔùǖǘǚǜ"@;
    assert(marks[0] == 'ā');
    assert(marks[1] == 'á');
    assert(marks[2] == 'ǎ');
    assert(marks[3] == 'à');
    assert(marks[4] == 'ē');
    assert(marks[5] == 'é');
    assert(marks[6] == 'ě');
    assert(marks[7] == 'è');
    assert(marks[8] == 'ī');
    assert(marks[9] == 'í');
    assert(marks[10] == 'ǐ');
    assert(marks[11] == 'ì');
    assert(marks[12] == 'ō');
    assert(marks[13] == 'ó');
    assert(marks[14] == 'ǒ');
    assert(marks[15] == 'ò');
    assert(marks[16] == 'ū');
    assert(marks[17] == 'ú');
    assert(marks[18] == 'ǔ');
    assert(marks[19] == 'ù');
    assert(marks[20] == 'ǖ');
    assert(marks[21] == 'ǘ');
    assert(marks[22] == 'ǚ');
    assert(marks[23] == 'ǜ');
}

/// The plain spelling changes each letter for itself, and the tone is that of the last marked vowel.
pub proof fn law_tone_of_last_mark(pinyin: Seq<char>, i: int)
    requires
        0 <= i < pinyin.len(),
        forall|j: int| i < j < pinyin.len() ==> tone_mark(#[trigger] pinyin[j]).1 == 0,
    ensures
        toneless(pinyin).len() == pinyin.len(),
        toneless(pinyin)[i] == tone_mark(pinyin[i]).0,
        tone_mark(pinyin[i]).1 != 0 ==> tone_of(pinyin) == tone_mark(pinyin[i]).1,
        i == 0 && tone_mark(pinyin[0]).1 == 0 ==> tone_of(pinyin) == 0,
        tone_of(Seq::empty()) == 0,
    decreases pinyin.len(),
{
    if i < pinyin.len() - 1 {
        assert(tone_mark(pinyin[pinyin.len() - 1]).1 == 0);
        law_tone_of_last_mark(pinyin.drop_last(), i);
    } else if i == 0 {
        assert(pinyin.drop_last() =~= Seq::empty());
    }
}

fn letter_tone(c: char) -> (r: (char, u8))
    ensures
        r == tone_mark(c),
{
    match c {
        'ā' => ('a', 1),
        'á' => ('a', 2),
        'ǎ' => ('a', 3),
        'à' => ('a', 4),
        'ē' => ('e', 1),
        'é' => ('e', 2),
        'ě' => ('e', 3),
        'è' => ('e', 4),
        'ī' => ('i', 1),
        'í' => ('i', 2),
        'ǐ' => ('i', 3),
        'ì' => ('i', 4),
        'ō' => ('o', 1),
        'ó' => ('o', 2),
        'ǒ' => ('o', 3),
        'ò' => ('o', 4),
        'ū' => ('u', 1),
        'ú' => ('u', 2),
        'ǔ' => ('u', 3),
        'ù' => ('u', 4),
        'ǖ' => ('ü', 1),
        'ǘ' => ('ü', 2),
        'ǚ' => ('ü', 3),
        'ǜ' => ('ü', 4),
        _ => (c, 0),
    }
}

/// Splits a syllable into its plain spelling and its tone.
pub fn strip_tone(pinyin: &str) -> (r: (String, u8))
    ensures
        r.0@ == toneless(pinyin@),
        r.1 == tone_of(pinyin@),
{
    let mut plain = String::new();
    let mut tone: u8 = 0;
    for c in it: pinyin.chars()
        invariant
            it.seq() == pinyin@,
            plain@ == toneless(pinyin@.take(it.index() as int)),
            tone == tone_of(pinyin@.take(it.index() as int)),
    {
        let ghost done = pinyin@.take(it.index() + 1);
        let (base, t) = letter_tone(c);
        plain.push(base);
        if t != 0 {
            tone = t;
        }
        proof {
            assert(done.drop_last() == pinyin@.take(it.index() as int));
            assert(done.last() == c);
            assert(plain@ =~= toneless(done));
        }
    }
    proof {
        assert(pinyin@.take(pinyin@.len() as int) == pinyin@);
    }
    (plain, tone)
}

/// A plain spelling has no tone marks left: stripping it again changes nothing and finds no tone.
pub proof fn law_strip_tone_twice(pinyin: Seq<char>)
    ensures
        toneless(toneless(pinyin)) == toneless(pinyin),
        tone_of(toneless(pinyin)) == 0,
    decreases pinyin.len(),
{
    assert forall|c: char| tone_mark(#[trigger] tone_mark(c).0) == (tone_mark(c).0, 0u8) by {}
    assert(toneless(toneless(pinyin)) =~= toneless(pinyin));
    if pinyin.len() > 0 {
        law_strip_tone_twice(pinyin.drop_last());
        assert(toneless(pinyin).drop_last() =~= toneless(pinyin.drop_last()));
        assert(toneless(pinyin).last() == tone_mark(pinyin.last()).0);
    }
}

/// The reading of one character.
#[derive(Debug, Clone)]
pub struct CharPinyin {
    /// The character.
    pub char: char,
    /// The reading, with its tone mark.
    pub pinyin: String,
    /// The reading without the mark.
    pub pinyin_no_tone: String,
    /// The tone, 1 to 4, and 0 for the neutral tone.
    pub tone: u8,
    /// Whether the character is polyphonic.
    pub is_polyphone: bool,
    /// The description of the rule that settled the reading.
    pub disambiguation: Option<String>,
}

/// The reading of one character as a value.
#[verifier::ext_equal]
pub struct CharPinyinView {
    /// The character.
    pub char: char,
    /// The reading, with its tone mark.
    pub pinyin: Seq<char>,
    /// The reading without the mark.
    pub pinyin_no_tone: Seq<char>,
    /// The tone.
    pub tone: u8,
    /// Whether the character is polyphonic.
    pub is_polyphone: bool,
    /// The description of the rule that settled the reading.
    pub disambiguation: Option<Seq<char>>,
}

impl View for CharPinyin {
    type V = CharPinyinView;

    open spec fn view(&self) -> CharPinyinView {
        CharPinyinView {
            char: self.char,
            pinyin: self.pinyin@,
            pinyin_no_tone: self.pinyin_no_tone@,
            tone: self.tone,
            is_polyphone: self.is_polyphone,
            disambiguation: optional_text(self.disambiguation),
        }
    }
}

/// The readings of a text.
#[derive(Debug, Clone)]
pub struct PinyinResult {
    /// The reading of each character.
    pub chars: Vec<CharPinyin>,
    /// The readings of the text, separated by spaces.
    pub pinyin_string: String,
    /// The polyphonic characters of the text: position, character and reading.
    pub polyphone_resolutions: Vec<(usize, String, String)>,
}

/// The readings of `chars` as values.
pub open spec fn char_views(chars: Seq<CharPinyin>) -> Seq<CharPinyinView> {
    Seq::new(chars.len(), |i: int| chars[i]@)
}

/// A settled reading as a value: position, character and reading.
pub open spec fn resolution_view(r: (usize, String, String)) -> (nat, Seq<char>, Seq<char>) {
    (r.0 as nat, r.1@, r.2@)
}

impl PinyinResult {
    /// The readings of the text, separated by spaces.
    pub open spec fn spelling(&self) -> Seq<char> {
        self.pinyin_string@
    }

    /// The polyphonic characters of the text with their readings.
    pub open spec fn resolutions(&self) -> Seq<(nat, Seq<char>, Seq<char>)> {
        self.polyphone_resolutions@.map_values(|r: (usize, String, String)| resolution_view(r))
    }

    /// The readings of the text, separated by spaces; a character without a reading is left out.
    pub fn pinyin(&self) -> (r: &str)
        ensures
            r@ == self.spelling(),
    {
        self.pinyin_string.as_str()
    }

    /// The polyphonic characters of the text: position, character and reading.
    pub fn polyphone_resolutions(&self) -> (r: &[(usize, String, String)])
        ensures
            r@.map_values(|x: (usize, String, String)| resolution_view(x)) == self.resolutions(),
    {
        self.polyphone_resolutions.as_slice()
    }

    /// How many characters were read.
    pub fn len(&self) -> (r: usize)
        ensures
            r == self.chars@.len(),
    {
        self.chars.len()
    }

    /// Whether no character was read.
    pub fn is_empty(&self) -> (r: bool)
        ensures
            r == (self.chars@.len() == 0),
    {
        self.chars.is_empty()
    }

    /// The plain spellings of all characters, separated by spaces.
    pub fn pinyin_no_tone(&self) -> (r: String)
        ensures
            r@ == text::joined(
                Seq::new(self.chars@.len(), |i: int| self.chars@[i].pinyin_no_tone@),
                " "@,
            ),
    {
        let mut parts: Vec<String> = Vec::new();
        let mut i: usize = 0;
        while i < self.chars.len()
            invariant
                i <= self.chars@.len(),
                parts@.len() == i,
                forall|j: int| 0 <= j < i ==> #[trigger] parts@[j]@ == self.chars@[j].pinyin_no_tone@,
            decreases self.chars@.len() - i,
        {
            parts.push(self.chars[i].pinyin_no_tone.clone());
            i += 1;
        }
        assert(text::texts(parts@) =~= Seq::new(
            self.chars@.len(),
            |i: int| self.chars@[i].pinyin_no_tone@,
        ));
        join(&parts, " ")
    }
}

/// The settings of a [`G2pwConverter`].
#[derive(Debug, Clone)]
pub struct G2pwConfig {
    /// Whether polyphonic characters are settled by context; else each has its first reading.
    pub enabled: bool,
    /// The path of a model.
    pub model_path: Option<String>,
    /// The confidence under which the dictionary decides instead of the model.
    pub confidence_threshold: F32,
    /// Whether the built-in dictionary is used.
    pub use_builtin_dict: bool,
    /// Readings of words, as pairs of word and reading; the first pair of a word counts.
    pub custom_pronunciations: Vec<(String, String)>,
}

/// The number of common polyphonic characters.
pub const COMMON_POLYPHONE_COUNT: usize = 120;

/// The default confidence threshold, 0.5, by its bit pattern.
pub const DEFAULT_CONFIDENCE_THRESHOLD: u32 = 0x3f00_0000;

impl Default for G2pwConfig {
    fn default() -> (r: Self)
        ensures
            r.enabled,
            r.model_path is None,
            r.confidence_threshold.bits == DEFAULT_CONFIDENCE_THRESHOLD,
            r.confidence_threshold.bits == 0x3f00_0000,
            r.use_builtin_dict,
            r.custom_pronunciations@.len() == 0,
    {
        G2pwConfig {
            enabled: true,
            model_path: None,
            confidence_threshold: F32::from_bits(DEFAULT_CONFIDENCE_THRESHOLD),
            use_builtin_dict: true,
            custom_pronunciations: Vec::new(),
        }
    }
}

/// The reading that `pairs` gives for `word`.
pub open spec fn pronunciation_of(pairs: Seq<(String, String)>, word: Seq<char>) -> Option<
    Seq<char>,
>
    decreases pairs.len(),
{
    if pairs.len() == 0 {
        None
    } else if pairs[0].0@ == word {
        Some(pairs[0].1@)
    } else {
        pronunciation_of(pairs.drop_first(), word)
    }
}

impl G2pwConfig {
    /// The reading that was set for `word`.
    pub fn custom_pronunciation(&self, word: &str) -> (r: Option<&str>)
        ensures
            match r {
                Some(p) => pronunciation_of(self.custom_pronunciations@, word@) == Some(p@),
                None => pronunciation_of(self.custom_pronunciations@, word@) is None,
            },
            r is None <==> forall|i: int|
                0 <= i < self.custom_pronunciations@.len() ==> (
                #[trigger] self.custom_pronunciations@[i]).0@ != word@,
            forall|i: int|
                0 <= i < self.custom_pronunciations@.len() && (
                #[trigger] self.custom_pronunciations@[i]).0@ == word@ && (forall|j: int|
                    0 <= j < i ==> (#[trigger] self.custom_pronunciations@[j]).0@ != word@)
                    ==> r is Some && r->0@ == self.custom_pronunciations@[i].1@,
    {
        let ghost pairs = self.custom_pronunciations@;
        assert(pairs.skip(0) == pairs);
        let mut i: usize = 0;
        while i < self.custom_pronunciations.len()
            invariant
                i <= pairs.len(),
                pairs == self.custom_pronunciations@,
                pronunciation_of(pairs, word@) == pronunciation_of(pairs.skip(i as int), word@),
                forall|j: int| 0 <= j < i ==> (#[trigger] pairs[j]).0@ != word@,
            decreases pairs.len() - i,
        {
            assert(pairs.skip(i as int).drop_first() == pairs.skip(i + 1));
            if same_text(self.custom_pronunciations[i].0.as_str(), word) {
                return Some(self.custom_pronunciations[i].1.as_str());
            }
            i += 1;
        }
        None
    }
}

/// The first pair of a word has its reading, and a word of no pair has none.
pub proof fn law_first_pair_counts(pairs: Seq<(String, String)>, word: Seq<char>, i: int)
    requires
        0 <= i <= pairs.len(),
        forall|j: int| 0 <= j < i ==> (#[trigger] pairs[j]).0@ != word,
        i < pairs.len() ==> pairs[i].0@ == word,
    ensures
        i < pairs.len() ==> pronunciation_of(pairs, word) == Some(pairs[i].1@),
        i == pairs.len() ==> pronunciation_of(pairs, word) is None,
    decreases pairs.len(),
{
    if pairs.len() > 0 && i > 0 {
        assert(pairs[0].0@ != word);
        assert forall|j: int| 0 <= j < i - 1 implies (#[trigger] pairs.drop_first()[j]).0@
            != word by {
            assert(pairs.drop_first()[j] == pairs[j + 1]);
        }
        law_first_pair_counts(pairs.drop_first(), word, i - 1);
    }
}

/// Words and their readings as values.
pub open spec fn pair_views(pairs: Seq<(String, String)>) -> Seq<(Seq<char>, Seq<char>)> {
    Seq::new(pairs.len(), |i: int| (pairs[i].0@, pairs[i].1@))
}

/// Of the first `k` words, the first of the longest ones that stand in `text` from `at` on.
pub open spec fn longest_word(
    pairs: Seq<(Seq<char>, Seq<char>)>,
    text: Seq<char>,
    at: int,
    k: int,
) -> Option<int>
    decreases k,
{
    if k <= 0 {
        None
    } else {
        let best = longest_word(pairs, text, at, k - 1);
        let word = pairs[k - 1].0;
        if word.len() > 0 && text::occurs_at(text, word, at) && (best matches Some(b)
            ==> pairs[b].0.len() < word.len()) {
            Some(k - 1)
        } else {
            best
        }
    }
}

/// What the character at `k` of a word of `n` characters has of the reading of the word: its own
/// syllable where there is one for each character, and else the first character has it all.
pub open spec fn share(reading: Seq<char>, n: nat, k: int) -> Seq<char> {
    let syllables = text::words(reading);
    if syllables.len() == n {
        syllables[k]
    } else if k == 0 {
        reading
    } else {
        Seq::empty()
    }
}

/// The readings of a word of `n` characters, one for each.
pub open spec fn shares(reading: Seq<char>, n: nat) -> Seq<Option<Seq<char>>> {
    Seq::new(n, |k: int| Some(share(reading, n, k)))
}

/// The readings that words set for the characters of `text` from `at` on. The words are looked for
/// from left to right, the longest first, and do not overlap.
pub open spec fn customized(
    pairs: Seq<(Seq<char>, Seq<char>)>,
    text: Seq<char>,
    at: int,
) -> Seq<Option<Seq<char>>>
    decreases text.len() - at,
    via customized_decreases
{
    if at < 0 || at >= text.len() {
        Seq::empty()
    } else {
        match longest_word(pairs, text, at, pairs.len() as int) {
            Some(b) => shares(pairs[b].1, pairs[b].0.len()) + customized(
                pairs,
                text,
                at + pairs[b].0.len(),
            ),
            None => seq![None] + customized(pairs, text, at + 1),
        }
    }
}

#[via_fn]
proof fn customized_decreases(pairs: Seq<(Seq<char>, Seq<char>)>, text: Seq<char>, at: int) {
    lemma_longest_word(pairs, text, at, pairs.len() as int);
}

proof fn lemma_longest_word(
    pairs: Seq<(Seq<char>, Seq<char>)>,
    text: Seq<char>,
    at: int,
    k: int,
)
    ensures
        longest_word(pairs, text, at, k) matches Some(b) ==> 0 <= b < k && pairs[b].0.len() > 0
            && text::occurs_at(text, pairs[b].0, at),
    decreases k,
{
    if k > 0 {
        lemma_longest_word(pairs, text, at, k - 1);
    }
}

proof fn lemma_customized_len(pairs: Seq<(Seq<char>, Seq<char>)>, text: Seq<char>, at: int)
    requires
        0 <= at <= text.len(),
    ensures
        customized(pairs, text, at).len() == text.len() - at,
    decreases text.len() - at,
{
    if at < text.len() {
        lemma_longest_word(pairs, text, at, pairs.len() as int);
        match longest_word(pairs, text, at, pairs.len() as int) {
            Some(b) => {
                lemma_customized_len(pairs, text, at + pairs[b].0.len());
            },
            None => {
                lemma_customized_len(pairs, text, at + 1);
            },
        }
    }
}

/// Which word counts at a place: one that stands there, none that stands there is longer, and of several
/// of that length it is the first.
pub proof fn law_longest_word_counts(
    pairs: Seq<(Seq<char>, Seq<char>)>,
    text: Seq<char>,
    at: int,
    k: int,
)
    requires
        0 <= k <= pairs.len(),
    ensures
        match longest_word(pairs, text, at, k) {
            Some(b) => {
                &&& 0 <= b < k
                &&& pairs[b].0.len() > 0
                &&& text::occurs_at(text, pairs[b].0, at)
                &&& forall|j: int|
                    0 <= j < k && text::occurs_at(text, (#[trigger] pairs[j]).0, at)
                        ==> pairs[j].0.len() <= pairs[b].0.len()
                &&& forall|j: int|
                    0 <= j < b && text::occurs_at(text, (#[trigger] pairs[j]).0, at)
                        ==> pairs[j].0.len() < pairs[b].0.len()
            },
            None => forall|j: int|
                0 <= j < k && (#[trigger] pairs[j]).0.len() > 0 ==> !text::occurs_at(
                    text,
                    pairs[j].0,
                    at,
                ),
        },
    decreases k,
{
    if k > 0 {
        law_longest_word_counts(pairs, text, at, k - 1);
    }
}

/// How words set readings: where a word counts, each of its characters gets its syllable of the reading,
/// or the first one all of it where there are not as many syllables as characters, and it goes on behind
/// the word; where none counts, nothing is set and it goes on with the next character.
pub proof fn law_words_set_readings(
    pairs: Seq<(Seq<char>, Seq<char>)>,
    text: Seq<char>,
    at: int,
    k: int,
)
    requires
        0 <= at < text.len(),
    ensures
        customized(pairs, text, at).len() == text.len() - at,
        match longest_word(pairs, text, at, pairs.len() as int) {
            Some(b) => {
                let n = pairs[b].0.len();
                let syllables = text::words(pairs[b].1);
                &&& 0 <= k < n && syllables.len() == n ==> customized(pairs, text, at)[k] == Some(
                    syllables[k],
                )
                &&& 0 < k < n && syllables.len() != n ==> customized(pairs, text, at)[k] == Some(
                    Seq::<char>::empty(),
                )
                &&& syllables.len() != n ==> customized(pairs, text, at)[0] == Some(pairs[b].1)
                &&& n <= k < text.len() - at ==> customized(pairs, text, at)[k] == customized(
                    pairs,
                    text,
                    at + n,
                )[k - n]
            },
            None => {
                &&& customized(pairs, text, at)[0] == None::<Seq<char>>
                &&& 0 < k < text.len() - at ==> customized(pairs, text, at)[k] == customized(
                    pairs,
                    text,
                    at + 1,
                )[k - 1]
            },
        },
{
    lemma_customized_len(pairs, text, at);
    lemma_longest_word(pairs, text, at, pairs.len() as int);
    if let Some(b) = longest_word(pairs, text, at, pairs.len() as int) {
        lemma_customized_len(pairs, text, at + pairs[b].0.len());
        assert(shares(pairs[b].1, pairs[b].0.len()).len() == pairs[b].0.len());
    } else {
        lemma_customized_len(pairs, text, at + 1);
    }
}

/// The reading that a word sets for the character at `pos` of `text`, nothing where no word does.
pub open spec fn custom_at(
    pairs: Seq<(Seq<char>, Seq<char>)>,
    text: Seq<char>,
    pos: int,
) -> Option<Seq<char>> {
    if pairs.len() == 0 {
        None
    } else {
        customized(pairs, text, 0)[pos]
    }
}

/// A word on its own is read as was set.
pub proof fn law_custom_reading_applies(
    pairs: Seq<(String, String)>,
    word: Seq<char>,
    reading: Seq<char>,
)
    requires
        word.len() > 0,
        pronunciation_of(pairs, word) == Some(reading),
    ensures
        forall|k: int|
            0 <= k < word.len() ==> #[trigger] custom_at(pair_views(pairs), word, k) == Some(
                share(reading, word.len(), k),
            ),
{
    let views = pair_views(pairs);
    let f = lemma_first_pair(pairs, word, reading);
    lemma_longest_is_whole(views, word, f, views.len() as int);
    assert(customized(views, word, word.len() as int).len() == 0);
    assert(customized(views, word, 0) =~= shares(reading, word.len()));
}

proof fn lemma_first_pair(
    pairs: Seq<(String, String)>,
    word: Seq<char>,
    reading: Seq<char>,
) -> (f: int)
    requires
        pronunciation_of(pairs, word) == Some(reading),
    ensures
        0 <= f < pairs.len(),
        pairs[f].0@ == word,
        pairs[f].1@ == reading,
        forall|j: int| 0 <= j < f ==> (#[trigger] pairs[j]).0@ != word,
    decreases pairs.len(),
{
    if pairs[0].0@ == word {
        0
    } else {
        let f = lemma_first_pair(pairs.drop_first(), word, reading);
        assert forall|j: int| 0 <= j < f + 1 implies (#[trigger] pairs[j]).0@ != word by {
            if j > 0 {
                assert(pairs.drop_first()[j - 1] == pairs[j]);
            }
        }
        f + 1
    }
}

proof fn lemma_longest_is_whole(
    pairs: Seq<(Seq<char>, Seq<char>)>,
    word: Seq<char>,
    f: int,
    k: int,
)
    requires
        word.len() > 0,
        0 <= f < pairs.len(),
        0 <= k <= pairs.len(),
        pairs[f].0 == word,
        forall|j: int| 0 <= j < f ==> (#[trigger] pairs[j]).0 != word,
    ensures
        k <= f ==> (longest_word(pairs, word, 0, k) matches Some(b) ==> pairs[b].0.len()
            < word.len()),
        k > f ==> longest_word(pairs, word, 0, k) == Some(f),
    decreases k,
{
    if k > 0 {
        lemma_longest_is_whole(pairs, word, f, k - 1);
        let other = pairs[k - 1].0;
        assert(word.subrange(0, word.len() as int) =~= word);
        if text::occurs_at(word, other, 0) && other.len() == word.len() {
            assert(other == word);
        }
    }
}

/// Turns Chinese text into readings, settling polyphonic characters by context.
pub struct G2pwConverter {
    config: G2pwConfig,
    dictionary: PolyphoneDictionary,
}

/// The reading of the character at `pos` of `text`: the one that a word sets, else that of a polyphonic
/// character, settled by context or the first where that is turned off, else the basic one, else the
/// character itself where it is ASCII, else nothing.
pub open spec fn spelled(
    dict: Map<char, PolyphoneView>,
    by_context: bool,
    custom: Option<Seq<char>>,
    text: Seq<char>,
    pos: int,
) -> CharPinyinView {
    let c = text[pos];
    let poly = dict.contains_key(c);
    let settled = if by_context {
        reading_at(dict[c], text, pos as nat)
    } else {
        (0nat, None)
    };
    let pinyin = match custom {
        Some(p) => p,
        None => if poly {
            dict[c].readings[settled.0 as int]
        } else {
            match pinyin_tables::basic_reading(c) {
                Some(p) => p,
                None => if (c as u32) < 128 {
                    seq![c]
                } else {
                    Seq::empty()
                },
            }
        },
    };
    CharPinyinView {
        char: c,
        pinyin,
        pinyin_no_tone: toneless(pinyin),
        tone: tone_of(pinyin),
        is_polyphone: poly,
        disambiguation: if poly && custom is None {
            settled.1
        } else {
            None
        },
    }
}

/// What the reading of a character is: one that a word sets; else, for a polyphonic character, the one
/// that context settles, or the first one without context; else the basic one; else an ASCII character
/// stands for itself, and another has none. Only context gives a description.
pub proof fn law_spelled(
    dict: Map<char, PolyphoneView>,
    by_context: bool,
    custom: Option<Seq<char>>,
    text: Seq<char>,
    pos: int,
)
    requires
        0 <= pos < text.len(),
    ensures
        ({
            let c = text[pos];
            let r = spelled(dict, by_context, custom, text, pos);
            let settled = reading_at(dict[c], text, pos as nat);
            let basic = pinyin_tables::basic_reading(c);
            &&& r.char == c
            &&& r.is_polyphone <==> dict.contains_key(c)
            &&& r.pinyin_no_tone == toneless(r.pinyin)
            &&& r.tone == tone_of(r.pinyin)
            &&& custom is Some ==> r.pinyin == custom->0 && r.disambiguation is None
            &&& custom is None && dict.contains_key(c) && by_context ==> r.pinyin
                == dict[c].readings[settled.0 as int] && r.disambiguation == settled.1
            &&& custom is None && dict.contains_key(c) && !by_context ==> r.pinyin
                == dict[c].readings[0] && r.disambiguation is None
            &&& custom is None && !dict.contains_key(c) ==> r.disambiguation is None
            &&& custom is None && !dict.contains_key(c) && basic is Some ==> r.pinyin == basic->0
            &&& custom is None && !dict.contains_key(c) && basic is None && c <= '\u{7f}' ==> r.pinyin
                == seq![c]
            &&& custom is None && !dict.contains_key(c) && basic is None && c > '\u{7f}'
                ==> r.pinyin.len() == 0
        }),
{
}

/// The readings of the characters of `text`.
pub open spec fn spelled_all(
    dict: Map<char, PolyphoneView>,
    config: G2pwConfig,
    text: Seq<char>,
) -> Seq<CharPinyinView> {
    Seq::new(
        text.len(),
        |i: int|
            spelled(
                dict,
                config.enabled,
                custom_at(pair_views(config.custom_pronunciations@), text, i),
                text,
                i,
            ),
    )
}

/// The readings of `chars` that are not empty.
pub open spec fn written(chars: Seq<CharPinyinView>) -> Seq<Seq<char>>
    decreases chars.len(),
{
    if chars.len() == 0 {
        Seq::empty()
    } else if chars.last().pinyin.len() > 0 {
        written(chars.drop_last()).push(chars.last().pinyin)
    } else {
        written(chars.drop_last())
    }
}

/// The polyphonic ones of `chars`: position, character and reading.
pub open spec fn settled(chars: Seq<CharPinyinView>) -> Seq<(nat, Seq<char>, Seq<char>)>
    decreases chars.len(),
{
    if chars.len() == 0 {
        Seq::empty()
    } else if chars.last().is_polyphone {
        settled(chars.drop_last()).push(
            ((chars.len() - 1) as nat, seq![chars.last().char], chars.last().pinyin),
        )
    } else {
        settled(chars.drop_last())
    }
}

/// Each character is read at its place, with the reading that a word sets for it there.
pub proof fn law_each_character_is_spelled(
    dict: Map<char, PolyphoneView>,
    config: G2pwConfig,
    text: Seq<char>,
    i: int,
)
    requires
        0 <= i < text.len(),
    ensures
        spelled_all(dict, config, text).len() == text.len(),
        spelled_all(dict, config, text)[i] == spelled(
            dict,
            config.enabled,
            custom_at(pair_views(config.custom_pronunciations@), text, i),
            text,
            i,
        ),
        config.custom_pronunciations@.len() == 0 ==> spelled_all(dict, config, text)[i] == spelled(
            dict,
            config.enabled,
            None,
            text,
            i,
        ),
        config.custom_pronunciations@.len() > 0 ==> spelled_all(dict, config, text)[i] == spelled(
            dict,
            config.enabled,
            customized(
                Seq::new(
                    config.custom_pronunciations@.len(),
                    |j: int|
                        (
                            config.custom_pronunciations@[j].0@,
                            config.custom_pronunciations@[j].1@,
                        ),
                ),
                text,
                0,
            )[i],
            text,
            i,
        ),
{
    assert(pair_views(config.custom_pronunciations@) =~= Seq::new(
        config.custom_pronunciations@.len(),
        |j: int| (config.custom_pronunciations@[j].0@, config.custom_pronunciations@[j].1@),
    ));
}

/// What is written are the readings that are not empty, in order.
pub proof fn law_written(chars: Seq<CharPinyinView>)
    ensures
        written(chars) == chars.map_values(|c: CharPinyinView| c.pinyin).filter(
            |p: Seq<char>| p.len() > 0,
        ),
    decreases chars.len(),
{
    reveal(Seq::filter);
    let all = chars.map_values(|c: CharPinyinView| c.pinyin);
    if chars.len() > 0 {
        law_written(chars.drop_last());
        assert(all.drop_last() =~= chars.drop_last().map_values(|c: CharPinyinView| c.pinyin));
    } else {
        assert(all =~= Seq::empty());
    }
}

/// What is settled are the polyphonic characters, each once and in order, with their place and reading.
pub proof fn law_settled(chars: Seq<CharPinyinView>, k: int, i: int)
    ensures
        0 <= k < settled(chars).len() ==> {
            let (at, c, reading) = settled(chars)[k];
            &&& at < chars.len()
            &&& chars[at as int].is_polyphone
            &&& c == seq![chars[at as int].char]
            &&& reading == chars[at as int].pinyin
            &&& k > 0 ==> settled(chars)[k - 1].0 < at
        },
        0 <= i < chars.len() && chars[i].is_polyphone ==> exists|j: int|
            0 <= j < settled(chars).len() && (#[trigger] settled(chars)[j]).0 == i,
    decreases chars.len(),
{
    if chars.len() > 0 {
        let rest = chars.drop_last();
        let list = settled(chars);
        let part = settled(rest);
        law_settled(rest, k, i);
        if chars.last().is_polyphone {
            law_settled(rest, part.len() - 1, i);
            assert(list[part.len() as int].0 == rest.len());
        }
        if 0 <= i < rest.len() && chars[i].is_polyphone {
            let j = choose|j: int| 0 <= j < part.len() && (#[trigger] part[j]).0 == i;
            assert(list[j] == part[j]);
        }
    }
}

/// A polyphonic character of a text as a value: position, character and readings.
pub open spec fn candidate_view(c: (usize, char, &[String])) -> (nat, char, Seq<Seq<char>>) {
    (c.0 as nat, c.1, text::texts(c.2@))
}

/// The polyphonic characters of `text` with all their readings.
pub open spec fn candidates(dict: Map<char, PolyphoneView>, text: Seq<char>) -> Seq<
    (nat, char, Seq<Seq<char>>),
>
    decreases text.len(),
{
    if text.len() == 0 {
        Seq::empty()
    } else if dict.contains_key(text.last()) {
        candidates(dict, text.drop_last()).push(
            ((text.len() - 1) as nat, text.last(), dict[text.last()].readings),
        )
    } else {
        candidates(dict, text.drop_last())
    }
}

/// The candidates are the characters with an entry, each once and in order, with their place and all
/// their readings.
pub proof fn law_candidates(dict: Map<char, PolyphoneView>, text: Seq<char>, k: int, i: int)
    ensures
        0 <= k < candidates(dict, text).len() ==> {
            let (at, c, readings) = candidates(dict, text)[k];
            &&& at < text.len()
            &&& c == text[at as int]
            &&& dict.contains_key(c)
            &&& readings == dict[c].readings
            &&& k > 0 ==> candidates(dict, text)[k - 1].0 < at
        },
        0 <= i < text.len() && dict.contains_key(text[i]) ==> exists|j: int|
            0 <= j < candidates(dict, text).len() && (#[trigger] candidates(dict, text)[j]).0 == i,
    decreases text.len(),
{
    if text.len() > 0 {
        let rest = text.drop_last();
        let list = candidates(dict, text);
        let part = candidates(dict, rest);
        law_candidates(dict, rest, k, i);
        if dict.contains_key(text.last()) {
            law_candidates(dict, rest, part.len() - 1, i);
            assert(list[part.len() as int].0 == rest.len());
        }
        if 0 <= i < rest.len() && dict.contains_key(text[i]) {
            let j = choose|j: int| 0 <= j < part.len() && (#[trigger] part[j]).0 == i;
            assert(list[j] == part[j]);
        }
    }
}

/// A later entry of a character replaces an earlier one, and the entries of others stay.
pub proof fn law_later_entry_replaces(
    dict: Map<char, PolyphoneView>,
    entries: Seq<PolyphoneView>,
    p: PolyphoneView,
)
    ensures
        with_entries(dict, Seq::empty()) == dict,
        with_entries(dict, entries.push(p)) == with_entries(dict, entries).insert(p.char, p),
{
    assert(entries.push(p).drop_last() =~= entries);
}

fn one_char(c: char) -> (r: String)
    ensures
        r@ == seq![c],
{
    let mut s = String::new();
    s.push(c);
    assert(s@ =~= seq![c]);
    s
}

/// Every built-in entry has readings for all its rules.
proof fn lemma_builtin_resolvable()
    ensures
        forall|c: char| #[trigger]
            with_entries(Map::empty(), pinyin_tables::builtin_entries()).contains_key(c) ==> resolvable(
                with_entries(Map::empty(), pinyin_tables::builtin_entries())[c],
            ),
{
    assert(forall|i: int| 0 <= i < pinyin_tables::builtin_entries().len() ==> resolvable(#[trigger] pinyin_tables::builtin_entries()[i]));
    lemma_with_entries_resolvable(pinyin_tables::builtin_entries());
}

proof fn lemma_with_entries_resolvable(entries: Seq<PolyphoneView>)
    requires
        forall|i: int| 0 <= i < entries.len() ==> resolvable(#[trigger] entries[i]),
    ensures
        forall|c: char| #[trigger]
            with_entries(Map::empty(), entries).contains_key(c) ==> resolvable(
                with_entries(Map::empty(), entries)[c],
            ),
    decreases entries.len(),
{
    if entries.len() > 0 {
        let before = with_entries(Map::empty(), entries.drop_last());
        lemma_with_entries_resolvable(entries.drop_last());
        assert(resolvable(entries[entries.len() - 1]));
        assert forall|c: char| #[trigger]
            with_entries(Map::empty(), entries).contains_key(c) implies resolvable(
            with_entries(Map::empty(), entries)[c],
        ) by {
            assert(c == entries.last().char || before.contains_key(c));
        }
    }
}

/// The index that [`reading_at`] gives for a resolvable entry is that of one of its readings.
pub proof fn law_reading_exists(p: PolyphoneView, text: Seq<char>, pos: nat)
    requires
        resolvable(p),
    ensures
        reading_at(p, text, pos).0 < p.readings.len(),
{
    lemma_applicable_rule(p, text, pos, 0);
}

proof fn lemma_applicable_rule(p: PolyphoneView, text: Seq<char>, pos: nat, from: int)
    requires
        0 <= from,
    ensures
        applicable_rule(p, text, pos, from) matches Some(i) ==> from <= i < p.rules.len(),
    decreases p.rules.len() - from,
{
    if from < p.rules.len() && !covers(p.rules[from].word, p.char, text, pos) {
        lemma_applicable_rule(p, text, pos, from + 1);
    }
}

impl G2pwConverter {
    /// The entries of the dictionary have readings for all their rules.
    pub closed spec fn wf(&self) -> bool {
        &&& self.dictionary.wf()
        &&& forall|c: char| #[trigger]
            self.dictionary@.contains_key(c) ==> resolvable(self.dictionary@[c])
    }

    /// The polyphonic characters that the converter knows.
    pub closed spec fn known(&self) -> Map<char, PolyphoneView> {
        self.dictionary@
    }

    /// The settings.
    pub closed spec fn settings(&self) -> G2pwConfig {
        self.config
    }

    /// A converter with the built-in dictionary, or with none where the settings say so.
    pub fn new(config: G2pwConfig) -> (r: Self)
        ensures
            r.wf(),
            r.settings() == config,
            r.known() == if config.use_builtin_dict {
                with_entries(Map::empty(), pinyin_tables::builtin_entries())
            } else {
                Map::empty()
            },
    {
        let dictionary = if config.use_builtin_dict {
            PolyphoneDictionary::builtin()
        } else {
            PolyphoneDictionary::empty()
        };
        proof {
            lemma_builtin_resolvable();
        }
        G2pwConverter { config, dictionary }
    }

    /// A converter with the default settings.
    pub fn with_defaults() -> (r: Self)
        ensures
            r.wf(),
            r.known() == with_entries(Map::empty(), pinyin_tables::builtin_entries()),
            r.settings().use_builtin_dict,
            r.settings().enabled,
            r.settings().model_path is None,
            r.settings().confidence_threshold.bits == DEFAULT_CONFIDENCE_THRESHOLD,
            r.settings().confidence_threshold.bits == 0x3f00_0000,
            r.settings().custom_pronunciations@.len() == 0,
    {
        G2pwConverter::new(G2pwConfig::default())
    }

    fn find_word(&self, words: &Vec<Vec<char>>, chars: &Vec<char>, at: usize) -> (r: Option<usize>)
        requires
            at <= chars@.len(),
            words@.len() == self.config.custom_pronunciations@.len(),
            forall|k: int|
                0 <= k < words@.len() ==> (#[trigger] words@[k])@
                    == self.config.custom_pronunciations@[k].0@,
        ensures
            match r {
                Some(b) => longest_word(
                    pair_views(self.config.custom_pronunciations@),
                    chars@,
                    at as int,
                    words@.len() as int,
                ) == Some(b as int),
                None => longest_word(
                    pair_views(self.config.custom_pronunciations@),
                    chars@,
                    at as int,
                    words@.len() as int,
                ) is None,
            },
    {
        let ghost pairs = pair_views(self.config.custom_pronunciations@);
        let mut best: Option<usize> = None;
        let mut k: usize = 0;
        while k < words.len()
            invariant
                at <= chars@.len(),
                k <= words@.len(),
                pairs == pair_views(self.config.custom_pronunciations@),
                words@.len() == pairs.len(),
                forall|k: int|
                    0 <= k < words@.len() ==> (#[trigger] words@[k])@ == pairs[k].0,
                match best {
                    Some(b) => b < k && longest_word(pairs, chars@, at as int, k as int) == Some(
                        b as int,
                    ),
                    None => longest_word(pairs, chars@, at as int, k as int) is None,
                },
            decreases words@.len() - k,
        {
            let longer = match best {
                Some(b) => words[b].len() < words[k].len(),
                None => true,
            };
            if words[k].len() > 0 && longer && occurs(chars, &words[k], at) {
                best = Some(k);
            }
            k += 1;
        }
        best
    }

    /// The readings that words set for the characters of a text.
    fn custom_readings(&self, chars: &Vec<char>) -> (r: Vec<Option<String>>)
        ensures
            r@.len() == chars@.len(),
            forall|i: int|
                0 <= i < r@.len() ==> optional_text(#[trigger] r@[i]) == custom_at(
                    pair_views(self.config.custom_pronunciations@),
                    chars@,
                    i,
                ),
    {
        let ghost pairs = pair_views(self.config.custom_pronunciations@);
        let list = &self.config.custom_pronunciations;
        let mut out: Vec<Option<String>> = Vec::new();
        let mut words: Vec<Vec<char>> = Vec::new();
        let mut w: usize = 0;
        while w < list.len()
            invariant
                w <= list@.len(),
                words@.len() == w,
                forall|k: int| 0 <= k < w ==> (#[trigger] words@[k])@ == list@[k].0@,
            decreases list@.len() - w,
        {
            words.push(chars_of(list[w].0.as_str()));
            w += 1;
        }
        let mut at: usize = 0;
        assert(optional_texts(out@) + customized(pairs, chars@, 0) =~= customized(pairs, chars@, 0));
        while at < chars.len()
            invariant
                at <= chars@.len(),
                *list == self.config.custom_pronunciations,
                pairs == pair_views(self.config.custom_pronunciations@),
                words@.len() == list@.len(),
                forall|k: int| 0 <= k < words@.len() ==> (#[trigger] words@[k])@ == list@[k].0@,
                out@.len() == at,
                list@.len() == 0 ==> forall|i: int| 0 <= i < out@.len() ==> #[trigger] out@[i] is None,
                optional_texts(out@) + customized(pairs, chars@, at as int) == customized(
                    pairs,
                    chars@,
                    0,
                ),
            decreases chars@.len() - at,
        {
            let ghost before = optional_texts(out@);
            let ghost rest = customized(pairs, chars@, at as int);
            proof {
                lemma_longest_word(pairs, chars@, at as int, pairs.len() as int);
            }
            match self.find_word(&words, chars, at) {
                Some(b) => {
                    let n: usize = words[b].len();
                    let reading = list[b].1.as_str();
                    let syllables = split_words(reading);
                    let ghost first = out@;
                    let mut k: usize = 0;
                    while k < n
                        invariant
                            k <= n,
                            out@.len() == first.len() + k,
                            text::texts(syllables@) == text::words(reading@),
                            optional_texts(out@) =~= before + shares(reading@, n as nat).take(
                                k as int,
                            ),
                        decreases n - k,
                    {
                        let part = if syllables.len() == n {
                            assert(text::texts(syllables@)[k as int] == syllables@[k as int]@);
                            syllables[k].clone()
                        } else if k == 0 {
                            reading.to_owned()
                        } else {
                            String::new()
                        };
                        assert(part@ =~= share(reading@, n as nat, k as int));
                        let ghost prior = out@;
                        out.push(Some(part));
                        assert(optional_texts(out@) =~= optional_texts(prior).push(Some(part@)));
                        assert(shares(reading@, n as nat).take(k + 1) =~= shares(
                            reading@,
                            n as nat,
                        ).take(k as int).push(Some(part@)));
                        k += 1;
                    }
                    assert(shares(reading@, n as nat).take(n as int) =~= shares(
                        reading@,
                        n as nat,
                    ));
                    at += n;
                    assert(optional_texts(out@) + customized(pairs, chars@, at as int) =~= before
                        + rest);
                },
                None => {
                    out.push(None);
                    at += 1;
                    assert(optional_texts(out@) =~= before.push(None));
                    assert(optional_texts(out@) + customized(pairs, chars@, at as int) =~= before
                        + rest);
                },
            }
        }
        assert(optional_texts(out@) =~= customized(pairs, chars@, 0));
        assert forall|i: int| 0 <= i < out@.len() implies optional_text(#[trigger] out@[i])
            == custom_at(pairs, chars@, i) by {
            assert(optional_texts(out@)[i] == optional_text(out@[i]));
        }
        out
    }

    fn spell(&self, text: &str, chars: &Vec<char>, custom: &Option<String>, pos: usize) -> (r:
        CharPinyin)
        requires
            self.wf(),
            chars@ == text@,
            pos < text@.len(),
        ensures
            r@ == spelled(
                self.known(),
                self.settings().enabled,
                optional_text(*custom),
                text@,
                pos as int,
            ),
    {
        let c = chars[pos];
        let mut disambiguation: Option<String> = None;
        let mut is_polyphone = false;
        let usual: String = match self.dictionary.get(c) {
            Some(poly) => {
                proof {
                    law_reading_exists(poly@, text@, pos as nat);
                }
                let (index, description) = if self.config.enabled {
                    poly.disambiguate(text, pos)
                } else {
                    (0, None)
                };
                is_polyphone = true;
                disambiguation = description;
                assert(poly@.readings[index as int] == poly.readings@[index as int]@);
                poly.readings[index].clone()
            },
            None => match basic_pinyin(c) {
                Some(p) => p.to_owned(),
                None => if (c as u32) < 128 {
                    one_char(c)
                } else {
                    String::new()
                },
            },
        };
        let pinyin: String = match custom {
            Some(p) => {
                disambiguation = None;
                p.clone()
            },
            None => usual,
        };
        let (pinyin_no_tone, tone) = strip_tone(pinyin.as_str());
        CharPinyin { char: c, pinyin, pinyin_no_tone, tone, is_polyphone, disambiguation }
    }

    /// Reads `text` character by character. Where a word stands whose reading was set, that reading
    /// counts; a polyphonic character is settled by context, or has its first reading where that is
    /// turned off.
    pub fn convert(&self, text: &str) -> (r: PinyinResult)
        requires
            self.wf(),
        ensures
            char_views(r.chars@) == spelled_all(self.known(), self.settings(), text@),
            r.spelling() == text::joined(
                written(spelled_all(self.known(), self.settings(), text@)),
                " "@,
            ),
            r.resolutions() == settled(spelled_all(self.known(), self.settings(), text@)),
    {
        let ghost all = spelled_all(self.known(), self.settings(), text@);
        let chars = chars_of(text);
        let custom = self.custom_readings(&chars);
        let mut out: Vec<CharPinyin> = Vec::new();
        let mut parts: Vec<String> = Vec::new();
        let mut polyphones: Vec<(usize, String, String)> = Vec::new();
        let mut pos: usize = 0;
        while pos < chars.len()
            invariant
                self.wf(),
                chars@ == text@,
                pos <= chars@.len(),
                all == spelled_all(self.known(), self.settings(), text@),
                custom@.len() == chars@.len(),
                forall|i: int|
                    0 <= i < custom@.len() ==> optional_text(#[trigger] custom@[i]) == custom_at(
                        pair_views(self.config.custom_pronunciations@),
                        text@,
                        i,
                    ),
                char_views(out@) == all.take(pos as int),
                text::texts(parts@) == written(all.take(pos as int)),
                polyphones@.map_values(|r: (usize, String, String)| resolution_view(r)) == settled(
                    all.take(pos as int),
                ),
            decreases chars@.len() - pos,
        {
            let item = self.spell(text, &chars, &custom[pos], pos);
            let ghost next = all.take(pos + 1);
            let ghost before = parts@;
            let ghost before_polyphones = polyphones@;
            assert(next.drop_last() == all.take(pos as int));
            assert(next.last() == item@);
            if !item.pinyin.as_str().is_empty() {
                parts.push(item.pinyin.clone());
                assert(text::texts(parts@) =~= text::texts(before).push(item@.pinyin));
            }
            if item.is_polyphone {
                polyphones.push((pos, one_char(item.char), item.pinyin.clone()));
                assert(polyphones@.map_values(|r: (usize, String, String)| resolution_view(r))
                    =~= before_polyphones.map_values(
                    |r: (usize, String, String)| resolution_view(r),
                ).push((pos as nat, seq![item.char], item@.pinyin)));
            }
            let ghost before_out = out@;
            out.push(item);
            assert(char_views(out@) =~= char_views(before_out).push(item@));
            assert(char_views(out@) =~= next);
            pos += 1;
        }
        assert(all.take(all.len() as int) == all);
        let pinyin_string = join(&parts, " ");
        PinyinResult { chars: out, pinyin_string, polyphone_resolutions: polyphones }
    }

    /// The dictionary.
    pub fn dictionary(&self) -> (r: &PolyphoneDictionary)
        requires
            self.wf(),
        ensures
            r.wf(),
            r@ == self.known(),
    {
        &self.dictionary
    }

    /// The settings.
    pub fn config(&self) -> (r: &G2pwConfig)
        ensures
            *r == self.settings(),
    {
        &self.config
    }

    /// Sets the reading of a word.
    pub fn add_custom_pronunciation(&mut self, word: &str, pinyin: &str)
        ensures
            old(self).wf() ==> final(self).wf(),
            final(self).known() == old(self).known(),
            forall|w: Seq<char>| #[trigger]
                pronunciation_of(final(self).settings().custom_pronunciations@, w) == if w == word@ {
                    Some(pinyin@)
                } else {
                    pronunciation_of(old(self).settings().custom_pronunciations@, w)
                },
            final(self).settings() == (G2pwConfig {
                custom_pronunciations: final(self).settings().custom_pronunciations,
                ..old(self).settings()
            }),
    {
        let ghost pairs = self.config.custom_pronunciations@;
        let mut i: usize = 0;
        while i < self.config.custom_pronunciations.len()
            invariant
                *self == *old(self),
                i <= pairs.len(),
                pairs == self.config.custom_pronunciations@,
                forall|j: int| 0 <= j < i ==> (#[trigger] pairs[j]).0@ != word@,
            decreases pairs.len() - i,
        {
            if same_text(self.config.custom_pronunciations[i].0.as_str(), word) {
                let pair = (word.to_owned(), pinyin.to_owned());
                self.config.custom_pronunciations.set(i, pair);
                proof {
                    assert forall|w: Seq<char>| #[trigger]
                        pronunciation_of(pairs.update(i as int, pair), w) == if w == word@ {
                            Some(pinyin@)
                        } else {
                            pronunciation_of(pairs, w)
                        } by {
                        lemma_pronunciation_update(pairs, i as int, pair, w);
                    }
                }
                return;
            }
            i += 1;
        }
        let pair = (word.to_owned(), pinyin.to_owned());
        self.config.custom_pronunciations.push(pair);
        proof {
            assert forall|w: Seq<char>| #[trigger] pronunciation_of(pairs.push(pair), w) == if w
                == word@ {
                Some(pinyin@)
            } else {
                pronunciation_of(pairs, w)
            } by {
                lemma_pronunciation_push(pairs, pair, w);
            }
        }
    }

    /// The polyphonic characters of `text`: position, character and readings.
    pub fn find_polyphones(&self, text: &str) -> (r: Vec<(usize, char, &[String])>)
        requires
            self.wf(),
        ensures
            r@.map_values(|c: (usize, char, &[String])| candidate_view(c)) == candidates(
                self.known(),
                text@,
            ),
    {
        let chars = chars_of(text);
        let mut out: Vec<(usize, char, &[String])> = Vec::new();
        let mut pos: usize = 0;
        while pos < chars.len()
            invariant
                self.wf(),
                chars@ == text@,
                pos <= chars@.len(),
                out@.map_values(|c: (usize, char, &[String])| candidate_view(c)) == candidates(
                    self.known(),
                    text@.take(pos as int),
                ),
            decreases chars@.len() - pos,
        {
            let ghost before = out@;
            assert(text@.take(pos + 1).drop_last() == text@.take(pos as int));
            let c = chars[pos];
            match self.dictionary.get(c) {
                Some(poly) => {
                    out.push((pos, c, poly.readings.as_slice()));
                    assert(out@.map_values(|c: (usize, char, &[String])| candidate_view(c))
                        =~= before.map_values(
                        |c: (usize, char, &[String])| candidate_view(c),
                    ).push((pos as nat, c, self.known()[c].readings)));
                },
                None => {},
            }
            pos += 1;
        }
        assert(text@.take(text@.len() as int) == text@);
        out
    }

    /// How many characters of `text` have a reading.
    pub fn estimate_syllables(&self, text: &str) -> (r: usize)
        requires
            self.wf(),
        ensures
            r == text@.filter(
                |c: char| pinyin_tables::basic_reading(c) is Some || self.known().contains_key(c),
            ).len(),
    {
        let ghost readable = |c: char|
            pinyin_tables::basic_reading(c) is Some || self.known().contains_key(c);
        let chars = chars_of(text);
        let mut count: usize = 0;
        let mut pos: usize = 0;
        while pos < chars.len()
            invariant
                self.wf(),
                chars@ == text@,
                pos <= chars@.len(),
                readable == (|c: char| pinyin_tables::basic_reading(c) is Some || self.known().contains_key(c)),
                count == text@.take(pos as int).filter(readable).len(),
                count <= pos,
            decreases chars@.len() - pos,
        {
            let c = chars[pos];
            proof {
                reveal(Seq::filter);
                assert(text@.take(pos + 1).drop_last() == text@.take(pos as int));
            }
            if basic_pinyin(c).is_some() || self.dictionary.contains(c) {
                count += 1;
            }
            pos += 1;
        }
        assert(text@.take(text@.len() as int) == text@);
        count
    }
}

proof fn lemma_pronunciation_update(
    pairs: Seq<(String, String)>,
    i: int,
    pair: (String, String),
    w: Seq<char>,
)
    requires
        0 <= i < pairs.len(),
        pairs[i].0@ == pair.0@,
        forall|j: int| 0 <= j < i ==> (#[trigger] pairs[j]).0@ != pair.0@,
    ensures
        pronunciation_of(pairs.update(i, pair), w) == if w == pair.0@ {
            Some(pair.1@)
        } else {
            pronunciation_of(pairs, w)
        },
    decreases pairs.len(),
{
    let after = pairs.update(i, pair);
    if i == 0 {
        assert(after.drop_first() =~= pairs.drop_first());
    } else {
        assert(after.drop_first() =~= pairs.drop_first().update(i - 1, pair));
        assert(pairs[0].0@ != pair.0@);
        assert forall|j: int| 0 <= j < i - 1 implies (#[trigger] pairs.drop_first()[j]).0@
            != pair.0@ by {
            assert(pairs.drop_first()[j] == pairs[j + 1]);
        }
        lemma_pronunciation_update(pairs.drop_first(), i - 1, pair, w);
    }
}

proof fn lemma_pronunciation_push(
    pairs: Seq<(String, String)>,
    pair: (String, String),
    w: Seq<char>,
)
    requires
        forall|j: int| 0 <= j < pairs.len() ==> (#[trigger] pairs[j]).0@ != pair.0@,
    ensures
        pronunciation_of(pairs.push(pair), w) == if w == pair.0@ {
            Some(pair.1@)
        } else {
            pronunciation_of(pairs, w)
        },
    decreases pairs.len(),
{
    let after = pairs.push(pair);
    if pairs.len() == 0 {
        assert(after.drop_first() =~= Seq::empty());
        assert(pronunciation_of(after.drop_first(), w) is None);
    } else {
        assert(after.drop_first() =~= pairs.drop_first().push(pair));
        assert(pairs[0].0@ != pair.0@);
        assert forall|j: int| 0 <= j < pairs.len() - 1 implies (#[trigger] pairs.drop_first()[j]).0@
            != pair.0@ by {
            assert(pairs.drop_first()[j] == pairs[j + 1]);
        }
        lemma_pronunciation_push(pairs.drop_first(), pair, w);
    }
}

} // verus!
