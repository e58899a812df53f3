//! Text as sequences of characters: joining, trimming, searching, replacing, and writing numbers.
use vstd::prelude::*;

verus! {

/// `String::push`: appends one character at the end.
pub assume_specification[ String::push ](s: &mut String, c: char)
    ensures
        final(s)@ == old(s)@.push(c),
;

/// The texts of a list of strings.
pub open spec fn texts(list: Seq<String>) -> Seq<Seq<char>> {
    Seq::new(list.len(), |i: int| list[i]@)
}

/// `parts` written one after the other with `sep` between neighbours.
pub open spec fn joined(parts: Seq<Seq<char>>, sep: Seq<char>) -> Seq<char>
    decreases parts.len(),
{
    if parts.len() == 0 {
        Seq::empty()
    } else if parts.len() == 1 {
        parts[0]
    } else {
        joined(parts.drop_last(), sep) + sep + parts.last()
    }
}

/// How joining goes: nothing gives nothing, one part gives the part, and each further part is put
/// behind the others with the separator in between.
pub proof fn law_joined(parts: Seq<Seq<char>>, part: Seq<char>, sep: Seq<char>)
    ensures
        joined(Seq::empty(), sep) == Seq::<char>::empty(),
        joined(seq![part], sep) == part,
        parts.len() > 0 ==> joined(parts.push(part), sep) == joined(parts, sep) + sep + part,
{
    assert(parts.push(part).drop_last() =~= parts);
}

/// The texts of strings stand in the places of the strings.
pub proof fn law_texts(list: Seq<String>, i: int)
    ensures
        texts(list).len() == list.len(),
        0 <= i < list.len() ==> texts(list)[i] == list[i]@,
{
}

/// The characters of `s`, in order.
pub fn chars_of(s: &str) -> (r: Vec<char>)
    ensures
        r@ == s@,
{
    let mut out: Vec<char> = Vec::new();
    for c in it: s.chars()
        invariant
            it.seq() == s@,
            out@ == s@.take(it.index() as int),
    {
        out.push(c);
    }
    out
}

/// The string made of `chars[from..to]`.
pub fn string_of(chars: &Vec<char>, from: usize, to: usize) -> (r: String)
    requires
        from <= to <= chars@.len(),
    ensures
        r@ == chars@.subrange(from as int, to as int),
{
    let mut out = String::new();
    let mut i: usize = from;
    while i < to
        invariant
            from <= i <= to <= chars@.len(),
            out@ == chars@.subrange(from as int, i as int),
        decreases to - i,
    {
        out.push(chars[i]);
        i += 1;
    }
    out
}

/// Whether two strings hold the same characters.
pub fn same_text(a: &str, b: &str) -> (r: bool)
    ensures
        r == (a@ == b@),
{
    a.to_owned() == b.to_owned()
}

/// `parts` joined with `sep`.
pub fn join(parts: &Vec<String>, sep: &str) -> (r: String)
    ensures
        r@ == joined(texts(parts@), sep@),
{
    let mut out = String::new();
    let ghost all = texts(parts@);
    let mut i: usize = 0;
    while i < parts.len()
        invariant
            i <= parts@.len(),
            all == texts(parts@),
            out@ == joined(all.take(i as int), sep@),
        decreases parts@.len() - i,
    {
        proof {
            assert(all.take(i + 1).drop_last() == all.take(i as int));
        }
        if i > 0 {
            out.append(sep);
        }
        out.append(parts[i].as_str());
        i += 1;
    }
    proof {
        assert(all.take(all.len() as int) == all);
    }
    out
}

/// `a` and `b` one after the other.
pub fn append2(a: &str, b: &str) -> (r: String)
    ensures
        r@ == a@ + b@,
{
    let mut out = a.to_owned();
    out.append(b);
    out
}

/// `a`, `b` and `c` one after the other.
pub fn cat3(a: &str, b: &str, c: &str) -> (r: String)
    ensures
        r@ == a@ + b@ + c@,
{
    let mut out = a.to_owned();
    out.append(b);
    out.append(c);
    out
}

/// `a` to `d` one after the other.
pub fn cat4(a: &str, b: &str, c: &str, d: &str) -> (r: String)
    ensures
        r@ == a@ + b@ + c@ + d@,
{
    let mut out = cat3(a, b, c);
    out.append(d);
    out
}

/// `a` to `e` one after the other.
pub fn cat5(a: &str, b: &str, c: &str, d: &str, e: &str) -> (r: String)
    ensures
        r@ == a@ + b@ + c@ + d@ + e@,
{
    let mut out = cat3(a, b, c);
    out.append(d);
    out.append(e);
    out
}

/// The characters with the Unicode property White_Space.
pub open spec fn whitespace(c: char) -> bool {
    let u = c as u32;
    ||| 0x9 <= u <= 0xd
    ||| u == 0x20
    ||| u == 0x85
    ||| u == 0xa0
    ||| u == 0x1680
    ||| 0x2000 <= u <= 0x200a
    ||| u == 0x2028
    ||| u == 0x2029
    ||| u == 0x202f
    ||| u == 0x205f
    ||| u == 0x3000
}

/// Whether `c` is white space.
pub fn is_whitespace(c: char) -> (r: bool)
    ensures
        r == whitespace(c),
        r <==> c == ' ' || '\t' <= c <= '\r' || c == '\u{85}' || c == '\u{a0}' || c == '\u{1680}'
            || '\u{2000}' <= c <= '\u{200a}' || c == '\u{2028}' || c == '\u{2029}' || c
            == '\u{202f}' || c == '\u{205f}' || c == '\u{3000}',
{
    let u = c as u32;
    (0x9 <= u && u <= 0xd) || u == 0x20 || u == 0x85 || u == 0xa0 || u == 0x1680 || (0x2000 <= u
        && u <= 0x200a) || u == 0x2028 || u == 0x2029 || u == 0x202f || u == 0x205f || u == 0x3000
}

/// `s` without the white space at its start.
pub open spec fn trimmed_start(s: Seq<char>) -> Seq<char>
    decreases s.len(),
{
    if s.len() > 0 && whitespace(s[0]) {
        trimmed_start(s.drop_first())
    } else {
        s
    }
}

/// `s` without the white space at its end.
pub open spec fn trimmed_end(s: Seq<char>) -> Seq<char>
    decreases s.len(),
{
    if s.len() > 0 && whitespace(s.last()) {
        trimmed_end(s.drop_last())
    } else {
        s
    }
}

/// `s` without the white space at either end.
pub open spec fn trimmed(s: Seq<char>) -> Seq<char> {
    trimmed_end(trimmed_start(s))
}

/// Trimming takes the white space off both ends, and nothing else.
pub proof fn law_trimmed(lead: Seq<char>, core: Seq<char>, trail: Seq<char>)
    requires
        forall|i: int| 0 <= i < lead.len() ==> whitespace(#[trigger] lead[i]),
        forall|i: int| 0 <= i < trail.len() ==> whitespace(#[trigger] trail[i]),
        core.len() > 0 ==> !whitespace(core[0]) && !whitespace(core.last()),
    ensures
        trimmed(lead + core + trail) == core,
    decreases lead.len() + trail.len(),
{
    let s = lead + core + trail;
    if lead.len() > 0 {
        law_trimmed(lead.drop_first(), core, trail);
        assert(s[0] == lead[0]);
        assert(s.drop_first() =~= lead.drop_first() + core + trail);
    } else if core.len() > 0 {
        assert(s[0] == core[0]);
        assert(s =~= core + trail);
        lemma_trimmed_end(core, trail);
    } else if trail.len() > 0 {
        assert(s =~= trail);
        assert(s[0] == trail[0]);
        assert(s.drop_first() =~= Seq::<char>::empty() + core + trail.drop_first());
        law_trimmed(Seq::empty(), core, trail.drop_first());
    } else {
        assert(s =~= core);
    }
}

proof fn lemma_trimmed_end(core: Seq<char>, trail: Seq<char>)
    requires
        forall|i: int| 0 <= i < trail.len() ==> whitespace(#[trigger] trail[i]),
        core.len() > 0,
        !whitespace(core.last()),
    ensures
        trimmed_end(core + trail) == core,
    decreases trail.len(),
{
    let s = core + trail;
    if trail.len() > 0 {
        assert(s.last() == trail[trail.len() - 1]);
        assert(s.drop_last() =~= core + trail.drop_last());
        lemma_trimmed_end(core, trail.drop_last());
    } else {
        assert(s =~= core);
    }
}

/// `s` without the white space at either end.
pub fn trim(s: &Vec<char>) -> (r: Vec<char>)
    ensures
        r@ == trimmed(s@),
{
    let mut from: usize = 0;
    assert(s@.skip(0) == s@);
    while from < s.len() && is_whitespace(s[from])
        invariant
            from <= s@.len(),
            trimmed_start(s@) == trimmed_start(s@.skip(from as int)),
        decreases s@.len() - from,
    {
        assert(s@.skip(from as int).drop_first() == s@.skip(from + 1));
        from += 1;
    }
    let mut to: usize = s.len();
    assert(s@.subrange(from as int, to as int) == s@.skip(from as int));
    while to > from && is_whitespace(s[to - 1])
        invariant
            from <= to <= s@.len(),
            trimmed(s@) == trimmed_end(s@.subrange(from as int, to as int)),
        decreases to,
    {
        assert(s@.subrange(from as int, to as int).drop_last() == s@.subrange(
            from as int,
            to - 1,
        ));
        to -= 1;
    }
    let mut out: Vec<char> = Vec::new();
    let mut i: usize = from;
    while i < to
        invariant
            from <= i <= to <= s@.len(),
            out@ == s@.subrange(from as int, i as int),
        decreases to - i,
    {
        out.push(s[i]);
        i += 1;
    }
    out
}

/// Whether `s` is empty or all white space.
pub fn is_blank(s: &str) -> (r: bool)
    ensures
        r == (trimmed(s@).len() == 0),
{
    trim(&chars_of(s)).is_empty()
}

/// The lines of `s`: what stands before, between and after its line feeds.
pub open spec fn lines(s: Seq<char>) -> Seq<Seq<char>>
    decreases s.len(),
{
    if s.len() == 0 {
        seq![Seq::empty()]
    } else {
        let before = lines(s.drop_last());
        if s.last() == '\n' {
            before.push(Seq::empty())
        } else {
            before.drop_last().push(before.last().push(s.last()))
        }
    }
}

/// The lines of a text, put together again with line feeds, are the text.
pub proof fn law_lines_joined(s: Seq<char>)
    ensures
        lines(s).len() > 0,
        joined(lines(s), seq!['\n']) == s,
    decreases s.len(),
{
    if s.len() > 0 {
        law_lines_joined(s.drop_last());
        let before = lines(s.drop_last());
        let after = lines(s);
        assert(after.drop_last() =~= if s.last() == '\n' {
            before
        } else {
            before.drop_last()
        });
        if s.last() == '\n' {
            assert(joined(after, seq!['\n']) =~= s.drop_last() + seq!['\n'] + Seq::empty());
        } else if before.len() == 1 {
            assert(joined(after, seq!['\n']) =~= before[0].push(s.last()));
        } else {
            assert(joined(after, seq!['\n']) =~= joined(before, seq!['\n']).push(s.last()));
        }
        assert(s =~= s.drop_last().push(s.last()));
    }
}

/// No line holds a line feed.
pub proof fn law_lines_hold_no_line_feed(s: Seq<char>, k: int, i: int)
    requires
        0 <= k < lines(s).len(),
        0 <= i < lines(s)[k].len(),
    ensures
        lines(s)[k][i] != '\n',
    decreases s.len(),
{
    if s.len() > 0 {
        let before = lines(s.drop_last());
        law_lines_joined(s.drop_last());
        if k < before.len() && i < before[k].len() {
            law_lines_hold_no_line_feed(s.drop_last(), k, i);
        }
    }
}

/// The contents of a list of character vectors.
pub open spec fn contents(list: Seq<Vec<char>>) -> Seq<Seq<char>> {
    Seq::new(list.len(), |i: int| list[i]@)
}

/// The lines of `s`.
pub fn split_lines(s: &str) -> (r: Vec<Vec<char>>)
    ensures
        contents(r@) == lines(s@),
{
    let mut done: Vec<Vec<char>> = Vec::new();
    let mut current: Vec<char> = Vec::new();
    assert(contents(done@).push(current@) =~= lines(s@.take(0)));
    for c in it: s.chars()
        invariant
            it.seq() == s@,
            contents(done@).push(current@) == lines(s@.take(it.index() as int)),
    {
        let ghost before = contents(done@);
        let ghost line = current@;
        assert(s@.take(it.index() + 1).drop_last() == s@.take(it.index() as int));
        assert(before.push(line).drop_last() =~= before);
        if c == '\n' {
            done.push(current);
            current = Vec::new();
            assert(contents(done@) =~= before.push(line));
        } else {
            current.push(c);
        }
        assert(contents(done@).push(current@) =~= lines(s@.take(it.index() + 1)));
    }
    assert(s@.take(s@.len() as int) == s@);
    let ghost before = contents(done@);
    let ghost line = current@;
    done.push(current);
    assert(contents(done@) =~= before.push(line));
    done
}

/// The decimal digit `d`.
pub open spec fn digit(d: int) -> char {
    (0x30 + d) as char
}

/// `n` in decimal.
pub open spec fn decimal(n: nat) -> Seq<char>
    decreases n,
{
    if n < 10 {
        seq![digit(n as int)]
    } else {
        decimal(n / 10).push(digit((n % 10) as int))
    }
}

/// `n` in decimal, with zeros in front up to `width` digits.
pub open spec fn padded(n: nat, width: nat) -> Seq<char> {
    let digits = decimal(n);
    if digits.len() < width {
        Seq::new((width - digits.len()) as nat, |i: int| '0') + digits
    } else {
        digits
    }
}

/// `n` in decimal, with a minus sign in front of a negative number.
pub open spec fn signed_decimal(n: int) -> Seq<char> {
    if n < 0 {
        seq!['-'] + decimal((-n) as nat)
    } else {
        decimal(n as nat)
    }
}

/// How numbers are written: a number below ten as its digit, and a further digit goes to the end.
pub proof fn law_decimal(n: nat, d: nat)
    requires
        d < 10,
    ensures
        decimal(d) == seq!["0123456789"@[d as int]],
        n > 0 ==> decimal(10 * n + d) == decimal(n).push("0123456789"@[d as int]),
        signed_decimal(n as int) == decimal(n),
        n > 0 ==> signed_decimal(-n) == seq!['-'] + decimal(n),
{
    reveal_strlit("0123456789");
    assert((10 * n + d) / 10 == n && (10 * n + d) % 10 == d);
    assert("0123456789"@[d as int] == digit(d as int));
}

/// Padding puts zeros in front until there are `width` digits, and takes nothing away.
pub proof fn law_padded(n: nat, width: nat, i: int)
    ensures
        decimal(n).len() >= width ==> padded(n, width) == decimal(n),
        decimal(n).len() < width ==> padded(n, width).len() == width && padded(n, width).skip(
            width - decimal(n).len(),
        ) == decimal(n),
        0 <= i < width - decimal(n).len() ==> padded(n, width)[i] == '0',
{
    if decimal(n).len() < width {
        assert(padded(n, width).skip(width - decimal(n).len()) =~= decimal(n));
    }
}

fn digit_char(d: u8) -> (r: char)
    requires
        d < 10,
    ensures
        r == digit(d as int),
{
    (0x30 + d) as char
}

fn push_decimal(out: &mut String, n: u64)
    ensures
        final(out)@ == old(out)@ + decimal(n as nat),
    decreases n,
{
    if n >= 10 {
        push_decimal(out, n / 10);
    }
    out.push(digit_char((n % 10) as u8));
    assert(out@ =~= old(out)@ + decimal(n as nat));
}

/// `n` in decimal.
pub fn decimal_text(n: u64) -> (r: String)
    ensures
        r@ == decimal(n as nat),
{
    let mut out = String::new();
    push_decimal(&mut out, n);
    assert(out@ =~= decimal(n as nat));
    out
}

/// `n` in decimal.
pub fn count_text(n: usize) -> (r: String)
    ensures
        r@ == decimal(n as nat),
{
    decimal_text(n as u64)
}

/// `n` in decimal, with its sign.
pub fn signed_text(n: i32) -> (r: String)
    ensures
        r@ == signed_decimal(n as int),
{
    if n < 0 {
        let mut out = String::new();
        out.push('-');
        push_decimal(&mut out, (-(n as i64)) as u64);
        assert(out@ =~= signed_decimal(n as int));
        out
    } else {
        decimal_text(n as u64)
    }
}

/// `n` in decimal, with zeros in front up to `width` digits.
pub fn padded_text(n: u64, width: usize) -> (r: String)
    ensures
        r@ == padded(n as nat, width as nat),
{
    let digits = decimal_text(n);
    let count: usize = digits.as_str().unicode_len();
    let mut out = String::new();
    let mut i: usize = count;
    while i < width
        invariant
            count <= i,
            count == digits@.len(),
            i <= width || i == count,
            out@ == Seq::new((i - count) as nat, |i: int| '0'),
        decreases width - i,
    {
        out.push('0');
        assert(out@ =~= Seq::new((i + 1 - count) as nat, |i: int| '0'));
        i += 1;
    }
    out.append(digits.as_str());
    assert(out@ =~= padded(n as nat, width as nat));
    out
}

/// The number that a row of decimal digits stands for.
pub open spec fn value_of(digits: Seq<char>) -> int
    decreases digits.len(),
{
    if digits.len() == 0 {
        0
    } else {
        value_of(digits.drop_last()) * 10 + (digits.last() as u32 - 0x30)
    }
}

/// The decimal form of a number, with any zeros in front, stands for the number. Different numbers
/// have different forms.
pub proof fn law_padded_value(n: nat, width: nat)
    ensures
        value_of(decimal(n)) == n,
        value_of(padded(n, width)) == n,
{
    lemma_decimal_value(n);
    if decimal(n).len() < width {
        lemma_leading_zeros((width - decimal(n).len()) as nat, decimal(n));
    }
}

proof fn lemma_decimal_value(n: nat)
    ensures
        value_of(decimal(n)) == n,
    decreases n,
{
    assert(forall|d: int| 0 <= d < 10 ==> #[trigger] digit(d) as u32 == 0x30 + d);
    if n < 10 {
        assert(decimal(n).drop_last() =~= Seq::empty());
        assert(decimal(n).last() == digit(n as int));
        assert(value_of(decimal(n).drop_last()) == 0);
    } else {
        lemma_decimal_value(n / 10);
        assert(decimal(n).drop_last() =~= decimal(n / 10));
        assert(decimal(n).last() == digit((n % 10) as int));
    }
}

proof fn lemma_leading_zeros(k: nat, digits: Seq<char>)
    ensures
        value_of(Seq::new(k, |i: int| '0') + digits) == value_of(digits),
    decreases digits.len(), k,
{
    let zeros = Seq::new(k, |i: int| '0');
    let all = zeros + digits;
    if digits.len() > 0 {
        lemma_leading_zeros(k, digits.drop_last());
        assert(all.drop_last() =~= zeros + digits.drop_last());
    } else if k > 0 {
        let fewer = Seq::new((k - 1) as nat, |i: int| '0');
        lemma_leading_zeros((k - 1) as nat, digits);
        assert(all.drop_last() =~= fewer + digits);
        assert(all.last() == '0');
    } else {
        assert(all =~= digits);
    }
}

/// The hexadecimal digit of a number below 16.
pub open spec fn hex_digit(d: int) -> char {
    if d < 10 {
        (0x30 + d) as char
    } else {
        (0x57 + d) as char
    }
}

/// The hexadecimal digits are the ten decimal ones and the letters from `a` to `f`.
pub proof fn law_hex_digit(d: int)
    requires
        0 <= d < 16,
    ensures
        hex_digit(d) == "0123456789abcdef"@[d],
{
    reveal_strlit("0123456789abcdef");
}

/// `pat` stands in `s` from position `i` on.
pub open spec fn occurs_at(s: Seq<char>, pat: Seq<char>, i: int) -> bool {
    0 <= i && i + pat.len() <= s.len() && s.subrange(i, i + pat.len()) == pat
}

/// `pat` stands somewhere in `s`.
pub open spec fn holds_text(s: Seq<char>, pat: Seq<char>) -> bool {
    exists|i: int| occurs_at(s, pat, i)
}

pub(crate) fn occurs(s: &Vec<char>, pat: &Vec<char>, at: usize) -> (r: bool)
    requires
        at <= s@.len(),
    ensures
        r == occurs_at(s@, pat@, at as int),
        r <==> at + pat@.len() <= s@.len() && forall|k: int|
            0 <= k < pat@.len() ==> s@[at + k] == #[trigger] pat@[k],
{
    if pat.len() > s.len() - at {
        return false;
    }
    let mut k: usize = 0;
    while k < pat.len()
        invariant
            k <= pat@.len(),
            at + pat.len() <= s.len(),
            forall|j: int| 0 <= j < k ==> s@[at + j] == pat@[j],
        decreases pat@.len() - k,
    {
        if s[at + k] != pat[k] {
            assert(s@.subrange(at as int, at + pat@.len())[k as int] != pat@[k as int]);
            return false;
        }
        k += 1;
    }
    assert(s@.subrange(at as int, at + pat@.len()) =~= pat@);
    true
}

/// A text stands in another where that is made of something, the text, and something else.
pub proof fn law_text_stands_within(s: Seq<char>, pat: Seq<char>)
    ensures
        holds_text(s, pat) <==> exists|a: Seq<char>, b: Seq<char>| s == #[trigger] (a + pat + b),
{
    if holds_text(s, pat) {
        let i = choose|i: int| occurs_at(s, pat, i);
        let a = s.subrange(0, i);
        let b = s.subrange(i + pat.len() as int, s.len() as int);
        assert(s =~= a + s.subrange(i, i + pat.len() as int) + b);
        assert(s == a + pat + b);
    }
    if exists|a: Seq<char>, b: Seq<char>| s == #[trigger] (a + pat + b) {
        let (a, b) = choose|a: Seq<char>, b: Seq<char>| s == #[trigger] (a + pat + b);
        assert((a + pat + b).subrange(a.len() as int, a.len() as int + pat.len()) =~= pat);
        assert(occurs_at(s, pat, a.len() as int));
    }
}

/// Whether `pat` stands somewhere in `s`.
pub fn contains(s: &str, pat: &str) -> (r: bool)
    ensures
        r == holds_text(s@, pat@),
        r <==> exists|a: Seq<char>, b: Seq<char>| s@ == #[trigger] (a + pat@ + b),
{
    let chars = chars_of(s);
    let wanted = chars_of(pat);
    let mut i: usize = 0;
    while i <= chars.len()
        invariant
            i <= chars.len() + 1,
            chars@ == s@,
            wanted@ == pat@,
            forall|j: int| 0 <= j < i ==> !occurs_at(s@, pat@, j),
        decreases chars@.len() + 1 - i,
    {
        proof {
            law_text_stands_within(s@, pat@);
        }
        if occurs(&chars, &wanted, i) {
            return true;
        }
        if i == chars.len() {
            return false;
        }
        i += 1;
    }
    proof {
        law_text_stands_within(s@, pat@);
    }
    false
}

/// A table of texts and what stands for each, as values.
pub open spec fn table_view(table: Seq<(&str, &str)>) -> Seq<(Seq<char>, Seq<char>)> {
    Seq::new(table.len(), |i: int| (table[i].0@, table[i].1@))
}

/// `s` starts with `key`, which is not empty.
pub open spec fn starts_with(s: Seq<char>, key: Seq<char>) -> bool {
    key.len() > 0 && occurs_at(s, key, 0)
}

/// The first entry of `table`, from `k` on, with whose text `s` starts.
pub open spec fn entry_at(s: Seq<char>, table: Seq<(Seq<char>, Seq<char>)>, k: int) -> Option<int>
    decreases table.len() - k,
{
    if k < 0 || k >= table.len() {
        None
    } else if starts_with(s, table[k].0) {
        Some(k)
    } else {
        entry_at(s, table, k + 1)
    }
}

/// `s` with the texts of `table` replaced by what stands for them. `s` is read once from left to
/// right, and what was put in is not read again.
pub open spec fn substituted(s: Seq<char>, table: Seq<(Seq<char>, Seq<char>)>) -> Seq<char>
    decreases s.len(),
    via substituted_decreases
{
    if s.len() == 0 {
        s
    } else {
        match entry_at(s, table, 0) {
            Some(k) => table[k].1 + substituted(s.skip(table[k].0.len() as int), table),
            None => seq![s[0]] + substituted(s.skip(1), table),
        }
    }
}

#[via_fn]
proof fn substituted_decreases(s: Seq<char>, table: Seq<(Seq<char>, Seq<char>)>) {
    lemma_entry_at(s, table, 0);
}

proof fn lemma_entry_at(s: Seq<char>, table: Seq<(Seq<char>, Seq<char>)>, k: int)
    ensures
        entry_at(s, table, k) matches Some(i) ==> k <= i < table.len() && starts_with(
            s,
            table[i].0,
        ),
    decreases table.len() - k,
{
    if 0 <= k < table.len() && !starts_with(s, table[k].0) {
        lemma_entry_at(s, table, k + 1);
    }
}

/// A text in which nothing of the table stands is left as it is by [`substituted`].
pub proof fn law_substituted_absent(s: Seq<char>, table: Seq<(Seq<char>, Seq<char>)>)
    requires
        forall|k: int|
            0 <= k < table.len() ==> (#[trigger] table[k]).0.len() == 0 || !holds_text(
                s,
                table[k].0,
            ),
    ensures
        substituted(s, table) == s,
    decreases s.len(),
{
    if s.len() > 0 {
        lemma_entry_at(s, table, 0);
        assert forall|k: int| 0 <= k < table.len() implies (#[trigger] table[k]).0.len() == 0
            || !holds_text(s.skip(1), table[k].0) by {
            let key = table[k].0;
            if key.len() > 0 && holds_text(s.skip(1), key) {
                let i = choose|i: int| occurs_at(s.skip(1), key, i);
                assert(s.subrange(i + 1, i + 1 + key.len()) =~= s.skip(1).subrange(
                    i,
                    i + key.len(),
                ));
                assert(occurs_at(s, key, i + 1));
            }
        }
        law_substituted_absent(s.skip(1), table);
        assert(seq![s[0]] + s.skip(1) =~= s);
    }
}

/// A text of the table that stands alone is replaced by what stands for it, whatever that holds.
pub proof fn law_substituted_alone(table: Seq<(Seq<char>, Seq<char>)>, k: int)
    requires
        0 <= k < table.len(),
        table[k].0.len() > 0,
        forall|i: int| 0 <= i < k ==> !starts_with(table[k].0, (#[trigger] table[i]).0),
    ensures
        substituted(table[k].0, table) == table[k].1,
{
    let s = table[k].0;
    assert(s.subrange(0, s.len() as int) =~= s);
    lemma_entry_is(s, table, 0, k);
    assert(s.skip(s.len() as int).len() == 0);
    assert(table[k].1 + substituted(s.skip(s.len() as int), table) =~= table[k].1);
}

proof fn lemma_entry_is(s: Seq<char>, table: Seq<(Seq<char>, Seq<char>)>, from: int, k: int)
    requires
        0 <= from <= k < table.len(),
        starts_with(s, table[k].0),
        forall|i: int| from <= i < k ==> !starts_with(s, (#[trigger] table[i]).0),
    ensures
        entry_at(s, table, from) == Some(k),
    decreases k - from,
{
    if from < k {
        lemma_entry_is(s, table, from + 1, k);
    }
}

/// How a text is replaced: at its start the first entry of the table that stands there is replaced,
/// and the rest is read on behind it; where none stands there, one character is kept.
pub proof fn law_substituted(rest: Seq<char>, table: Seq<(Seq<char>, Seq<char>)>, k: int, c: char)
    ensures
        substituted(Seq::empty(), table) == Seq::<char>::empty(),
        0 <= k < table.len() && table[k].0.len() > 0 && (forall|i: int|
            0 <= i < k ==> (#[trigger] table[i]).0.len() == 0 || !occurs_at(
                table[k].0 + rest,
                table[i].0,
                0,
            )) ==> substituted(table[k].0 + rest, table) == table[k].1 + substituted(rest, table),
        (forall|i: int|
            0 <= i < table.len() ==> (#[trigger] table[i]).0.len() == 0 || !occurs_at(
                seq![c] + rest,
                table[i].0,
                0,
            )) ==> substituted(seq![c] + rest, table) == seq![c] + substituted(rest, table),
{
    if 0 <= k < table.len() && table[k].0.len() > 0 && (forall|i: int|
        0 <= i < k ==> (#[trigger] table[i]).0.len() == 0 || !occurs_at(
            table[k].0 + rest,
            table[i].0,
            0,
        )) {
        let s = table[k].0 + rest;
        assert(s.subrange(0, 0 + table[k].0.len() as int) =~= table[k].0);
        lemma_entry_is(s, table, 0, k);
        assert(s.skip(table[k].0.len() as int) =~= rest);
    }
    if forall|i: int|
        0 <= i < table.len() ==> (#[trigger] table[i]).0.len() == 0 || !occurs_at(
            seq![c] + rest,
            table[i].0,
            0,
        ) {
        let s = seq![c] + rest;
        lemma_entry_at(s, table, 0);
        assert(s.skip(1) =~= rest);
    }
}

/// `s` with the texts of `table` replaced by what stands for them.
pub fn substitute(s: &str, table: &Vec<(&str, &str)>) -> (r: String)
    ensures
        r@ == substituted(s@, table_view(table@)),
{
    let ghost entries = table_view(table@);
    let chars = chars_of(s);
    let mut keys: Vec<Vec<char>> = Vec::new();
    let mut t: usize = 0;
    while t < table.len()
        invariant
            t <= table@.len(),
            keys@.len() == t,
            forall|k: int| 0 <= k < t ==> (#[trigger] keys@[k])@ == table@[k].0@,
        decreases table@.len() - t,
    {
        keys.push(chars_of(table[t].0));
        t += 1;
    }
    let mut out = String::new();
    let mut i: usize = 0;
    assert(s@.skip(0) == s@);
    assert(out@ + substituted(s@, entries) =~= substituted(s@, entries));
    while i < chars.len()
        invariant
            i <= chars@.len(),
            chars@ == s@,
            entries == table_view(table@),
            keys@.len() == table@.len(),
            forall|k: int| 0 <= k < keys@.len() ==> (#[trigger] keys@[k])@ == table@[k].0@,
            out@ + substituted(s@.skip(i as int), entries) == substituted(s@, entries),
        decreases chars@.len() - i,
    {
        let ghost rest = s@.skip(i as int);
        let ghost before = out@;
        let mut k: usize = 0;
        while k < keys.len() && !(keys[k].len() > 0 && occurs(&chars, &keys[k], i))
            invariant
                i < chars@.len(),
                chars@ == s@,
                rest == s@.skip(i as int),
                k <= keys@.len(),
                entries == table_view(table@),
                keys@.len() == table@.len(),
                forall|k: int| 0 <= k < keys@.len() ==> (#[trigger] keys@[k])@ == table@[k].0@,
                entry_at(rest, entries, 0) == entry_at(rest, entries, k as int),
            decreases keys@.len() - k,
        {
            proof {
                lemma_occurs_in_rest(s@, entries[k as int].0, i as int);
            }
            k += 1;
        }
        if k < keys.len() {
            proof {
                lemma_occurs_in_rest(s@, entries[k as int].0, i as int);
                assert(rest.skip(entries[k as int].0.len() as int) =~= s@.skip(
                    i + entries[k as int].0.len(),
                ));
            }
            out.append(table[k].1);
            i += keys[k].len();
        } else {
            assert(rest.skip(1) =~= s@.skip(i + 1));
            out.push(chars[i]);
            i += 1;
        }
        assert(out@ + substituted(s@.skip(i as int), entries) =~= before + substituted(
            rest,
            entries,
        ));
    }
    assert(out@ =~= out@ + substituted(s@.skip(i as int), entries));
    out
}

proof fn lemma_occurs_in_rest(s: Seq<char>, pat: Seq<char>, i: int)
    requires
        0 <= i <= s.len(),
    ensures
        occurs_at(s.skip(i), pat, 0) == occurs_at(s, pat, i),
{
    if i + pat.len() <= s.len() {
        assert(s.skip(i).subrange(0, pat.len() as int) =~= s.subrange(i, i + pat.len()));
    }
}

/// The parts of `s` between white space.
pub open spec fn words(s: Seq<char>) -> Seq<Seq<char>>
    decreases s.len(),
{
    if s.len() == 0 {
        Seq::empty()
    } else {
        let before = words(s.drop_last());
        if whitespace(s.last()) {
            before
        } else if s.len() == 1 || whitespace(s[s.len() - 2]) {
            before.push(seq![s.last()])
        } else {
            before.drop_last().push(before.last().push(s.last()))
        }
    }
}

/// A text that does not end in white space has a last word.
pub proof fn law_last_word(s: Seq<char>)
    requires
        s.len() > 0,
        !whitespace(s.last()),
    ensures
        words(s).len() > 0,
{
    lemma_words_not_empty(s);
}

proof fn lemma_words_not_empty(s: Seq<char>)
    requires
        s.len() > 0,
        !whitespace(s.last()),
    ensures
        words(s).len() > 0,
{
}

/// How text falls into words: white space at the end changes nothing, and a run of other characters
/// behind white space is one word more.
pub proof fn law_words(s: Seq<char>, word: Seq<char>, c: char)
    requires
        word.len() > 0,
        forall|i: int| 0 <= i < word.len() ==> !whitespace(#[trigger] word[i]),
    ensures
        words(Seq::empty()) == Seq::<Seq<char>>::empty(),
        whitespace(c) ==> words(s.push(c)) == words(s),
        s.len() == 0 || whitespace(s.last()) ==> words(s + word) == words(s).push(word),
    decreases word.len(),
{
    assert(s.push(c).drop_last() =~= s);
    if s.len() == 0 || whitespace(s.last()) {
        let whole = s + word;
        let last = word[word.len() - 1];
        assert(whole.last() == last);
        assert(whole.drop_last() =~= s + word.drop_last());
        if word.len() > 1 {
            law_words(s, word.drop_last(), c);
            assert(whole[whole.len() - 2] == word[word.len() - 2]);
            assert(words(s).push(word.drop_last()).drop_last() =~= words(s));
            assert(word.drop_last().push(last) =~= word);
        } else {
            assert(s + word.drop_last() =~= s);
            assert(whole.len() > 1 ==> whole[whole.len() - 2] == s.last());
            assert(seq![last] =~= word);
        }
    }
}

/// The parts of `s` between white space.
pub fn split_words(s: &str) -> (r: Vec<String>)
    ensures
        texts(r@) == words(s@),
{
    let chars = chars_of(s);
    let mut out: Vec<String> = Vec::new();
    let mut i: usize = 0;
    assert(texts(out@) =~= words(s@.take(0)));
    while i < chars.len()
        invariant
            i <= chars@.len(),
            chars@ == s@,
            texts(out@) == words(s@.take(i as int)),
        decreases chars@.len() - i,
    {
        let c = chars[i];
        let ghost before = out@;
        proof {
            assert(s@.take(i + 1).drop_last() == s@.take(i as int));
            assert(s@.take(i + 1).last() == c);
        }
        if !is_whitespace(c) {
            if i == 0 || is_whitespace(chars[i - 1]) {
                let mut word = String::new();
                word.push(c);
                assert(word@ =~= seq![c]);
                out.push(word);
                assert(texts(out@) =~= texts(before).push(seq![c]));
            } else {
                proof {
                    assert(s@.take(i as int).last() == s@[i - 1]);
                    lemma_words_not_empty(s@.take(i as int));
                    assert(texts(before).len() == before.len());
                }
                match out.pop() {
                    Some(last) => {
                        let mut word = last;
                        word.push(c);
                        out.push(word);
                        assert(texts(out@) =~= texts(before).drop_last().push(
                            texts(before).last().push(c),
                        ));
                    },
                    None => {},
                }
            }
        }
        i += 1;
    }
    assert(s@.take(i as int) == s@);
    out
}

/// `part` inside the directory `base`: an absolute `part` stands for itself, an empty `base` for the
/// current directory.
pub open spec fn path_joined(base: Seq<char>, part: Seq<char>) -> Seq<char> {
    if base.len() == 0 || (part.len() > 0 && part[0] == '/') {
        part
    } else if base.last() == '/' {
        base + part
    } else {
        base + seq!['/'] + part
    }
}

/// `part` inside the directory `base`.
pub fn path_join(base: &str, part: &str) -> (r: String)
    ensures
        r@ == path_joined(base@, part@),
        base@.len() == 0 || (part@.len() > 0 && part@[0] == '/') ==> r@ == part@,
        base@.len() > 0 && !(part@.len() > 0 && part@[0] == '/') ==> {
            &&& base@.last() == '/' ==> r@ == base@ + part@
            &&& base@.last() != '/' ==> r@ == base@ + seq!['/'] + part@
        },
{
    let dir = chars_of(base);
    let rest = chars_of(part);
    if dir.is_empty() || (rest.len() > 0 && rest[0] == '/') {
        return part.to_owned();
    }
    let mut out = base.to_owned();
    if dir[dir.len() - 1] != '/' {
        out.push('/');
        assert(out@ =~= base@ + seq!['/']);
    }
    out.append(part);
    out
}

/// A copy of a list of strings.
pub fn copied(list: &Vec<String>) -> (r: Vec<String>)
    ensures
        texts(r@) == texts(list@),
        r@.len() == list@.len(),
        forall|i: int| 0 <= i < r@.len() ==> (#[trigger] r@[i])@ == list@[i]@,
{
    let mut out: Vec<String> = Vec::new();
    let mut i: usize = 0;
    while i < list.len()
        invariant
            i <= list@.len(),
            out@.len() == i,
            forall|j: int| 0 <= j < i ==> #[trigger] out@[j]@ == list@[j]@,
        decreases list@.len() - i,
    {
        out.push(list[i].clone());
        i += 1;
    }
    assert(texts(out@) =~= texts(list@));
    out
}

/// The first `max_chars` characters of `s`, with three dots where that is not all of it.
pub open spec fn shortened(s: Seq<char>, max_chars: nat) -> Seq<char> {
    if s.len() <= max_chars {
        s
    } else {
        s.take(max_chars as int) + "..."@
    }
}

/// `s`, cut to `max_chars` characters and marked with three dots where it is longer.
pub fn truncate_str(s: &str, max_chars: usize) -> (r: String)
    ensures
        r@ == shortened(s@, max_chars as nat),
        s@.len() <= max_chars ==> r@ == s@,
        s@.len() > max_chars ==> r@ == s@.subrange(0, max_chars as int) + seq!['.', '.', '.'],
{
    let chars = chars_of(s);
    if chars.len() <= max_chars {
        return s.to_owned();
    }
    let mut out = string_of(&chars, 0, max_chars);
    assert(out@ =~= s@.take(max_chars as int));
    out.append("...");
    proof {
        reveal_strlit("...");
        assert("..."@ =~= seq!['.', '.', '.']);
        assert(s@.take(max_chars as int) =~= s@.subrange(0, max_chars as int));
    }
    out
}

/// The name of the JSON file called `stem`.
pub open spec fn json_name(stem: Seq<char>) -> Seq<char> {
    stem + ".json"@
}

/// What a JSON file is called, nothing where `name` is not that of a JSON file.
pub open spec fn json_stem_of(name: Seq<char>) -> Option<Seq<char>> {
    if name.len() > 5 && name.skip(name.len() - 5) == ".json"@ {
        Some(name.take(name.len() - 5))
    } else {
        None
    }
}

/// The name of a JSON file leads back to what it is called.
pub proof fn law_json_name_leads_back(stem: Seq<char>)
    requires
        stem.len() > 0,
    ensures
        json_stem_of(json_name(stem)) == Some(stem),
{
    reveal_strlit(".json");
    let name = json_name(stem);
    assert(name.skip(name.len() - 5) =~= ".json"@);
    assert(name.take(name.len() - 5) =~= stem);
}

/// What the JSON file with this name is called.
pub fn json_stem(name: &str) -> (r: Option<String>)
    ensures
        match r {
            Some(stem) => json_stem_of(name@) == Some(stem@),
            None => json_stem_of(name@) is None,
        },
        r matches Some(stem) ==> stem@.len() > 0 && name@ == stem@ + ".json"@,
        forall|stem: Seq<char>| stem.len() > 0 && name@ == #[trigger] (stem + ".json"@) ==> r is Some,
{
    let chars = chars_of(name);
    let n: usize = chars.len();
    proof {
        reveal_strlit(".json");
        assert forall|stem: Seq<char>|
            stem.len() > 0 && name@ == #[trigger] (stem + ".json"@) implies json_stem_of(
            name@,
        ) is Some by {
            assert(name@.skip(name@.len() - 5) =~= ".json"@);
        }
    }
    if n <= 5 {
        return None;
    }
    let tail = string_of(&chars, n - 5, n);
    assert(tail@ =~= name@.skip(n - 5));
    if same_text(tail.as_str(), ".json") {
        let stem = string_of(&chars, 0, n - 5);
        assert(stem@ =~= name@.take(n - 5));
        assert(name@ =~= stem@ + ".json"@);
        Some(stem)
    } else {
        None
    }
}

/// `a` comes before `b` where texts are ordered by their characters.
pub open spec fn precedes(a: Seq<char>, b: Seq<char>) -> bool
    decreases a.len(),
{
    if b.len() == 0 {
        false
    } else if a.len() == 0 {
        true
    } else if a[0] == b[0] {
        precedes(a.skip(1), b.skip(1))
    } else {
        a[0] < b[0]
    }
}

proof fn lemma_precedes_not_itself(a: Seq<char>)
    ensures
        !precedes(a, a),
    decreases a.len(),
{
    if a.len() > 0 {
        lemma_precedes_not_itself(a.skip(1));
    }
}

/// The order of texts is total and transitive, and nothing precedes itself.
pub proof fn law_precedes(a: Seq<char>, b: Seq<char>, c: Seq<char>)
    ensures
        !precedes(a, a),
        a != b ==> precedes(a, b) || precedes(b, a),
        precedes(a, b) && precedes(b, c) ==> precedes(a, c),
    decreases a.len() + b.len() + c.len(),
{
    lemma_precedes_not_itself(a);
    if a.len() > 0 {
        if b.len() > 0 {
            law_precedes(a.skip(1), b.skip(1), if c.len() > 0 { c.skip(1) } else { c });
            if a[0] == b[0] && a.skip(1) == b.skip(1) {
                assert(a =~= seq![a[0]] + a.skip(1));
                assert(b =~= seq![b[0]] + b.skip(1));
            }
        }
    } else if b.len() == 0 {
        assert(a =~= b);
    }
}

/// What comes first is decided at the first place where the texts differ: by the smaller character
/// there, or by ending there.
pub proof fn law_first_difference_decides(a: Seq<char>, b: Seq<char>)
    ensures
        precedes(a, b) <==> exists|k: int|
            {
                &&& 0 <= k <= a.len()
                &&& k < b.len()
                &&& #[trigger] a.subrange(0, k) == b.subrange(0, k)
                &&& k == a.len() || a[k] < b[k]
            },
    decreases a.len(),
{
    let differ = |a: Seq<char>, b: Seq<char>, k: int|
        {
            &&& 0 <= k <= a.len()
            &&& k < b.len()
            &&& a.subrange(0, k) == b.subrange(0, k)
            &&& k == a.len() || a[k] < b[k]
        };
    if a.len() > 0 && b.len() > 0 && a[0] == b[0] {
        let (x, y) = (a.skip(1), b.skip(1));
        law_first_difference_decides(x, y);
        if precedes(a, b) {
            let k = choose|k: int| #[trigger] x.subrange(0, k) == y.subrange(0, k) && differ(x, y, k);
            assert(a.subrange(0, k + 1) =~= seq![a[0]] + x.subrange(0, k));
            assert(b.subrange(0, k + 1) =~= seq![b[0]] + y.subrange(0, k));
        }
        if exists|k: int| #[trigger] a.subrange(0, k) == b.subrange(0, k) && differ(a, b, k) {
            let k = choose|k: int| #[trigger] a.subrange(0, k) == b.subrange(0, k) && differ(a, b, k);
            assert(k > 0);
            assert(x.subrange(0, k - 1) =~= a.subrange(0, k).skip(1));
            assert(y.subrange(0, k - 1) =~= b.subrange(0, k).skip(1));
        }
    } else {
        if precedes(a, b) {
            assert(a.subrange(0, 0) =~= b.subrange(0, 0));
        }
        if exists|k: int| #[trigger] a.subrange(0, k) == b.subrange(0, k) && differ(a, b, k) {
            let k = choose|k: int| #[trigger] a.subrange(0, k) == b.subrange(0, k) && differ(a, b, k);
            if k > 0 {
                assert(a.subrange(0, k)[0] == b.subrange(0, k)[0]);
            }
        }
    }
}

/// Whether `a` comes before `b`.
pub fn comes_before(a: &str, b: &str) -> (r: bool)
    ensures
        r == precedes(a@, b@),
        r <==> exists|k: int|
            {
                &&& 0 <= k <= a@.len()
                &&& k < b@.len()
                &&& #[trigger] a@.subrange(0, k) == b@.subrange(0, k)
                &&& k == a@.len() || a@[k] < b@[k]
            },
{
    let x = chars_of(a);
    let y = chars_of(b);
    let mut i: usize = 0;
    assert(a@.skip(0) =~= a@ && b@.skip(0) =~= b@);
    while i < x.len() && i < y.len()
        invariant
            x@ == a@,
            y@ == b@,
            i <= x@.len(),
            i <= y@.len(),
            precedes(a@, b@) == precedes(a@.skip(i as int), b@.skip(i as int)),
        decreases x@.len() - i,
    {
        proof {
            law_first_difference_decides(a@, b@);
        }
        assert(a@.skip(i as int).skip(1) =~= a@.skip(i + 1));
        assert(b@.skip(i as int).skip(1) =~= b@.skip(i + 1));
        if x[i] != y[i] {
            return x[i] < y[i];
        }
        i += 1;
    }
    proof {
        law_first_difference_decides(a@, b@);
    }
    i < y.len()
}

} // verus!
