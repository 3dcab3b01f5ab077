//! Text handling on character sequences: comparison, search, trimming,
//! numerals and their parsing.

use vstd::prelude::*;

verus! {

/// `String::push` appends the given character to the end of the string.
pub assume_specification[ String::push ](s: &mut String, c: char)
    ensures
        final(s)@ == old(s)@.push(c),
;

/// Whether `s` begins with `prefix`.
pub open spec fn has_prefix(s: Seq<char>, prefix: Seq<char>) -> bool {
    prefix.is_prefix_of(s)
}

/// Whether `needle` stands in `s` at position `at`.
pub open spec fn stands_at(s: Seq<char>, needle: Seq<char>, at: int) -> bool {
    0 <= at && at + needle.len() <= s.len() && s.subrange(at, at + needle.len()) == needle
}

/// Whether `needle` stands anywhere in `s`.
pub open spec fn has_infix(s: Seq<char>, needle: Seq<char>) -> bool {
    exists|at: int| stands_at(s, needle, at)
}

/// The characters with the Unicode property White_Space.
pub open spec fn is_white(c: char) -> bool {
    ||| '\u{9}' <= c <= '\u{d}'
    ||| c == '\u{20}'
    ||| c == '\u{85}'
    ||| c == '\u{a0}'
    ||| c == '\u{1680}'
    ||| '\u{2000}' <= c <= '\u{200a}'
    ||| c == '\u{2028}'
    ||| c == '\u{2029}'
    ||| c == '\u{202f}'
    ||| c == '\u{205f}'
    ||| c == '\u{3000}'
}

/// `s` without its leading white space.
pub open spec fn trimmed_start(s: Seq<char>) -> Seq<char>
    decreases s.len(),
{
    if s.len() > 0 && is_white(s[0]) {
        trimmed_start(s.drop_first())
    } else {
        s
    }
}

/// `s` without its trailing white space.
pub open spec fn trimmed_end(s: Seq<char>) -> Seq<char>
    decreases s.len(),
{
    if s.len() > 0 && is_white(s.last()) {
        trimmed_end(s.drop_last())
    } else {
        s
    }
}

/// `s` without white space at either end.
pub open spec fn trimmed(s: Seq<char>) -> Seq<char> {
    trimmed_end(trimmed_start(s))
}

/// How many characters of `s` come before its first white space.
pub open spec fn word_len(s: Seq<char>) -> nat
    decreases s.len(),
{
    if s.len() == 0 || is_white(s[0]) {
        0
    } else {
        1 + word_len(s.drop_first())
    }
}

pub proof fn lemma_word_len_bound(s: Seq<char>)
    ensures
        word_len(s) <= s.len(),
    decreases s.len(),
{
    if s.len() == 0 || is_white(s[0]) {
    } else {
        lemma_word_len_bound(s.drop_first());
    }
}

pub proof fn lemma_trimmed_start_shape(s: Seq<char>)
    ensures
        trimmed_start(s).len() <= s.len(),
        trimmed_start(s).len() > 0 ==> !is_white(trimmed_start(s)[0]),
    decreases s.len(),
{
    if s.len() > 0 && is_white(s[0]) {
        lemma_trimmed_start_shape(s.drop_first());
    }
}

/// The maximal runs of `s` without white space, in order.
pub open spec fn words(s: Seq<char>) -> Seq<Seq<char>>
    decreases s.len(),
{
    let t = trimmed_start(s);
    if t.len() == 0 {
        Seq::empty()
    } else {
        proof {
            lemma_trimmed_start_shape(s);
            lemma_word_len_bound(t);
        }
        seq![t.take(word_len(t) as int)] + words(t.skip(word_len(t) as int))
    }
}

/// The digit for a value below sixteen, in lower case.
pub open spec fn digit_char(d: int) -> char {
    if d < 10 {
        (48 + d) as char
    } else {
        (87 + d) as char
    }
}

/// The numeral of `n` in `base`, without leading zeros.
pub open spec fn numeral(n: nat, base: nat) -> Seq<char>
    decreases n,
{
    if base < 2 || n < base {
        seq![digit_char(n as int)]
    } else {
        proof {
            assert(n / base < n) by (nonlinear_arith)
                requires
                    n >= base,
                    base >= 2,
            ;
        }
        numeral(n / base, base).push(digit_char((n % base) as int))
    }
}

/// The decimal numeral of `n`.
pub open spec fn decimal(n: nat) -> Seq<char> {
    numeral(n, 10)
}

/// Why a text is no number.
#[derive(Clone, Copy, PartialEq, Eq, Structural, Debug)]
pub enum ParseFault {
    Empty,
    InvalidDigit,
    TooLarge,
}

impl ParseFault {
    /// What is said about the fault.
    pub open spec fn spec_message(self) -> Seq<char> {
        match self {
            ParseFault::Empty => "cannot parse integer from empty string"@,
            ParseFault::InvalidDigit => "invalid digit found in string"@,
            ParseFault::TooLarge => "number too large to fit in target type"@,
        }
    }

    pub fn message(self) -> (r: String)
        ensures
            r@ == self.spec_message(),
    {
        match self {
            ParseFault::Empty => "cannot parse integer from empty string".to_string(),
            ParseFault::InvalidDigit => "invalid digit found in string".to_string(),
            ParseFault::TooLarge => "number too large to fit in target type".to_string(),
        }
    }
}

pub open spec fn is_digit(c: char) -> bool {
    '0' <= c <= '9'
}

/// Reads the digits of `s` behind a number whose value so far is `acc`; the
/// first character that is no digit, or that takes the value above `max`,
/// decides the fault.
pub open spec fn digits_from(s: Seq<char>, acc: nat, max: nat) -> Result<nat, ParseFault>
    decreases s.len(),
{
    if s.len() == 0 {
        Ok(acc)
    } else if !is_digit(s[0]) {
        Err(ParseFault::InvalidDigit)
    } else {
        let next = acc * 10 + (s[0] as nat - 48) as nat;
        if next > max {
            Err(ParseFault::TooLarge)
        } else {
            digits_from(s.drop_first(), next, max)
        }
    }
}

/// The unsigned number up to `max` that `s` writes out: decimal digits, with
/// one plus sign allowed in front.
pub open spec fn number(s: Seq<char>, max: nat) -> Result<nat, ParseFault> {
    if s.len() == 0 {
        Err(ParseFault::Empty)
    } else if s[0] == '+' {
        if s.len() == 1 {
            Err(ParseFault::InvalidDigit)
        } else {
            digits_from(s.drop_first(), 0, max)
        }
    } else {
        digits_from(s, 0, max)
    }
}

/// `s` without the run of `c` at its front.
pub open spec fn without_leading(s: Seq<char>, c: char) -> Seq<char>
    decreases s.len(),
{
    if s.len() > 0 && s[0] == c {
        without_leading(s.drop_first(), c)
    } else {
        s
    }
}

/// Whether the two texts hold the same characters.
pub fn same(a: &str, b: &str) -> (r: bool)
    ensures
        r == (a@ == b@),
{
    a.to_owned() == b.to_owned()
}

/// The characters of a text.
pub fn chars_of(s: &str) -> (r: Vec<char>)
    ensures
        r@ == s@,
{
    let mut out: Vec<char> = Vec::new();
    for c in it: s.chars()
        invariant
            it.seq() == s@,
            out@ == s@.take(it.index()),
    {
        assert(s@.take(it.index() + 1) =~= s@.take(it.index()).push(c));
        out.push(c);
    }
    assert(s@.take(s@.len() as int) =~= s@);
    out
}

/// The text of the characters from `from` up to `to`.
pub fn text_of(chars: &Vec<char>, from: usize, to: usize) -> (r: String)
    requires
        from <= to <= chars@.len(),
    ensures
        r@ == chars@.subrange(from as int, to as int),
{
    let mut out = String::new();
    let mut i: usize = from;
    while i < to
        invariant
            from <= i <= to <= chars@.len(),
            out@ == chars@.subrange(from as int, i as int),
        decreases to - i,
    {
        assert(chars@.subrange(from as int, i + 1) =~= chars@.subrange(from as int, i as int).push(
            chars@[i as int],
        ));
        out.push(chars[i]);
        i = i + 1;
    }
    out
}

/// Whether `needle` stands in `s` at position `at`.
pub fn found_at(s: &Vec<char>, needle: &Vec<char>, at: usize) -> (r: bool)
    requires
        at <= s@.len(),
    ensures
        r == stands_at(s@, needle@, at as int),
{
    if needle.len() > s.len() - at {
        return false;
    }
    let mut i: usize = 0;
    while i < needle.len()
        invariant
            i <= needle@.len(),
            at + needle@.len() <= s.len(),
            forall|j: int| 0 <= j < i ==> s@[at + j] == needle@[j],
        decreases needle@.len() - i,
    {
        if s[at + i] != needle[i] {
            assert(s@.subrange(at as int, at + needle@.len())[i as int] != needle@[i as int]);
            return false;
        }
        i = i + 1;
    }
    assert(s@.subrange(at as int, at + needle@.len()) =~= needle@);
    true
}

/// Whether `s` begins with `prefix`.
pub fn starts_with(s: &str, prefix: &str) -> (r: bool)
    ensures
        r == has_prefix(s@, prefix@),
{
    let chars = chars_of(s);
    let wanted = chars_of(prefix);
    let r = found_at(&chars, &wanted, 0);
    proof {
        if r {
            assert(s@.subrange(0, prefix@.len() as int) == prefix@);
        }
        if has_prefix(s@, prefix@) {
            assert(s@.subrange(0, prefix@.len() as int) =~= prefix@);
        }
    }
    r
}

/// Whether `needle` stands anywhere in `s`.
pub fn contains(s: &str, needle: &str) -> (r: bool)
    ensures
        r == has_infix(s@, needle@),
{
    let chars = chars_of(s);
    let wanted = chars_of(needle);
    let mut at: usize = 0;
    while at < chars.len()
        invariant
            at <= chars@.len(),
            chars@ == s@,
            wanted@ == needle@,
            forall|j: int| 0 <= j < at ==> !stands_at(s@, needle@, j),
        decreases chars@.len() - at,
    {
        if found_at(&chars, &wanted, at) {
            assert(stands_at(s@, needle@, at as int));
            return true;
        }
        at = at + 1;
    }
    let r = found_at(&chars, &wanted, at);
    assert(r ==> stands_at(s@, needle@, at as int));
    r
}

/// Whether `c` is white space.
pub fn white(c: char) -> (r: bool)
    ensures
        r == is_white(c),
{
    ('\u{9}' <= c && c <= '\u{d}') || c == '\u{20}' || c == '\u{85}' || c == '\u{a0}' || c
        == '\u{1680}' || ('\u{2000}' <= c && c <= '\u{200a}') || c == '\u{2028}' || c == '\u{2029}'
        || c == '\u{202f}' || c == '\u{205f}' || c == '\u{3000}'
}

fn skip_white(chars: &Vec<char>, from: usize) -> (r: usize)
    requires
        from <= chars@.len(),
    ensures
        from <= r <= chars@.len(),
        chars@.skip(r as int) == trimmed_start(chars@.skip(from as int)),
{
    let mut i: usize = from;
    while i < chars.len() && white(chars[i])
        invariant
            from <= i <= chars@.len(),
            trimmed_start(chars@.skip(i as int)) == trimmed_start(chars@.skip(from as int)),
        decreases chars@.len() - i,
    {
        assert(chars@.skip(i as int).drop_first() =~= chars@.skip(i + 1));
        assert(chars@.skip(i as int)[0] == chars@[i as int]);
        i = i + 1;
    }
    assert(i < chars@.len() ==> chars@.skip(i as int)[0] == chars@[i as int]);
    i
}

/// The text without white space at either end.
pub fn trim(s: &str) -> (r: String)
    ensures
        r@ == trimmed(s@),
{
    let chars = chars_of(s);
    assert(chars@.skip(0) =~= chars@);
    let from = skip_white(&chars, 0);
    let mut to: usize = chars.len();
    let ghost t = chars@.skip(from as int);
    assert(chars@.subrange(from as int, to as int) =~= t);
    while to > from && white(chars[to - 1])
        invariant
            from <= to <= chars@.len(),
            trimmed_end(chars@.subrange(from as int, to as int)) == trimmed_end(t),
        decreases to - from,
    {
        let ghost cur = chars@.subrange(from as int, to as int);
        assert(cur.last() == chars@[to - 1]);
        assert(cur.drop_last() =~= chars@.subrange(from as int, to - 1));
        to = to - 1;
    }
    assert(to > from ==> chars@.subrange(from as int, to as int).last() == chars@[to - 1]);
    text_of(&chars, from, to)
}

/// The words of a text, cut at white space.
pub fn split_words(s: &str) -> (r: Vec<String>)
    ensures
        r@.len() == words(s@).len(),
        forall|i: int| 0 <= i < r@.len() ==> (#[trigger] r@[i])@ == words(s@)[i],
{
    let chars = chars_of(s);
    let mut out: Vec<String> = Vec::new();
    let mut i: usize = 0;
    assert(chars@.skip(0) =~= s@);
    loop
        invariant
            i <= chars@.len(),
            chars@ == s@,
            words(s@) == views(out@) + words(chars@.skip(i as int)),
        decreases chars@.len() - i,
    {
        let ghost before = i;
        let start = skip_white(&chars, i);
        let ghost t = chars@.skip(start as int);
        if start == chars.len() {
            assert(t.len() == 0);
            assert(words(chars@.skip(before as int)) =~= Seq::<Seq<char>>::empty());
            assert(words(s@) =~= views(out@));
            return out;
        }
        let mut end: usize = start;
        while end < chars.len() && !white(chars[end])
            invariant
                start <= end <= chars@.len(),
                word_len(t) == (end - start) + word_len(chars@.skip(end as int)),
                t == chars@.skip(start as int),
            decreases chars@.len() - end,
        {
            assert(chars@.skip(end as int)[0] == chars@[end as int]);
            assert(chars@.skip(end as int).drop_first() =~= chars@.skip(end + 1));
            end = end + 1;
        }
        proof {
            assert(end < chars@.len() ==> chars@.skip(end as int)[0] == chars@[end as int]);
            assert(word_len(t) == end - start);
            lemma_trimmed_start_shape(chars@.skip(before as int));
            assert(word_len(t) > 0);
            assert(t.take(end - start) =~= chars@.subrange(start as int, end as int));
            assert(t.skip(end - start) =~= chars@.skip(end as int));
        }
        let word = text_of(&chars, start, end);
        let ghost old_out = out@;
        out.push(word);
        proof {
            assert(views(out@) =~= views(old_out).push(word@));
            assert(words(chars@.skip(before as int)) =~= seq![word@] + words(
                chars@.skip(end as int),
            ));
            assert(views(old_out) + (seq![word@] + words(chars@.skip(end as int))) =~= views(out@)
                + words(chars@.skip(end as int)));
        }
        i = end;
    }
}

/// The contents of a list of texts.
pub open spec fn views(list: Seq<String>) -> Seq<Seq<char>> {
    list.map_values(|s: String| s@)
}

fn digit(d: u64) -> (c: char)
    requires
        d < 16,
    ensures
        c == digit_char(d as int),
{
    if d < 10 {
        (48u8 + d as u8) as char
    } else {
        (87u8 + d as u8) as char
    }
}

/// The numeral of `n` in a base up to sixteen.
pub fn numeral_of(n: u64, base: u64) -> (r: String)
    requires
        2 <= base <= 16,
    ensures
        r@ == numeral(n as nat, base as nat),
    decreases n,
{
    if n < base {
        let mut s = String::new();
        s.push(digit(n));
        assert(s@ =~= seq![digit_char(n as int)]);
        s
    } else {
        assert(n / base < n) by (nonlinear_arith)
            requires
                n >= base,
                base >= 2,
        ;
        assert(n % base < base) by (nonlinear_arith)
            requires
                base >= 2,
        ;
        let mut s = numeral_of(n / base, base);
        s.push(digit(n % base));
        s
    }
}

/// The decimal numeral of `n`.
pub fn decimal_of(n: u64) -> (r: String)
    ensures
        r@ == decimal(n as nat),
{
    numeral_of(n, 10)
}

/// Parses an unsigned number up to `max`.
pub fn parse_number(s: &str, max: u64) -> (r: Result<u64, ParseFault>)
    ensures
        match r {
            Ok(v) => number(s@, max as nat) == Ok::<nat, ParseFault>(v as nat) && v <= max,
            Err(e) => number(s@, max as nat) == Err::<nat, ParseFault>(e),
        },
{
    let chars = chars_of(s);
    if chars.len() == 0 {
        return Err(ParseFault::Empty);
    }
    let mut i: usize = 0;
    if chars[0] == '+' {
        if chars.len() == 1 {
            return Err(ParseFault::InvalidDigit);
        }
        i = 1;
        assert(chars@.skip(1) =~= chars@.drop_first());
    } else {
        assert(chars@.skip(0) =~= chars@);
    }
    let mut acc: u64 = 0;
    while i < chars.len()
        invariant
            i <= chars@.len(),
            acc <= max,
            chars@ == s@,
            number(s@, max as nat) == digits_from(chars@.skip(i as int), acc as nat, max as nat),
        decreases chars@.len() - i,
    {
        let c = chars[i];
        assert(chars@.skip(i as int)[0] == c);
        assert(chars@.skip(i as int).drop_first() =~= chars@.skip(i + 1));
        if c < '0' || c > '9' {
            return Err(ParseFault::InvalidDigit);
        }
        let d: u128 = (c as u32 - 48) as u128;
        let next: u128 = acc as u128 * 10 + d;
        if next > max as u128 {
            return Err(ParseFault::TooLarge);
        }
        acc = next as u64;
        i = i + 1;
    }
    Ok(acc)
}

/// The text without the run of `c` at its front.
pub fn trim_leading(s: &str, c: char) -> (r: String)
    ensures
        r@ == without_leading(s@, c),
{
    let chars = chars_of(s);
    let mut i: usize = 0;
    assert(chars@.skip(0) =~= s@);
    while i < chars.len() && chars[i] == c
        invariant
            i <= chars@.len(),
            without_leading(chars@.skip(i as int), c) == without_leading(s@, c),
        decreases chars@.len() - i,
    {
        assert(chars@.skip(i as int)[0] == chars@[i as int]);
        assert(chars@.skip(i as int).drop_first() =~= chars@.skip(i + 1));
        i = i + 1;
    }
    assert(i < chars@.len() ==> chars@.skip(i as int)[0] == chars@[i as int]);
    assert(chars@.subrange(i as int, chars@.len() as int) =~= chars@.skip(i as int));
    text_of(&chars, i, chars.len())
}

/// The two texts one behind the other.
pub fn join(a: &str, b: &str) -> (r: String)
    ensures
        r@ == a@ + b@,
{
    let mut s = a.to_string();
    s.append(b);
    s
}

/// The three texts one behind the other.
pub fn join3(a: &str, b: &str, c: &str) -> (r: String)
    ensures
        r@ == a@ + b@ + c@,
{
    let mut s = a.to_string();
    s.append(b);
    s.append(c);
    s
}

/// Whether `a` comes before `b`, or is the same, in the order of code points.
pub open spec fn text_le(a: Seq<char>, b: Seq<char>) -> bool
    decreases a.len(),
{
    if a.len() == 0 {
        true
    } else if b.len() == 0 {
        false
    } else if a[0] != b[0] {
        a[0] < b[0]
    } else {
        text_le(a.drop_first(), b.drop_first())
    }
}

/// `x` inserted into `list` before the first text that it does not come behind.
pub open spec fn inserted(list: Seq<Seq<char>>, x: Seq<char>) -> Seq<Seq<char>>
    decreases list.len(),
{
    if list.len() == 0 {
        seq![x]
    } else if text_le(x, list[0]) {
        seq![x] + list
    } else {
        seq![list[0]] + inserted(list.drop_first(), x)
    }
}

/// The texts in ascending order.
pub open spec fn sorted_texts(list: Seq<Seq<char>>) -> Seq<Seq<char>>
    decreases list.len(),
{
    if list.len() == 0 {
        Seq::empty()
    } else {
        inserted(sorted_texts(list.drop_last()), list.last())
    }
}

proof fn lemma_text_le_total(a: Seq<char>, b: Seq<char>)
    ensures
        text_le(a, b) || text_le(b, a),
        text_le(a, a),
    decreases a.len(),
{
    if a.len() > 0 {
        lemma_text_le_total(a.drop_first(), a.drop_first());
        if b.len() > 0 && a[0] == b[0] {
            lemma_text_le_total(a.drop_first(), b.drop_first());
        }
    }
}

proof fn lemma_text_le_transitive(a: Seq<char>, b: Seq<char>, c: Seq<char>)
    requires
        text_le(a, b),
        text_le(b, c),
    ensures
        text_le(a, c),
    decreases a.len(),
{
    if a.len() > 0 && a[0] == b[0] && b[0] == c[0] {
        lemma_text_le_transitive(a.drop_first(), b.drop_first(), c.drop_first());
    }
}

/// No text stands behind one that it comes before.
pub open spec fn ascending(list: Seq<Seq<char>>) -> bool {
    forall|i: int, j: int| 0 <= i < j < list.len() ==> text_le(#[trigger] list[i], #[trigger] list[j])
}

proof fn lemma_inserted(list: Seq<Seq<char>>, x: Seq<char>)
    requires
        ascending(list),
    ensures
        ascending(inserted(list, x)),
        inserted(list, x).to_multiset() == list.to_multiset().insert(x),
        inserted(list, x).len() == list.len() + 1,
        forall|i: int|
            0 <= i < inserted(list, x).len() ==> (#[trigger] inserted(list, x)[i] == x
                || list.contains(inserted(list, x)[i])),
    decreases list.len(),
{
    broadcast use vstd::seq_lib::group_to_multiset_ensures;

    if list.len() == 0 {
        assert(seq![x] =~= list.push(x));
        assert(inserted(list, x) =~= list.push(x));
    } else if text_le(x, list[0]) {
        let out = inserted(list, x);
        vstd::seq_lib::lemma_multiset_commutative(seq![x], list);
        assert(seq![x].to_multiset() =~= vstd::multiset::Multiset::empty().insert(x)) by {
            assert(seq![x] =~= Seq::<Seq<char>>::empty().push(x));
        }
        assert(out.to_multiset() =~= list.to_multiset().insert(x));
        assert forall|i: int, j: int| 0 <= i < j < out.len() implies text_le(
            #[trigger] out[i],
            #[trigger] out[j],
        ) by {
            if i == 0 {
                if j > 1 {
                    assert(text_le(list[0], list[j - 1]));
                    lemma_text_le_transitive(x, list[0], list[j - 1]);
                }
            } else {
                assert(out[i] == list[i - 1] && out[j] == list[j - 1]);
            }
        }
        assert forall|i: int| 0 <= i < out.len() implies (#[trigger] out[i] == x || list.contains(
            out[i],
        )) by {
            if i > 0 {
                assert(out[i] == list[i - 1]);
            }
        }
    } else {
        let rest = list.drop_first();
        assert forall|i: int, j: int| 0 <= i < j < rest.len() implies text_le(
            #[trigger] rest[i],
            #[trigger] rest[j],
        ) by {
            assert(rest[i] == list[i + 1] && rest[j] == list[j + 1]);
        }
        lemma_inserted(rest, x);
        let tail = inserted(rest, x);
        let out = inserted(list, x);
        lemma_text_le_total(x, list[0]);
        assert(list =~= seq![list[0]] + rest);
        vstd::seq_lib::lemma_multiset_commutative(seq![list[0]], rest);
        vstd::seq_lib::lemma_multiset_commutative(seq![list[0]], tail);
        assert(out.to_multiset() =~= list.to_multiset().insert(x));
        assert forall|i: int, j: int| 0 <= i < j < out.len() implies text_le(
            #[trigger] out[i],
            #[trigger] out[j],
        ) by {
            if i == 0 {
                assert(out[j] == tail[j - 1]);
                if tail[j - 1] != x {
                    let k = choose|k: int| 0 <= k < rest.len() && rest[k] == tail[j - 1];
                    assert(text_le(list[0], list[k + 1]));
                }
            } else {
                assert(out[i] == tail[i - 1] && out[j] == tail[j - 1]);
            }
        }
        assert forall|i: int| 0 <= i < out.len() implies (#[trigger] out[i] == x || list.contains(
            out[i],
        )) by {
            if i == 0 {
                assert(list[0] == out[0]);
            } else if tail[i - 1] != x {
                let k = choose|k: int| 0 <= k < rest.len() && rest[k] == tail[i - 1];
                assert(list[k + 1] == out[i]);
            }
        }
    }
}

/// Sorting gives the same texts, each as often as before, in ascending order.
pub proof fn law_sorting(list: Seq<Seq<char>>)
    ensures
        ascending(sorted_texts(list)),
        sorted_texts(list).to_multiset() == list.to_multiset(),
        sorted_texts(list).len() == list.len(),
    decreases list.len(),
{
    broadcast use vstd::seq_lib::group_to_multiset_ensures;

    if list.len() > 0 {
        law_sorting(list.drop_last());
        lemma_inserted(sorted_texts(list.drop_last()), list.last());
        assert(list =~= list.drop_last().push(list.last()));
    } else {
        assert(sorted_texts(list) =~= list);
    }
}

/// Whether `a` comes before `b`, or is the same.
pub fn not_behind(a: &str, b: &str) -> (r: bool)
    ensures
        r == text_le(a@, b@),
{
    let left = chars_of(a);
    let right = chars_of(b);
    let mut i: usize = 0;
    assert(left@.skip(0) =~= a@);
    assert(right@.skip(0) =~= b@);
    while i < left.len() && i < right.len()
        invariant
            i <= left@.len(),
            i <= right@.len(),
            text_le(a@, b@) == text_le(left@.skip(i as int), right@.skip(i as int)),
        decreases left@.len() - i,
    {
        assert(left@.skip(i as int)[0] == left@[i as int]);
        assert(right@.skip(i as int)[0] == right@[i as int]);
        assert(left@.skip(i as int).drop_first() =~= left@.skip(i + 1));
        assert(right@.skip(i as int).drop_first() =~= right@.skip(i + 1));
        if left[i] != right[i] {
            return left[i] < right[i];
        }
        i = i + 1;
    }
    i == left.len()
}

/// Sorts texts in ascending order.
pub fn sort_texts(list: Vec<String>) -> (r: Vec<String>)
    ensures
        views(r@) == sorted_texts(views(list@)),
{
    let mut out: Vec<String> = Vec::new();
    let mut i: usize = 0;
    assert(views(out@) =~= sorted_texts(views(list@).take(0)));
    while i < list.len()
        invariant
            i <= list@.len(),
            views(out@) == sorted_texts(views(list@).take(i as int)),
        decreases list@.len() - i,
    {
        let ghost before = views(out@);
        let mut at: usize = 0;
        assert(before.take(0) + inserted(before.skip(0), list@[i as int]@) =~= inserted(
            before,
            list@[i as int]@,
        )) by {
            assert(before.skip(0) =~= before);
        }
        while at < out.len() && !not_behind(list[i].as_str(), out[at].as_str())
            invariant
                i < list@.len(),
                at <= out@.len(),
                before == views(out@),
                inserted(before, list@[i as int]@) == before.take(at as int) + inserted(
                    before.skip(at as int),
                    list@[i as int]@,
                ),
            decreases out@.len() - at,
        {
            let ghost rest = before.skip(at as int);
            assert(rest[0] == out@[at as int]@);
            assert(rest.drop_first() =~= before.skip(at + 1));
            assert(before.take(at as int) + (seq![rest[0]] + inserted(
                rest.drop_first(),
                list@[i as int]@,
            )) =~= before.take(at + 1) + inserted(before.skip(at + 1), list@[i as int]@));
            at = at + 1;
        }
        proof {
            let rest = before.skip(at as int);
            if at < out@.len() {
                assert(rest[0] == out@[at as int]@);
            } else {
                assert(rest =~= Seq::<Seq<char>>::empty());
            }
            assert(inserted(rest, list@[i as int]@) =~= seq![list@[i as int]@] + rest);
            assert(views(list@).take(i + 1).drop_last() =~= views(list@).take(i as int));
            assert(views(list@).take(i + 1).last() == list@[i as int]@);
        }
        out.insert(at, list[i].clone());
        assert(views(out@) =~= before.take(at as int) + (seq![list@[i as int]@] + before.skip(
            at as int,
        )));
        i = i + 1;
    }
    assert(views(list@).take(list@.len() as int) =~= views(list@));
    out
}

/// The text stands at this place of the list and at no place before it.
pub open spec fn is_first(list: Seq<Seq<char>>, x: Seq<char>, i: int) -> bool {
    0 <= i < list.len() && list[i] == x && forall|j: int| 0 <= j < i ==> #[trigger] list[j] != x
}

/// The first place of the text in the list.
pub open spec fn first_index(list: Seq<Seq<char>>, x: Seq<char>) -> Option<int> {
    if list.contains(x) {
        Some(choose|i: int| is_first(list, x, i))
    } else {
        None
    }
}

/// The first place is the one that `is_first` describes.
pub proof fn lemma_first_index(list: Seq<Seq<char>>, x: Seq<char>, i: int)
    requires
        is_first(list, x, i),
    ensures
        first_index(list, x) == Some(i),
{
    let c = choose|k: int| is_first(list, x, k);
    assert(is_first(list, x, c));
    if c < i {
        assert(list[c] != x);
    } else if i < c {
        assert(list[i] != x);
    }
}

/// Finds the first place of a text in a list.
pub fn position(list: &Vec<String>, x: &str) -> (r: Option<usize>)
    ensures
        match r {
            Some(i) => first_index(views(list@), x@) == Some(i as int) && i < list@.len(),
            None => first_index(views(list@), x@) is None,
        },
{
    let mut i: usize = 0;
    while i < list.len()
        invariant
            i <= list@.len(),
            forall|j: int| 0 <= j < i ==> #[trigger] views(list@)[j] != x@,
        decreases list@.len() - i,
    {
        assert(views(list@)[i as int] == list@[i as int]@);
        if same(list[i].as_str(), x) {
            proof {
                lemma_first_index(views(list@), x@, i as int);
            }
            return Some(i);
        }
        i = i + 1;
    }
    None
}

/// Texts in double quotes between square brackets, separated by commas.
pub open spec fn quoted_list(list: Seq<Seq<char>>) -> Seq<char> {
    "["@ + quoted_items(list) + "]"@
}

pub open spec fn quoted_items(list: Seq<Seq<char>>) -> Seq<char>
    decreases list.len(),
{
    if list.len() == 0 {
        Seq::empty()
    } else if list.len() == 1 {
        "\""@ + list[0] + "\""@
    } else {
        quoted_items(list.drop_last()) + ", "@ + ("\""@ + list.last() + "\""@)
    }
}

/// Writes texts in double quotes between square brackets.
pub fn quote_list(list: &Vec<String>) -> (r: String)
    ensures
        r@ == quoted_list(views(list@)),
{
    let mut items = "".to_string();
    let ghost all = views(list@);
    let mut i: usize = 0;
    proof {
        reveal_strlit("");
        assert(items@ =~= quoted_items(all.take(0)));
    }
    while i < list.len()
        invariant
            i <= list@.len(),
            all == views(list@),
            items@ == quoted_items(all.take(i as int)),
        decreases list@.len() - i,
    {
        let ghost now = all.take(i + 1);
        assert(now.drop_last() =~= all.take(i as int));
        assert(now.last() == list@[i as int]@);
        let quoted = join3("\"", list[i].as_str(), "\"");
        if i > 0 {
            items.append(", ");
            items.append(quoted.as_str());
        } else {
            items = quoted;
        }
        assert(items@ =~= quoted_items(now));
        i = i + 1;
    }
    assert(all.take(list@.len() as int) =~= all);
    join3("[", items.as_str(), "]")
}

/// The lowercase equivalent of a text.
pub uninterp spec fn lowercase_of(s: Seq<char>) -> Seq<char>;

/// Calls `str::to_lowercase` of the standard library. The result is named and
/// depends on the text alone; which characters it consists of follows the
/// Unicode tables of the standard library and is not stated here.
#[verifier::external_body]
pub(crate) fn lowercase(s: &str) -> (r: String)
    ensures
        r@ == lowercase_of(s@),
{
    s.to_lowercase()
}

/// The lowercase equivalents of texts.
pub open spec fn lowercase_all(list: Seq<Seq<char>>) -> Seq<Seq<char>> {
    list.map_values(|s: Seq<char>| lowercase_of(s))
}

/// The needle stands in the text at this place of the list and in no text
/// before it.
pub open spec fn is_first_with(list: Seq<Seq<char>>, needle: Seq<char>, i: int) -> bool {
    0 <= i < list.len() && has_infix(list[i], needle) && forall|j: int|
        0 <= j < i ==> !has_infix(#[trigger] list[j], needle)
}

/// The first place of the list whose text contains the needle.
pub open spec fn first_with(list: Seq<Seq<char>>, needle: Seq<char>) -> Option<int> {
    if exists|i: int| is_first_with(list, needle, i) {
        Some(choose|i: int| is_first_with(list, needle, i))
    } else {
        None
    }
}

/// Finds the first text of a list that contains a needle.
pub fn find_with(list: &Vec<String>, needle: &str) -> (r: Option<usize>)
    ensures
        match r {
            Some(i) => first_with(views(list@), needle@) == Some(i as int) && i < list@.len(),
            None => first_with(views(list@), needle@) is None,
        },
        r is None ==> forall|i: int|
            0 <= i < list@.len() ==> !has_infix(#[trigger] views(list@)[i], needle@),
{
    let ghost all = views(list@);
    let mut i: usize = 0;
    while i < list.len()
        invariant
            i <= list@.len(),
            all == views(list@),
            forall|j: int| 0 <= j < i ==> !has_infix(#[trigger] all[j], needle@),
        decreases list@.len() - i,
    {
        assert(all[i as int] == list@[i as int]@);
        if contains(list[i].as_str(), needle) {
            proof {
                assert(is_first_with(all, needle@, i as int));
                let c = choose|k: int| is_first_with(all, needle@, k);
                assert(is_first_with(all, needle@, c));
                if c < i {
                    assert(!has_infix(all[c], needle@));
                } else if i < c {
                    assert(!has_infix(all[i as int], needle@));
                }
            }
            return Some(i);
        }
        i = i + 1;
    }
    None
}

/// Whether two optional texts are the same.
pub fn same_optional(a: &Option<String>, b: &Option<String>) -> (r: bool)
    ensures
        r == (crate::access::opt_text(*a) == crate::access::opt_text(*b)),
{
    match (a, b) {
        (Some(x), Some(y)) => same(x.as_str(), y.as_str()),
        (None, None) => true,
        _ => false,
    }
}

/// Copies an optional text.
pub fn copy_optional(a: &Option<String>) -> (r: Option<String>)
    ensures
        crate::access::opt_text(r) == crate::access::opt_text(*a),
{
    match a {
        Some(x) => Some(x.clone()),
        None => None,
    }
}

proof fn lemma_one_more_digit(s: Seq<char>, c: char, acc: nat, v: nat, max: nat)
    requires
        digits_from(s, acc, max) == Ok::<nat, ParseFault>(v),
        is_digit(c),
        v * 10 + (c as nat - 48) <= max,
    ensures
        digits_from(s.push(c), acc, max) == Ok::<nat, ParseFault>(
            (v * 10 + (c as nat - 48)) as nat,
        ),
    decreases s.len(),
{
    let all = s.push(c);
    if s.len() == 0 {
        let next = (acc * 10 + (c as nat - 48)) as nat;
        assert(all.drop_first() =~= Seq::<char>::empty());
        assert(digits_from(all.drop_first(), next, max) == Ok::<nat, ParseFault>(next));
    } else {
        assert(all[0] == s[0]);
        assert(all.drop_first() =~= s.drop_first().push(c));
        let next = acc * 10 + (s[0] as nat - 48) as nat;
        lemma_one_more_digit(s.drop_first(), c, next, v, max);
    }
}

proof fn lemma_decimal_digits(n: nat, max: nat)
    requires
        n <= max,
    ensures
        decimal(n).len() > 0,
        is_digit(decimal(n)[0]),
        is_digit(decimal(n).last()),
        digits_from(decimal(n), 0, max) == Ok::<nat, ParseFault>(n),
    decreases n,
{
    if n < 10 {
        let s = decimal(n);
        assert(s =~= seq![digit_char(n as int)]);
        assert(s.drop_first() =~= Seq::<char>::empty());
        assert(digits_from(s.drop_first(), n, max) == Ok::<nat, ParseFault>(n));
    } else {
        lemma_decimal_digits(n / 10, max);
        let init = decimal(n / 10);
        let c = digit_char((n % 10) as int);
        assert(decimal(n) == init.push(c));
        lemma_one_more_digit(init, c, 0, n / 10, max);
    }
}

/// A number that is read does not exceed its bound.
pub proof fn lemma_number_bound(s: Seq<char>, max: nat)
    ensures
        number(s, max) matches Ok(n) ==> n <= max,
{
    lemma_digits_bound(s, 0, max);
    if s.len() > 0 {
        lemma_digits_bound(s.drop_first(), 0, max);
    }
}

proof fn lemma_digits_bound(s: Seq<char>, acc: nat, max: nat)
    requires
        acc <= max,
    ensures
        digits_from(s, acc, max) matches Ok(n) ==> n <= max,
    decreases s.len(),
{
    if s.len() > 0 && is_digit(s[0]) {
        let next = acc * 10 + (s[0] as nat - 48) as nat;
        if next <= max {
            lemma_digits_bound(s.drop_first(), next, max);
        }
    }
}

/// A text of nothing but white space.
pub open spec fn all_white(s: Seq<char>) -> bool {
    forall|i: int| 0 <= i < s.len() ==> is_white(#[trigger] s[i])
}

/// White space around a text without any at its own ends is what trimming takes
/// away.
pub proof fn lemma_trimmed_core(before: Seq<char>, core: Seq<char>, after: Seq<char>)
    requires
        all_white(before),
        all_white(after),
        core.len() > 0,
        !is_white(core[0]),
        !is_white(core.last()),
    ensures
        trimmed(before + core + after) == core,
    decreases before.len() + after.len(),
{
    let all = before + core + after;
    if before.len() > 0 {
        let rest = before.drop_first();
        assert forall|i: int| 0 <= i < rest.len() implies is_white(#[trigger] rest[i]) by {
            assert(rest[i] == before[i + 1]);
        }
        assert(all[0] == before[0]);
        assert(all.drop_first() =~= rest + core + after);
        lemma_trimmed_core(rest, core, after);
    } else if after.len() > 0 {
        let rest = after.drop_last();
        assert forall|i: int| 0 <= i < rest.len() implies is_white(#[trigger] rest[i]) by {
            assert(rest[i] == after[i]);
        }
        let less = before + core + rest;
        assert(all[0] == core[0] && less[0] == core[0]);
        assert(all.last() == after.last());
        assert(all.drop_last() =~= less);
        lemma_trimmed_core(before, core, rest);
    } else {
        assert(all =~= core);
    }
}

/// A number that is written out is read back, whatever white space a file has
/// around it.
pub proof fn law_number_is_read_back(n: nat, max: nat, before: Seq<char>, after: Seq<char>)
    requires
        n <= max,
        all_white(before),
        all_white(after),
    ensures
        number(decimal(n), max) == Ok::<nat, ParseFault>(n),
        number(trimmed(before + decimal(n) + after), max) == Ok::<nat, ParseFault>(n),
{
    lemma_decimal_digits(n, max);
    lemma_trimmed_core(before, decimal(n), after);
}

} // verus!
