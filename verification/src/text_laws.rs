//! What holds of all texts.

use crate::text::{
    all_white, decimal, digits_from, first_index, has_infix, has_prefix, is_digit, is_first,
    is_white, lemma_first_index, lemma_word_len_bound, number, numeral, quoted_list, stands_at,
    text_le, trimmed, trimmed_end, trimmed_start, without_leading, word_len, words, ParseFault,
};
use vstd::prelude::*;

verus! {

/// White space are the tabs, line breaks, spaces and separators among the characters.
pub proof fn law_white_space(c: char)
    ensures
        is_white(c) <==> {
            let n = c as u32;
            ||| 9 <= n <= 13
            ||| n == 0x20
            ||| n == 0x85
            ||| n == 0xa0
            ||| n == 0x1680
            ||| 0x2000 <= n <= 0x200a
            ||| n == 0x2028
            ||| n == 0x2029
            ||| n == 0x202f
            ||| n == 0x205f
            ||| n == 0x3000
        },
{
}

/// A text begins with another if something can be put behind that other to get it,
/// and has another in it if something can be put on both sides.
pub proof fn law_parts_of_texts(s: Seq<char>, part: Seq<char>)
    ensures
        has_prefix(s, part) <==> exists|rest: Seq<char>| s == #[trigger] (part + rest),
        has_infix(s, part) <==> exists|before: Seq<char>, after: Seq<char>|
            s == #[trigger] (before + part + after),
{
    let n = part.len() as int;
    if has_prefix(s, part) {
        assert(s =~= part + s.skip(n));
    }
    if exists|rest: Seq<char>| s == #[trigger] (part + rest) {
        let rest = choose|rest: Seq<char>| s == #[trigger] (part + rest);
        assert(part =~= s.subrange(0, n));
        assert(part.is_prefix_of(s));
    }
    if has_infix(s, part) {
        let at = choose|at: int| stands_at(s, part, at);
        assert(s =~= s.take(at) + part + s.skip(at + n));
    }
    if exists|before: Seq<char>, after: Seq<char>| s == #[trigger] (before + part + after) {
        let (before, after) = choose|before: Seq<char>, after: Seq<char>|
            s == #[trigger] (before + part + after);
        let at = before.len() as int;
        assert(s.subrange(at, at + n) =~= part);
        assert(stands_at(s, part, at));
    }
}

/// Trimming takes white space away from both ends and nothing else: what is left has
/// none at its ends.
pub proof fn law_trimming(s: Seq<char>)
    ensures
        trimmed(s).len() > 0 ==> !is_white(trimmed(s)[0]) && !is_white(trimmed(s).last()),
        exists|before: Seq<char>, after: Seq<char>|
            all_white(before) && all_white(after) && s == #[trigger] (before + trimmed(s) + after),
{
    lemma_trimmed_start(s);
    lemma_trimmed_end(trimmed_start(s));
    let (before, rest) = (
        s.take(s.len() - trimmed_start(s).len()),
        trimmed_start(s),
    );
    let after = rest.skip(trimmed_end(rest).len() as int);
    assert(s =~= before + trimmed(s) + after);
}

proof fn lemma_trimmed_start(s: Seq<char>)
    ensures
        trimmed_start(s).len() <= s.len(),
        s.skip(s.len() - trimmed_start(s).len()) == trimmed_start(s),
        all_white(s.take(s.len() - trimmed_start(s).len())),
        trimmed_start(s).len() > 0 ==> !is_white(trimmed_start(s)[0]),
    decreases s.len(),
{
    if s.len() > 0 && is_white(s[0]) {
        let rest = s.drop_first();
        lemma_trimmed_start(rest);
        let n = s.len() - trimmed_start(s).len();
        assert(s.skip(n) =~= rest.skip(n - 1));
        assert forall|i: int| 0 <= i < n implies is_white(#[trigger] s.take(n)[i]) by {
            if i > 0 {
                assert(rest.take(n - 1)[i - 1] == s.take(n)[i]);
            }
        }
    } else {
        assert(s.skip(0) =~= s);
    }
}

proof fn lemma_trimmed_end(s: Seq<char>)
    ensures
        trimmed_end(s).len() <= s.len(),
        s.take(trimmed_end(s).len() as int) == trimmed_end(s),
        all_white(s.skip(trimmed_end(s).len() as int)),
        trimmed_end(s).len() > 0 ==> !is_white(trimmed_end(s).last()) && trimmed_end(s)[0] == s[0],
    decreases s.len(),
{
    if s.len() > 0 && is_white(s.last()) {
        let rest = s.drop_last();
        lemma_trimmed_end(rest);
        let n = trimmed_end(s).len() as int;
        assert(s.take(n) =~= rest.take(n));
        assert forall|i: int| 0 <= i < s.len() - n implies is_white(#[trigger] s.skip(n)[i]) by {
            if i < rest.len() - n {
                assert(rest.skip(n)[i] == s.skip(n)[i]);
            }
        }
    } else {
        assert(s.take(s.len() as int) =~= s);
    }
}

proof fn lemma_run(run: Seq<char>, rest: Seq<char>)
    requires
        forall|i: int| 0 <= i < run.len() ==> !is_white(#[trigger] run[i]),
        rest.len() > 0 ==> is_white(rest[0]),
    ensures
        word_len(run + rest) == run.len(),
    decreases run.len(),
{
    let all = run + rest;
    if run.len() > 0 {
        let tail = run.drop_first();
        assert forall|i: int| 0 <= i < tail.len() implies !is_white(#[trigger] tail[i]) by {
            assert(tail[i] == run[i + 1]);
        }
        assert(all.drop_first() =~= tail + rest);
        assert(all[0] == run[0]);
        lemma_run(tail, rest);
    } else {
        assert(all =~= rest);
    }
}

proof fn lemma_words_all_white(s: Seq<char>)
    requires
        all_white(s),
    ensures
        words(s) == Seq::<Seq<char>>::empty(),
        trimmed_start(s) == Seq::<char>::empty(),
    decreases s.len(),
{
    if s.len() > 0 {
        assert(is_white(s[0]));
        let rest = s.drop_first();
        assert forall|i: int| 0 <= i < rest.len() implies is_white(#[trigger] rest[i]) by {
            assert(rest[i] == s[i + 1]);
        }
        lemma_words_all_white(rest);
    } else {
        assert(s =~= Seq::<char>::empty());
    }
}

/// The words of a text: a text of nothing but white space has none; one without any
/// is its only word; and where there is white space the words before it come before
/// those behind it.
pub proof fn law_words(a: Seq<char>, space: char, b: Seq<char>)
    requires
        is_white(space),
    ensures
        all_white(a) ==> words(a) == Seq::<Seq<char>>::empty(),
        a.len() > 0 && (forall|i: int| 0 <= i < a.len() ==> !is_white(#[trigger] a[i])) ==> words(a)
            == seq![a],
        words(a.push(space) + b) == words(a) + words(b),
    decreases a.len(),
{
    if all_white(a) {
        lemma_words_all_white(a);
    }
    if a.len() > 0 && (forall|i: int| 0 <= i < a.len() ==> !is_white(#[trigger] a[i])) {
        assert(!is_white(a[0]));
        lemma_run(a, Seq::empty());
        assert(a + Seq::<char>::empty() =~= a);
        assert(a.take(a.len() as int) =~= a);
        assert(a.skip(a.len() as int) =~= Seq::<char>::empty());
        lemma_words_all_white(Seq::empty());
        assert(words(a) =~= seq![a]);
    }
    let all = a.push(space) + b;
    lemma_trimmed_start(a);
    let t = trimmed_start(a);
    let lead = a.len() - t.len();
    lemma_skip_white(a.take(lead), t.push(space) + b);
    assert(all =~= a.take(lead) + (t.push(space) + b));
    if t.len() == 0 {
        // Nothing but white space stands before `b`.
        assert(t.push(space) + b =~= seq![space] + b);
        lemma_skip_white(seq![space], b);
        assert(words(a) =~= Seq::<Seq<char>>::empty());
        lemma_words_of_trimmed(all, b);
        assert(words(a) + words(b) =~= words(b));
    } else {
        let w = word_len(t) as int;
        lemma_word_len_bound(t);
        lemma_word_shape(t);
        let run = t.take(w);
        let more = t.skip(w);
        assert(t.push(space) + b =~= run + (more.push(space) + b));
        lemma_run(run, more.push(space) + b);
        assert(trimmed_start(all) == t.push(space) + b);
        assert((t.push(space) + b).take(w) =~= run);
        assert((t.push(space) + b).skip(w) =~= more.push(space) + b);
        law_words(more, space, b);
        assert(words(all) =~= seq![run] + words(more.push(space) + b));
        assert(words(a) =~= seq![run] + words(more));
        assert(words(all) =~= words(a) + words(b));
    }
}

proof fn lemma_word_shape(t: Seq<char>)
    requires
        t.len() > 0,
        !is_white(t[0]),
    ensures
        0 < word_len(t) <= t.len(),
        forall|i: int| 0 <= i < word_len(t) ==> !is_white(#[trigger] t[i]),
        forall|i: int|
            0 <= i < word_len(t) ==> !is_white(#[trigger] t.take(word_len(t) as int)[i]),
        word_len(t) < t.len() ==> is_white(t[word_len(t) as int]),
    decreases t.len(),
{
    lemma_word_len_bound(t);
    let rest = t.drop_first();
    if rest.len() > 0 && !is_white(rest[0]) {
        lemma_word_shape(rest);
    }
    assert forall|i: int| 0 <= i < word_len(t) implies !is_white(#[trigger] t[i]) by {
        if i > 0 {
            assert(word_len(t) == 1 + word_len(rest));
            assert(!is_white(rest[i - 1]));
            assert(rest[i - 1] == t[i]);
        }
    }
    if word_len(t) < t.len() {
        assert(rest[word_len(t) - 1] == t[word_len(t) as int]);
    }
}

proof fn lemma_skip_white(lead: Seq<char>, rest: Seq<char>)
    requires
        all_white(lead),
    ensures
        trimmed_start(lead + rest) == trimmed_start(rest),
    decreases lead.len(),
{
    if lead.len() > 0 {
        let tail = lead.drop_first();
        assert forall|i: int| 0 <= i < tail.len() implies is_white(#[trigger] tail[i]) by {
            assert(tail[i] == lead[i + 1]);
        }
        assert(is_white(lead[0]));
        lemma_skip_white(tail, rest);
        assert((lead + rest)[0] == lead[0]);
        assert((lead + rest).drop_first() =~= tail + rest);
    } else {
        assert(lead + rest =~= rest);
    }
}

proof fn lemma_words_of_trimmed(a: Seq<char>, b: Seq<char>)
    requires
        trimmed_start(a) == trimmed_start(b),
    ensures
        words(a) == words(b),
{
}

/// The numeral of a number: below the base one digit, and otherwise the numeral of
/// the number without its last digit, and that digit behind it. The digits are those
/// from zero to nine and the first letters.
pub proof fn law_numerals(n: nat, base: nat)
    requires
        2 <= base <= 16,
    ensures
        n < base ==> numeral(n, base) == seq!["0123456789abcdef"@[n as int]],
        n >= base ==> numeral(n, base) == numeral(n / base, base).push(
            "0123456789abcdef"@[(n % base) as int],
        ),
        decimal(n) == numeral(n, 10),
{
    reveal_strlit("0123456789abcdef");
    let digits = "0123456789abcdef"@;
    let d = if n < base {
        n as int
    } else {
        (n % base) as int
    };
    assert(0 <= d < 16);
    assert(crate::text::digit_char(d) == digits[d]);
}

/// Numbers are read digit by digit, with or without a plus sign before them: what is
/// no digit is a fault, and so is a number above the bound, whichever comes first.
/// An empty text and a lone sign are faults too.
pub proof fn law_numbers(s: Seq<char>, c: char, max: nat)
    ensures
        number(Seq::empty(), max) == Err::<nat, ParseFault>(ParseFault::Empty),
        number(seq!['+'], max) == Err::<nat, ParseFault>(ParseFault::InvalidDigit),
        s.len() > 0 && s[0] != '+' ==> number(seq!['+'] + s, max) == number(s, max),
        '0' <= c <= '9' ==> number(seq![c], max) == (if (c as nat - 48) <= max {
            Ok::<nat, ParseFault>((c as nat - 48) as nat)
        } else {
            Err::<nat, ParseFault>(ParseFault::TooLarge)
        }),
        s.len() > 0 && s != seq!['+'] && '0' <= c <= '9' ==> (match number(s, max) {
            Ok(n) => number(s.push(c), max) == (if n * 10 + (c as nat - 48) <= max {
                Ok::<nat, ParseFault>((n * 10 + (c as nat - 48)) as nat)
            } else {
                Err::<nat, ParseFault>(ParseFault::TooLarge)
            }),
            Err(fault) => number(s.push(c), max) == Err::<nat, ParseFault>(fault),
        }),
        s.len() > 0 && s != seq!['+'] && !('0' <= c <= '9') && number(s, max) is Ok ==> number(
            s.push(c),
            max,
        ) == Err::<nat, ParseFault>(ParseFault::InvalidDigit),
        !('0' <= c <= '9') && c != '+' ==> number(seq![c], max) == Err::<nat, ParseFault>(
            ParseFault::InvalidDigit,
        ),
{
    assert(seq!['+'].drop_first() =~= Seq::<char>::empty());
    assert((seq!['+'] + s).drop_first() =~= s);
    assert(seq![c].drop_first() =~= Seq::<char>::empty());
    reveal_with_fuel(digits_from, 2);
    if s.len() > 0 {
        if s[0] == '+' {
            let rest = s.drop_first();
            assert(s =~= seq!['+'] + rest);
            assert(s.push(c).drop_first() =~= rest.push(c));
            if rest.len() == 0 {
                assert(s =~= seq!['+']);
            }
            lemma_digit_behind(rest, c, 0, max);
        } else {
            lemma_digit_behind(s, c, 0, max);
        }
    }
}

proof fn lemma_digit_behind(s: Seq<char>, c: char, acc: nat, max: nat)
    ensures
        match digits_from(s, acc, max) {
            Ok(n) => digits_from(s.push(c), acc, max) == (if !is_digit(c) {
                Err::<nat, ParseFault>(ParseFault::InvalidDigit)
            } else if n * 10 + (c as nat - 48) <= max {
                Ok::<nat, ParseFault>((n * 10 + (c as nat - 48)) as nat)
            } else {
                Err::<nat, ParseFault>(ParseFault::TooLarge)
            }),
            Err(fault) => digits_from(s.push(c), acc, max) == Err::<nat, ParseFault>(fault),
        },
    decreases s.len(),
{
    reveal_with_fuel(digits_from, 2);
    let all = s.push(c);
    if s.len() == 0 {
        assert(all.drop_first() =~= Seq::<char>::empty());
    } else {
        assert(all[0] == s[0]);
        assert(all.drop_first() =~= s.drop_first().push(c));
        if is_digit(s[0]) {
            let next = acc * 10 + (s[0] as nat - 48) as nat;
            if next <= max {
                lemma_digit_behind(s.drop_first(), c, next, max);
            }
        }
    }
}

/// What is left of a text without a run of one character at its front does not begin
/// with it, and nothing else is taken away.
pub proof fn law_leading_run(s: Seq<char>, c: char)
    ensures
        without_leading(s, c).len() <= s.len(),
        s.skip(s.len() - without_leading(s, c).len()) == without_leading(s, c),
        without_leading(s, c).len() > 0 ==> without_leading(s, c)[0] != c,
        forall|i: int| 0 <= i < s.len() - without_leading(s, c).len() ==> #[trigger] s[i] == c,
    decreases s.len(),
{
    if s.len() > 0 && s[0] == c {
        let rest = s.drop_first();
        law_leading_run(rest, c);
        let n = s.len() - without_leading(s, c).len();
        assert(s.skip(n) =~= rest.skip(n - 1));
        assert forall|i: int| 0 <= i < n implies #[trigger] s[i] == c by {
            if i > 0 {
                assert(rest[i - 1] == s[i]);
            }
        }
    } else {
        assert(s.skip(0) =~= s);
    }
}

/// Texts are ordered by their first character that differs; one that another begins
/// with comes before it.
pub proof fn law_order_of_texts(a: Seq<char>, b: Seq<char>, c: char, d: char, x: Seq<char>)
    ensures
        text_le(x, x + a),
        c < d ==> text_le(x + (seq![c] + a), x + (seq![d] + b)) && !text_le(
            x + (seq![d] + b),
            x + (seq![c] + a),
        ),
        a.len() > 0 ==> !text_le(x + a, x),
    decreases x.len(),
{
    let p = x + (seq![c] + a);
    let q = x + (seq![d] + b);
    if x.len() == 0 {
        assert(p[0] == c && q[0] == d);
    } else {
        let y = x.drop_first();
        law_order_of_texts(a, b, c, d, y);
        assert(p.drop_first() =~= y + (seq![c] + a));
        assert(q.drop_first() =~= y + (seq![d] + b));
        assert((x + a).drop_first() =~= y + a);
        assert(p[0] == x[0] && q[0] == x[0] && (x + a)[0] == x[0]);
    }
}

/// A list of texts is written in square brackets, each text in double quotes, with a
/// comma and a space between two.
pub proof fn law_quoted_list(list: Seq<Seq<char>>, x: Seq<char>)
    ensures
        quoted_list(Seq::empty()) == "["@ + "]"@,
        quoted_list(seq![x]) == "["@ + ("\""@ + x + "\""@) + "]"@,
        list.len() > 0 ==> exists|items: Seq<char>|
            quoted_list(list) == #[trigger] ("["@ + items + "]"@) && quoted_list(list.push(x))
                == "["@ + (items + ", "@ + ("\""@ + x + "\""@)) + "]"@,
{
    reveal_with_fuel(crate::text::quoted_items, 2);
    assert("["@ + Seq::<char>::empty() + "]"@ =~= "["@ + "]"@);
    if list.len() > 0 {
        let items = crate::text::quoted_items(list);
        assert(list.push(x).drop_last() =~= list);
        assert(quoted_list(list) == "["@ + items + "]"@);
    }
}

/// The first place of a text in a list is where it stands and does not stand before;
/// there is none exactly if it is not in the list.
pub proof fn law_first_place(list: Seq<Seq<char>>, x: Seq<char>, i: int)
    ensures
        first_index(list, x) == Some(i) <==> 0 <= i < list.len() && list[i] == x && forall|j: int|
            0 <= j < i ==> #[trigger] list[j] != x,
        first_index(list, x) is None <==> !list.contains(x),
{
    if list.contains(x) {
        let k = choose|k: int| 0 <= k < list.len() && list[k] == x;
        lemma_some_place(list, x, k);
        let c = choose|c: int| is_first(list, x, c);
        assert(is_first(list, x, c));
        if is_first(list, x, i) {
            lemma_first_index(list, x, i);
        }
    }
}

proof fn lemma_some_place(list: Seq<Seq<char>>, x: Seq<char>, k: int)
    requires
        0 <= k < list.len(),
        list[k] == x,
    ensures
        exists|c: int| is_first(list, x, c),
    decreases k,
{
    if exists|j: int| 0 <= j < k && #[trigger] list[j] == x {
        let j = choose|j: int| 0 <= j < k && #[trigger] list[j] == x;
        lemma_some_place(list, x, j);
    } else {
        assert(is_first(list, x, k));
    }
}

} // verus!
