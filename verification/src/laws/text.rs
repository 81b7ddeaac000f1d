//! Laws of the string helpers.

use vstd::prelude::*;

use crate::text::{
    begins_with, decimal, digits_value, ends_in, found, holds_text, is_white_space,
    lemma_found_from, lemma_found_is, lowered, number_in, number_up_to, occurrences, occurs_at,
    replaced, split_once_at, trimmed, trimmed_end, trimmed_end_of, trimmed_start,
};

verus! {

/// Every character of a text is white space.
pub open spec fn is_blank(s: Seq<char>) -> bool {
    forall|i: int| 0 <= i < s.len() ==> is_white_space(#[trigger] s[i])
}

/// A text has no white space at either end.
pub open spec fn is_tight(s: Seq<char>) -> bool {
    s.len() > 0 ==> !is_white_space(s[0]) && !is_white_space(s.last())
}

/// White space is the ASCII blanks and the blanks that Unicode adds, and nothing else.
pub proof fn law_white_space(c: char)
    ensures
        c == ' ' || c == '\t' || c == '\n' || c == '\r' ==> is_white_space(c),
        (c as u32) < 128 ==> (is_white_space(c) <==> c as u32 == 32 || 9 <= c as u32 <= 13),
        (c as u32) >= 128 ==> (is_white_space(c) <==> c == '\u{85}' || c == '\u{a0}' || c
            == '\u{1680}' || ('\u{2000}' <= c && c <= '\u{200a}') || c == '\u{2028}' || c
            == '\u{2029}' || c == '\u{202f}' || c == '\u{205f}' || c == '\u{3000}'),
{
}

/// Trimming takes the white space off both ends of a text, all of it and nothing else.
pub proof fn law_trimmed_takes_off_blanks(before: Seq<char>, core: Seq<char>, after: Seq<char>)
    requires
        is_blank(before),
        is_blank(after),
        is_tight(core),
    ensures
        trimmed(before + core + after) == core,
{
    lemma_trimmed_start(before, core + after);
    assert(before + core + after =~= before + (core + after));
    if core.len() > 0 {
        lemma_trimmed_end(core, after);
        assert((core + after)[0] == core[0]);
    } else {
        assert(core + after =~= after);
        lemma_trimmed_start(after, Seq::empty());
        assert(after + Seq::<char>::empty() =~= after);
        assert(core =~= Seq::empty());
    }
}

/// What trimming leaves is a stretch of the text: blank before it, blank after it, and tight.
pub proof fn law_trimmed_is_a_stretch(s: Seq<char>)
    ensures
        exists|a: int, b: int|
            0 <= a <= b <= s.len() && #[trigger] s.subrange(a, b) == trimmed(s) && is_blank(
                s.take(a),
            ) && is_blank(s.skip(b)) && is_tight(s.subrange(a, b)),
{
    let a = blanks_before(s);
    lemma_blanks_before(s);
    let rest = s.skip(a);
    let n = blanks_after(rest);
    lemma_blanks_after(rest);
    let b = s.len() - n;
    let core = s.subrange(a, b);
    assert(rest.take(rest.len() - n) =~= core);
    assert(s.skip(b) =~= rest.skip(rest.len() - n));
    assert(is_tight(core)) by {
        if core.len() > 0 {
            assert(core[0] == rest[0]);
            assert(core.last() == rest.take(rest.len() - n).last());
        }
    }
    law_trimmed_takes_off_blanks(s.take(a), core, s.skip(b));
    assert(s.take(a) + core + s.skip(b) =~= s);
    assert(s.subrange(a, b) == trimmed(s));
}

/// White space around a text does not change what trimming leaves.
pub proof fn law_blanks_around_do_not_matter(before: Seq<char>, s: Seq<char>, after: Seq<char>)
    requires
        is_blank(before),
        is_blank(after),
    ensures
        trimmed(before + s + after) == trimmed(s),
{
    law_trimmed_is_a_stretch(s);
    let (a, b) = choose|a: int, b: int|
        0 <= a <= b <= s.len() && #[trigger] s.subrange(a, b) == trimmed(s) && is_blank(s.take(a))
            && is_blank(s.skip(b)) && is_tight(s.subrange(a, b));
    let head = before + s.take(a);
    let tail = s.skip(b) + after;
    assert forall|i: int| 0 <= i < head.len() implies is_white_space(#[trigger] head[i]) by {
        if i >= before.len() {
            assert(head[i] == s.take(a)[i - before.len()]);
        }
    }
    assert forall|i: int| 0 <= i < tail.len() implies is_white_space(#[trigger] tail[i]) by {
        if i < s.skip(b).len() {
            assert(tail[i] == s.skip(b)[i]);
        } else {
            assert(tail[i] == after[i - s.skip(b).len()]);
        }
    }
    law_trimmed_takes_off_blanks(head, s.subrange(a, b), tail);
    assert(head + s.subrange(a, b) + tail =~= before + s + after);
}

spec fn blanks_before(s: Seq<char>) -> int
    decreases s.len(),
{
    if s.len() > 0 && is_white_space(s[0]) {
        1 + blanks_before(s.skip(1))
    } else {
        0
    }
}

spec fn blanks_after(s: Seq<char>) -> int
    decreases s.len(),
{
    if s.len() > 0 && is_white_space(s.last()) {
        1 + blanks_after(s.drop_last())
    } else {
        0
    }
}

proof fn lemma_blanks_before(s: Seq<char>)
    ensures
        0 <= blanks_before(s) <= s.len(),
        is_blank(s.take(blanks_before(s))),
        blanks_before(s) < s.len() ==> !is_white_space(s.skip(blanks_before(s))[0]),
    decreases s.len(),
{
    if s.len() > 0 && is_white_space(s[0]) {
        let n = blanks_before(s.skip(1));
        lemma_blanks_before(s.skip(1));
        assert forall|i: int| 0 <= i < n + 1 implies is_white_space(
            #[trigger] s.take(n + 1)[i],
        ) by {
            if i > 0 {
                assert(s.skip(1).take(n)[i - 1] == s[i]);
            }
        }
        assert(s.skip(n + 1) =~= s.skip(1).skip(n));
    }
}

proof fn lemma_blanks_after(s: Seq<char>)
    ensures
        0 <= blanks_after(s) <= s.len(),
        is_blank(s.skip(s.len() - blanks_after(s))),
        blanks_after(s) < s.len() ==> !is_white_space(s.take(s.len() - blanks_after(s)).last()),
    decreases s.len(),
{
    if s.len() > 0 && is_white_space(s.last()) {
        let before = s.drop_last();
        let n = blanks_after(before);
        lemma_blanks_after(before);
        let at = s.len() - n - 1;
        assert forall|i: int| 0 <= i < n + 1 implies is_white_space(#[trigger] s.skip(at)[i]) by {
            if i < n {
                assert(before.skip(before.len() - n)[i] == s[at + i]);
            }
        }
        assert(s.take(at) =~= before.take(before.len() - n));
    }
}

proof fn lemma_trimmed_start(before: Seq<char>, rest: Seq<char>)
    requires
        is_blank(before),
    ensures
        trimmed_start(before + rest) == trimmed_start(rest),
    decreases before.len(),
{
    if before.len() == 0 {
        assert(before + rest =~= rest);
    } else {
        assert((before + rest).skip(1) =~= before.skip(1) + rest);
        assert((before + rest)[0] == before[0]);
        assert forall|i: int| 0 <= i < before.skip(1).len() implies is_white_space(
            #[trigger] before.skip(1)[i],
        ) by {
            assert(before.skip(1)[i] == before[i + 1]);
        }
        lemma_trimmed_start(before.skip(1), rest);
    }
}

proof fn lemma_trimmed_end(core: Seq<char>, after: Seq<char>)
    requires
        is_blank(after),
        core.len() > 0,
        !is_white_space(core.last()),
    ensures
        trimmed_end(core + after) == core,
    decreases after.len(),
{
    if after.len() == 0 {
        assert(core + after =~= core);
    } else {
        assert((core + after).drop_last() =~= core + after.drop_last());
        assert((core + after).last() == after[after.len() - 1]);
        assert forall|i: int| 0 <= i < after.drop_last().len() implies is_white_space(
            #[trigger] after.drop_last()[i],
        ) by {
            assert(after.drop_last()[i] == after[i]);
        }
        lemma_trimmed_end(core, after.drop_last());
    }
}

/// Taking a character off the end takes off every one that the text ends in, and nothing else.
pub proof fn law_trimmed_end_of_takes_off_the_run(core: Seq<char>, c: char, n: nat)
    requires
        core.len() > 0 ==> core.last() != c,
    ensures
        trimmed_end_of(core + Seq::new(n, |i: int| c), c) == core,
    decreases n,
{
    let run = Seq::new(n, |i: int| c);
    if n == 0 {
        assert(core + run =~= core);
    } else {
        let less = Seq::new((n - 1) as nat, |i: int| c);
        law_trimmed_end_of_takes_off_the_run(core, c, (n - 1) as nat);
        assert((core + run).drop_last() =~= core + less);
        assert((core + run).last() == c);
    }
}

/// Lower case changes `A` to `Z` into `a` to `z`, one by one, and leaves every other character.
pub proof fn law_lowered(s: Seq<char>, i: int)
    requires
        0 <= i < s.len(),
    ensures
        lowered(s).len() == s.len(),
        'A' <= s[i] && s[i] <= 'Z' ==> lowered(s)[i] as u32 == s[i] as u32 + 32,
        !('A' <= s[i] && s[i] <= 'Z') ==> lowered(s)[i] == s[i],
{
}

/// A text holds a pattern exactly where it is made of something, the pattern, and something.
pub proof fn law_holds_text(before: Seq<char>, pattern: Seq<char>, after: Seq<char>, s: Seq<char>)
    ensures
        occurs_at(before + pattern + after, pattern, before.len() as int),
        holds_text(before + pattern + after, pattern),
        holds_text(s, pattern) ==> exists|i: int|
            0 <= i <= s.len() - pattern.len() && s == s.take(i) + pattern + #[trigger] s.skip(
                i + pattern.len(),
            ),
{
    let whole = before + pattern + after;
    let at = before.len() as int;
    assert(whole.subrange(at, at + pattern.len()) =~= pattern);
    assert(occurs_at(whole, pattern, at));
    if holds_text(s, pattern) {
        let i = choose|i: int| occurs_at(s, pattern, i);
        assert(s =~= s.take(i) + s.subrange(i, i + pattern.len()) + s.skip(i + pattern.len()));
    }
}

/// A text begins with its first part and ends in its last; what it begins with is its first part,
/// and what it ends in its last.
pub proof fn law_beginnings_and_ends(start: Seq<char>, rest: Seq<char>, s: Seq<char>)
    ensures
        begins_with(start + rest, start),
        ends_in(start + rest, rest),
        begins_with(s, start) ==> s == start + s.skip(start.len() as int),
        ends_in(s, rest) ==> s == s.take(s.len() - rest.len()) + rest,
{
    let text = start + rest;
    assert(text.subrange(0, start.len() as int) =~= start);
    assert(text.subrange(text.len() - rest.len(), text.len() as int) =~= rest);
    if begins_with(s, start) {
        assert(s =~= s.subrange(0, start.len() as int) + s.skip(start.len() as int));
    }
    if ends_in(s, rest) {
        let at = s.len() - rest.len();
        assert(s =~= s.take(at) + s.subrange(at, s.len() as int));
    }
}

/// Splitting a text gives what stands before and after a pattern, which has not come before; a text
/// without the pattern is not split.
pub proof fn law_split_once(s: Seq<char>, pattern: Seq<char>)
    ensures
        match split_once_at(s, pattern) {
            Some((head, tail)) => s == head + pattern + tail && forall|i: int|
                0 <= i < head.len() ==> !occurs_at(s, pattern, i),
            None => !holds_text(s, pattern),
        },
{
    lemma_found_from(s, pattern, 0);
    match found(s, pattern) {
        Some(i) => {
            assert(s =~= s.take(i) + s.subrange(i, i + pattern.len()) + s.skip(i + pattern.len()));
        },
        None => {},
    }
}

/// A text is split at a pattern that has not come before.
pub proof fn law_split_at_the_first(head: Seq<char>, pattern: Seq<char>, tail: Seq<char>)
    requires
        forall|i: int| 0 <= i < head.len() ==> !occurs_at(head + pattern + tail, pattern, i),
    ensures
        split_once_at(head + pattern + tail, pattern) == Some((head, tail)),
{
    let s = head + pattern + tail;
    let at = head.len() as int;
    assert(s.subrange(at, at + pattern.len()) =~= pattern);
    lemma_found_is(s, pattern, at);
    assert(s.take(at) =~= head);
    assert(s.skip(at + pattern.len()) =~= tail);
}

/// Replacing changes nothing where the pattern does not stand, and puts the new text in place of
/// the first pattern and of those in what follows it.
pub proof fn law_replaced(head: Seq<char>, from: Seq<char>, tail: Seq<char>, to: Seq<char>)
    requires
        from.len() > 0,
    ensures
        !holds_text(head, from) ==> replaced(head, from, to) == head,
        (forall|i: int| 0 <= i < head.len() ==> !occurs_at(head + from + tail, from, i))
            ==> replaced(head + from + tail, from, to) == head + to + replaced(tail, from, to),
{
    lemma_found_from(head, from, 0);
    if forall|i: int| 0 <= i < head.len() ==> !occurs_at(head + from + tail, from, i) {
        law_split_at_the_first(head, from, tail);
        lemma_found_from(head + from + tail, from, 0);
        let s = head + from + tail;
        let i = found(s, from)->Some_0;
        assert(s.take(i).len() == head.len());
    }
}

/// Counting a character adds up over the parts of a text, and counts that character alone.
pub proof fn law_occurrences(a: Seq<char>, b: Seq<char>, c: char, d: char)
    ensures
        occurrences(a + b, c) == occurrences(a, c) + occurrences(b, c),
        occurrences(Seq::empty(), c) == 0,
        occurrences(seq![d], c) == if d == c {
            1nat
        } else {
            0nat
        },
    decreases b.len(),
{
    if b.len() == 0 {
        assert(a + b =~= a);
    } else {
        law_occurrences(a, b.drop_last(), c, d);
        assert((a + b).drop_last() =~= a + b.drop_last());
    }
    assert(seq![d].drop_last() =~= Seq::<char>::empty());
    reveal_with_fuel(occurrences, 2);
}

/// A character that does not stand in a text is not counted.
pub proof fn law_no_occurrences(s: Seq<char>, c: char)
    requires
        forall|i: int| 0 <= i < s.len() ==> s[i] != c,
    ensures
        occurrences(s, c) == 0,
    decreases s.len(),
{
    if s.len() > 0 {
        law_no_occurrences(s.drop_last(), c);
    }
}

/// A number in decimal is a row of digits, without a zero before them, that has the number as its
/// value; it is read back as that number, also with a `+` before it.
pub proof fn law_decimal_is_read_back(n: nat)
    ensures
        decimal(n).len() > 0,
        forall|i: int| 0 <= i < decimal(n).len() ==> '0' <= #[trigger] decimal(n)[i] && decimal(
            n,
        )[i] <= '9',
        n > 0 ==> decimal(n)[0] != '0',
        n == 0 ==> decimal(n) == seq!['0'],
        digits_value(decimal(n)) == n,
        number_in(decimal(n)) == Some(n),
        number_in(seq!['+'] + decimal(n)) == Some(n),
{
    lemma_decimal(n);
    assert((seq!['+'] + decimal(n)).skip(1) =~= decimal(n));
}

proof fn lemma_decimal(n: nat)
    ensures
        decimal(n).len() > 0,
        forall|i: int| 0 <= i < decimal(n).len() ==> '0' <= #[trigger] decimal(n)[i] && decimal(
            n,
        )[i] <= '9',
        n > 0 ==> decimal(n)[0] != '0',
        digits_value(decimal(n)) == n,
    decreases n,
{
    if n < 10 {
        assert(decimal(n).drop_last() =~= Seq::<char>::empty());
        reveal_with_fuel(digits_value, 2);
    } else {
        lemma_decimal(n / 10);
        assert(decimal(n).drop_last() =~= decimal(n / 10));
        assert(decimal(n)[0] == decimal(n / 10)[0]);
    }
}

/// A row of digits writes the number that is its value, also with a `+` before it.
pub proof fn law_digits_write_their_value(digits: Seq<char>)
    requires
        digits.len() > 0,
        forall|i: int| 0 <= i < digits.len() ==> '0' <= #[trigger] digits[i] && digits[i] <= '9',
    ensures
        number_in(digits) == Some(digits_value(digits)),
        number_in(seq!['+'] + digits) == Some(digits_value(digits)),
{
    assert('0' <= digits[0] && digits[0] <= '9');
    assert((seq!['+'] + digits).skip(1) =~= digits);
}

/// The value of a row of digits grows by ten with each digit that follows.
pub proof fn law_digits_value(s: Seq<char>, digit: char)
    requires
        '0' <= digit && digit <= '9',
    ensures
        digits_value(Seq::empty()) == 0,
        digits_value(s.push(digit)) == digits_value(s) * 10 + (digit as u32 - '0' as u32),
{
    assert(s.push(digit).drop_last() =~= s);
}

/// A text that is empty, or has something but digits after its first character, or something but a
/// digit or `+` as its first, writes no number; a number over the limit counts as none.
pub proof fn law_numbers(s: Seq<char>, max: nat)
    ensures
        s.len() == 0 ==> number_in(s) is None,
        s == seq!['+'] ==> number_in(s) is None,
        (exists|i: int|
            0 <= i < s.len() && !('0' <= #[trigger] s[i] && s[i] <= '9') && !(i == 0 && s[i]
                == '+')) ==> number_in(s) is None,
        number_in(s) is Some <==> exists|digits: Seq<char>|
            digits.len() > 0 && (s == digits || s == #[trigger] (seq!['+'] + digits)) && forall|
                i: int,
            |
                0 <= i < digits.len() ==> '0' <= #[trigger] digits[i] && digits[i] <= '9',
        number_up_to(s, max) == match number_in(s) {
            Some(n) => if n <= max {
                Some(n)
            } else {
                None
            },
            None => None,
        },
{
    if exists|i: int|
        0 <= i < s.len() && !('0' <= #[trigger] s[i] && s[i] <= '9') && !(i == 0 && s[i] == '+') {
        let i = choose|i: int|
            0 <= i < s.len() && !('0' <= #[trigger] s[i] && s[i] <= '9') && !(i == 0 && s[i]
                == '+');
        if s[0] == '+' {
            assert(s.skip(1)[i - 1] == s[i]);
        }
    }
    if number_in(s) is Some {
        if s[0] == '+' {
            let digits = s.skip(1);
            assert(s =~= seq!['+'] + digits);
        } else {
            assert(s == s);
            let with_sign = seq!['+'] + s;
        }
    }
    if exists|digits: Seq<char>|
        digits.len() > 0 && (s == digits || s == #[trigger] (seq!['+'] + digits)) && forall|i: int|
            0 <= i < digits.len() ==> '0' <= #[trigger] digits[i] && digits[i] <= '9' {
        let digits = choose|digits: Seq<char>|
            digits.len() > 0 && (s == digits || s == #[trigger] (seq!['+'] + digits)) && forall|
                i: int,
            |
                0 <= i < digits.len() ==> '0' <= #[trigger] digits[i] && digits[i] <= '9';
        if s != digits {
            assert(s.skip(1) =~= digits);
        } else {
            assert('0' <= digits[0] && digits[0] <= '9');
        }
    }
}

} // verus!
