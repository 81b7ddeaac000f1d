//! Text helpers: what the terminal needs of strings, stated over their characters.

use vstd::prelude::*;
use vstd::string::*;

verus! {

/// The characters with the Unicode property `White_Space`.
pub open spec fn is_white_space(c: char) -> bool {
    let u = c as u32;
    ||| 0x9 <= u <= 0xd
    ||| u == 0x20
    ||| u == 0x85
    ||| u == 0xa0
    ||| u == 0x1680
    ||| 0x2000 <= u <= 0x200a
    ||| u == 0x2028
    ||| u == 0x2029
    ||| u == 0x202f
    ||| u == 0x205f
    ||| u == 0x3000
}

/// `s` without its leading white space.
pub open spec fn trimmed_start(s: Seq<char>) -> Seq<char>
    decreases s.len(),
{
    if s.len() > 0 && is_white_space(s[0]) {
        trimmed_start(s.skip(1))
    } else {
        s
    }
}

/// `s` without its trailing white space.
pub open spec fn trimmed_end(s: Seq<char>) -> Seq<char>
    decreases s.len(),
{
    if s.len() > 0 && is_white_space(s.last()) {
        trimmed_end(s.drop_last())
    } else {
        s
    }
}

/// `s` without white space at either end.
pub open spec fn trimmed(s: Seq<char>) -> Seq<char> {
    trimmed_end(trimmed_start(s))
}

/// `s` without the run of `c` that it ends in.
pub open spec fn trimmed_end_of(s: Seq<char>, c: char) -> Seq<char>
    decreases s.len(),
{
    if s.len() > 0 && s.last() == c {
        trimmed_end_of(s.drop_last(), c)
    } else {
        s
    }
}

/// `A` to `Z` become `a` to `z`; every other character stays.
pub open spec fn ascii_lower(c: char) -> char {
    if 'A' <= c && c <= 'Z' {
        ((c as u32) + 32) as char
    } else {
        c
    }
}

/// `s` with `ascii_lower` applied to each character.
pub open spec fn lowered(s: Seq<char>) -> Seq<char> {
    Seq::new(s.len(), |i: int| ascii_lower(s[i]))
}

/// `pattern` stands in `s` at index `i`.
pub open spec fn occurs_at(s: Seq<char>, pattern: Seq<char>, i: int) -> bool {
    0 <= i && i + pattern.len() <= s.len() && s.subrange(i, i + pattern.len()) == pattern
}

/// `pattern` stands somewhere in `s`.
pub open spec fn holds_text(s: Seq<char>, pattern: Seq<char>) -> bool {
    exists|i: int| occurs_at(s, pattern, i)
}

/// `s` begins with `start`.
pub open spec fn begins_with(s: Seq<char>, start: Seq<char>) -> bool {
    occurs_at(s, start, 0)
}

/// `s` ends in `end`.
pub open spec fn ends_in(s: Seq<char>, end: Seq<char>) -> bool {
    occurs_at(s, end, s.len() - end.len())
}

/// The first index, from `from` on, at which `pattern` stands in `s`.
pub open spec fn found_from(s: Seq<char>, pattern: Seq<char>, from: int) -> Option<int>
    decreases s.len() - from + 1,
{
    if from + pattern.len() > s.len() {
        None
    } else if occurs_at(s, pattern, from) {
        Some(from)
    } else {
        found_from(s, pattern, from + 1)
    }
}

/// The first index at which `pattern` stands in `s`.
pub open spec fn found(s: Seq<char>, pattern: Seq<char>) -> Option<int> {
    found_from(s, pattern, 0)
}

/// What stands before and after the first `pattern` in `s`.
pub open spec fn split_once_at(s: Seq<char>, pattern: Seq<char>) -> Option<(Seq<char>, Seq<char>)> {
    match found(s, pattern) {
        Some(i) => Some((s.take(i), s.skip(i + pattern.len()))),
        None => None,
    }
}

/// `s` with each `from`, found from left to right, replaced by `to`.
pub open spec fn replaced(s: Seq<char>, from: Seq<char>, to: Seq<char>) -> Seq<char>
    decreases s.len(),
    when from.len() > 0
{
    match found(s, from) {
        Some(i) => if 0 <= i && i + from.len() <= s.len() {
            s.take(i) + to + replaced(s.skip(i + from.len()), from, to)
        } else {
            s
        },
        None => s,
    }
}

/// How often `c` stands in `s`.
pub open spec fn occurrences(s: Seq<char>, c: char) -> nat
    decreases s.len(),
{
    if s.len() == 0 {
        0
    } else {
        occurrences(s.drop_last(), c) + if s.last() == c {
            1nat
        } else {
            0nat
        }
    }
}

pub open spec fn is_digit(c: char) -> bool {
    '0' <= c && c <= '9'
}

pub open spec fn all_digits(s: Seq<char>) -> bool {
    forall|i: int| 0 <= i < s.len() ==> is_digit(#[trigger] s[i])
}

/// The number that a row of decimal digits writes.
pub open spec fn digits_value(s: Seq<char>) -> nat
    decreases s.len(),
{
    if s.len() == 0 {
        0
    } else {
        digits_value(s.drop_last()) * 10 + ((s.last() as u32) - ('0' as u32)) as nat
    }
}

/// The number that `s` writes in decimal: digits, with at most one `+` before them.
pub open spec fn number_in(s: Seq<char>) -> Option<nat> {
    let digits = if s.len() > 0 && s[0] == '+' {
        s.skip(1)
    } else {
        s
    };
    if digits.len() > 0 && all_digits(digits) {
        Some(digits_value(digits))
    } else {
        None
    }
}

/// The number that `s` writes in decimal, where it is at most `max`.
pub open spec fn number_up_to(s: Seq<char>, max: nat) -> Option<nat> {
    match number_in(s) {
        Some(n) => if n <= max {
            Some(n)
        } else {
            None
        },
        None => None,
    }
}

pub open spec fn digit_char(d: nat) -> char {
    (('0' as u32) + d) as char
}

/// `n` in decimal digits.
pub open spec fn decimal(n: nat) -> Seq<char>
    decreases n,
{
    if n < 10 {
        seq![digit_char(n)]
    } else {
        decimal(n / 10).push(digit_char(n % 10))
    }
}

/// The characters of a string that may be missing.
pub open spec fn optional_chars(s: Option<String>) -> Option<Seq<char>> {
    match s {
        Some(t) => Some(t@),
        None => None,
    }
}

/// The characters of a string slice that may be missing.
pub open spec fn optional_str(s: Option<&str>) -> Option<Seq<char>> {
    match s {
        Some(t) => Some(t@),
        None => None,
    }
}

/// `String::push` appends the character at the end of the string.
pub assume_specification[ String::push ](s: &mut String, c: char)
    ensures
        final(s)@ == old(s)@.push(c),
;

/// The characters of `s`, in order.
pub fn chars_of(s: &str) -> (chars: Vec<char>)
    ensures
        chars@ == s@,
{
    let mut chars: Vec<char> = Vec::new();
    for c in it: s.chars()
        invariant
            it.seq() == s@,
            chars@ == s@.take(it.index()),
    {
        chars.push(c);
    }
    chars
}

/// Whether two strings hold the same characters.
pub fn same_text(a: &str, b: &str) -> (same: bool)
    ensures
        same == (a@ == b@),
{
    let left = chars_of(a);
    let right = chars_of(b);
    if left.len() != right.len() {
        return false;
    }
    for i in 0..left.len()
        invariant
            left@ == a@,
            right@ == b@,
            left.len() == right.len(),
            forall|j: int| 0 <= j < i ==> left@[j] == right@[j],
    {
        if left[i] != right[i] {
            return false;
        }
    }
    assert(left@ =~= right@);
    true
}

fn white_space(c: char) -> (yes: bool)
    ensures
        yes == is_white_space(c),
{
    let u = c as u32;
    (0x9 <= u && u <= 0xd) || u == 0x20 || u == 0x85 || u == 0xa0 || u == 0x1680 || (0x2000 <= u
        && u <= 0x200a) || u == 0x2028 || u == 0x2029 || u == 0x202f || u == 0x205f || u == 0x3000
}

/// The text without white space at either end.
pub fn trim<'a>(s: &'a str) -> (inner: &'a str)
    ensures
        inner@ == trimmed(s@),
{
    let chars = chars_of(s);
    let mut start: usize = 0;
    assert(s@.skip(0) =~= s@);
    while start < chars.len() && white_space(chars[start])
        invariant
            chars@ == s@,
            start <= chars.len(),
            trimmed_start(s@) == trimmed_start(s@.skip(start as int)),
        decreases chars.len() - start,
    {
        assert(s@.skip(start as int).skip(1) =~= s@.skip(start + 1));
        start = start + 1;
    }
    let mut end: usize = chars.len();
    assert(s@.subrange(start as int, end as int) =~= s@.skip(start as int));
    while end > start && white_space(chars[end - 1])
        invariant
            chars@ == s@,
            start <= end <= chars.len(),
            trimmed(s@) == trimmed_end(s@.subrange(start as int, end as int)),
        decreases end,
    {
        assert(s@.subrange(start as int, end as int).drop_last() =~= s@.subrange(
            start as int,
            end - 1,
        ));
        end = end - 1;
    }
    s.substring_char(start, end)
}

/// The text without the run of `c` that it ends in.
pub fn trim_end_of<'a>(s: &'a str, c: char) -> (inner: &'a str)
    ensures
        inner@ == trimmed_end_of(s@, c),
{
    let chars = chars_of(s);
    let mut end: usize = chars.len();
    assert(s@.take(end as int) =~= s@);
    while end > 0 && chars[end - 1] == c
        invariant
            chars@ == s@,
            end <= chars.len(),
            trimmed_end_of(s@, c) == trimmed_end_of(s@.take(end as int), c),
        decreases end,
    {
        assert(s@.take(end as int).drop_last() =~= s@.take(end - 1));
        end = end - 1;
    }
    assert(s@.subrange(0, end as int) =~= s@.take(end as int));
    s.substring_char(0, end)
}

/// The text in lower case, ASCII letters only.
pub fn lower(s: &str) -> (low: String)
    ensures
        low@ == lowered(s@),
{
    let chars = chars_of(s);
    let mut low = String::new();
    for i in 0..chars.len()
        invariant
            chars@ == s@,
            low@ == lowered(s@).take(i as int),
    {
        let c = chars[i];
        let l: char = if 'A' <= c && c <= 'Z' {
            ((c as u8) + 32) as char
        } else {
            c
        };
        low.push(l);
        assert(lowered(s@).take(i + 1) =~= lowered(s@).take(i as int).push(ascii_lower(c)));
    }
    assert(lowered(s@).take(s@.len() as int) =~= lowered(s@));
    low
}

/// `found_from` gives the first index at which the pattern stands, and `None` where there is none.
pub proof fn lemma_found_from(s: Seq<char>, pattern: Seq<char>, from: int)
    requires
        0 <= from,
    ensures
        match found_from(s, pattern, from) {
            Some(i) => from <= i && occurs_at(s, pattern, i) && forall|j: int|
                from <= j < i ==> !occurs_at(s, pattern, j),
            None => forall|j: int| from <= j ==> !occurs_at(s, pattern, j),
        },
    decreases s.len() - from + 1,
{
    if from + pattern.len() > s.len() {
    } else if occurs_at(s, pattern, from) {
    } else {
        lemma_found_from(s, pattern, from + 1);
        assert forall|j: int| from <= j && found_from(s, pattern, from) is None implies !occurs_at(
            s,
            pattern,
            j,
        ) by {
            if j > from {
                assert(from + 1 <= j);
            }
        }
    }
}

/// The first index at which the pattern stands is what `found` gives.
pub proof fn lemma_found_is(s: Seq<char>, pattern: Seq<char>, i: int)
    requires
        occurs_at(s, pattern, i),
        forall|j: int| 0 <= j < i ==> !occurs_at(s, pattern, j),
    ensures
        found(s, pattern) == Some(i),
{
    lemma_found_from(s, pattern, 0);
}

/// The first index at which `pattern` stands in `s`, in characters.
pub fn find(s: &str, pattern: &str) -> (at: Option<usize>)
    ensures
        match at {
            Some(i) => found(s@, pattern@) == Some(i as int),
            None => found(s@, pattern@) is None,
        },
{
    let text = chars_of(s);
    let wanted = chars_of(pattern);
    let mut i: usize = 0;
    while i <= text.len() && wanted.len() <= text.len() - i
        invariant
            text@ == s@,
            wanted@ == pattern@,
            i <= text.len() + 1,
            found(s@, pattern@) == found_from(s@, pattern@, i as int),
        decreases text.len() + 1 - i,
    {
        let mut k: usize = 0;
        while k < wanted.len() && text[i + k] == wanted[k]
            invariant
                i + wanted.len() <= text.len(),
                k <= wanted.len(),
                forall|j: int| 0 <= j < k ==> text@[i + j] == wanted@[j],
            decreases wanted.len() - k,
        {
            k = k + 1;
        }
        if k == wanted.len() {
            assert(text@.subrange(i as int, i + wanted@.len()) =~= wanted@);
            return Some(i);
        }
        assert(text@.subrange(i as int, i + wanted@.len())[k as int] != wanted@[k as int]);
        i = i + 1;
    }
    None
}

/// Whether `pattern` stands somewhere in `s`.
pub fn contains_text(s: &str, pattern: &str) -> (yes: bool)
    ensures
        yes == holds_text(s@, pattern@),
{
    proof {
        lemma_found_from(s@, pattern@, 0);
        if holds_text(s@, pattern@) {
            let i = choose|i: int| occurs_at(s@, pattern@, i);
            assert(occurs_at(s@, pattern@, i));
        }
    }
    find(s, pattern).is_some()
}

/// Whether `s` begins with `start`.
pub fn starts_with(s: &str, start: &str) -> (yes: bool)
    ensures
        yes == begins_with(s@, start@),
{
    let n = start.unicode_len();
    s.unicode_len() >= n && same_text(s.substring_char(0, n), start)
}

/// Whether `s` ends in `end`.
pub fn ends_with(s: &str, end: &str) -> (yes: bool)
    ensures
        yes == ends_in(s@, end@),
{
    let total = s.unicode_len();
    let n = end.unicode_len();
    total >= n && same_text(s.substring_char(total - n, total), end)
}

/// What stands before and after the first `pattern` in `s`.
pub fn split_once<'a>(s: &'a str, pattern: &str) -> (parts: Option<(&'a str, &'a str)>)
    ensures
        match parts {
            Some(p) => split_once_at(s@, pattern@) == Some((p.0@, p.1@)),
            None => split_once_at(s@, pattern@) is None,
        },
{
    match find(s, pattern) {
        Some(i) => {
            proof {
                lemma_found_from(s@, pattern@, 0);
            }
            let total = s.unicode_len();
            let width = pattern.unicode_len();
            let head = s.substring_char(0, i);
            let tail = s.substring_char(i + width, total);
            assert(head@ =~= s@.take(i as int));
            assert(tail@ =~= s@.skip(i + width));
            Some((head, tail))
        },
        None => None,
    }
}

/// `s` with every `from` replaced by `to`.
pub fn replace(s: &str, from: &str, to: &str) -> (r: String)
    requires
        from@.len() > 0,
    ensures
        r@ == replaced(s@, from@, to@),
{
    let mut out = String::new();
    let mut rest: &str = s;
    let mut more = true;
    assert(out@ + replaced(s@, from@, to@) =~= replaced(s@, from@, to@));
    while more
        invariant
            from@.len() > 0,
            more ==> replaced(s@, from@, to@) == out@ + replaced(rest@, from@, to@),
            !more ==> replaced(s@, from@, to@) == out@,
        decreases (if more { 1int } else { 0int }), rest@.len(),
    {
        proof {
            lemma_found_from(rest@, from@, 0);
        }
        let ghost before = out@;
        let ghost current = rest@;
        match split_once(rest, from) {
            Some((head, tail)) => {
                out.append(head);
                out.append(to);
                rest = tail;
                proof {
                    let i = found(current, from@)->Some_0;
                    assert(replaced(current, from@, to@) == current.take(i) + to@ + replaced(
                        current.skip(i + from@.len()),
                        from@,
                        to@,
                    ));
                    assert(out@ + replaced(rest@, from@, to@) =~= before + replaced(
                        current,
                        from@,
                        to@,
                    ));
                }
            },
            None => {
                out.append(rest);
                more = false;
            },
        }
    }
    out
}

/// How often `c` stands in `s`.
pub fn count_of(s: &str, c: char) -> (n: usize)
    ensures
        n == occurrences(s@, c),
{
    let chars = chars_of(s);
    let mut n: usize = 0;
    for i in 0..chars.len()
        invariant
            chars@ == s@,
            n <= i,
            n == occurrences(s@.take(i as int), c),
    {
        assert(s@.take(i + 1).drop_last() =~= s@.take(i as int));
        if chars[i] == c {
            n = n + 1;
        }
    }
    assert(s@.take(s@.len() as int) =~= s@);
    n
}

/// The number that `s` writes in decimal, where it is at most `max`.
pub fn parse_up_to(s: &str, max: u64) -> (n: Option<u64>)
    ensures
        match n {
            Some(v) => number_up_to(s@, max as nat) == Some(v as nat),
            None => number_up_to(s@, max as nat) is None,
        },
{
    let chars = chars_of(s);
    let start: usize = if chars.len() > 0 && chars[0] == '+' {
        1
    } else {
        0
    };
    let ghost digits = s@.skip(start as int);
    assert(s@.skip(0) =~= s@);
    if start == chars.len() {
        return None;
    }
    let mut value: u64 = 0;
    let mut over = false;
    let mut i: usize = start;
    assert(digits.take(0) =~= Seq::<char>::empty());
    while i < chars.len()
        invariant
            chars@ == s@,
            start <= i <= chars.len(),
            start < chars.len(),
            start == (if s@.len() > 0 && s@[0] == '+' {
                1int
            } else {
                0int
            }),
            digits == s@.skip(start as int),
            forall|j: int| 0 <= j < i - start ==> is_digit(#[trigger] digits[j]),
            !over ==> value == digits_value(digits.take(i - start)) && value <= max,
            over ==> digits_value(digits.take(i - start)) > max,
        decreases chars.len() - i,
    {
        let c = chars[i];
        assert(digits[i - start] == c);
        if !('0' <= c && c <= '9') {
            assert(number_in(s@) is None) by {
                assert(s@.skip(0) =~= s@);
                assert(!is_digit(digits[i - start]));
            }
            return None;
        }
        let d: u64 = ((c as u32) - ('0' as u32)) as u64;
        assert(digits.take(i + 1 - start).drop_last() =~= digits.take(i - start));
        assert(digits.take(i + 1 - start).last() == c);
        if !over {
            match value.checked_mul(10) {
                Some(tens) => match tens.checked_add(d) {
                    Some(next) => {
                        if next <= max {
                            value = next;
                        } else {
                            over = true;
                        }
                    },
                    None => {
                        over = true;
                    },
                },
                None => {
                    over = true;
                },
            }
        }
        i = i + 1;
    }
    assert(digits.take(i - start) =~= digits);
    assert(number_in(s@) == Some(digits_value(digits))) by {
        assert(s@.skip(0) =~= s@);
    }
    if over {
        None
    } else {
        Some(value)
    }
}

/// `n` in decimal digits.
pub fn decimal_of(n: u64) -> (s: String)
    ensures
        s@ == decimal(n as nat),
    decreases n,
{
    let d: u8 = (n % 10) as u8;
    let c: char = (48u8 + d) as char;
    if n < 10 {
        let mut s = String::new();
        s.push(c);
        assert(s@ =~= decimal(n as nat));
        s
    } else {
        let mut s = decimal_of(n / 10);
        s.push(c);
        s
    }
}

} // verus!
