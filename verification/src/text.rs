//! Text primitives: trimming, searching, parsing and decimal formatting over
//! sequences of characters.

use crate::order::rearranged;
use vstd::prelude::*;

verus! {

/// Trusted: `String::push` appends the given character to the end of the
/// string and changes nothing else.
pub assume_specification[ String::push ](s: &mut String, ch: char)
    ensures
        final(s)@ == old(s)@.push(ch),
;

/// The characters with Unicode's `White_Space` property.
pub open spec fn is_white(c: char) -> bool {
    ||| '\u{9}' <= c <= '\u{d}'
    ||| c == '\u{20}'
    ||| c == '\u{85}'
    ||| c == '\u{a0}'
    ||| c == '\u{1680}'
    ||| '\u{2000}' <= c <= '\u{200a}'
    ||| c == '\u{2028}'
    ||| c == '\u{2029}'
    ||| c == '\u{202f}'
    ||| c == '\u{205f}'
    ||| c == '\u{3000}'
}

/// `s` without its leading white space.
pub open spec fn trim_start(s: Seq<char>) -> Seq<char>
    decreases s.len(),
{
    if s.len() > 0 && is_white(s[0]) {
        trim_start(s.subrange(1, s.len() as int))
    } else {
        s
    }
}

/// `s` without its trailing white space.
pub open spec fn trim_end(s: Seq<char>) -> Seq<char>
    decreases s.len(),
{
    if s.len() > 0 && is_white(s.last()) {
        trim_end(s.drop_last())
    } else {
        s
    }
}

/// `s` without white space at either end.
pub open spec fn trimmed(s: Seq<char>) -> Seq<char> {
    trim_end(trim_start(s))
}

/// `c` with `A..=Z` folded to `a..=z`.
pub open spec fn lower(c: char) -> char {
    if 'A' <= c <= 'Z' {
        (c as u32 + 32) as char
    } else {
        c
    }
}

/// `s` with every ASCII capital folded to lower case.
pub open spec fn lowered(s: Seq<char>) -> Seq<char> {
    s.map_values(|c: char| lower(c))
}

/// `needle` stands in `s` at position `at`.
pub open spec fn occurs_at(s: Seq<char>, needle: Seq<char>, at: int) -> bool {
    &&& 0 <= at
    &&& at + needle.len() <= s.len()
    &&& s.subrange(at, at + needle.len()) == needle
}

/// `needle` stands somewhere in `s`.
pub open spec fn occurs(s: Seq<char>, needle: Seq<char>) -> bool {
    exists|at: int| #[trigger] occurs_at(s, needle, at)
}

/// `needle` stands at the front of `s`.
pub open spec fn starts(s: Seq<char>, needle: Seq<char>) -> bool {
    occurs_at(s, needle, 0)
}

/// `at` is the first position of `needle` in `s`.
pub open spec fn first_at(s: Seq<char>, needle: Seq<char>, at: int) -> bool {
    &&& occurs_at(s, needle, at)
    &&& forall|j: int| 0 <= j < at ==> !#[trigger] occurs_at(s, needle, j)
}

pub open spec fn is_digit(c: char) -> bool {
    '0' <= c <= '9'
}

pub open spec fn all_digits(s: Seq<char>) -> bool {
    forall|i: int| 0 <= i < s.len() ==> is_digit(#[trigger] s[i])
}

/// The number that a run of decimal digits writes.
pub open spec fn digits_value(s: Seq<char>) -> nat
    decreases s.len(),
{
    if s.len() == 0 {
        0
    } else {
        digits_value(s.drop_last()) * 10 + (s.last() as nat - '0' as nat) as nat
    }
}

/// The digits of a number as it is commonly written: an optional `+` is left off.
pub open spec fn unsigned_part(s: Seq<char>) -> Seq<char> {
    if s.len() > 0 && s[0] == '+' {
        s.subrange(1, s.len() as int)
    } else {
        s
    }
}

/// `s` writes an unsigned number that is at most `max`.
pub open spec fn parses(s: Seq<char>, max: nat) -> bool {
    let digits = unsigned_part(s);
    digits.len() > 0 && all_digits(digits) && digits_value(digits) <= max
}

/// The number that `s` writes, where it writes one that is at most `max`.
pub open spec fn parsed(s: Seq<char>, max: nat) -> Option<nat> {
    if parses(s, max) {
        Some(digits_value(unsigned_part(s)))
    } else {
        None
    }
}

/// The decimal digit for `d < 10`.
pub open spec fn digit(d: nat) -> char {
    (d + '0' as nat) as char
}

/// `n` in decimal notation.
pub open spec fn decimal(n: nat) -> Seq<char>
    decreases n,
{
    if n < 10 {
        seq![digit(n)]
    } else {
        decimal(n / 10).push(digit(n % 10))
    }
}

/// The pieces of `s` between the separators `sep`; one more than there are separators.
pub open spec fn pieces(s: Seq<char>, sep: char) -> Seq<Seq<char>>
    decreases s.len(),
{
    if s.len() == 0 {
        seq![Seq::<char>::empty()]
    } else {
        let before = pieces(s.drop_last(), sep);
        if s.last() == sep {
            before.push(Seq::empty())
        } else {
            before.update(before.len() - 1, before.last().push(s.last()))
        }
    }
}

/// The texts of `parts`, one after the other, with `sep` between them.
pub open spec fn joined(parts: Seq<Seq<char>>, sep: Seq<char>) -> Seq<char>
    decreases parts.len(),
{
    if parts.len() == 0 {
        Seq::empty()
    } else if parts.len() == 1 {
        parts[0]
    } else {
        joined(parts.drop_last(), sep) + sep + parts.last()
    }
}

/// The views of a list of strings.
pub open spec fn views(parts: Seq<String>) -> Seq<Seq<char>> {
    parts.map_values(|p: String| p@)
}

pub proof fn lemma_pieces_nonempty(s: Seq<char>, sep: char)
    ensures
        pieces(s, sep).len() >= 1,
    decreases s.len(),
{
    if s.len() > 0 {
        lemma_pieces_nonempty(s.drop_last(), sep);
    }
}

/// Whether `c` has the `White_Space` property.
pub fn char_is_white(c: char) -> (r: bool)
    ensures
        r == is_white(c),
{
    ('\u{9}' <= c && c <= '\u{d}') || c == '\u{20}' || c == '\u{85}' || c == '\u{a0}' || c
        == '\u{1680}' || ('\u{2000}' <= c && c <= '\u{200a}') || c == '\u{2028}' || c == '\u{2029}'
        || c == '\u{202f}' || c == '\u{205f}' || c == '\u{3000}'
}

/// The characters of `s` as a vector.
pub fn chars_of(s: &str) -> (r: Vec<char>)
    ensures
        r@ == s@,
{
    let mut out: Vec<char> = Vec::new();
    for c in it: s.chars()
        invariant
            out@ == it.seq().take(it.index() as int),
            it.seq() == s@,
    {
        out.push(c);
    }
    out
}

/// The string that `chars[from..to]` spell.
pub fn string_of(chars: &Vec<char>, from: usize, to: usize) -> (r: String)
    requires
        from <= to <= chars.len(),
    ensures
        r@ == chars@.subrange(from as int, to as int),
{
    let mut out = String::new();
    let mut i: usize = from;
    while i < to
        invariant
            from <= i <= to <= chars.len(),
            out@ == chars@.subrange(from as int, i as int),
        decreases to - i,
    {
        out.push(chars[i]);
        i = i + 1;
        assert(chars@.subrange(from as int, i as int) =~= chars@.subrange(
            from as int,
            i - 1,
        ).push(chars@[i - 1]));
    }
    out
}

/// Whether two texts are the same.
pub fn same(a: &str, b: &str) -> (r: bool)
    ensures
        r == (a@ == b@),
{
    a.to_owned() == b.to_owned()
}

proof fn lemma_trim_start_at(s: Seq<char>, from: int)
    requires
        0 <= from <= s.len(),
        forall|i: int| 0 <= i < from ==> is_white(#[trigger] s[i]),
        from < s.len() ==> !is_white(s[from]),
    ensures
        trim_start(s) == s.subrange(from, s.len() as int),
    decreases from,
{
    if from > 0 {
        let rest = s.subrange(1, s.len() as int);
        assert forall|i: int| 0 <= i < from - 1 implies is_white(#[trigger] rest[i]) by {
            assert(rest[i] == s[i + 1]);
        }
        lemma_trim_start_at(rest, from - 1);
        assert(rest.subrange(from - 1, rest.len() as int) =~= s.subrange(from, s.len() as int));
    } else {
        assert(s.subrange(0, s.len() as int) =~= s);
    }
}

proof fn lemma_trim_end_at(s: Seq<char>, to: int)
    requires
        0 <= to <= s.len(),
        forall|i: int| to <= i < s.len() ==> is_white(#[trigger] s[i]),
        to > 0 ==> !is_white(s[to - 1]),
    ensures
        trim_end(s) == s.subrange(0, to),
    decreases s.len(),
{
    if to < s.len() {
        lemma_trim_end_at(s.drop_last(), to);
        assert(s.drop_last().subrange(0, to) =~= s.subrange(0, to));
    } else {
        assert(s.subrange(0, to) =~= s);
    }
}

/// `s` without white space at either end.
pub fn trim(s: &str) -> (r: String)
    ensures
        r@ == trimmed(s@),
{
    let chars = chars_of(s);
    let n: usize = chars.len();
    let mut from: usize = 0;
    while from < n && char_is_white(chars[from])
        invariant
            from <= n == chars.len(),
            forall|i: int| 0 <= i < from ==> is_white(#[trigger] chars@[i]),
        decreases n - from,
    {
        from = from + 1;
    }
    let mut to: usize = n;
    while to > from && char_is_white(chars[to - 1])
        invariant
            from <= to <= n == chars.len(),
            forall|i: int| to <= i < n ==> is_white(#[trigger] chars@[i]),
        decreases to,
    {
        to = to - 1;
    }
    proof {
        lemma_trim_start_at(s@, from as int);
        let rest = s@.subrange(from as int, n as int);
        assert forall|i: int| to - from <= i < rest.len() implies is_white(#[trigger] rest[i]) by {
            assert(rest[i] == chars@[i + from]);
        }
        lemma_trim_end_at(rest, to - from);
        assert(rest.subrange(0, to - from) =~= s@.subrange(from as int, to as int));
    }
    string_of(&chars, from, to)
}

/// `c` with `A..=Z` folded to `a..=z`.
pub fn char_lower(c: char) -> (r: char)
    ensures
        r == lower(c),
{
    if 'A' <= c && c <= 'Z' {
        let folded: u8 = (c as u8) + 32;
        folded as char
    } else {
        c
    }
}

/// `s` with every ASCII capital folded to lower case.
pub fn to_lower(s: &str) -> (r: String)
    ensures
        r@ == lowered(s@),
{
    let chars = chars_of(s);
    let mut out = String::new();
    let mut i: usize = 0;
    while i < chars.len()
        invariant
            i <= chars.len(),
            chars@ == s@,
            out@ == lowered(s@).take(i as int),
        decreases chars.len() - i,
    {
        out.push(char_lower(chars[i]));
        i = i + 1;
        assert(lowered(s@).take(i as int) =~= lowered(s@).take(i - 1).push(lowered(s@)[i - 1]));
    }
    assert(lowered(s@).take(i as int) =~= lowered(s@));
    out
}

/// Whether two texts differ at most in the case of ASCII letters.
pub fn same_ignoring_case(a: &str, b: &str) -> (r: bool)
    ensures
        r == (lowered(a@) == lowered(b@)),
{
    to_lower(a) == to_lower(b)
}

fn chars_match_at(chars: &Vec<char>, needle: &Vec<char>, at: usize) -> (r: bool)
    requires
        at + needle.len() <= chars.len(),
    ensures
        r == occurs_at(chars@, needle@, at as int),
{
    let mut k: usize = 0;
    while k < needle.len()
        invariant
            at + needle.len() <= chars.len(),
            k <= needle.len(),
            forall|j: int| 0 <= j < k ==> chars@[at + j] == #[trigger] needle@[j],
        decreases needle.len() - k,
    {
        if chars[at + k] != needle[k] {
            proof {
                let window = chars@.subrange(at as int, at + needle@.len());
                assert(window[k as int] == chars@[at + k]);
                assert(window != needle@);
            }
            return false;
        }
        k = k + 1;
    }
    assert(chars@.subrange(at as int, at + needle@.len()) =~= needle@);
    true
}

/// The first position of `needle` in `s`, counted in characters.
pub fn find(s: &str, needle: &str) -> (r: Option<usize>)
    ensures
        match r {
            Some(at) => first_at(s@, needle@, at as int),
            None => !occurs(s@, needle@),
        },
{
    let chars = chars_of(s);
    let wanted = chars_of(needle);
    if wanted.len() > chars.len() {
        return None;
    }
    let last: usize = chars.len() - wanted.len();
    let mut at: usize = 0;
    while at <= last
        invariant
            at <= last + 1,
            last + wanted.len() == chars.len(),
            chars@ == s@,
            wanted@ == needle@,
            forall|j: int| 0 <= j < at ==> !#[trigger] occurs_at(s@, needle@, j),
        decreases last + 1 - at,
    {
        if chars_match_at(&chars, &wanted, at) {
            return Some(at);
        }
        if at == last {
            return None;
        }
        at = at + 1;
    }
    None
}

/// Whether `needle` stands somewhere in `s`.
pub fn contains(s: &str, needle: &str) -> (r: bool)
    ensures
        r == occurs(s@, needle@),
{
    find(s, needle).is_some()
}

/// Whether `s` begins with `needle`.
pub fn starts_with(s: &str, needle: &str) -> (r: bool)
    ensures
        r == starts(s@, needle@),
{
    let chars = chars_of(s);
    let wanted = chars_of(needle);
    if wanted.len() > chars.len() {
        return false;
    }
    chars_match_at(&chars, &wanted, 0)
}

proof fn lemma_digits_value_grows(s: Seq<char>, i: int)
    requires
        0 <= i <= s.len(),
        all_digits(s),
    ensures
        digits_value(s.take(i)) <= digits_value(s),
    decreases s.len(),
{
    if i < s.len() {
        lemma_digits_value_grows(s.drop_last(), i);
        assert(s.drop_last().take(i) =~= s.take(i));
        assert(is_digit(s[s.len() - 1]));
    } else {
        assert(s.take(i) =~= s);
    }
}

/// The number that `s` writes in decimal, where it is at most `max`: an
/// optional `+` and one or more digits.
pub fn parse_unsigned(s: &str, max: u64) -> (r: Option<u64>)
    ensures
        match r {
            Some(n) => parsed(s@, max as nat) == Some(n as nat),
            None => parsed(s@, max as nat) is None,
        },
{
    let chars = chars_of(s);
    let from: usize = if chars.len() > 0 && chars[0] == '+' {
        1
    } else {
        0
    };
    let ghost digits = unsigned_part(s@);
    assert(digits =~= chars@.subrange(from as int, chars.len() as int));
    if from == chars.len() {
        return None;
    }
    let mut value: u64 = 0;
    let mut i: usize = from;
    while i < chars.len()
        invariant
            from <= i <= chars.len(),
            digits == chars@.subrange(from as int, chars.len() as int),
            digits == unsigned_part(s@),
            digits.len() > 0,
            all_digits(digits.take(i - from)),
            value == digits_value(digits.take(i - from)),
            value <= max,
        decreases chars.len() - i,
    {
        let c = chars[i];
        assert(digits[i - from] == c);
        if !('0' <= c && c <= '9') {
            assert(!all_digits(digits));
            return None;
        }
        let d: u64 = (c as u64) - ('0' as u64);
        let wide: u128 = (value as u128) * 10 + (d as u128);
        proof {
            let longer = digits.take(i - from + 1);
            assert(longer.drop_last() =~= digits.take(i - from));
            assert(longer.last() == c);
            assert(digits_value(longer) == wide);
            assert(all_digits(longer));
            if all_digits(digits) {
                lemma_digits_value_grows(digits, i - from + 1);
            }
        }
        if wide > max as u128 {
            return None;
        }
        value = wide as u64;
        i = i + 1;
    }
    assert(digits.take(i - from) =~= digits);
    Some(value)
}

/// Appends `n` in decimal notation.
pub fn push_decimal(out: &mut String, n: u64)
    ensures
        final(out)@ == old(out)@ + decimal(n as nat),
    decreases n,
{
    if n >= 10 {
        push_decimal(out, n / 10);
    }
    let d: u8 = (n % 10) as u8;
    let c = (d + 48) as char;
    assert(c == digit((n % 10) as nat));
    out.push(c);
    assert(out@ =~= old(out)@ + decimal(n as nat));
}

/// `n` in decimal notation.
pub fn decimal_string(n: u64) -> (r: String)
    ensures
        r@ == decimal(n as nat),
{
    let mut out = String::new();
    push_decimal(&mut out, n);
    assert(out@ =~= decimal(n as nat));
    out
}

/// The pieces of `s` between the separators `sep`.
pub fn split(s: &str, sep: char) -> (r: Vec<String>)
    ensures
        views(r@) == pieces(s@, sep),
        r.len() >= 1,
{
    let chars = chars_of(s);
    let mut out: Vec<String> = Vec::new();
    let mut current = String::new();
    let mut i: usize = 0;
    assert(pieces(s@.take(0), sep) =~= views(out@).push(current@));
    while i < chars.len()
        invariant
            i <= chars.len(),
            chars@ == s@,
            pieces(s@.take(i as int), sep) == views(out@).push(current@),
        decreases chars.len() - i,
    {
        let c = chars[i];
        let ghost before = views(out@).push(current@);
        let ghost longer = s@.take(i + 1);
        assert(longer.drop_last() =~= s@.take(i as int));
        assert(longer.last() == c);
        if c == sep {
            out.push(current);
            current = String::new();
            assert(views(out@) =~= before);
            assert(views(out@).push(current@) =~= before.push(Seq::empty()));
        } else {
            current.push(c);
            assert(views(out@).push(current@) =~= before.update(
                before.len() - 1,
                before.last().push(c),
            ));
        }
        i = i + 1;
    }
    assert(s@.take(i as int) =~= s@);
    let ghost head = views(out@);
    let ghost tail = current@;
    out.push(current);
    assert(views(out@) =~= head.push(tail));
    out
}

/// The texts of `parts`, one after the other, with `sep` between them.
pub fn join(parts: &Vec<String>, sep: &str) -> (r: String)
    ensures
        r@ == joined(views(parts@), sep@),
{
    let mut out = String::new();
    let mut i: usize = 0;
    while i < parts.len()
        invariant
            i <= parts.len(),
            out@ == joined(views(parts@).take(i as int), sep@),
        decreases parts.len() - i,
    {
        let ghost all = views(parts@);
        if i > 0 {
            out.append(sep);
        }
        out.append(parts[i].as_str());
        proof {
            let longer = all.take(i + 1);
            assert(longer.drop_last() =~= all.take(i as int));
            assert(longer.last() == parts@[i as int]@);
            assert(out@ =~= joined(longer, sep@));
        }
        i = i + 1;
    }
    assert(views(parts@).take(i as int) =~= views(parts@));
    out
}

/// `s` with every `from` replaced by `to`.
pub open spec fn replaced(s: Seq<char>, from: char, to: char) -> Seq<char> {
    s.map_values(|c: char| if c == from { to } else { c })
}

/// `s` with every `from` replaced by `to`.
pub fn replace_char(s: &str, from: char, to: char) -> (r: String)
    ensures
        r@ == replaced(s@, from, to),
{
    let chars = chars_of(s);
    let mut out = String::new();
    let mut i: usize = 0;
    while i < chars.len()
        invariant
            i <= chars.len(),
            chars@ == s@,
            out@ == replaced(s@, from, to).take(i as int),
        decreases chars.len() - i,
    {
        let c = chars[i];
        out.push(if c == from { to } else { c });
        i = i + 1;
        let ghost all = replaced(s@, from, to);
        assert(all.take(i as int) =~= all.take(i - 1).push(all[i - 1]));
    }
    assert(replaced(s@, from, to).take(i as int) =~= replaced(s@, from, to));
    out
}

/// An owned copy of `s`.
pub fn owned(s: &str) -> (r: String)
    ensures
        r@ == s@,
{
    s.to_owned()
}

/// Two texts, one after the other.
pub fn cat2(a: &str, b: &str) -> (r: String)
    ensures
        r@ == a@ + b@,
{
    let mut out = owned(a);
    out.append(b);
    out
}

/// Three texts, one after the other.
pub fn cat3(a: &str, b: &str, c: &str) -> (r: String)
    ensures
        r@ == a@ + b@ + c@,
{
    let mut out = cat2(a, b);
    out.append(c);
    out
}

/// Five texts, one after the other.
pub fn cat5(a: &str, b: &str, c: &str, d: &str, e: &str) -> (r: String)
    ensures
        r@ == a@ + b@ + c@ + d@ + e@,
{
    let mut out = cat3(a, b, c);
    out.append(d);
    out.append(e);
    out
}

/// The part of `s` from the character at `from` on.
pub fn suffix(s: &str, from: usize) -> (r: String)
    requires
        from <= s@.len(),
    ensures
        r@ == s@.skip(from as int),
{
    let chars = chars_of(s);
    assert(s@.skip(from as int) =~= chars@.subrange(from as int, chars.len() as int));
    string_of(&chars, from, chars.len())
}

/// The first position of `c` in `s`, if it is there.
pub open spec fn char_at(s: Seq<char>, c: char) -> Option<int>
    decreases s.len(),
{
    if s.len() == 0 {
        None
    } else {
        match char_at(s.drop_last(), c) {
            Some(at) => Some(at),
            None => if s.last() == c {
                Some(s.len() - 1)
            } else {
                None
            },
        }
    }
}

/// The last position of `c` in `s`, if it is there.
pub open spec fn last_char_at(s: Seq<char>, c: char) -> Option<int>
    decreases s.len(),
{
    if s.len() == 0 {
        None
    } else if s.last() == c {
        Some(s.len() - 1)
    } else {
        last_char_at(s.drop_last(), c)
    }
}

/// The first position of `c` in `s`, if it is there.
pub fn find_char(s: &str, c: char) -> (r: Option<usize>)
    ensures
        match r {
            Some(at) => at < s@.len() && at < usize::MAX && char_at(s@, c) == Some(at as int),
            None => char_at(s@, c) is None,
        },
{
    let chars = chars_of(s);
    let mut found: Option<usize> = None;
    let mut i: usize = 0;
    while i < chars.len()
        invariant
            i <= chars.len(),
            chars@ == s@,
            match found {
                Some(at) => at < i && char_at(s@.take(i as int), c) == Some(at as int),
                None => char_at(s@.take(i as int), c) is None,
            },
        decreases chars.len() - i,
    {
        assert(s@.take(i + 1).drop_last() =~= s@.take(i as int));
        if found.is_none() && chars[i] == c {
            found = Some(i);
        }
        i = i + 1;
    }
    assert(s@.take(i as int) =~= s@);
    found
}

/// The last position of `c` in `s`, if it is there.
pub fn rfind_char(s: &str, c: char) -> (r: Option<usize>)
    ensures
        match r {
            Some(at) => at < s@.len() && at < usize::MAX && last_char_at(s@, c) == Some(at as int),
            None => last_char_at(s@, c) is None,
        },
{
    let chars = chars_of(s);
    let mut n: usize = chars.len();
    assert(s@.take(n as int) =~= s@);
    while n > 0
        invariant
            n <= chars.len(),
            chars@ == s@,
            last_char_at(s@.take(n as int), c) == last_char_at(s@, c),
        decreases n,
    {
        assert(s@.take(n as int).drop_last() =~= s@.take(n - 1));
        if chars[n - 1] == c {
            return Some(n - 1);
        }
        n = n - 1;
    }
    None
}

/// The longest front part of `s` that is made of decimal digits.
pub open spec fn leading_digits(s: Seq<char>) -> Seq<char>
    decreases s.len(),
{
    if s.len() > 0 && is_digit(s[0]) {
        seq![s[0]] + leading_digits(s.skip(1))
    } else {
        Seq::empty()
    }
}

proof fn lemma_leading_digits(s: Seq<char>, n: int)
    requires
        0 <= n <= s.len(),
        forall|i: int| 0 <= i < n ==> is_digit(#[trigger] s[i]),
        n < s.len() ==> !is_digit(s[n]),
    ensures
        leading_digits(s) == s.take(n),
    decreases n,
{
    if n > 0 {
        let rest = s.skip(1);
        assert forall|i: int| 0 <= i < n - 1 implies is_digit(#[trigger] rest[i]) by {
            assert(rest[i] == s[i + 1]);
        }
        assert(is_digit(s[0]));
        lemma_leading_digits(rest, n - 1);
        assert(seq![s[0]] + rest.take(n - 1) =~= s.take(n));
    } else {
        assert(s.take(0) =~= Seq::empty());
    }
}

/// The longest front part of `s` that is made of decimal digits.
pub fn take_digits(s: &str) -> (r: String)
    ensures
        r@ == leading_digits(s@),
{
    let chars = chars_of(s);
    let mut n: usize = 0;
    while n < chars.len() && '0' <= chars[n] && chars[n] <= '9'
        invariant
            n <= chars.len(),
            chars@ == s@,
            forall|i: int| 0 <= i < n ==> is_digit(#[trigger] s@[i]),
        decreases chars.len() - n,
    {
        n = n + 1;
    }
    proof {
        lemma_leading_digits(s@, n as int);
        assert(s@.take(n as int) =~= s@.subrange(0, n as int));
    }
    string_of(&chars, 0, n)
}

/// The longest front part of `s` without white space.
pub open spec fn leading_word(s: Seq<char>) -> Seq<char>
    decreases s.len(),
{
    if s.len() > 0 && !is_white(s[0]) {
        seq![s[0]] + leading_word(s.skip(1))
    } else {
        Seq::empty()
    }
}

/// The first word of `s`, if it has one.
pub open spec fn first_word(s: Seq<char>) -> Option<Seq<char>> {
    let word = leading_word(trim_start(s));
    if word.len() == 0 {
        None
    } else {
        Some(word)
    }
}

proof fn lemma_leading_word(s: Seq<char>, n: int)
    requires
        0 <= n <= s.len(),
        forall|i: int| 0 <= i < n ==> !is_white(#[trigger] s[i]),
        n < s.len() ==> is_white(s[n]),
    ensures
        leading_word(s) == s.take(n),
    decreases n,
{
    if n > 0 {
        let rest = s.skip(1);
        assert forall|i: int| 0 <= i < n - 1 implies !is_white(#[trigger] rest[i]) by {
            assert(rest[i] == s[i + 1]);
        }
        assert(!is_white(s[0]));
        lemma_leading_word(rest, n - 1);
        assert(seq![s[0]] + rest.take(n - 1) =~= s.take(n));
    } else {
        assert(s.take(0) =~= Seq::empty());
    }
}

/// The first word of `s`, if it has one.
pub fn word(s: &str) -> (r: Option<String>)
    ensures
        match r {
            Some(text) => first_word(s@) == Some(text@),
            None => first_word(s@) is None,
        },
{
    let chars = chars_of(s);
    let n: usize = chars.len();
    let mut from: usize = 0;
    while from < n && char_is_white(chars[from])
        invariant
            from <= n == chars.len(),
            chars@ == s@,
            forall|i: int| 0 <= i < from ==> is_white(#[trigger] s@[i]),
        decreases n - from,
    {
        from = from + 1;
    }
    let mut to: usize = from;
    while to < n && !char_is_white(chars[to])
        invariant
            from <= to <= n == chars.len(),
            chars@ == s@,
            forall|i: int| from <= i < to ==> !is_white(#[trigger] s@[i]),
        decreases n - to,
    {
        to = to + 1;
    }
    proof {
        lemma_trim_start_at(s@, from as int);
        let rest = s@.subrange(from as int, n as int);
        assert forall|i: int| 0 <= i < to - from implies !is_white(#[trigger] rest[i]) by {
            assert(rest[i] == s@[i + from]);
        }
        lemma_leading_word(rest, to - from);
        assert(rest.take(to - from) =~= s@.subrange(from as int, to as int));
    }
    if to == from {
        None
    } else {
        Some(string_of(&chars, from, to))
    }
}

/// `a` stands before `b` in the order of their characters, or is `b`.
pub open spec fn text_le(a: Seq<char>, b: Seq<char>) -> bool
    decreases a.len(),
{
    if a.len() == 0 {
        true
    } else if b.len() == 0 {
        false
    } else if a[0] != b[0] {
        a[0] < b[0]
    } else {
        text_le(a.skip(1), b.skip(1))
    }
}

/// Of two texts one stands before the other, and only equal ones do both ways.
pub proof fn lemma_text_le_total(a: Seq<char>, b: Seq<char>)
    ensures
        text_le(a, a),
        text_le(a, b) || text_le(b, a),
        text_le(a, b) && text_le(b, a) ==> a == b,
    decreases a.len(),
{
    if a.len() > 0 {
        lemma_text_le_total(a.skip(1), a.skip(1));
        if b.len() > 0 && a[0] == b[0] {
            lemma_text_le_total(a.skip(1), b.skip(1));
            if text_le(a, b) && text_le(b, a) {
                assert(a =~= seq![a[0]] + a.skip(1));
                assert(b =~= seq![b[0]] + b.skip(1));
            }
        }
    } else if b.len() == 0 {
        assert(a =~= b);
    }
}

pub proof fn lemma_text_le_goes_on(a: Seq<char>, b: Seq<char>, c: Seq<char>)
    requires
        text_le(a, b),
        text_le(b, c),
    ensures
        text_le(a, c),
    decreases a.len(),
{
    if a.len() > 0 && a[0] == b[0] && b[0] == c[0] {
        lemma_text_le_goes_on(a.skip(1), b.skip(1), c.skip(1));
    }
}

/// Whether `a` stands before `b` in the order of their characters, or is `b`.
pub fn at_most(a: &str, b: &str) -> (r: bool)
    ensures
        r == text_le(a@, b@),
{
    let left = chars_of(a);
    let right = chars_of(b);
    let mut i: usize = 0;
    assert(a@.skip(0) =~= a@);
    assert(b@.skip(0) =~= b@);
    while i < left.len() && i < right.len()
        invariant
            i <= left.len(),
            i <= right.len(),
            left@ == a@,
            right@ == b@,
            text_le(a@, b@) == text_le(a@.skip(i as int), b@.skip(i as int)),
        decreases left.len() - i,
    {
        let x = left[i];
        let y = right[i];
        assert(a@.skip(i as int)[0] == x);
        assert(b@.skip(i as int)[0] == y);
        if x != y {
            return x < y;
        }
        assert(a@.skip(i as int).skip(1) =~= a@.skip(i + 1));
        assert(b@.skip(i as int).skip(1) =~= b@.skip(i + 1));
        i = i + 1;
    }
    i == left.len()
}

/// `text` put into `texts`, which are in order.
pub open spec fn text_inserted(texts: Seq<Seq<char>>, text: Seq<char>) -> Seq<Seq<char>>
    decreases texts.len(),
{
    if texts.len() == 0 || text_le(texts.last(), text) {
        texts.push(text)
    } else {
        text_inserted(texts.drop_last(), text).push(texts.last())
    }
}

/// `texts` in order.
pub open spec fn texts_sorted(texts: Seq<Seq<char>>) -> Seq<Seq<char>>
    decreases texts.len(),
{
    if texts.len() == 0 {
        texts
    } else {
        text_inserted(texts_sorted(texts.drop_last()), texts.last())
    }
}

proof fn lemma_text_inserted_at(texts: Seq<Seq<char>>, text: Seq<char>, at: int)
    requires
        0 <= at <= texts.len(),
        at > 0 ==> text_le(texts[at - 1], text),
        forall|i: int| at <= i < texts.len() ==> !text_le(#[trigger] texts[i], text),
    ensures
        text_inserted(texts, text) == texts.insert(at, text),
    decreases texts.len(),
{
    if at < texts.len() {
        lemma_text_inserted_at(texts.drop_last(), text, at);
        assert(texts.drop_last().insert(at, text).push(texts.last()) =~= texts.insert(at, text));
    } else {
        assert(texts.push(text) =~= texts.insert(at, text));
    }
}

/// Each text stands before those behind it.
pub open spec fn in_order(texts: Seq<Seq<char>>) -> bool {
    forall|i: int, j: int|
        0 <= i < j < texts.len() ==> text_le(#[trigger] texts[i], #[trigger] texts[j])
}

proof fn lemma_text_inserted_in_order(texts: Seq<Seq<char>>, text: Seq<char>)
    requires
        in_order(texts),
    ensures
        in_order(text_inserted(texts, text)),
        text_inserted(texts, text).to_multiset() == texts.to_multiset().insert(text),
    decreases texts.len(),
{
    broadcast use vstd::seq_lib::group_to_multiset_ensures;

    let all = text_inserted(texts, text);
    if texts.len() == 0 || text_le(texts.last(), text) {
        assert forall|i: int, j: int| 0 <= i < j < all.len() implies text_le(
            #[trigger] all[i],
            #[trigger] all[j],
        ) by {
            if j == texts.len() && i < texts.len() - 1 {
                assert(text_le(texts[i], texts[texts.len() - 1]));
                lemma_text_le_goes_on(texts[i], texts.last(), text);
            }
        }
    } else {
        let shorter = texts.drop_last();
        let inner = text_inserted(shorter, text);
        lemma_text_inserted_in_order(shorter, text);
        lemma_text_le_total(texts.last(), text);
        assert(texts =~= shorter.push(texts.last()));
        assert(all.to_multiset() =~= texts.to_multiset().insert(text));
        assert forall|i: int, j: int| 0 <= i < j < all.len() implies text_le(
            #[trigger] all[i],
            #[trigger] all[j],
        ) by {
            if j == inner.len() {
                assert(inner.contains(inner[i]));
                assert(inner.to_multiset().count(inner[i]) > 0);
                if inner[i] != text {
                    assert(shorter.to_multiset().count(inner[i]) > 0);
                    assert(shorter.contains(inner[i]));
                    let k = shorter.index_of(inner[i]);
                    assert(text_le(texts[k], texts[texts.len() - 1]));
                }
            } else {
                assert(text_le(inner[i], inner[j]));
            }
        }
    }
}

/// Sorted texts are in order, and are the same texts, each as often.
pub proof fn lemma_texts_sorted(texts: Seq<Seq<char>>)
    ensures
        in_order(texts_sorted(texts)),
        rearranged(texts_sorted(texts), texts),
    decreases texts.len(),
{
    broadcast use vstd::seq_lib::group_to_multiset_ensures;

    if texts.len() > 0 {
        lemma_texts_sorted(texts.drop_last());
        lemma_text_inserted_in_order(texts_sorted(texts.drop_last()), texts.last());
        assert(texts =~= texts.drop_last().push(texts.last()));
    }
}

/// There is one order of texts, whatever order they came in.
pub proof fn lemma_one_order(a: Seq<Seq<char>>, b: Seq<Seq<char>>)
    requires
        rearranged(a, b),
    ensures
        texts_sorted(a) == texts_sorted(b),
{
    let le = |x: Seq<char>, y: Seq<char>| text_le(x, y);
    lemma_texts_sorted(a);
    lemma_texts_sorted(b);
    assert forall|x: Seq<char>| #[trigger] le(x, x) by {
        lemma_text_le_total(x, x);
    }
    assert forall|x: Seq<char>, y: Seq<char>| #[trigger] le(x, y) || #[trigger] le(y, x) by {
        lemma_text_le_total(x, y);
    }
    assert forall|x: Seq<char>, y: Seq<char>| #[trigger]
        le(x, y) && #[trigger] le(y, x) implies x == y by {
        lemma_text_le_total(x, y);
    }
    assert forall|x: Seq<char>, y: Seq<char>, z: Seq<char>| #[trigger]
        le(x, y) && #[trigger] le(y, z) implies le(x, z) by {
        lemma_text_le_goes_on(x, y, z);
    }
    assert(vstd::relations::total_ordering(le));
    assert(vstd::relations::sorted_by(texts_sorted(a), le));
    assert(vstd::relations::sorted_by(texts_sorted(b), le));
    vstd::seq_lib::lemma_sorted_unique(texts_sorted(a), texts_sorted(b), le);
}

/// `texts` in order.
pub fn sort_texts(texts: Vec<String>) -> (r: Vec<String>)
    ensures
        views(r@) == texts_sorted(views(texts@)),
{
    let ghost all = views(texts@);
    let mut out: Vec<String> = Vec::new();
    let mut i: usize = 0;
    assert(views(out@) =~= texts_sorted(all.take(0)));
    while i < texts.len()
        invariant
            i <= texts.len(),
            all == views(texts@),
            views(out@) == texts_sorted(all.take(i as int)),
        decreases texts.len() - i,
    {
        let mut at: usize = out.len();
        while at > 0 && !at_most(out[at - 1].as_str(), texts[i].as_str())
            invariant
                i < texts.len(),
                at <= out.len(),
                forall|j: int|
                    at <= j < out.len() ==> !text_le(#[trigger] views(out@)[j], texts@[i as int]@),
            decreases at,
        {
            at = at - 1;
        }
        let ghost before = views(out@);
        let text = texts[i].clone();
        out.insert(at, text);
        proof {
            let longer = all.take(i + 1);
            assert(longer.drop_last() =~= all.take(i as int));
            assert(longer.last() == texts@[i as int]@);
            if at > 0 {
                assert(before[at - 1] == out@[at - 1]@);
            }
            lemma_text_inserted_at(before, texts@[i as int]@, at as int);
            assert(views(out@) =~= before.insert(at as int, texts@[i as int]@));
        }
        i = i + 1;
    }
    assert(all.take(i as int) =~= all);
    out
}

/// Copies of `texts`.
pub fn copy_texts(texts: &Vec<String>) -> (r: Vec<String>)
    ensures
        r@ == texts@,
{
    let mut out: Vec<String> = Vec::new();
    let mut i: usize = 0;
    while i < texts.len()
        invariant
            i <= texts.len(),
            out@ == texts@.take(i as int),
        decreases texts.len() - i,
    {
        out.push(texts[i].clone());
        i = i + 1;
        assert(texts@.take(i as int) =~= texts@.take(i - 1).push(texts@[i - 1]));
    }
    assert(texts@.take(i as int) =~= texts@);
    out
}

/// Whether `text` is one of `texts`.
pub fn holds_text(texts: &Vec<String>, text: &str) -> (r: bool)
    ensures
        r == views(texts@).contains(text@),
{
    let mut i: usize = 0;
    while i < texts.len()
        invariant
            i <= texts.len(),
            forall|j: int| 0 <= j < i ==> #[trigger] views(texts@)[j] != text@,
        decreases texts.len() - i,
    {
        if same(texts[i].as_str(), text) {
            assert(views(texts@)[i as int] == text@);
            return true;
        }
        i = i + 1;
    }
    false
}

/// Whether two lists hold the same texts in the same order.
pub fn same_texts(a: &Vec<String>, b: &Vec<String>) -> (r: bool)
    ensures
        r == (views(a@) == views(b@)),
{
    if a.len() != b.len() {
        assert(views(a@).len() != views(b@).len());
        return false;
    }
    let mut i: usize = 0;
    while i < a.len()
        invariant
            i <= a.len() == b.len(),
            forall|j: int| 0 <= j < i ==> #[trigger] views(a@)[j] == views(b@)[j],
        decreases a.len() - i,
    {
        if !same(a[i].as_str(), b[i].as_str()) {
            assert(views(a@)[i as int] != views(b@)[i as int]);
            return false;
        }
        i = i + 1;
    }
    assert(views(a@) =~= views(b@));
    true
}

/// How many bytes a character takes in UTF-8.
pub open spec fn width(c: char) -> nat {
    if (c as u32) < 0x80 {
        1
    } else if (c as u32) < 0x800 {
        2
    } else if (c as u32) < 0x10000 {
        3
    } else {
        4
    }
}

/// How many bytes the first `n` characters of `s` take in UTF-8.
pub open spec fn offset(s: Seq<char>, n: int) -> nat
    decreases n,
{
    if n <= 0 {
        0
    } else {
        offset(s, n - 1) + width(s[n - 1])
    }
}

/// The number of characters that make up the first `bytes` bytes of `s`, where a
/// character ends there.
pub open spec fn prefix_at(s: Seq<char>, bytes: nat) -> Option<int> {
    if exists|n: int| 0 <= n <= s.len() && #[trigger] offset(s, n) == bytes {
        Some(choose|n: int| 0 <= n <= s.len() && #[trigger] offset(s, n) == bytes)
    } else {
        None
    }
}

pub proof fn lemma_offset_grows(s: Seq<char>, a: int, b: int)
    requires
        0 <= a < b,
    ensures
        offset(s, a) < offset(s, b),
    decreases b,
{
    if a < b - 1 {
        lemma_offset_grows(s, a, b - 1);
    }
}

pub proof fn lemma_prefix_at(s: Seq<char>, bytes: nat, n: int)
    requires
        0 <= n <= s.len(),
        offset(s, n) == bytes,
    ensures
        prefix_at(s, bytes) == Some(n),
        offset(s, s.len() as int) > bytes ==> n < s.len(),
{
    let m = prefix_at(s, bytes)->0;
    if m < n {
        lemma_offset_grows(s, m, n);
    } else if n < m {
        lemma_offset_grows(s, n, m);
    }
}

fn char_width(c: char) -> (r: usize)
    ensures
        r == width(c),
{
    let code: u32 = c as u32;
    if code < 0x80 {
        1
    } else if code < 0x800 {
        2
    } else if code < 0x10000 {
        3
    } else {
        4
    }
}

/// The number of characters that make up the first `bytes` bytes of `s`, where a
/// character ends there.
pub fn prefix_of_bytes(s: &str, bytes: usize) -> (r: Option<usize>)
    requires
        bytes <= 64,
    ensures
        match r {
            Some(n) => n <= s@.len() && offset(s@, n as int) == bytes && prefix_at(
                s@,
                bytes as nat,
            ) == Some(n as int),
            None => prefix_at(s@, bytes as nat) is None,
        },
{
    let chars = chars_of(s);
    let mut n: usize = 0;
    let mut sum: usize = 0;
    while n < chars.len() && sum < bytes
        invariant
            n <= chars.len(),
            chars@ == s@,
            bytes <= 64,
            sum == offset(s@, n as int),
            sum <= 68,
            forall|k: int| 0 <= k < n ==> #[trigger] offset(s@, k) < bytes,
        decreases chars.len() - n,
    {
        sum = sum + char_width(chars[n]);
        n = n + 1;
    }
    if sum == bytes {
        proof {
            lemma_prefix_at(s@, bytes as nat, n as int);
        }
        Some(n)
    } else {
        proof {
            assert forall|k: int| 0 <= k <= s@.len() implies #[trigger] offset(s@, k) != bytes by {
                if k > n {
                    lemma_offset_grows(s@, n as int, k);
                }
            }
        }
        None
    }
}

/// What stands in `s` behind the first `needle`, if `needle` stands in `s`.
pub open spec fn after_first(s: Seq<char>, needle: Seq<char>) -> Option<Seq<char>> {
    if occurs(s, needle) {
        let at = choose|at: int| #[trigger] first_at(s, needle, at);
        Some(s.skip(at + needle.len()))
    } else {
        None
    }
}

/// What stands in `s` behind the first `needle`, if `needle` stands in `s`.
pub fn rest_after(s: &str, needle: &str) -> (r: Option<String>)
    ensures
        match r {
            Some(rest) => after_first(s@, needle@) == Some(rest@),
            None => after_first(s@, needle@) is None,
        },
{
    match find(s, needle) {
        None => None,
        Some(at) => {
            let len: usize = needle.unicode_len();
            let chars = chars_of(s);
            proof {
                assert(occurs_at(s@, needle@, at as int));
                let chosen = choose|n: int| #[trigger] first_at(s@, needle@, n);
                if chosen < at {
                    assert(!occurs_at(s@, needle@, chosen));
                } else if at < chosen {
                    assert(!occurs_at(s@, needle@, at as int));
                }
                assert(s@.skip(at + len) =~= chars@.subrange(at + len, chars.len() as int));
            }
            Some(string_of(&chars, at + len, chars.len()))
        },
    }
}

} // verus!
