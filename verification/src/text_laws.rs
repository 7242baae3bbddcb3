//! What holds of the text functions.

use crate::text::{
    after_first, char_at, decimal, digit, digits_value, first_at, first_word, is_digit, is_white,
    joined, last_char_at, leading_digits, leading_word, lowered, occurs, occurs_at, offset, parsed,
    pieces, prefix_at, replaced, starts, text_le, trim_end, trim_start, trimmed, width,
};
use vstd::prelude::*;

verus! {

proof fn lemma_trim_start(s: Seq<char>) -> (n: int)
    ensures
        0 <= n <= s.len(),
        trim_start(s) == s.skip(n),
        forall|i: int| 0 <= i < n ==> is_white(#[trigger] s[i]),
        n < s.len() ==> !is_white(s[n]),
    decreases s.len(),
{
    if s.len() > 0 && is_white(s[0]) {
        let rest = s.subrange(1, s.len() as int);
        let m = lemma_trim_start(rest);
        assert(rest.skip(m) =~= s.skip(m + 1));
        assert forall|i: int| 0 <= i < m + 1 implies is_white(#[trigger] s[i]) by {
            if i > 0 {
                assert(rest[i - 1] == s[i]);
            }
        }
        m + 1
    } else {
        assert(s.skip(0) =~= s);
        0
    }
}

proof fn lemma_trim_end(s: Seq<char>) -> (n: int)
    ensures
        0 <= n <= s.len(),
        trim_end(s) == s.take(n),
        forall|i: int| n <= i < s.len() ==> is_white(#[trigger] s[i]),
        n > 0 ==> !is_white(s[n - 1]),
    decreases s.len(),
{
    if s.len() > 0 && is_white(s.last()) {
        let front = s.drop_last();
        let n = lemma_trim_end(front);
        assert(front.take(n) =~= s.take(n));
        assert forall|i: int| n <= i < s.len() implies is_white(#[trigger] s[i]) by {
            if i < front.len() {
                assert(front[i] == s[i]);
            }
        }
        n
    } else {
        assert(s.take(s.len() as int) =~= s);
        s.len() as int
    }
}

/// `t` is what is left of `s` from `at` on, with nothing but white space around it.
pub open spec fn cut_at(s: Seq<char>, t: Seq<char>, at: int) -> bool {
    &&& 0 <= at && at + t.len() <= s.len()
    &&& t == s.subrange(at, at + t.len())
    &&& forall|i: int| 0 <= i < at || at + t.len() <= i < s.len() ==> is_white(#[trigger] s[i])
}

/// Trimming takes the white space at both ends off, and nothing else: what is left
/// begins and ends with another character. A blank text leaves nothing.
pub proof fn law_trimming_takes_the_ends_off(s: Seq<char>)
    ensures
        exists|at: int| #[trigger] cut_at(s, trimmed(s), at),
        trimmed(s).len() > 0 ==> !is_white(trimmed(s)[0]) && !is_white(trimmed(s).last()),
        trimmed(s).len() == 0 <==> forall|i: int| 0 <= i < s.len() ==> is_white(#[trigger] s[i]),
        trimmed(trimmed(s)) == trimmed(s),
        forall|c: char| '!' <= c <= '~' ==> !#[trigger] is_white(c),
        is_white(' ') && is_white('\t') && is_white('\n') && is_white('\r'),
{
    let n = lemma_trim_start(s);
    let rest = s.skip(n);
    let m = lemma_trim_end(rest);
    let t = trimmed(s);
    assert(t =~= s.subrange(n, n + m));
    assert forall|i: int| 0 <= i < n || n + t.len() <= i < s.len() implies is_white(
        #[trigger] s[i],
    ) by {
        if i >= n {
            assert(rest[i - n] == s[i]);
        }
    }
    assert(cut_at(s, t, n));
    if t.len() > 0 {
        assert(t[0] == s[n]);
        assert(t.last() == rest[m - 1]);
    } else if n < s.len() {
        assert(is_white(s[n]));
    }
    if forall|i: int| 0 <= i < s.len() ==> is_white(#[trigger] s[i]) {
        if t.len() > 0 {
            assert(is_white(s[n]));
        }
    }
    let k = lemma_trim_start(t);
    let l = lemma_trim_end(t.skip(k));
    if t.len() > 0 {
        assert(k == 0) by {
            if k > 0 {
                assert(is_white(t[0]));
            }
        }
        assert(t.skip(0) =~= t);
        assert(l == t.len()) by {
            if l < t.len() {
                assert(is_white(t[t.len() - 1]));
            }
        }
        assert(t.take(l) =~= t);
    } else {
        assert(trimmed(t) =~= t);
    }
}

/// Folding to lower case changes the letters `A` to `Z` to `a` to `z` and nothing else.
pub proof fn law_lowering_folds_capitals(s: Seq<char>)
    ensures
        lowered(s).len() == s.len(),
        forall|i: int|
            0 <= i < s.len() && 'A' <= s[i] <= 'Z' ==> #[trigger] lowered(s)[i] as u32 == s[i] as u32
                + 32,
        forall|i: int|
            0 <= i < s.len() && !('A' <= s[i] <= 'Z') ==> #[trigger] lowered(s)[i] == s[i],
        lowered(lowered(s)) == lowered(s),
{
    assert(lowered(lowered(s)) =~= lowered(s));
}

/// Replacing a character leaves all others and the length as they are.
pub proof fn law_replacing_is_char_by_char(s: Seq<char>, from: char, to: char)
    ensures
        replaced(s, from, to).len() == s.len(),
        forall|i: int|
            0 <= i < s.len() && s[i] == from ==> #[trigger] replaced(s, from, to)[i] == to,
        forall|i: int|
            0 <= i < s.len() && s[i] != from ==> #[trigger] replaced(s, from, to)[i] == s[i],
{
}

proof fn lemma_decimal_digits(n: nat)
    ensures
        decimal(n).len() > 0,
        forall|i: int| 0 <= i < decimal(n).len() ==> is_digit(#[trigger] decimal(n)[i]),
        digits_value(decimal(n)) == n,
        n > 0 ==> decimal(n)[0] != '0',
    decreases n,
{
    if n < 10 {
        let one = seq![digit(n)];
        assert(one.drop_last() =~= Seq::empty());
        reveal_with_fuel(digits_value, 2);
    } else {
        lemma_decimal_digits(n / 10);
        assert(decimal(n).drop_last() =~= decimal(n / 10));
    }
}

/// Numbers are written in decimal, without leading zeros, and read as they were written,
/// up to the limit; a written number above it is none. A leading `+` changes nothing.
pub proof fn law_numbers_are_read_as_written(n: nat, d: nat, max: nat)
    requires
        d < 10,
    ensures
        decimal(d) == seq![digit(d)],
        digit(d) as u32 == 48 + d,
        n > 0 ==> decimal(n * 10 + d) == decimal(n).push(digit(d)),
        n <= max ==> parsed(decimal(n), max) == Some(n),
        n > max ==> parsed(decimal(n), max) is None,
        n <= max ==> parsed(seq!['+'] + decimal(n), max) == Some(n),
        n > 0 ==> decimal(n)[0] != '0',
        parsed(Seq::empty(), max) is None,
{
    lemma_decimal_digits(n);
    assert((n * 10 + d) / 10 == n && (n * 10 + d) % 10 == d);
    assert(decimal(n)[0] != '+') by {
        assert(is_digit(decimal(n)[0]));
    }
    let signed = seq!['+'] + decimal(n);
    assert(signed.subrange(1, signed.len() as int) =~= decimal(n));
    assert(crate::text::all_digits(decimal(n)));
}

/// What holds anything but digits, beside a leading `+`, is no number.
pub proof fn law_numbers_are_digits(s: Seq<char>, max: nat, i: int)
    requires
        0 <= i < s.len(),
        !is_digit(s[i]),
        i > 0 || s[0] != '+',
    ensures
        parsed(s, max) is None,
        forall|c: char| #[trigger] is_digit(c) <==> '0' <= c <= '9',
{
    let part = crate::text::unsigned_part(s);
    if s[0] == '+' {
        assert(part[i - 1] == s[i]);
        assert(!is_digit(part[i - 1]));
    } else {
        assert(!is_digit(part[i]));
    }
}

/// The pieces of a text hold no separator and, joined by it, are the text again.
pub proof fn law_pieces_join_to_the_whole(s: Seq<char>, sep: char)
    ensures
        pieces(s, sep).len() >= 1,
        joined(pieces(s, sep), seq![sep]) == s,
        forall|i: int| 0 <= i < pieces(s, sep).len() ==> !(#[trigger] pieces(s, sep)[i]).contains(sep),
    decreases s.len(),
{
    crate::text::lemma_pieces_nonempty(s, sep);
    if s.len() == 0 {
        assert(joined(pieces(s, sep), seq![sep]) =~= s);
    } else {
        let front = s.drop_last();
        law_pieces_join_to_the_whole(front, sep);
        let before = pieces(front, sep);
        let all = pieces(s, sep);
        assert(s =~= front.push(s.last()));
        if s.last() == sep {
            assert(all.drop_last() =~= before);
            assert(joined(all, seq![sep]) =~= s);
        } else {
            let grown = before.last().push(s.last());
            assert(all.drop_last() =~= before.drop_last());
            if before.len() == 1 {
                assert(joined(all, seq![sep]) =~= s);
            } else {
                let rest = joined(before.drop_last(), seq![sep]) + seq![sep];
                assert(joined(before, seq![sep]) == rest + before.last());
                assert(joined(all, seq![sep]) == rest + grown);
                assert(rest + grown =~= (rest + before.last()).push(s.last()));
            }
            assert forall|i: int| 0 <= i < all.len() implies !(#[trigger] all[i]).contains(sep) by {
                if i < before.len() - 1 {
                    assert(all[i] == before[i]);
                } else {
                    assert(!before[before.len() - 1].contains(sep));
                    if grown.contains(sep) {
                        let k = choose|k: int| 0 <= k < grown.len() && grown[k] == sep;
                        assert(k < before.last().len());
                        assert(before.last()[k] == sep);
                    }
                }
            }
        }
    }
}

/// Joined texts come in their order with the separator between them.
pub proof fn law_joined_texts_come_in_order(a: Seq<Seq<char>>, last: Seq<char>, sep: Seq<char>)
    ensures
        joined(Seq::empty(), sep).len() == 0,
        joined(seq![last], sep) == last,
        a.len() > 0 ==> joined(a.push(last), sep) == joined(a, sep) + sep + last,
{
    if a.len() > 0 {
        assert(a.push(last).drop_last() =~= a);
    }
}

/// The first and the last place of a character.
pub proof fn law_places_of_a_character(s: Seq<char>, c: char)
    ensures
        char_at(s, c) matches Some(at) ==> {
            &&& 0 <= at < s.len() && s[at] == c
            &&& forall|i: int| 0 <= i < at ==> #[trigger] s[i] != c
        },
        last_char_at(s, c) matches Some(at) ==> {
            &&& 0 <= at < s.len() && s[at] == c
            &&& forall|i: int| at < i < s.len() ==> #[trigger] s[i] != c
        },
        char_at(s, c) is None <==> !s.contains(c),
        last_char_at(s, c) is None <==> !s.contains(c),
    decreases s.len(),
{
    if s.len() > 0 {
        let front = s.drop_last();
        law_places_of_a_character(front, c);
        if front.contains(c) {
            let i = choose|i: int| 0 <= i < front.len() && front[i] == c;
            assert(s[i] == c);
        }
        if s.contains(c) && s.last() != c {
            let i = choose|i: int| 0 <= i < s.len() && s[i] == c;
            assert(front[i] == c);
        }
        assert(s[s.len() - 1] == s.last());
        assert(forall|i: int| 0 <= i < front.len() ==> #[trigger] s[i] == front[i]);
        if char_at(s, c) is Some {
            let at = char_at(s, c)->0;
            assert forall|i: int| 0 <= i < at implies #[trigger] s[i] != c by {
                assert(front[i] == s[i]);
                if char_at(front, c) is None {
                    assert(!front.contains(c));
                }
            }
        }
        if last_char_at(s, c) is Some && s.last() != c {
            let at = last_char_at(s, c)->0;
            assert forall|i: int| at < i < s.len() implies #[trigger] s[i] != c by {
                if i < front.len() {
                    assert(front[i] == s[i]);
                }
            }
        }
    }
}

/// The digits at the front of a text are all that stand there before anything else.
pub proof fn law_leading_digits_are_the_front(s: Seq<char>)
    ensures
        ({
            let n = leading_digits(s).len();
            &&& n <= s.len()
            &&& leading_digits(s) == s.take(n as int)
            &&& forall|i: int| 0 <= i < n ==> is_digit(#[trigger] s[i])
            &&& n < s.len() ==> !is_digit(s[n as int])
        }),
    decreases s.len(),
{
    if s.len() > 0 && is_digit(s[0]) {
        let rest = s.skip(1);
        law_leading_digits_are_the_front(rest);
        let n = leading_digits(s).len();
        assert(leading_digits(s) =~= s.take(n as int));
        assert forall|i: int| 0 <= i < n implies is_digit(#[trigger] s[i]) by {
            if i > 0 {
                assert(rest[i - 1] == s[i]);
            }
        }
        if n < s.len() {
            assert(rest[n - 1] == s[n as int]);
        }
    } else {
        assert(leading_digits(s) =~= s.take(0));
    }
}

proof fn lemma_leading_word(s: Seq<char>)
    ensures
        ({
            let n = leading_word(s).len();
            &&& n <= s.len()
            &&& leading_word(s) == s.take(n as int)
            &&& forall|i: int| 0 <= i < n ==> !is_white(#[trigger] s[i])
            &&& n < s.len() ==> is_white(s[n as int])
        }),
    decreases s.len(),
{
    if s.len() > 0 && !is_white(s[0]) {
        let rest = s.skip(1);
        lemma_leading_word(rest);
        let n = leading_word(s).len();
        assert(leading_word(s) =~= s.take(n as int));
        assert forall|i: int| 0 <= i < n implies !is_white(#[trigger] s[i]) by {
            if i > 0 {
                assert(rest[i - 1] == s[i]);
            }
        }
        if n < s.len() {
            assert(rest[n - 1] == s[n as int]);
        }
    } else {
        assert(leading_word(s) =~= s.take(0));
    }
}

/// `word` stands in `s` from `at` on, behind nothing but white space, and ends where
/// white space or the text's end follows.
pub open spec fn word_at(s: Seq<char>, word: Seq<char>, at: int) -> bool {
    &&& word.len() > 0 && occurs_at(s, word, at)
    &&& forall|i: int| 0 <= i < at ==> is_white(#[trigger] s[i])
    &&& forall|i: int| at <= i < at + word.len() ==> !is_white(#[trigger] s[i])
    &&& at + word.len() < s.len() ==> is_white(s[at + word.len()])
}

/// The first word of a text; a blank text has none.
pub proof fn law_first_word(s: Seq<char>)
    ensures
        first_word(s) is Some ==> exists|at: int| #[trigger] word_at(s, first_word(s)->0, at),
        first_word(s) is None <==> forall|i: int| 0 <= i < s.len() ==> is_white(#[trigger] s[i]),
{
    let n = lemma_trim_start(s);
    let rest = s.skip(n);
    lemma_leading_word(rest);
    let word = leading_word(rest);
    if word.len() > 0 {
        assert(word =~= s.subrange(n, n + word.len()));
        assert forall|i: int| n <= i < n + word.len() implies !is_white(#[trigger] s[i]) by {
            assert(rest[i - n] == s[i]);
        }
        if n + word.len() < s.len() {
            assert(rest[word.len() as int] == s[n + word.len()]);
        }
        assert(occurs_at(s, word, n));
        assert(word_at(s, word, n));
        assert(first_word(s) == Some(word));
        assert(!is_white(s[n]));
    } else if n < s.len() {
        assert(rest[0] == s[n]);
    }
    if first_word(s) is Some {
        assert(word_at(s, first_word(s)->0, n));
    }
}

/// What stands behind the first place of a text in another: all that follows it, where
/// it stands there at all.
pub proof fn law_rest_after_the_first(a: Seq<char>, needle: Seq<char>, b: Seq<char>)
    ensures
        occurs(a + needle + b, needle),
        starts(needle + b, needle),
        (forall|j: int| 0 <= j < a.len() ==> !#[trigger] occurs_at(a + needle + b, needle, j))
            ==> after_first(a + needle + b, needle) == Some(b),
        !occurs(a, needle) ==> after_first(a, needle) is None,
{
    let s = a + needle + b;
    assert(s.subrange(a.len() as int, (a.len() + needle.len()) as int) =~= needle);
    assert(occurs_at(s, needle, a.len() as int));
    assert((needle + b).subrange(0, needle.len() as int) =~= needle);
    if forall|j: int| 0 <= j < a.len() ==> !#[trigger] occurs_at(s, needle, j) {
        assert(first_at(s, needle, a.len() as int));
        let at = choose|at: int| #[trigger] first_at(s, needle, at);
        assert(at == a.len()) by {
            if at < a.len() {
                assert(!occurs_at(s, needle, at));
            } else if at > a.len() {
                assert(!occurs_at(s, needle, a.len() as int));
            }
        }
        assert(s.skip((a.len() + needle.len()) as int) =~= b);
    }
}

/// A text stands in another where the latter is it with something before and behind.
pub proof fn law_occurrence_splits_the_text(s: Seq<char>, needle: Seq<char>, at: int)
    requires
        occurs_at(s, needle, at),
    ensures
        s == s.take(at) + needle + s.skip(at + needle.len()),
        occurs(s, needle),
{
    assert(s =~= s.take(at) + s.subrange(at, at + needle.len()) + s.skip(at + needle.len()));
}

/// Texts are ordered by their first difference; the front of a text comes before it.
pub proof fn law_texts_are_ordered_by_their_first_difference(
    front: Seq<char>,
    a: Seq<char>,
    b: Seq<char>,
)
    ensures
        text_le(front, front + b),
        b.len() > 0 ==> !text_le(front + b, front),
        a.len() > 0 && b.len() > 0 && a[0] < b[0] ==> text_le(front + a, front + b)
            && !text_le(front + b, front + a),
    decreases front.len(),
{
    if front.len() == 0 {
        assert(front + a =~= a);
        assert(front + b =~= b);
    } else {
        let rest = front.skip(1);
        law_texts_are_ordered_by_their_first_difference(rest, a, b);
        assert((front + a).skip(1) =~= rest + a);
        assert((front + b).skip(1) =~= rest + b);
    }
}

/// Characters take one to four bytes; a front part ends after so many bytes exactly
/// where its characters take as many.
pub proof fn law_byte_places(s: Seq<char>, n: int, bytes: nat)
    requires
        0 <= n <= s.len(),
    ensures
        forall|c: char| (c as u32) < 128 ==> #[trigger] width(c) == 1,
        forall|c: char| 128 <= (c as u32) < 2048 ==> #[trigger] width(c) == 2,
        forall|c: char| 2048 <= (c as u32) < 65536 ==> #[trigger] width(c) == 3,
        forall|c: char| 65536 <= (c as u32) ==> #[trigger] width(c) == 4,
        offset(s, 0) == 0,
        n > 0 ==> offset(s, n) == offset(s, n - 1) + width(s[n - 1]),
        prefix_at(s, bytes) == Some(n) <==> offset(s, n) == bytes,
{
    if offset(s, n) == bytes {
        crate::text::lemma_prefix_at(s, bytes, n);
    }
}

/// White space around a text changes nothing of what trimming leaves of it.
pub proof fn law_trimming_leaves_the_middle(a: Seq<char>, t: Seq<char>, b: Seq<char>)
    requires
        forall|i: int| 0 <= i < a.len() ==> is_white(#[trigger] a[i]),
        forall|i: int| 0 <= i < b.len() ==> is_white(#[trigger] b[i]),
        t.len() > 0,
        !is_white(t[0]),
        !is_white(t.last()),
    ensures
        trimmed(a + t + b) == t,
{
    let s = a + t + b;
    law_trimming_takes_the_ends_off(s);
    let r = trimmed(s);
    let at = choose|at: int| #[trigger] cut_at(s, r, at);
    let n = a.len() as int;
    assert(s[n] == t[0]);
    assert(r.len() > 0) by {
        if r.len() == 0 {
            assert(is_white(s[n]));
        }
    }
    assert(r[0] == s[at]);
    assert(r.last() == s[at + r.len() - 1]);
    if at < n {
        assert(s[at] == a[at]);
    } else if at > n {
        assert(is_white(s[n]));
    }
    let end = at + r.len();
    let m = n + t.len();
    assert(s[m - 1] == t.last());
    if end < m {
        assert(is_white(s[m - 1]));
    } else if end > m {
        assert(s[end - 1] == b[end - 1 - m]);
    }
    assert(r =~= t);
}

/// The first word is found behind white space, up to white space or the end.
pub proof fn law_first_word_is_found(a: Seq<char>, word: Seq<char>, b: Seq<char>)
    requires
        forall|i: int| 0 <= i < a.len() ==> is_white(#[trigger] a[i]),
        forall|i: int| 0 <= i < word.len() ==> !is_white(#[trigger] word[i]),
        word.len() > 0,
        b.len() > 0 ==> is_white(b[0]),
    ensures
        first_word(a + word + b) == Some(word),
{
    let s = a + word + b;
    law_first_word(s);
    let n = a.len() as int;
    assert(s[n] == word[0]);
    assert(first_word(s) is Some) by {
        if first_word(s) is None {
            assert(is_white(s[n]));
        }
    }
    let w = first_word(s)->0;
    let at = choose|at: int| #[trigger] word_at(s, w, at);
    assert(!is_white(s[at]));
    if at < n {
        assert(s[at] == a[at]);
    } else if at > n {
        assert(is_white(s[n]));
    }
    if w.len() < word.len() {
        assert(s[n + w.len()] == word[w.len() as int]);
    } else if w.len() > word.len() {
        assert(s[n + word.len()] == b[0]);
        assert(!is_white(s[n + word.len()]));
    }
    assert(w =~= word) by {
        assert(s.subrange(at, at + w.len()) =~= word);
    }
}

/// A written number is all of the leading digits where no digit follows it.
pub proof fn law_written_numbers_are_digits(n: nat, rest: Seq<char>)
    requires
        rest.len() > 0 ==> !is_digit(rest[0]),
    ensures
        leading_digits(decimal(n) + rest) == decimal(n),
        forall|i: int| 0 <= i < decimal(n).len() ==> is_digit(#[trigger] decimal(n)[i]),
        decimal(n).len() > 0,
{
    lemma_decimal_digits(n);
    let d = decimal(n);
    let s = d + rest;
    law_leading_digits_are_the_front(s);
    let k = leading_digits(s).len();
    if k < d.len() {
        assert(s[k as int] == d[k as int]);
    } else if k > d.len() {
        assert(s[d.len() as int] == rest[0]);
    }
    assert(s.take(k as int) =~= d);
}

} // verus!
