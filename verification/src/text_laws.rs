//! What the operations on text promise.

use crate::text::{
    all_digits, decimal, digit, digits_value, found, hex_digit, hex_padded, is_digit, is_hex_digit,
    is_space, joined, lemma_first_exists, lemma_found_occurs, lemma_single_spaced, line_len,
    lines_of, occurs_at, parsed_u32, signed_decimal, single_spaced, strip_end, strip_start,
    trimmed, without_cr,
};
use vstd::prelude::*;

verus! {

/// What is taken off at the start are the characters to be dropped, all that stand there, and
/// nothing else.
pub proof fn law_stripped_start(s: Seq<char>, drop: spec_fn(char) -> bool)
    ensures
        ({
            let t = strip_start(s, drop);
            let n = s.len() - t.len();
            &&& t.len() <= s.len()
            &&& t == s.skip(n)
            &&& forall|i: int| 0 <= i < n ==> drop(#[trigger] s[i])
            &&& t.len() > 0 ==> !drop(t[0])
        }),
    decreases s.len(),
{
    if s.len() > 0 && drop(s.first()) {
        let rest = s.drop_first();
        law_stripped_start(rest, drop);
        let t = strip_start(s, drop);
        let n = s.len() - t.len();
        assert(rest.skip(n - 1) =~= s.skip(n));
        assert forall|i: int| 0 <= i < n implies drop(#[trigger] s[i]) by {
            if i > 0 {
                assert(rest[i - 1] == s[i]);
            }
        }
    } else {
        assert(s.skip(0) =~= s);
    }
}

/// What is taken off at the end are the characters to be dropped, all that stand there, and
/// nothing else.
pub proof fn law_stripped_end(s: Seq<char>, drop: spec_fn(char) -> bool)
    ensures
        ({
            let t = strip_end(s, drop);
            &&& t.len() <= s.len()
            &&& t == s.take(t.len() as int)
            &&& forall|i: int| t.len() <= i < s.len() ==> drop(#[trigger] s[i])
            &&& t.len() > 0 ==> !drop(t.last())
        }),
    decreases s.len(),
{
    if s.len() > 0 && drop(s.last()) {
        let rest = s.drop_last();
        law_stripped_end(rest, drop);
        let t = strip_end(s, drop);
        assert(rest.take(t.len() as int) =~= s.take(t.len() as int));
        assert forall|i: int| t.len() <= i < s.len() implies drop(#[trigger] s[i]) by {
            if i < rest.len() {
                assert(rest[i] == s[i]);
            }
        }
    } else {
        assert(s.take(s.len() as int) =~= s);
    }
}

/// Trimming takes off white space at both ends and nothing else: the text is what is left, with
/// white space before and after it, and what is left neither starts nor ends with any.
pub proof fn law_trimmed(s: Seq<char>)
    ensures
        exists|a: Seq<char>, b: Seq<char>|
            s == #[trigger] (a + trimmed(s) + b) && (forall|i: int|
                0 <= i < a.len() ==> is_space(#[trigger] a[i])) && (forall|i: int|
                0 <= i < b.len() ==> is_space(#[trigger] b[i])),
        trimmed(s).len() > 0 ==> !is_space(trimmed(s).first()) && !is_space(trimmed(s).last()),
{
    let sp = |c: char| is_space(c);
    let mid = strip_start(s, sp);
    law_stripped_start(s, sp);
    law_stripped_end(mid, sp);
    let t = trimmed(s);
    let a = s.take(s.len() - mid.len());
    let b = mid.skip(t.len() as int);
    assert(s =~= a + t + b) by {
        assert(s =~= a + mid);
        assert(mid =~= t + b);
    }
    assert forall|i: int| 0 <= i < a.len() implies is_space(#[trigger] a[i]) by {
        assert(sp(s[i]));
    }
    assert forall|i: int| 0 <= i < b.len() implies is_space(#[trigger] b[i]) by {
        assert(sp(mid[t.len() + i]));
    }
}

/// White space is what Unicode calls so.
pub proof fn law_white_space(c: char)
    ensures
        c == ' ' || c == '\t' || c == '\n' || c == '\r' ==> is_space(c),
        '!' <= c <= '~' ==> !is_space(c),
        c == '\u{a0}' || c == '\u{2003}' || c == '\u{3000}' ==> is_space(c),
        c == '\u{200b}' || c == '\u{feff}' ==> !is_space(c),
{
}

/// Making blanks single changes nothing but white space: the other characters stay, in their order.
pub proof fn law_single_blanks_keep_the_words(s: Seq<char>)
    ensures
        single_spaced(s).filter(|c: char| !is_space(c)) == s.filter(|c: char| !is_space(c)),
    decreases s.len(),
{
    let f = |c: char| !is_space(c);
    reveal(Seq::filter);
    if s.len() > 0 {
        let rest = s.drop_last();
        law_single_blanks_keep_the_words(rest);
        let before = single_spaced(rest);
        before.lemma_filter_push(s.last(), f);
        before.lemma_filter_push(' ', f);
    }
}

/// Words stay apart: where white space stands between two characters, a blank stands between what
/// comes of the text before it and of the text after it.
pub proof fn law_single_blanks_keep_words_apart(a: Seq<char>, c: char, d: char)
    requires
        is_space(c),
        !is_space(d),
        a.len() > 0,
        !is_space(a.last()),
    ensures
        single_spaced(a.push(c).push(d)) == single_spaced(a).push(' ').push(d),
        single_spaced(a.push(d)) == single_spaced(a).push(d),
        single_spaced(a.push(c).push(c).push(d)) == single_spaced(a).push(' ').push(d),
{
    lemma_single_spaced(a);
    let one = a.push(c);
    let two = one.push(c);
    assert(one.drop_last() =~= a);
    assert(one.last() == c);
    assert(one[one.len() - 2] == a.last());
    assert(single_spaced(one) == single_spaced(a).push(' '));
    assert(two.drop_last() =~= one);
    assert(two.last() == c);
    assert(two[two.len() - 2] == c);
    assert(single_spaced(two) == single_spaced(one));
    assert(one.push(d).drop_last() =~= one);
    assert(two.push(d).drop_last() =~= two);
    assert(a.push(d).drop_last() =~= a);
}

/// A separator stands between each two parts, and nowhere else.
pub proof fn law_joined(parts: Seq<Seq<char>>, part: Seq<char>, sep: Seq<char>)
    ensures
        joined(Seq::empty(), sep).len() == 0,
        joined(seq![part], sep) == part,
        parts.len() > 0 ==> joined(parts.push(part), sep) == joined(parts, sep) + sep + part,
{
    assert(parts.push(part).drop_last() =~= parts);
}

/// A decimal numeral is made of digits, has no leading zero, and writes its number.
pub proof fn law_decimal(n: nat)
    ensures
        decimal(n).len() > 0,
        all_digits(decimal(n)),
        digits_value(decimal(n)) == n,
        n > 0 ==> decimal(n)[0] != '0',
        n < 10 ==> decimal(n).len() == 1,
    decreases n,
{
    if n < 10 {
        let s = decimal(n);
        assert(s.drop_last() =~= Seq::<char>::empty());
        assert(digits_value(s.drop_last()) == 0);
        assert(s.last() as int == n + 48);
    } else {
        law_decimal(n / 10);
        let s = decimal(n);
        let d = decimal(n / 10);
        assert(s.drop_last() =~= d);
        assert(s.last() as int == n % 10 + 48);
        assert(s[0] == d[0]);
        assert forall|i: int| 0 <= i < s.len() implies is_digit(#[trigger] s[i]) by {
            if i < d.len() {
                assert(d[i] == s[i]);
            }
        }
    }
}

/// A digit counts ten times as much as the same digit after it.
pub proof fn law_digits_count_by_place(s: Seq<char>, c: char)
    requires
        '0' <= c <= '9',
    ensures
        is_digit(c),
        digits_value(Seq::empty()) == 0,
        digits_value(s.push(c)) == 10 * digits_value(s) + (c as int - 48),
        digit(c as int - 48) == c,
{
    assert(s.push(c).drop_last() =~= s);
}

/// A numeral with a sign starts with a minus for a negative number alone.
pub proof fn law_signed_decimal(n: int)
    ensures
        n >= 0 ==> signed_decimal(n) == decimal(n as nat),
        n < 0 ==> signed_decimal(n) == seq!['-'] + decimal((-n) as nat),
{
}

/// A number is read back from its numeral, with or without a plus sign. A text with anything but
/// digits in it, and one whose number does not fit, is no number.
pub proof fn law_numbers_are_read_back(n: u32, s: Seq<char>, i: int)
    ensures
        parsed_u32(decimal(n as nat)) == Some(n),
        parsed_u32(seq!['+'] + decimal(n as nat)) == Some(n),
        parsed_u32(Seq::empty()) is None,
        parsed_u32(seq!['+']) is None,
        0 < i < s.len() && !('0' <= s[i] <= '9') ==> parsed_u32(s) is None,
        s.len() > 0 && s[0] != '+' && !('0' <= s[0] <= '9') ==> parsed_u32(s) is None,
        all_digits(s) && digits_value(s) > 0xffff_ffff ==> parsed_u32(s) is None,
{
    let d = decimal(n as nat);
    law_decimal(n as nat);
    assert(is_digit(d[0]));
    assert((seq!['+'] + d).skip(1) =~= d);
    assert(seq!['+'].skip(1) =~= Seq::<char>::empty());
    if 0 < i < s.len() && !('0' <= s[i] <= '9') {
        assert(!is_digit(s[i]));
        assert(s.skip(1)[i - 1] == s[i]);
        assert(!is_digit(s.skip(1)[i - 1]));
    }
    if s.len() > 0 {
        assert(is_digit(s[0]) == ('0' <= s[0] <= '9'));
    }
}

/// The number that hexadecimal digits in lower case write.
pub open spec fn hex_value(s: Seq<char>) -> nat
    decreases s.len(),
{
    if s.len() == 0 {
        0
    } else {
        let c = s.last();
        16 * hex_value(s.drop_last()) + if '0' <= c <= '9' {
            (c as int - 48) as nat
        } else {
            (c as int - 87) as nat
        }
    }
}

/// The powers of sixteen.
pub open spec fn sixteen_to(width: nat) -> nat
    decreases width,
{
    if width == 0 {
        1
    } else {
        16 * sixteen_to((width - 1) as nat)
    }
}

/// A hexadecimal numeral has its width and writes its number, where that fits.
pub proof fn law_hexadecimal(n: nat, width: nat)
    requires
        n < sixteen_to(width),
    ensures
        hex_padded(n, width).len() == width,
        hex_value(hex_padded(n, width)) == n,
        forall|i: int| 0 <= i < width ==> is_hex_digit(#[trigger] hex_padded(n, width)[i]),
    decreases width,
{
    if width > 0 {
        let m = (width - 1) as nat;
        assert(n / 16 < sixteen_to(m));
        law_hexadecimal(n / 16, m);
        let s = hex_padded(n, width);
        assert(s.drop_last() =~= hex_padded(n / 16, m));
        let d = (n % 16) as int;
        assert(s.last() == hex_digit(d));
        assert(d < 10 ==> s.last() as int == d + 48);
        assert(d >= 10 ==> s.last() as int == d + 87);
    }
}

/// What is found stands there and nowhere before, and what stands anywhere is found.
pub proof fn law_first_is_found(s: Seq<char>, pat: Seq<char>, i: int)
    ensures
        found(s, pat) matches Some(k) ==> 0 <= k && k + pat.len() <= s.len() && s.subrange(
            k,
            k + pat.len(),
        ) == pat,
        0 <= i && i + pat.len() <= s.len() && s.subrange(i, i + pat.len()) == pat ==> (found(s, pat)
            matches Some(k) && k <= i),
{
    lemma_found_occurs(s, pat);
    if occurs_at(s, pat, i) {
        lemma_first_exists(s, pat, i);
    }
}

/// A text up to a line feed is its first line, without a carriage return at its end, and the lines
/// of the rest follow. A text without a line feed is one line, as it is.
pub proof fn law_lines(line: Seq<char>, rest: Seq<char>)
    requires
        forall|i: int| 0 <= i < line.len() ==> #[trigger] line[i] != '\n',
    ensures
        line.len() > 0 ==> lines_of(line) == seq![line],
        lines_of(Seq::empty()).len() == 0,
        line.len() == 0 || line.last() != '\r' ==> lines_of(line + seq!['\n'] + rest) == seq![line]
            + lines_of(rest),
        lines_of(line + seq!['\r', '\n'] + rest) == seq![line] + lines_of(rest),
{
    lemma_no_line_end(line);
    lemma_line_end(line, rest);
    let s = line + seq!['\n'] + rest;
    assert(s.take(line.len() as int) =~= line);
    assert(s.skip(line.len() as int + 1) =~= rest);
    let other = line.push('\r');
    assert forall|i: int| 0 <= i < other.len() implies #[trigger] other[i] != '\n' by {
        if i < line.len() {
            assert(other[i] == line[i]);
        }
    }
    lemma_line_end(other, rest);
    let t = other + seq!['\n'] + rest;
    assert(t =~= line + seq!['\r', '\n'] + rest);
    assert(t.take(other.len() as int) =~= other);
    assert(t.skip(other.len() as int + 1) =~= rest);
    assert(other.drop_last() =~= line);
    assert(without_cr(other) == line);
}

proof fn lemma_no_line_end(line: Seq<char>)
    requires
        forall|i: int| 0 <= i < line.len() ==> #[trigger] line[i] != '\n',
    ensures
        line_len(line) == line.len(),
    decreases line.len(),
{
    if line.len() > 0 {
        let rest = line.drop_first();
        assert forall|i: int| 0 <= i < rest.len() implies #[trigger] rest[i] != '\n' by {
            assert(rest[i] == line[i + 1]);
        }
        lemma_no_line_end(rest);
        assert(line[0] != '\n');
    }
}

proof fn lemma_line_end(line: Seq<char>, rest: Seq<char>)
    requires
        forall|i: int| 0 <= i < line.len() ==> #[trigger] line[i] != '\n',
    ensures
        line_len(line + seq!['\n'] + rest) == line.len(),
    decreases line.len(),
{
    let s = line + seq!['\n'] + rest;
    if line.len() > 0 {
        let shorter = line.drop_first();
        assert forall|i: int| 0 <= i < shorter.len() implies #[trigger] shorter[i] != '\n' by {
            assert(shorter[i] == line[i + 1]);
        }
        lemma_line_end(shorter, rest);
        assert(s.drop_first() =~= shorter + seq!['\n'] + rest);
        assert(s.first() == line[0]);
    } else {
        assert(s.first() == '\n');
    }
}

}
