//! Text operations on strings seen as sequences of characters.

use vstd::prelude::*;

verus! {

/// `String::push`: the string gains the character at its end.
pub assume_specification[ String::push ](s: &mut String, c: char)
    ensures
        final(s)@ == old(s)@.push(c),
;

/// `str`'s own `==`: two string slices are equal when they hold the same characters.
#[verifier::external_body]
pub(crate) fn str_eq(a: &str, b: &str) -> (r: bool)
    ensures
        r == (a@ == b@),
{
    a == b
}

/// The characters of an optional string.
pub open spec fn opt_view(s: Option<String>) -> Option<Seq<char>> {
    match s {
        Some(v) => Some(v@),
        None => None,
    }
}

/// The characters of `s`, in order.
pub fn chars_of(s: &str) -> (r: Vec<char>)
    ensures
        r@ == s@,
{
    let mut out: Vec<char> = Vec::new();
    for c in it: s.chars()
        invariant
            out@ == it.seq().take(it.index()),
            it.seq() == s@,
    {
        out.push(c);
    }
    out
}

/// The string made of the characters `cs[lo..hi]`.
pub fn string_of(cs: &Vec<char>, lo: usize, hi: usize) -> (r: String)
    requires
        lo <= hi <= cs@.len(),
    ensures
        r@ == cs@.subrange(lo as int, hi as int),
{
    let mut out = String::new();
    for i in lo..hi
        invariant
            lo <= hi <= cs@.len(),
            out@ == cs@.subrange(lo as int, i as int),
    {
        out.push(cs[i]);
        assert(cs@.subrange(lo as int, i + 1) =~= cs@.subrange(lo as int, i as int).push(
            cs@[i as int],
        ));
    }
    out
}

/// The characters with the Unicode property `White_Space`.
pub open spec fn is_space(c: char) -> bool {
    ||| '\u{9}' <= c <= '\u{d}'
    ||| c == '\u{20}'
    ||| c == '\u{85}'
    ||| c == '\u{a0}'
    ||| c == '\u{1680}'
    ||| '\u{2000}' <= c <= '\u{200a}'
    ||| c == '\u{2028}'
    ||| c == '\u{2029}'
    ||| c == '\u{202f}'
    ||| c == '\u{205f}'
    ||| c == '\u{3000}'
}

/// Whether `c` is white space.
pub fn is_whitespace(c: char) -> (r: bool)
    ensures
        r == is_space(c),
{
    ('\u{9}' <= c && c <= '\u{d}') || c == '\u{20}' || c == '\u{85}' || c == '\u{a0}' || c
        == '\u{1680}' || ('\u{2000}' <= c && c <= '\u{200a}') || c == '\u{2028}' || c == '\u{2029}'
        || c == '\u{202f}' || c == '\u{205f}' || c == '\u{3000}'
}

/// `s` without its leading characters that satisfy `drop`.
pub open spec fn strip_start(s: Seq<char>, drop: spec_fn(char) -> bool) -> Seq<char>
    decreases s.len(),
{
    if s.len() > 0 && drop(s.first()) {
        strip_start(s.drop_first(), drop)
    } else {
        s
    }
}

/// `s` without its trailing characters that satisfy `drop`.
pub open spec fn strip_end(s: Seq<char>, drop: spec_fn(char) -> bool) -> Seq<char>
    decreases s.len(),
{
    if s.len() > 0 && drop(s.last()) {
        strip_end(s.drop_last(), drop)
    } else {
        s
    }
}

/// `s` without the white space at either end.
pub open spec fn trimmed(s: Seq<char>) -> Seq<char> {
    strip_end(strip_start(s, |c: char| is_space(c)), |c: char| is_space(c))
}

/// `s` without the white space at either end.
pub fn trim(s: &str) -> (r: String)
    ensures
        r@ == trimmed(s@),
{
    let cs = chars_of(s);
    let n: usize = cs.len();
    let ghost sp = |c: char| is_space(c);
    let mut lo: usize = 0;
    assert(cs@.skip(0) =~= s@);
    while lo < n && is_whitespace(cs[lo])
        invariant
            lo <= n == cs@.len(),
            cs@ == s@,
            sp == (|c: char| is_space(c)),
            strip_start(cs@.skip(lo as int), sp) == strip_start(s@, sp),
        decreases n - lo,
    {
        assert(cs@.skip(lo as int).drop_first() =~= cs@.skip(lo + 1));
        lo = lo + 1;
        assert(cs@.skip(lo as int) == cs@.skip(lo - 1).drop_first());
    }
    assert(strip_start(cs@.skip(lo as int), sp) =~= cs@.skip(lo as int));
    let mut hi: usize = n;
    while hi > lo && is_whitespace(cs[hi - 1])
        invariant
            lo <= hi <= n == cs@.len(),
            sp == (|c: char| is_space(c)),
            strip_end(cs@.subrange(lo as int, hi as int), sp) == strip_end(
                cs@.skip(lo as int),
                sp,
            ),
        decreases hi,
    {
        assert(cs@.subrange(lo as int, hi as int).drop_last() =~= cs@.subrange(
            lo as int,
            hi - 1,
        ));
        assert(cs@.subrange(lo as int, hi as int).last() == cs@[hi - 1]);
        hi = hi - 1;
    }
    string_of(&cs, lo, hi)
}

/// `s` with one blank in place of each run of white space.
pub open spec fn single_spaced(s: Seq<char>) -> Seq<char>
    decreases s.len(),
{
    if s.len() == 0 {
        s
    } else {
        let before = single_spaced(s.drop_last());
        if !is_space(s.last()) {
            before.push(s.last())
        } else if s.len() > 1 && is_space(s[s.len() - 2]) {
            before
        } else {
            before.push(' ')
        }
    }
}

/// Whether each white space is a single blank between other characters or at an end.
pub open spec fn is_single_spaced(s: Seq<char>) -> bool {
    &&& forall|i: int| 0 <= i < s.len() && is_space(#[trigger] s[i]) ==> s[i] == ' '
    &&& forall|i: int, j: int|
        0 <= i && j == i + 1 && j < s.len() ==> !(is_space(#[trigger] s[i]) && is_space(
            #[trigger] s[j],
        ))
}

/// What is left of a run of white space is one blank.
pub proof fn lemma_single_spaced(s: Seq<char>)
    ensures
        is_single_spaced(single_spaced(s)),
        single_spaced(s).len() == 0 <==> s.len() == 0,
        s.len() > 0 ==> is_space(single_spaced(s).last()) == is_space(s.last()),
    decreases s.len(),
{
    if s.len() > 0 {
        lemma_single_spaced(s.drop_last());
    }
}

/// White space in front comes to a blank in front, or to nothing more where there is one.
proof fn lemma_single_spaced_front(c: char, s: Seq<char>)
    requires
        is_space(c),
    ensures
        single_spaced(seq![c] + s) == if s.len() > 0 && is_space(s[0]) {
            single_spaced(s)
        } else {
            seq![' '] + single_spaced(s)
        },
    decreases s.len(),
{
    let t = seq![c] + s;
    if s.len() == 0 {
        assert(t.drop_last() =~= Seq::<char>::empty());
        assert(single_spaced(t.drop_last()) =~= Seq::<char>::empty());
        assert(single_spaced(t) =~= seq![' '] + single_spaced(s));
    } else {
        assert(t.drop_last() =~= seq![c] + s.drop_last());
        assert(t.last() == s.last());
        lemma_single_spaced_front(c, s.drop_last());
        if s.len() == 1 {
            assert(s.drop_last() =~= Seq::<char>::empty());
            assert(single_spaced(s.drop_last()) =~= Seq::<char>::empty());
            assert(t[t.len() - 2] == c);
            if is_space(s.last()) {
                assert(single_spaced(t) =~= single_spaced(s));
            } else {
                assert(single_spaced(t) =~= seq![' '] + single_spaced(s));
            }
        } else {
            assert(t[t.len() - 2] == s[s.len() - 2]);
            assert(s.drop_last()[0] == s[0]);
            let before = single_spaced(s.drop_last());
            assert((seq![' '] + before).push(s.last()) =~= seq![' '] + before.push(s.last()));
            assert((seq![' '] + before).push(' ') =~= seq![' '] + before.push(' '));
        }
    }
}

/// White space in front is trimmed.
proof fn lemma_trimmed_front(c: char, s: Seq<char>)
    requires
        is_space(c),
    ensures
        trimmed(seq![c] + s) == trimmed(s),
{
    let sp = |c: char| is_space(c);
    assert((seq![c] + s).drop_first() =~= s);
    assert(strip_start(seq![c] + s, sp) == strip_start(s, sp));
}

/// White space at the end is trimmed.
proof fn lemma_trimmed_back(s: Seq<char>, c: char)
    requires
        is_space(c),
    ensures
        trimmed(s.push(c)) == trimmed(s),
    decreases s.len(),
{
    let sp = |c: char| is_space(c);
    if s.len() > 0 && is_space(s.first()) {
        assert(s.push(c).drop_first() =~= s.drop_first().push(c));
        lemma_trimmed_back(s.drop_first(), c);
    } else if s.len() > 0 {
        assert(strip_start(s.push(c), sp) =~= s.push(c));
        assert(strip_start(s, sp) =~= s);
        assert(s.push(c).drop_last() =~= s);
    } else {
        assert(s.push(c).drop_first() =~= s);
    }
}

/// White space around a text leaves nothing behind, once runs of it are made one blank and the
/// ends are trimmed.
pub proof fn lemma_padding(a: Seq<char>, s: Seq<char>, b: Seq<char>)
    requires
        forall|i: int| 0 <= i < a.len() ==> is_space(#[trigger] a[i]),
        forall|i: int| 0 <= i < b.len() ==> is_space(#[trigger] b[i]),
    ensures
        trimmed(single_spaced(a + s + b)) == trimmed(single_spaced(s)),
    decreases a.len() + b.len(),
{
    let whole = a + s + b;
    if a.len() > 0 {
        let rest = a.drop_first() + s + b;
        assert(whole =~= seq![a[0]] + rest);
        lemma_single_spaced_front(a[0], rest);
        lemma_trimmed_front(' ', single_spaced(rest));
        lemma_padding(a.drop_first(), s, b);
    } else if b.len() > 0 {
        let rest = a + s + b.drop_last();
        assert(whole.drop_last() =~= rest);
        assert(whole.last() == b.last());
        lemma_trimmed_back(single_spaced(rest), ' ');
        lemma_padding(a, s, b.drop_last());
    } else {
        assert(whole =~= s);
    }
}

/// A trimmed text is a part of the text, and has no white space at its ends.
pub proof fn lemma_trimmed(s: Seq<char>)
    ensures
        exists|lo: int, hi: int|
            0 <= lo <= hi <= s.len() && trimmed(s) == #[trigger] s.subrange(lo, hi),
        trimmed(s).len() > 0 ==> !is_space(trimmed(s).first()) && !is_space(trimmed(s).last()),
{
    let sp = |c: char| is_space(c);
    lemma_strip_start(s);
    let t = strip_start(s, sp);
    lemma_strip_end(t);
    let lo = choose|lo: int| 0 <= lo <= s.len() && t == #[trigger] s.skip(lo);
    let n = choose|n: int| 0 <= n <= t.len() && strip_end(t, sp) == #[trigger] t.take(n);
    assert(t.take(n) =~= s.subrange(lo, lo + n));
}

proof fn lemma_strip_start(s: Seq<char>)
    ensures
        ({
            let t = strip_start(s, |c: char| is_space(c));
            &&& exists|lo: int| 0 <= lo <= s.len() && t == #[trigger] s.skip(lo)
            &&& t.len() > 0 ==> !is_space(t.first())
        }),
    decreases s.len(),
{
    let sp = |c: char| is_space(c);
    if s.len() > 0 && is_space(s.first()) {
        let rest = s.drop_first();
        lemma_strip_start(rest);
        let lo = choose|lo: int|
            0 <= lo <= rest.len() && strip_start(rest, sp) == #[trigger] rest.skip(lo);
        assert(rest.skip(lo) =~= s.skip(lo + 1));
    } else {
        assert(s.skip(0) =~= s);
    }
}

proof fn lemma_strip_end(s: Seq<char>)
    ensures
        ({
            let t = strip_end(s, |c: char| is_space(c));
            &&& exists|n: int| 0 <= n <= s.len() && t == #[trigger] s.take(n)
            &&& t.len() > 0 ==> !is_space(t.last())
        }),
    decreases s.len(),
{
    let sp = |c: char| is_space(c);
    if s.len() > 0 && is_space(s.last()) {
        let rest = s.drop_last();
        lemma_strip_end(rest);
        let n = choose|n: int|
            0 <= n <= rest.len() && strip_end(rest, sp) == #[trigger] rest.take(n);
        assert(rest.take(n) =~= s.take(n));
    } else {
        assert(s.take(s.len() as int) =~= s);
    }
}

/// `s` without its trailing characters `a` and `b`.
pub fn trim_end_of(s: &str, a: char, b: char) -> (r: String)
    ensures
        r@ == strip_end(s@, |c: char| c == a || c == b),
{
    let cs = chars_of(s);
    let mut hi: usize = cs.len();
    let ghost drop = |c: char| c == a || c == b;
    assert(cs@.subrange(0, hi as int) =~= s@);
    while hi > 0 && (cs[hi - 1] == a || cs[hi - 1] == b)
        invariant
            hi <= cs@.len(),
            drop == (|c: char| c == a || c == b),
            strip_end(cs@.subrange(0, hi as int), drop) == strip_end(s@, drop),
        decreases hi,
    {
        assert(cs@.subrange(0, hi as int).drop_last() =~= cs@.subrange(0, hi - 1));
        hi = hi - 1;
    }
    string_of(&cs, 0, hi)
}

/// The parts in order, with `sep` between each two.
pub open spec fn joined(parts: Seq<Seq<char>>, sep: Seq<char>) -> Seq<char>
    decreases parts.len(),
{
    if parts.len() == 0 {
        Seq::empty()
    } else if parts.len() == 1 {
        parts[0]
    } else {
        joined(parts.drop_last(), sep) + sep + parts.last()
    }
}

/// The characters of each string of a list.
pub open spec fn views(list: Seq<String>) -> Seq<Seq<char>> {
    list.map_values(|s: String| s@)
}

/// The strings of `parts` in order, with `sep` between each two.
pub fn join(parts: &Vec<String>, sep: &str) -> (r: String)
    ensures
        r@ == joined(views(parts@), sep@),
{
    let mut out = String::new();
    for i in 0..parts.len()
        invariant
            out@ == joined(views(parts@).take(i as int), sep@),
    {
        let ghost now = views(parts@).take(i + 1);
        assert(now.drop_last() =~= views(parts@).take(i as int));
        assert(now.last() == parts@[i as int]@);
        if i > 0 {
            out.append(sep);
        } else {
            assert(out@ =~= Seq::<char>::empty());
            assert(Seq::<char>::empty() + now[0] =~= now[0]);
        }
        out.append(parts[i].as_str());
    }
    assert(views(parts@).take(parts@.len() as int) =~= views(parts@));
    out
}

/// The decimal digit of `d`.
pub open spec fn digit(d: int) -> char {
    (d + 48) as char
}

/// The decimal numeral of `n`, without leading zeros.
pub open spec fn decimal(n: nat) -> Seq<char>
    decreases n,
{
    if n < 10 {
        seq![digit(n as int)]
    } else {
        decimal(n / 10).push(digit((n % 10) as int))
    }
}

/// The decimal numeral of `n`, with a minus sign where `n` is negative.
pub open spec fn signed_decimal(n: int) -> Seq<char> {
    if n < 0 {
        seq!['-'] + decimal((-n) as nat)
    } else {
        decimal(n as nat)
    }
}

/// The decimal numeral of `n`.
pub fn decimal_of(n: u64) -> (r: String)
    ensures
        r@ == decimal(n as nat),
    decreases n,
{
    let last: u8 = (n % 10) as u8;
    let c: char = (last + 48) as char;
    let mut out = if n < 10 {
        String::new()
    } else {
        decimal_of(n / 10)
    };
    out.push(c);
    assert(n < 10 ==> out@ =~= seq![digit(n as int)]);
    out
}

/// The decimal numeral of `n`, with its sign.
pub fn signed_decimal_of(n: i64) -> (r: String)
    ensures
        r@ == signed_decimal(n as int),
{
    if n < 0 {
        let mut out = String::new();
        out.push('-');
        let magnitude: u64 = (-(n as i128)) as u64;
        let digits = decimal_of(magnitude);
        out.append(digits.as_str());
        assert(out@ =~= seq!['-'] + decimal((-n) as nat));
        out
    } else {
        decimal_of(n as u64)
    }
}

/// Whether `c` is an ASCII decimal digit.
pub open spec fn is_digit(c: char) -> bool {
    '0' <= c <= '9'
}

/// Whether `s` is made of ASCII decimal digits.
pub open spec fn all_digits(s: Seq<char>) -> bool {
    forall|i: int| 0 <= i < s.len() ==> is_digit(#[trigger] s[i])
}

/// The number that the digits of `s` write.
pub open spec fn digits_value(s: Seq<char>) -> nat
    decreases s.len(),
{
    if s.len() == 0 {
        0
    } else {
        (digits_value(s.drop_last()) * 10 + (s.last() as int - '0' as int)) as nat
    }
}

/// The number that `s` writes in decimal, with an optional plus sign, where it fits 32 bits.
pub open spec fn parsed_u32(s: Seq<char>) -> Option<u32> {
    let d = if s.len() > 0 && s[0] == '+' {
        s.skip(1)
    } else {
        s
    };
    if d.len() > 0 && all_digits(d) && digits_value(d) <= u32::MAX {
        Some(digits_value(d) as u32)
    } else {
        None
    }
}

proof fn lemma_digits_value_grows(s: Seq<char>, k: int)
    requires
        all_digits(s),
        0 <= k <= s.len(),
    ensures
        digits_value(s.take(k)) <= digits_value(s),
    decreases s.len(),
{
    if k < s.len() {
        assert(s.drop_last().take(k) =~= s.take(k));
        lemma_digits_value_grows(s.drop_last(), k);
        assert(is_digit(s[s.len() - 1]));
    } else {
        assert(s.take(k) =~= s);
    }
}

/// The number that `s` writes in decimal, as `str::parse::<u32>` reads it.
pub fn parse_u32(s: &str) -> (r: Option<u32>)
    ensures
        r == parsed_u32(s@),
{
    let cs = chars_of(s);
    let start: usize = if cs.len() > 0 && cs[0] == '+' {
        1
    } else {
        0
    };
    let ghost d = s@.skip(start as int);
    assert(start == 0 ==> d =~= s@);
    if cs.len() == start {
        return None;
    }
    let mut acc: u64 = 0;
    let mut i: usize = start;
    while i < cs.len()
        invariant
            start <= i <= cs@.len(),
            cs@ == s@,
            d == s@.skip(start as int),
            d.len() > 0,
            d == (if s@.len() > 0 && s@[0] == '+' { s@.skip(1) } else { s@ }),
            forall|j: int| 0 <= j < i - start ==> is_digit(#[trigger] d[j]),
            acc == digits_value(d.take(i - start)),
            acc <= u32::MAX,
        decreases cs@.len() - i,
    {
        let c = cs[i];
        assert(d[i - start] == c);
        if c < '0' || c > '9' {
            assert(!all_digits(d));
            return None;
        }
        let v: u64 = (c as u32 - '0' as u32) as u64;
        assert(d.take(i - start + 1).drop_last() =~= d.take(i - start));
        assert(d.take(i - start + 1).last() == c);
        acc = acc * 10 + v;
        i = i + 1;
        if acc > 0xffff_ffff {
            proof {
                if all_digits(d) {
                    lemma_digits_value_grows(d, i - start);
                }
            }
            return None;
        }
    }
    assert(d.take(i - start) =~= d);
    assert(all_digits(d));
    Some(acc as u32)
}

/// Whether `pat` stands in `s` at position `i`.
pub open spec fn occurs_at(s: Seq<char>, pat: Seq<char>, i: int) -> bool {
    0 <= i && i + pat.len() <= s.len() && s.subrange(i, i + pat.len()) == pat
}

/// Whether `i` is the first position at which `pat` stands in `s`.
pub open spec fn first_occurrence(s: Seq<char>, pat: Seq<char>, i: int) -> bool {
    occurs_at(s, pat, i) && forall|j: int| 0 <= j < i ==> !occurs_at(s, pat, j)
}

/// The first position of `pat` in `s`.
pub open spec fn found(s: Seq<char>, pat: Seq<char>) -> Option<int> {
    if exists|i: int| occurs_at(s, pat, i) {
        Some(choose|i: int| first_occurrence(s, pat, i))
    } else {
        None
    }
}

/// A first position is what `found` names.
pub proof fn lemma_found(s: Seq<char>, pat: Seq<char>, i: int)
    requires
        first_occurrence(s, pat, i),
    ensures
        found(s, pat) == Some(i),
{
    let k = choose|k: int| first_occurrence(s, pat, k);
    assert(first_occurrence(s, pat, k));
    if k < i {
        assert(occurs_at(s, pat, k));
    }
    if i < k {
        assert(occurs_at(s, pat, i));
    }
}

/// What stands somewhere has a first position.
pub proof fn lemma_first_exists(s: Seq<char>, pat: Seq<char>, i: int)
    requires
        occurs_at(s, pat, i),
    ensures
        found(s, pat) matches Some(k) && first_occurrence(s, pat, k),
    decreases i,
{
    if exists|j: int| 0 <= j < i && occurs_at(s, pat, j) {
        let j = choose|j: int| 0 <= j < i && occurs_at(s, pat, j);
        lemma_first_exists(s, pat, j);
    } else {
        assert(first_occurrence(s, pat, i));
        lemma_found(s, pat, i);
    }
}

/// `pat` stands where `found` says.
pub proof fn lemma_found_occurs(s: Seq<char>, pat: Seq<char>)
    ensures
        found(s, pat) matches Some(k) ==> first_occurrence(s, pat, k),
{
    if exists|i: int| occurs_at(s, pat, i) {
        let i = choose|i: int| occurs_at(s, pat, i);
        lemma_first_exists(s, pat, i);
    }
}

/// Whether `pat` stands in `cs` at position `at`.
fn stands_at(cs: &Vec<char>, pat: &Vec<char>, at: usize) -> (r: bool)
    requires
        at <= cs@.len(),
    ensures
        r == occurs_at(cs@, pat@, at as int),
{
    let n: usize = cs.len();
    if pat.len() > n - at {
        return false;
    }
    for i in 0..pat.len()
        invariant
            n == cs@.len(),
            at + pat@.len() <= cs@.len(),
            forall|j: int| 0 <= j < i ==> cs@[at + j] == #[trigger] pat@[j],
    {
        if cs[at + i] != pat[i] {
            assert(cs@.subrange(at as int, at + pat@.len())[i as int] != pat@[i as int]);
            return false;
        }
    }
    assert(cs@.subrange(at as int, at + pat@.len()) =~= pat@);
    true
}

/// The first position of `pat` in `cs[from..]`, counted from `from`.
pub fn find(cs: &Vec<char>, from: usize, pat: &Vec<char>) -> (r: Option<usize>)
    requires
        from <= cs@.len(),
    ensures
        match r {
            Some(i) => from + i + pat@.len() <= cs@.len() && found(cs@.skip(from as int), pat@)
                == Some(i as int),
            None => found(cs@.skip(from as int), pat@) is None,
        },
{
    let n: usize = cs.len();
    let ghost rest = cs@.skip(from as int);
    let mut i: usize = 0;
    while i <= n - from
        invariant
            n == cs@.len(),
            from <= n,
            i <= n - from + 1,
            rest == cs@.skip(from as int),
            forall|j: int| 0 <= j < i ==> !occurs_at(rest, pat@, j),
        decreases n - from + 1 - i,
    {
        let here = stands_at(cs, pat, from + i);
        assert(occurs_at(cs@, pat@, from + i) == occurs_at(rest, pat@, i as int)) by {
            if from + i + pat@.len() <= n {
                assert(rest.subrange(i as int, i + pat@.len()) =~= cs@.subrange(
                    from + i,
                    from + i + pat@.len(),
                ));
            }
        }
        if here {
            proof {
                assert(first_occurrence(rest, pat@, i as int));
                lemma_found(rest, pat@, i as int);
            }
            return Some(i);
        }
        if i == n - from {
            assert(forall|j: int| !occurs_at(rest, pat@, j));
            return None;
        }
        i = i + 1;
    }
    None
}

/// How many characters stand before the first line feed of `s`.
pub open spec fn line_len(s: Seq<char>) -> nat
    decreases s.len(),
{
    if s.len() == 0 || s.first() == '\n' {
        0
    } else {
        1 + line_len(s.drop_first())
    }
}

/// `s` without one carriage return at its end.
pub open spec fn without_cr(s: Seq<char>) -> Seq<char> {
    if s.len() > 0 && s.last() == '\r' {
        s.drop_last()
    } else {
        s
    }
}

/// The lines of `s`: each ends at a line feed, or a carriage return and a line feed, which are
/// not part of it; the end of the last line may lack them.
pub open spec fn lines_of(s: Seq<char>) -> Seq<Seq<char>>
    decreases s.len(),
{
    if s.len() == 0 {
        Seq::empty()
    } else if line_len(s) >= s.len() {
        seq![s]
    } else {
        seq![without_cr(s.take(line_len(s) as int))] + lines_of(s.skip(line_len(s) as int + 1))
    }
}

proof fn lemma_line_len_is(s: Seq<char>, k: int)
    requires
        0 <= k <= s.len(),
        forall|j: int| 0 <= j < k ==> s[j] != '\n',
        k == s.len() || s[k] == '\n',
    ensures
        line_len(s) == k,
    decreases k,
{
    if k > 0 {
        let t = s.drop_first();
        assert forall|j: int| 0 <= j < k - 1 implies t[j] != '\n' by {
            assert(t[j] == s[j + 1]);
        }
        assert(k < s.len() ==> t[k - 1] == s[k]);
        lemma_line_len_is(t, k - 1);
    }
}

/// The lines of `s`, as `str::lines` splits it.
pub fn lines(s: &str) -> (r: Vec<String>)
    ensures
        views(r@) == lines_of(s@),
{
    let cs = chars_of(s);
    let n: usize = cs.len();
    let mut out: Vec<String> = Vec::new();
    let mut start: usize = 0;
    assert(cs@.skip(0) =~= s@);
    assert(views(out@) + lines_of(s@) =~= lines_of(s@));
    while start < n
        invariant
            n == cs@.len(),
            start <= n,
            cs@ == s@,
            views(out@) + lines_of(cs@.skip(start as int)) == lines_of(s@),
        decreases n - start,
    {
        let ghost rest = cs@.skip(start as int);
        let mut end: usize = start;
        while end < n && cs[end] != '\n'
            invariant
                n == cs@.len(),
                start <= end <= n,
                forall|j: int| start <= j < end ==> cs@[j] != '\n',
            decreases n - end,
        {
            end = end + 1;
        }
        proof {
            assert forall|j: int| 0 <= j < end - start implies rest[j] != '\n' by {
                assert(rest[j] == cs@[start + j]);
            }
            lemma_line_len_is(rest, end - start);
        }
        let ghost before = views(out@);
        if end < n {
            let stop: usize = if end > start && cs[end - 1] == '\r' {
                end - 1
            } else {
                end
            };
            let line = string_of(&cs, start, stop);
            assert(line@ =~= without_cr(rest.take(end - start)));
            out.push(line);
            assert(views(out@) =~= before.push(line@));
            assert(rest.skip(end - start + 1) =~= cs@.skip(end + 1));
            assert(views(out@) + lines_of(cs@.skip(end + 1)) =~= before + (seq![line@]
                + lines_of(cs@.skip(end + 1))));
            start = end + 1;
        } else {
            let line = string_of(&cs, start, n);
            assert(line@ =~= rest);
            out.push(line);
            assert(views(out@) =~= before.push(line@));
            assert(cs@.skip(n as int) =~= Seq::<char>::empty());
            assert(views(out@) + lines_of(cs@.skip(n as int)) =~= before + seq![line@]);
            start = n;
        }
    }
    assert(cs@.skip(start as int) =~= Seq::<char>::empty());
    assert(views(out@) + lines_of(cs@.skip(start as int)) =~= views(out@));
    out
}

/// Whether `c` is one of the lower-case hexadecimal digits.
pub open spec fn is_hex_digit(c: char) -> bool {
    '0' <= c <= '9' || 'a' <= c <= 'f'
}

/// The lower-case hexadecimal digit of `d`.
pub open spec fn hex_digit(d: int) -> char {
    if d < 10 {
        (d + 48) as char
    } else {
        (d + 87) as char
    }
}

/// The `width` lowest hexadecimal digits of `n`, the highest first.
pub open spec fn hex_padded(n: nat, width: nat) -> Seq<char>
    decreases width,
{
    if width == 0 {
        Seq::empty()
    } else {
        hex_padded(n / 16, (width - 1) as nat).push(hex_digit((n % 16) as int))
    }
}

/// The `width` lowest hexadecimal digits of `n`, padded with zeros.
pub fn hex_of(n: u64, width: u8) -> (r: String)
    ensures
        r@ == hex_padded(n as nat, width as nat),
    decreases width,
{
    if width == 0 {
        String::new()
    } else {
        let mut out = hex_of(n / 16, width - 1);
        let d: u8 = (n % 16) as u8;
        let c: char = if d < 10 {
            (d + 48) as char
        } else {
            (d + 87) as char
        };
        out.push(c);
        out
    }
}

/// A padded hexadecimal numeral has the width asked for and holds hexadecimal digits alone.
pub proof fn lemma_hex_padded(n: nat, width: nat)
    ensures
        hex_padded(n, width).len() == width,
        forall|i: int| 0 <= i < width ==> is_hex_digit(#[trigger] hex_padded(n, width)[i]),
    decreases width,
{
    if width > 0 {
        lemma_hex_padded(n / 16, (width - 1) as nat);
    }
}

}
