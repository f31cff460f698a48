//! Fingerprints: what makes two occurrences the same error.
//!
//! A message is normalised to a template in which all that differs from one occurrence to the
//! next has a fixed placeholder. The fingerprint is a hash of the source, the template and the
//! place of the topmost call. It is written to disk, so it must not change between versions.

use crate::incident::{Frame, Source};
use crate::patterns::{
    compile, known_pattern, regex_replaced, replace_all, BARE_HEX, BLANK, ISO_TIME,
    NUMBER, PATH, PREFIXED_HEX, SYSLOG_TIME, UUID,
};
use crate::text::{
    chars_of, hex_of, hex_padded, is_hex_digit, is_single_spaced, is_space, lemma_hex_padded,
    lemma_padding, lemma_single_spaced, lemma_trimmed, single_spaced, string_of, trim, trimmed,
};
use vstd::prelude::*;
use vstd::utf8::encode_utf8;

verus! {

/// The FNV offset basis for 64 bits.
pub const FNV_OFFSET_BASIS: u64 = 0xcbf29ce484222325;

/// The FNV prime for 64 bits.
pub const FNV_PRIME: u64 = 0x100000001b3;

/// The most characters that a template has.
pub const TEMPLATE_MAX_CHARS: usize = 256;

/// The FNV-1a hash of `bytes`.
pub open spec fn fnv(bytes: Seq<u8>) -> u64
    decreases bytes.len(),
{
    if bytes.len() == 0 {
        FNV_OFFSET_BASIS
    } else {
        (fnv(bytes.drop_last()) ^ (bytes.last() as u64)).wrapping_mul(FNV_PRIME)
    }
}

/// The FNV-1a hash of `bytes`, with 64 bits.
pub fn fnv1a64(bytes: &[u8]) -> (r: u64)
    ensures
        r == fnv(bytes@),
{
    let mut hash: u64 = FNV_OFFSET_BASIS;
    for i in 0..bytes.len()
        invariant
            hash == fnv(bytes@.take(i as int)),
    {
        assert(bytes@.take(i + 1).drop_last() =~= bytes@.take(i as int));
        hash = hash ^ (bytes[i] as u64);
        hash = hash.wrapping_mul(FNV_PRIME);
    }
    assert(bytes@.take(bytes@.len() as int) =~= bytes@);
    hash
}

/// Which patterns are replaced by which placeholders, in this order: what stands inside a UUID, a
/// time or a hexadecimal number is not replaced as a number of its own.
pub open spec fn placeholders() -> Seq<(Seq<char>, Seq<char>)> {
    seq![
        (UUID@, "<uuid>"@),
        (ISO_TIME@, "<ts>"@),
        (SYSLOG_TIME@, "<ts>"@),
        (PREFIXED_HEX@, "<hex>"@),
        (BARE_HEX@, "<hex>"@),
        (PATH@, "<path>"@),
        (NUMBER@, "<n>"@),
    ]
}

/// `text` after the replacements of `rules`, one after the other.
pub open spec fn rewritten(text: Seq<char>, rules: Seq<(Seq<char>, Seq<char>)>) -> Seq<char>
    decreases rules.len(),
{
    if rules.len() == 0 {
        text
    } else {
        regex_replaced(
            rules.last().0,
            rewritten(text, rules.drop_last()),
            rules.last().1,
        )
    }
}

/// The first characters of `s`, as many as a template has.
pub open spec fn clipped(s: Seq<char>) -> Seq<char> {
    if s.len() <= TEMPLATE_MAX_CHARS {
        s
    } else {
        s.take(TEMPLATE_MAX_CHARS as int)
    }
}

/// The template that is made of a rewritten message: with one blank in place of each run of white
/// space, none at its ends, and cut to its first characters.
pub open spec fn finished(text: Seq<char>) -> Seq<char> {
    clipped(trimmed(single_spaced(text)))
}

/// The template of a message.
pub open spec fn template(message: Seq<char>) -> Seq<char> {
    finished(rewritten(message, placeholders()))
}

/// One more replacement.
proof fn lemma_rewritten(text: Seq<char>, rules: Seq<(Seq<char>, Seq<char>)>, k: int)
    requires
        0 <= k < rules.len(),
    ensures
        rewritten(text, rules.take(k + 1)) == regex_replaced(
            rules[k].0,
            rewritten(text, rules.take(k)),
            rules[k].1,
        ),
{
    assert(rules.take(k + 1).drop_last() =~= rules.take(k));
}

/// Replaces one pattern.
fn replaced(text: &str, pattern: &str, placeholder: &str) -> (r: String)
    requires
        known_pattern(pattern@),
    ensures
        r@ == regex_replaced(pattern@, text@, placeholder@),
{
    match compile(pattern) {
        Ok(re) => replace_all(&re, text, placeholder),
        Err(_) => vstd::pervasive::unreached(),
    }
}

/// Puts one blank in place of each run of white space.
fn with_single_blanks(text: &str) -> (r: String)
    ensures
        r@ == single_spaced(text@),
{
    match compile(BLANK) {
        Ok(re) => replace_all(&re, text, " "),
        Err(_) => vstd::pervasive::unreached(),
    }
}

/// The template that is made of a rewritten message: with one blank in place of each run of white
/// space, none at its ends, and cut to its first characters.
pub fn finish_template(text: &str) -> (r: String)
    ensures
        r@ == finished(text@),
{
    let blanks = with_single_blanks(text);
    let s = trim(blanks.as_str());
    let cs = chars_of(s.as_str());
    if cs.len() <= TEMPLATE_MAX_CHARS {
        s
    } else {
        let r = string_of(&cs, 0, TEMPLATE_MAX_CHARS);
        assert(r@ =~= cs@.take(TEMPLATE_MAX_CHARS as int));
        r
    }
}

/// Normalises a message: what differs from one occurrence to the next (UUIDs, times, hexadecimal
/// numbers, paths, numbers, white space) is replaced, so that messages of the same kind give the
/// same template.
pub fn normalize_template(msg: &str) -> (r: String)
    ensures
        r@ == template(msg@),
{
    let s1 = replaced(msg, UUID, "<uuid>");
    let s2 = replaced(s1.as_str(), ISO_TIME, "<ts>");
    let s3 = replaced(s2.as_str(), SYSLOG_TIME, "<ts>");
    let s4 = replaced(s3.as_str(), PREFIXED_HEX, "<hex>");
    let s5 = replaced(s4.as_str(), BARE_HEX, "<hex>");
    let s6 = replaced(s5.as_str(), PATH, "<path>");
    let s7 = replaced(s6.as_str(), NUMBER, "<n>");
    proof {
        let p = placeholders();
        assert(p.take(0) =~= Seq::empty());
        assert(rewritten(msg@, p.take(0)) == msg@);
        lemma_rewritten(msg@, p, 0);
        lemma_rewritten(msg@, p, 1);
        lemma_rewritten(msg@, p, 2);
        lemma_rewritten(msg@, p, 3);
        lemma_rewritten(msg@, p, 4);
        lemma_rewritten(msg@, p, 5);
        lemma_rewritten(msg@, p, 6);
        assert(p.take(7) =~= p);
    }
    finish_template(s7.as_str())
}

/// How a source is named in what is hashed.
pub open spec fn source_name(source: Source) -> Seq<char> {
    match source {
        Source::Process => "process"@,
        Source::LogFile(path) => "log:"@ + path@,
    }
}

/// How a source is named in what is hashed.
pub fn source_key(source: &Source) -> (r: String)
    ensures
        r@ == source_name(*source),
{
    match source {
        Source::Process => "process".to_string(),
        Source::LogFile(path) => {
            let mut r = "log:".to_string();
            r.append(path.as_str());
            r
        },
    }
}

/// What follows the last `/` or `\` of a path; the whole path where it has none.
pub open spec fn file_name(path: Seq<char>) -> Seq<char>
    decreases path.len(),
{
    if path.len() == 0 || path.last() == '/' || path.last() == '\\' {
        Seq::empty()
    } else {
        file_name(path.drop_last()).push(path.last())
    }
}

proof fn lemma_file_name(path: Seq<char>, lo: int)
    requires
        0 <= lo <= path.len(),
        lo == 0 || path[lo - 1] == '/' || path[lo - 1] == '\\',
        forall|i: int| lo <= i < path.len() ==> path[i] != '/' && path[i] != '\\',
    ensures
        file_name(path) == path.skip(lo),
    decreases path.len(),
{
    if lo < path.len() {
        lemma_file_name(path.drop_last(), lo);
        assert(path.skip(lo) =~= path.drop_last().skip(lo).push(path.last()));
    } else {
        assert(path.skip(lo) =~= Seq::<char>::empty());
    }
}

/// The name of a file without its directories.
pub fn basename(path: &str) -> (r: String)
    ensures
        r@ == file_name(path@),
{
    let cs = chars_of(path);
    let n: usize = cs.len();
    let mut lo: usize = n;
    while lo > 0 && cs[lo - 1] != '/' && cs[lo - 1] != '\\'
        invariant
            lo <= n == cs@.len(),
            forall|i: int| lo <= i < n ==> cs@[i] != '/' && cs@[i] != '\\',
        decreases lo,
    {
        lo = lo - 1;
    }
    proof {
        lemma_file_name(path@, lo as int);
    }
    let r = string_of(&cs, lo, n);
    assert(r@ =~= path@.skip(lo as int));
    r
}

/// How the place of the topmost call is named in what is hashed.
pub open spec fn top_frame(frames: Seq<Frame>) -> Seq<char> {
    if frames.len() > 0 {
        file_name(frames[0].file@) + "::"@ + frames[0].function@
    } else {
        Seq::empty()
    }
}

/// The file name and the function of the topmost call; nothing where there is no call.
pub fn top_frame_key(frames: &[Frame]) -> (r: String)
    ensures
        r@ == top_frame(frames@),
{
    if frames.len() == 0 {
        let r = String::new();
        assert(r@ =~= Seq::<char>::empty());
        return r;
    }
    let mut r = basename(frames[0].file.as_str());
    r.append("::");
    r.append(frames[0].function.as_str());
    r
}

/// The fingerprint of an error with this source, template and stack trace.
pub open spec fn fingerprint_text(
    source: Source,
    template: Seq<char>,
    frames: Seq<Frame>,
) -> Seq<char> {
    hex_padded(
        fnv(encode_utf8(source_name(source) + "|"@ + template + "|"@ + top_frame(frames))) as nat,
        16,
    )
}

/// The fingerprint of an error whose message was normalised to `template`.
pub fn fingerprint_of(source: &Source, template: &str, frames: &[Frame]) -> (r: String)
    ensures
        r@ == fingerprint_text(*source, template@, frames@),
{
    let mut input = source_key(source);
    input.append("|");
    input.append(template);
    input.append("|");
    let top = top_frame_key(frames);
    input.append(top.as_str());
    hex_of(fnv1a64(input.as_str().as_bytes()), 16)
}

/// The fingerprint of an error, in 16 hexadecimal digits, and the template of its message.
pub fn compute(source: &Source, message: &str, frames: &[Frame]) -> (r: (String, String))
    ensures
        r.0@ == fingerprint_text(*source, template(message@), frames@),
        r.1@ == template(message@),
{
    let template = normalize_template(message);
    let fingerprint = fingerprint_of(source, template.as_str(), frames);
    (fingerprint, template)
}

/// A fingerprint has 16 characters, all of them hexadecimal digits.
pub proof fn law_fingerprint_is_hex(source: Source, template: Seq<char>, frames: Seq<Frame>)
    ensures
        fingerprint_text(source, template, frames).len() == 16,
        forall|i: int|
            0 <= i < 16 ==> is_hex_digit(#[trigger] fingerprint_text(source, template, frames)[i]),
{
    let input = source_name(source) + "|"@ + template + "|"@ + top_frame(frames);
    lemma_hex_padded(fnv(encode_utf8(input)) as nat, 16);
}

/// A template has at most 256 characters.
pub proof fn law_template_is_bounded(message: Seq<char>)
    ensures
        template(message).len() <= TEMPLATE_MAX_CHARS,
{
}

/// A template holds no white space but single blanks, none of them at its start, and none at its
/// end unless it was cut there.
pub proof fn law_template_is_single_spaced(message: Seq<char>)
    ensures
        is_single_spaced(template(message)),
        template(message).len() > 0 ==> !is_space(template(message).first()),
        0 < template(message).len() < TEMPLATE_MAX_CHARS ==> !is_space(template(message).last()),
{
    let spaced = single_spaced(rewritten(message, placeholders()));
    lemma_single_spaced(rewritten(message, placeholders()));
    lemma_trimmed(spaced);
    let t = trimmed(spaced);
    let (lo, hi) = choose|lo: int, hi: int|
        0 <= lo <= hi <= spaced.len() && t == #[trigger] spaced.subrange(lo, hi);
    assert(t == spaced.subrange(lo, hi));
    assert(is_single_spaced(t)) by {
        assert forall|i: int| 0 <= i < t.len() && is_space(#[trigger] t[i]) implies t[i] == ' ' by {
            assert(t[i] == spaced[lo + i]);
        }
        assert forall|i: int, j: int| 0 <= i && j == i + 1 && j < t.len() implies !(is_space(
            #[trigger] t[i],
        ) && is_space(#[trigger] t[j])) by {
            assert(t[i] == spaced[lo + i] && t[j] == spaced[lo + j]);
        }
    }
}

/// White space around a rewritten message, or more of it where there is some, makes no difference
/// to the template.
pub proof fn law_white_space_makes_no_difference(
    a: Seq<char>,
    text: Seq<char>,
    b: Seq<char>,
    other: Seq<char>,
)
    requires
        forall|i: int| 0 <= i < a.len() ==> is_space(#[trigger] a[i]),
        forall|i: int| 0 <= i < b.len() ==> is_space(#[trigger] b[i]),
        single_spaced(other) == single_spaced(text),
    ensures
        finished(a + text + b) == finished(text),
        finished(other) == finished(text),
{
    lemma_padding(a, text, b);
}

/// Two occurrences with the same source, the same template and the same topmost call (its
/// function and the name of its file) have the same fingerprint, whatever the line numbers, the
/// columns, the directories and the other calls of their stack traces are.
pub proof fn law_same_error_same_fingerprint(
    source: Source,
    a: Seq<char>,
    b: Seq<char>,
    a_frames: Seq<Frame>,
    b_frames: Seq<Frame>,
)
    requires
        template(a) == template(b),
        a_frames.len() == 0 <==> b_frames.len() == 0,
        a_frames.len() > 0 ==> a_frames[0].function@ == b_frames[0].function@ && file_name(
            a_frames[0].file@,
        ) == file_name(b_frames[0].file@),
    ensures
        fingerprint_text(source, template(a), a_frames) == fingerprint_text(
            source,
            template(b),
            b_frames,
        ),
{
}

/// Different sources are hashed under different names.
pub proof fn law_sources_have_different_names(a: Source, b: Source)
    ensures
        source_name(a) == source_name(b) <==> (match (a, b) {
            (Source::Process, Source::Process) => true,
            (Source::LogFile(p), Source::LogFile(q)) => p@ == q@,
            _ => false,
        }),
{
    reveal_strlit("process");
    reveal_strlit("log:");
    match (a, b) {
        (Source::LogFile(p), Source::LogFile(q)) => {
            if source_name(a) == source_name(b) {
                assert(source_name(a).skip(4) =~= p@);
                assert(source_name(b).skip(4) =~= q@);
            }
        },
        (Source::Process, Source::LogFile(q)) => {
            assert(source_name(a)[0] == 'p');
            assert(source_name(b)[0] == 'l');
        },
        (Source::LogFile(p), Source::Process) => {
            assert(source_name(a)[0] == 'l');
            assert(source_name(b)[0] == 'p');
        },
        _ => {},
    }
}

}
