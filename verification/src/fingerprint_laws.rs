//! What makes the fingerprints of two errors the same, step by step.

use crate::fingerprint::{
    clipped, file_name, fingerprint_text, finished, fnv, placeholders, rewritten, source_name,
    template, top_frame,
};
use crate::incident::{Frame, Source};
use crate::patterns::{
    regex_replaced, BARE_HEX, BLANK, ISO_TIME, NODE_FRAME, NUMBER, PATH, PREFIXED_HEX, PY_FRAME,
    SYSLOG_TIME, UUID,
};
use crate::text::{single_spaced, trimmed};
use crate::text_laws::{hex_value, law_hexadecimal, sixteen_to};
use vstd::prelude::*;
use vstd::utf8::encode_utf8;

verus! {

/// A message after UUIDs, times and hexadecimal numbers were replaced, in this order, the forms
/// of a time one after the other, and hexadecimal numbers with a prefix before those without.
pub open spec fn without_marks(message: Seq<char>) -> Seq<char> {
    regex_replaced(
        BARE_HEX@,
        regex_replaced(
            PREFIXED_HEX@,
            regex_replaced(
                SYSLOG_TIME@,
                regex_replaced(ISO_TIME@, regex_replaced(UUID@, message, "<uuid>"@), "<ts>"@),
                "<ts>"@,
            ),
            "<hex>"@,
        ),
        "<hex>"@,
    )
}

/// Numbers are replaced last, and paths just before them: what a UUID, a time, a hexadecimal
/// number or a path matches is replaced as a whole, also where it holds digits.
pub proof fn law_numbers_are_replaced_last(message: Seq<char>)
    ensures
        rewritten(message, placeholders()) == regex_replaced(
            NUMBER@,
            regex_replaced(PATH@, without_marks(message), "<path>"@),
            "<n>"@,
        ),
{
    let p = placeholders();
    reveal_with_fuel(rewritten, 8);
    assert(p.drop_last().last() == p[5]);
    assert(p.drop_last().drop_last().last() == p[4]);
    assert(p.drop_last().drop_last().drop_last().last() == p[3]);
    assert(p.drop_last().drop_last().drop_last().drop_last().last() == p[2]);
    assert(p.drop_last().drop_last().drop_last().drop_last().drop_last().last() == p[1]);
    assert(p.drop_last().drop_last().drop_last().drop_last().drop_last().drop_last().last()
        == p[0]);
    assert(
    p.drop_last().drop_last().drop_last().drop_last().drop_last().drop_last().drop_last().len()
        == 0);
}

/// The template of a message is what is left when all that differs is replaced, runs of white space
/// are one blank, and the ends are trimmed; of a long one the first 256 characters.
pub proof fn law_template_of_a_message(message: Seq<char>)
    ensures
        ({
            let t = trimmed(
                single_spaced(
                    regex_replaced(
                        NUMBER@,
                        regex_replaced(PATH@, without_marks(message), "<path>"@),
                        "<n>"@,
                    ),
                ),
            );
            &&& t.len() <= 256 ==> template(message) == t
            &&& t.len() > 256 ==> template(message).len() == 256 && template(message)
                == t.subrange(0, 256)
        }),
{
    law_numbers_are_replaced_last(message);
}

/// Messages that differ only in what is replaced have the same template.
pub proof fn law_what_is_replaced_does_not_matter(a: Seq<char>, b: Seq<char>)
    requires
        regex_replaced(PATH@, without_marks(a), "<path>"@) == regex_replaced(
            PATH@,
            without_marks(b),
            "<path>"@,
        ),
    ensures
        template(a) == template(b),
{
    law_numbers_are_replaced_last(a);
    law_numbers_are_replaced_last(b);
}

/// What is cut keeps its start, and is as long as can be up to 256 characters.
pub proof fn law_cut_keeps_the_start(s: Seq<char>)
    ensures
        s.len() <= 256 ==> clipped(s) == s,
        s.len() > 256 ==> clipped(s).len() == 256 && forall|i: int|
            0 <= i < 256 ==> #[trigger] clipped(s)[i] == s[i],
        finished(s) == clipped(trimmed(single_spaced(s))),
{
}

/// The name of a file is the end of its path behind the last slash or backslash, and all of a path
/// without one.
pub proof fn law_file_name(path: Seq<char>)
    ensures
        ({
            let name = file_name(path);
            let n = path.len() - name.len();
            &&& name.len() <= path.len()
            &&& name == path.skip(n)
            &&& forall|i: int| 0 <= i < name.len() ==> #[trigger] name[i] != '/' && name[i] != '\\'
            &&& n > 0 ==> path[n - 1] == '/' || path[n - 1] == '\\'
        }),
    decreases path.len(),
{
    if path.len() == 0 || path.last() == '/' || path.last() == '\\' {
        assert(path.skip(path.len() as int) =~= Seq::<char>::empty());
    } else {
        law_file_name(path.drop_last());
        let name = file_name(path);
        let n = path.len() - name.len();
        assert(path.skip(n) =~= path.drop_last().skip(n).push(path.last()));
    }
}

/// The topmost call counts by the name of its file and its function, and by nothing else; a trace
/// without calls counts as none.
pub proof fn law_topmost_call(frames: Seq<Frame>)
    ensures
        frames.len() == 0 ==> top_frame(frames).len() == 0,
        frames.len() > 0 ==> top_frame(frames) == file_name(frames[0].file@) + "::"@
            + frames[0].function@,
{
}

/// A source counts by what it is, and a log file by its path.
pub proof fn law_source_counts(path: String)
    ensures
        source_name(Source::Process) == "process"@,
        source_name(Source::LogFile(path)) == "log:"@ + path@,
{
}

/// Hashing starts at the basis, and each byte is mixed in by an exclusive or and a product of 64
/// bits.
pub proof fn law_hash(bytes: Seq<u8>, b: u8)
    ensures
        fnv(Seq::empty()) == 0xcbf2_9ce4_8422_2325,
        fnv(bytes.push(b)) == (fnv(bytes) ^ (b as u64)).wrapping_mul(0x100_0000_01b3),
{
    assert(bytes.push(b).drop_last() =~= bytes);
}

/// A fingerprint writes, in 16 hexadecimal digits, the hash of the source, the template and the
/// topmost call, with bars between them.
pub proof fn law_fingerprint_writes_the_hash(
    source: Source,
    template: Seq<char>,
    frames: Seq<Frame>,
)
    ensures
        fingerprint_text(source, template, frames).len() == 16,
        hex_value(fingerprint_text(source, template, frames)) == fnv(
            encode_utf8(source_name(source) + "|"@ + template + "|"@ + top_frame(frames)),
        ),
{
    let n = fnv(
        encode_utf8(source_name(source) + "|"@ + template + "|"@ + top_frame(frames)),
    ) as nat;
    reveal_with_fuel(sixteen_to, 17);
    assert(sixteen_to(16) == 0x1_0000_0000_0000_0000);
    law_hexadecimal(n, 16);
}

/// Errors whose hashes differ have different fingerprints.
pub proof fn law_different_hashes_differ(
    a: Source,
    b: Source,
    s: Seq<char>,
    t: Seq<char>,
    f: Seq<Frame>,
    g: Seq<Frame>,
)
    requires
        fingerprint_text(a, s, f) == fingerprint_text(b, t, g),
    ensures
        fnv(encode_utf8(source_name(a) + "|"@ + s + "|"@ + top_frame(f))) == fnv(
            encode_utf8(source_name(b) + "|"@ + t + "|"@ + top_frame(g)),
        ),
{
    law_fingerprint_writes_the_hash(a, s, f);
    law_fingerprint_writes_the_hash(b, t, g);
}

/// The patterns, as they are written.
pub proof fn law_patterns_are_written_so()
    ensures
        UUID@ == r"(?i)\b[0-9a-f]{8}-[0-9a-f]{4}-[0-9a-f]{4}-[0-9a-f]{4}-[0-9a-f]{12}\b"@,
        ISO_TIME@ == r"\d{4}-\d{2}-\d{2}[T ]\d{2}:\d{2}:\d{2}(\.\d+)?(Z|[+-]\d{2}:?\d{2})?"@,
        SYSLOG_TIME@
            == r"\b(?:Jan|Feb|Mar|Apr|May|Jun|Jul|Aug|Sep|Oct|Nov|Dec)\s+\d{1,2}\s+\d{2}:\d{2}:\d{2}\b"@,
        PREFIXED_HEX@ == r"0[xX][0-9a-fA-F]+"@,
        BARE_HEX@ == r"\b[0-9a-fA-F]{8,}\b"@,
        PATH@ == r"(?:\.{1,2}/|/)?(?:[A-Za-z0-9_.\-]+/){1,}[A-Za-z0-9_.\-]+"@,
        NUMBER@ == r"\d+"@,
        BLANK@ == r"\s+"@,
        NODE_FRAME@ == r"^\s*at\s+(?:(.+?)\s+\()?(.+?):(\d+):(\d+)\)?$"@,
        PY_FRAME@ == r#"^\s*File "(.+?)", line (\d+), in (.+)$"#@,
{
}

}
