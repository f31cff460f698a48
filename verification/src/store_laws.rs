//! What the files of incidents and of diagnostic values promise.

use crate::config::Config;
use crate::diagnostics::{
    buffer_text, cutoff, cutoff_fits, has_sample, kept, merged, same_sample, sample_time, written_lines,
};
use crate::incident::{id_text, is_id, uuid_text, DiagnosticSample, Incident};
use crate::clock::{utc_text, Timestamp, ID_FORMAT, LIST_FORMAT};
use crate::sort::is_stable_sort;
use crate::store::{age, names_incident, padded, row_text, steps, Step};
use crate::text::{is_hex_digit, joined, lines_of, trimmed};
use vstd::prelude::*;

verus! {

/// Samples are kept for as many minutes as are configured, up to the moment itself.
pub proof fn law_cutoff(now_ms: i64, retention_mins: u64)
    ensures
        retention_mins < 0x8000_0000_0000_0000 ==> {
            &&& cutoff(now_ms, retention_mins) == now_ms - retention_mins * 60_000
            &&& cutoff_fits(now_ms, retention_mins) <==> retention_mins * 60_000 <= i64::MAX
                && now_ms - retention_mins * 60_000 >= i64::MIN
        },
        retention_mins >= 0x8000_0000_0000_0000 ==> {
            let mins = 0x1_0000_0000_0000_0000 - retention_mins;
            &&& cutoff(now_ms, retention_mins) == now_ms + mins * 60_000
            &&& cutoff_fits(now_ms, retention_mins) <==> -mins * 60_000 >= i64::MIN && now_ms + mins
                * 60_000 <= i64::MAX
        },
{
}

/// Each sample stands on a line of its own in the buffer file, in order.
pub proof fn law_buffer_holds_a_line_for_each_sample(list: Seq<Seq<char>>, line: Seq<char>)
    ensures
        buffer_text(seq![line]) == line + seq!['\n'],
        list.len() > 0 ==> buffer_text(list.push(line)) == buffer_text(list) + line + seq!['\n'],
{
    reveal_strlit("\n");
    assert("\n"@ =~= seq!['\n']);
    assert(buffer_text(seq![line]) =~= line + seq!['\n']);
    assert(list.push(line).drop_last() =~= list);
    if list.len() > 0 {
        assert(joined(list.push(line), "\n"@) == joined(list, "\n"@) + "\n"@ + line);
        assert(buffer_text(list.push(line)) =~= buffer_text(list) + line + seq!['\n']);
    }
}

/// A sample is kept if and only if it is not older than the cutoff, and those that are kept stay in
/// their order.
pub proof fn law_samples_are_kept_by_age(
    samples: Seq<DiagnosticSample>,
    s: DiagnosticSample,
    cutoff_ms: i64,
)
    ensures
        kept(Seq::empty(), cutoff_ms).len() == 0,
        s.ts_ms >= cutoff_ms ==> kept(samples.push(s), cutoff_ms) == kept(samples, cutoff_ms).push(
            s,
        ),
        s.ts_ms < cutoff_ms ==> kept(samples.push(s), cutoff_ms) == kept(samples, cutoff_ms),
{
    let f = |s: DiagnosticSample| s.ts_ms >= cutoff_ms;
    samples.lemma_filter_push(s, f);
    reveal(Seq::filter);
}

/// Two samples count as one where they are of one command and less than a second apart, whichever
/// came first.
pub proof fn law_samples_less_than_a_second_apart(a: DiagnosticSample, b: DiagnosticSample)
    ensures
        a.command@ != b.command@ ==> !same_sample(a, b),
        a.command@ == b.command@ && a.ts_ms >= b.ts_ms ==> (same_sample(a, b) <==> a.ts_ms - b.ts_ms
            < 1000),
        same_sample(a, b) == same_sample(b, a),
{
}

/// A sample of the moment is added if and only if none that is there counts as one with it.
pub proof fn law_samples_of_the_moment_are_added(
    history: Seq<DiagnosticSample>,
    immediate: Seq<DiagnosticSample>,
    s: DiagnosticSample,
)
    ensures
        merged(history, Seq::empty()) == history,
        ({
            let before = merged(history, immediate);
            let known = exists|i: int| 0 <= i < before.len() && same_sample(#[trigger] before[i], s);
            &&& known ==> merged(history, immediate.push(s)) == before
            &&& !known ==> merged(history, immediate.push(s)) == before.push(s)
            &&& has_sample(before, s) == known
        }),
{
    assert(immediate.push(s).drop_last() =~= immediate);
}

/// What an incident gets of the diagnostic values is ordered by time, the oldest first.
pub proof fn law_history_is_ordered(
    r: Seq<DiagnosticSample>,
    s: Seq<DiagnosticSample>,
    i: int,
    j: int,
)
    requires
        is_stable_sort(r, s, sample_time()),
        0 <= i < j < r.len(),
    ensures
        r[i].ts_ms <= r[j].ts_ms,
        r.to_multiset() == s.to_multiset(),
{
    assert(sample_time()(r[i]) <= sample_time()(r[j]));
}

/// The lines that are read of the buffer are those that hold more than white space, in their order.
pub proof fn law_lines_with_something_are_read(s: Seq<char>, line: Seq<char>)
    ensures
        written_lines(s).contains(line) <==> lines_of(s).contains(line) && trimmed(line).len() > 0,
{
    let f = |line: Seq<char>| trimmed(line).len() > 0;
    let all = lines_of(s);
    if written_lines(s).contains(line) {
        all.lemma_filter_contains_rev(f, line);
        let i = choose|i: int| 0 <= i < written_lines(s).len() && written_lines(s)[i] == line;
        all.lemma_filter_pred(f, i);
    }
    if all.contains(line) && trimmed(line).len() > 0 {
        let i = choose|i: int| 0 <= i < all.len() && all[i] == line;
        all.lemma_filter_contains(f, i);
    }
}

/// A file holds an incident if and only if its name ends in `.json` and is more than that.
pub proof fn law_incident_files_end_in_json(name: Seq<char>, stem: Seq<char>)
    ensures
        stem.len() > 0 ==> names_incident(stem + seq!['.', 'j', 's', 'o', 'n']),
        names_incident(name) ==> name.len() > 5 && name == name.take(name.len() - 5) + seq![
            '.',
            'j',
            's',
            'o',
            'n',
        ],
{
    let full = stem + seq!['.', 'j', 's', 'o', 'n'];
    assert(full.skip(full.len() - 5) =~= seq!['.', 'j', 's', 'o', 'n']);
    if names_incident(name) {
        assert(name =~= name.take(name.len() - 5) + name.skip(name.len() - 5));
    }
}

/// An incident is always written, and its report after it. It is handled before it is written and
/// diagnosed before it is handled, and sent last; each of these is done if and only if it is
/// configured, and a diagnosis needs commands.
pub proof fn law_steps_of_recording(cfg: Config)
    ensures
        ({
            let d = cfg.diagnostics.enabled && cfg.diagnostics.commands@.len() > 0;
            let e = cfg.escalation.enabled;
            let c = cfg.central.enabled;
            let all = steps(cfg);
            let first: int = (if d { 1int } else { 0 }) + (if e { 1int } else { 0 });
            &&& all.len() == first + 2 + (if c { 1int } else { 0 })
            &&& d ==> all[0] == Step::Diagnose
            &&& e ==> all[first - 1] == Step::Escalate
            &&& all[first] == Step::Write
            &&& all[first + 1] == Step::Analyze
            &&& c ==> all.last() == Step::Push
            &&& !d ==> !all.contains(Step::Diagnose)
            &&& !e ==> !all.contains(Step::Escalate)
            &&& !c ==> !all.contains(Step::Push)
        }),
{
}

/// The list of incidents starts with the newest.
pub proof fn law_newest_incident_is_first(
    listed: Seq<Incident>,
    all: Seq<Incident>,
    i: int,
    j: int,
)
    requires
        is_stable_sort(listed, all, age()),
        0 <= i < j < listed.len(),
    ensures
        ({
            let (a, b) = (listed[i].timestamp, listed[j].timestamp);
            a.secs > b.secs || (a.secs == b.secs && a.nanos >= b.nanos)
        }),
        listed.to_multiset() == all.to_multiset(),
{
    assert(age()(listed[i]) <= age()(listed[j]));
}

/// A column holds its text, with blanks behind it up to its width, and never less than the text.
pub proof fn law_columns(s: Seq<char>, width: nat, i: int)
    ensures
        s.len() >= width ==> padded(s, width) == s,
        s.len() < width ==> padded(s, width).len() == width && padded(s, width).take(
            s.len() as int,
        ) == s,
        s.len() <= i < width ==> padded(s, width)[i] == ' ',
{
    if s.len() < width {
        assert(padded(s, width).take(s.len() as int) =~= s);
    }
}

/// In a row the time stands behind the identifier, and the message behind the time, each at its
/// place as long as what stands before it fits.
pub proof fn law_rows(id: Seq<char>, time: Seq<char>, message: Seq<char>)
    requires
        id.len() <= 24,
        time.len() <= 20,
    ensures
        row_text(id, time, message).len() == 48 + message.len(),
        row_text(id, time, message).take(id.len() as int) == id,
        row_text(id, time, message).subrange(26, (26 + time.len()) as int) == time,
        row_text(id, time, message).skip(48) == message,
{
    reveal_strlit("  ");
    let row = row_text(id, time, message);
    law_columns(id, 24, 0);
    law_columns(time, 20, 0);
    let (a, b) = (padded(id, 24), padded(time, 20));
    assert(a.len() == 24 && b.len() == 20);
    assert(row.take(id.len() as int) =~= a.take(id.len() as int));
    assert(row.subrange(26, (26 + time.len()) as int) =~= b.take(time.len() as int));
    assert(row.skip(48) =~= message);
}

/// An identifier is the time to the second, a hyphen, and the first eight characters of the UUID,
/// which are hexadecimal digits.
pub proof fn law_identifiers(now: Timestamp, uuid: Seq<char>, i: int)
    requires
        now.on_calendar(),
        uuid_text(uuid),
    ensures
        ({
            let time = utc_text(now.secs as int, now.nanos as int, "%Y%m%dT%H%M%S"@);
            let id = id_text(now, uuid);
            &&& id.len() == time.len() + 9
            &&& id.take(time.len() as int) == time
            &&& id[time.len() as int] == '-'
            &&& id.skip(time.len() as int + 1) == uuid.subrange(0, 8)
            &&& is_id(id)
            &&& 0 <= i < 8 ==> ('0' <= uuid[i] <= '9' || 'a' <= uuid[i] <= 'f')
        }),
        ID_FORMAT@ == "%Y%m%dT%H%M%S"@,
        LIST_FORMAT@ == "%Y-%m-%d %H:%M:%S"@,
{
    reveal_strlit("-");
    let time = utc_text(now.secs as int, now.nanos as int, ID_FORMAT@);
    let id = id_text(now, uuid);
    assert(id.take(time.len() as int) =~= time);
    assert(id.skip(time.len() as int + 1) =~= uuid.subrange(0, 8));
}

/// Whatever is an identifier ends in a hyphen and eight hexadecimal digits.
pub proof fn law_identifiers_end_in_digits(id: Seq<char>, i: int)
    requires
        is_id(id),
        0 <= i < 8,
    ensures
        id.len() >= 9,
        id[id.len() - 9] == '-',
        '0' <= id[id.len() - 8 + i] <= '9' || 'a' <= id[id.len() - 8 + i] <= 'f',
{
    reveal_strlit("-");
    let (now, uuid) = choose|now: Timestamp, uuid: Seq<char>|
        now.on_calendar() && uuid_text(uuid) && id == #[trigger] id_text(now, uuid);
    assert(id[id.len() - 8 + i] == uuid[i]);
    assert(is_hex_digit(uuid[i]));
}

}
