//! Diagnostic values: which are kept, how they are written, and what an incident gets of them.

use crate::clock::whole_seconds;
use crate::config::DiagnosticsConfig;
use crate::incident::DiagnosticSample;
use crate::sort::{is_stable_sort, stable_sort};
use crate::text::{join, joined, line_len, lines, lines_of, trim, trimmed, views, without_cr};
use vstd::prelude::*;

verus! {

/// The milliseconds of a minute.
pub const MINUTE_MS: i128 = 60_000;

/// Samples of one command that lie closer together than this count as one.
pub const SAME_SAMPLE_MS: i64 = 1000;

/// Whether diagnostic values are recorded.
pub fn active(cfg: &DiagnosticsConfig) -> (r: bool)
    ensures
        r == (cfg.enabled && cfg.commands@.len() > 0),
{
    cfg.enabled && cfg.commands.len() > 0
}

/// The time before which samples are dropped at `now_ms`.
pub open spec fn cutoff(now_ms: i64, retention_mins: u64) -> int {
    now_ms - whole_seconds(retention_mins) * MINUTE_MS
}

/// Whether the time before which samples are dropped can be held, and how long they are kept.
pub open spec fn cutoff_fits(now_ms: i64, retention_mins: u64) -> bool {
    &&& i64::MIN <= whole_seconds(retention_mins) * MINUTE_MS <= i64::MAX
    &&& i64::MIN <= cutoff(now_ms, retention_mins) <= i64::MAX
}

/// The configured number of minutes, in milliseconds.
fn retention_ms(retention_mins: u64) -> (r: i128)
    ensures
        r == whole_seconds(retention_mins) * MINUTE_MS,
{
    if retention_mins <= i64::MAX as u64 {
        retention_mins as i128 * MINUTE_MS
    } else {
        (retention_mins as i128 - 0x1_0000_0000_0000_0000) * MINUTE_MS
    }
}

/// Whether the time before which samples are dropped can be held.
pub fn has_cutoff(now_ms: i64, retention_mins: u64) -> (r: bool)
    ensures
        r == cutoff_fits(now_ms, retention_mins),
{
    let kept: i128 = retention_ms(retention_mins);
    let at: i128 = now_ms as i128 - kept;
    i64::MIN as i128 <= kept && kept <= i64::MAX as i128 && i64::MIN as i128 <= at && at
        <= i64::MAX as i128
}

/// The time before which samples are dropped.
pub fn cutoff_ms(now_ms: i64, retention_mins: u64) -> (r: i64)
    requires
        cutoff_fits(now_ms, retention_mins),
    ensures
        r == cutoff(now_ms, retention_mins),
{
    (now_ms as i128 - retention_ms(retention_mins)) as i64
}

/// The samples that are not too old.
pub open spec fn kept(samples: Seq<DiagnosticSample>, cutoff_ms: i64) -> Seq<DiagnosticSample> {
    samples.filter(|s: DiagnosticSample| s.ts_ms >= cutoff_ms)
}

/// The samples that are not too old.
pub fn recent_samples(samples: Vec<DiagnosticSample>, cutoff_ms: i64) -> (r: Vec<DiagnosticSample>)
    ensures
        r@ == kept(samples@, cutoff_ms),
{
    let ghost all = samples@;
    let ghost f = |s: DiagnosticSample| s.ts_ms >= cutoff_ms;
    let mut out: Vec<DiagnosticSample> = Vec::new();
    assert(all.take(0).filter(f) =~= Seq::empty()) by {
        reveal(Seq::filter);
    }
    for s in it: samples.into_iter()
        invariant
            it.seq() == all,
            f == (|s: DiagnosticSample| s.ts_ms >= cutoff_ms),
            out@ == all.take(it.index()).filter(f),
    {
        proof {
            let i = it.index();
            all.take(i).lemma_filter_push(all[i], f);
            assert(all.take(i + 1) =~= all.take(i).push(all[i]));
        }
        if s.ts_ms >= cutoff_ms {
            out.push(s);
        }
    }
    assert(all.take(all.len() as int) =~= all);
    out
}

/// The samples of the buffer after `new` came in: the old ones and the new ones that are not too
/// old.
pub fn append_and_prune(
    buffer: Vec<DiagnosticSample>,
    new: Vec<DiagnosticSample>,
    cutoff_ms: i64,
) -> (r: Vec<DiagnosticSample>)
    ensures
        r@ == kept(buffer@ + new@, cutoff_ms),
{
    let mut all = buffer;
    let mut more = new;
    all.append(&mut more);
    recent_samples(all, cutoff_ms)
}

/// The sample of a command that ran. One without an exit code counts as failed.
pub fn ran(ts_ms: i64, command: &str, output: String, code: Option<i32>) -> (r: DiagnosticSample)
    ensures
        r.ts_ms == ts_ms,
        r.command@ == command@,
        r.output == output,
        r.exit_code == (match code {
            Some(c) => c as int,
            None => -1,
        }),
{
    let exit_code: i32 = match code {
        Some(c) => c,
        None => -1,
    };
    DiagnosticSample { ts_ms, command: command.to_string(), output, exit_code }
}

/// The sample of a command that could not be run.
pub fn failed(ts_ms: i64, command: &str, error: &str) -> (r: DiagnosticSample)
    ensures
        r.ts_ms == ts_ms,
        r.command@ == command@,
        r.output@ == "(執行失敗:"@ + error@ + ")"@,
        r.exit_code == -1,
{
    let mut output = "(執行失敗:".to_string();
    output.append(error);
    output.append(")");
    DiagnosticSample { ts_ms, command: command.to_string(), output, exit_code: -1 }
}

/// The name of the buffer file of a project.
pub fn buffer_file(project: &str) -> (r: String)
    ensures
        r@ == project@ + ".jsonl"@,
{
    let mut r = project.to_string();
    r.append(".jsonl");
    r
}

/// The lines of `s` that hold more than white space.
pub open spec fn written_lines(s: Seq<char>) -> Seq<Seq<char>> {
    lines_of(s).filter(|line: Seq<char>| trimmed(line).len() > 0)
}

/// The lines of the buffer file, each of which holds a sample.
pub fn buffer_lines(raw: &str) -> (r: Vec<String>)
    ensures
        views(r@) == written_lines(raw@),
{
    let all = lines(raw);
    let ghost vs = views(all@);
    let ghost f = |line: Seq<char>| trimmed(line).len() > 0;
    let mut out: Vec<String> = Vec::new();
    assert(vs.take(0).filter(f) =~= Seq::empty()) by {
        reveal(Seq::filter);
    }
    assert(views(out@) =~= Seq::<Seq<char>>::empty());
    for i in 0..all.len()
        invariant
            vs == views(all@),
            f == (|line: Seq<char>| trimmed(line).len() > 0),
            views(out@) == vs.take(i as int).filter(f),
    {
        let ghost before = views(out@);
        proof {
            vs.take(i as int).lemma_filter_push(vs[i as int], f);
            assert(vs.take(i + 1) =~= vs.take(i as int).push(vs[i as int]));
        }
        let body = trim(all[i].as_str());
        if body.as_str().unicode_len() > 0 {
            out.push(all[i].clone());
            assert(views(out@) =~= before.push(vs[i as int]));
        }
    }
    assert(vs.take(vs.len() as int) =~= vs);
    out
}

/// The buffer file that holds `list`, one sample in each line.
pub open spec fn buffer_text(list: Seq<Seq<char>>) -> Seq<char> {
    joined(list, "\n"@) + "\n"@
}

/// The buffer file that holds `list`, one sample in each line.
pub fn buffer_body(list: &Vec<String>) -> (r: String)
    ensures
        r@ == buffer_text(views(list@)),
{
    let mut r = join(list, "\n");
    r.append("\n");
    r
}

/// Whether `line` can stand in the buffer file: it holds more than white space, no line feed, and
/// no carriage return at its end.
pub open spec fn is_record(line: Seq<char>) -> bool {
    &&& trimmed(line).len() > 0
    &&& forall|i: int| 0 <= i < line.len() ==> #[trigger] line[i] != '\n'
    &&& line.len() > 0 ==> line.last() != '\r'
}

proof fn lemma_line_of(line: Seq<char>, rest: Seq<char>)
    requires
        forall|i: int| 0 <= i < line.len() ==> #[trigger] line[i] != '\n',
    ensures
        line_len(line + seq!['\n'] + rest) == line.len(),
    decreases line.len(),
{
    let s = line + seq!['\n'] + rest;
    if line.len() > 0 {
        let tail = line.drop_first();
        assert forall|i: int| 0 <= i < tail.len() implies #[trigger] tail[i] != '\n' by {
            assert(tail[i] == line[i + 1]);
        }
        lemma_line_of(tail, rest);
        assert(s.drop_first() =~= tail + seq!['\n'] + rest);
        assert(s.first() == line[0]);
    } else {
        assert(s.first() == '\n');
    }
}

/// The text of lines that each end in a line feed.
spec fn ended(list: Seq<Seq<char>>) -> Seq<char>
    decreases list.len(),
{
    if list.len() == 0 {
        Seq::empty()
    } else {
        list[0] + seq!['\n'] + ended(list.drop_first())
    }
}

proof fn lemma_ended_add(a: Seq<Seq<char>>, b: Seq<Seq<char>>)
    ensures
        ended(a + b) == ended(a) + ended(b),
    decreases a.len(),
{
    if a.len() == 0 {
        assert(a + b =~= b);
        assert(ended(a) + ended(b) =~= ended(b));
    } else {
        lemma_ended_add(a.drop_first(), b);
        assert((a + b).drop_first() =~= a.drop_first() + b);
        assert((a + b)[0] == a[0]);
        assert(ended(a + b) =~= ended(a) + ended(b));
    }
}

proof fn lemma_joined_is_ended(list: Seq<Seq<char>>)
    requires
        list.len() > 0,
    ensures
        buffer_text(list) == ended(list),
    decreases list.len(),
{
    reveal_strlit("\n");
    assert("\n"@ =~= seq!['\n']);
    let last = seq![list.last()];
    assert(last.drop_first() =~= Seq::<Seq<char>>::empty());
    assert(ended(last.drop_first()) =~= Seq::<char>::empty());
    assert(ended(last) =~= list.last() + seq!['\n']);
    if list.len() == 1 {
        assert(list =~= last);
    } else {
        let front = list.drop_last();
        lemma_joined_is_ended(front);
        lemma_ended_add(front, last);
        assert(list =~= front + last);
        assert(buffer_text(list) =~= buffer_text(front) + (list.last() + "\n"@));
    }
}

proof fn lemma_lines_of_ended(list: Seq<Seq<char>>)
    requires
        forall|i: int| 0 <= i < list.len() ==> is_record(#[trigger] list[i]),
    ensures
        lines_of(ended(list)) == list,
    decreases list.len(),
{
    if list.len() == 0 {
        assert(lines_of(ended(list)) =~= list);
    } else {
        let rest = list.drop_first();
        assert forall|i: int| 0 <= i < rest.len() implies is_record(#[trigger] rest[i]) by {
            assert(rest[i] == list[i + 1]);
        }
        lemma_lines_of_ended(rest);
        let line = list[0];
        assert(is_record(line));
        let s = line + seq!['\n'] + ended(rest);
        lemma_line_of(line, ended(rest));
        assert(s.take(line.len() as int) =~= line);
        assert(s.skip(line.len() as int + 1) =~= ended(rest));
        assert(without_cr(line) == line);
        assert(seq![line] + rest =~= list);
    }
}

/// What is written to the buffer file is what is read from it.
pub proof fn law_buffer_round_trip(list: Seq<Seq<char>>)
    requires
        forall|i: int| 0 <= i < list.len() ==> is_record(#[trigger] list[i]),
    ensures
        written_lines(buffer_text(list)) == list,
{
    let f = |line: Seq<char>| trimmed(line).len() > 0;
    if list.len() == 0 {
        reveal_strlit("\n");
        let s = buffer_text(list);
        assert(s =~= seq!['\n']);
        assert(line_len(s) == 0);
        assert(s.take(0) =~= Seq::<char>::empty());
        assert(s.skip(1) =~= Seq::<char>::empty());
        assert(lines_of(s.skip(1)) =~= Seq::<Seq<char>>::empty());
        assert(lines_of(s) == seq![without_cr(s.take(0))] + lines_of(s.skip(1)));
        assert(lines_of(s) =~= seq![Seq::<char>::empty()]);
        assert(trimmed(Seq::<char>::empty()).len() == 0);
        reveal(Seq::filter);
        assert(lines_of(s).drop_last() =~= Seq::<Seq<char>>::empty());
        assert(lines_of(s).drop_last().filter(f) =~= Seq::<Seq<char>>::empty());
        assert(!f(lines_of(s).last()));
        assert(written_lines(s) =~= list);
    } else {
        lemma_joined_is_ended(list);
        lemma_lines_of_ended(list);
        assert forall|i: int| 0 <= i < list.len() implies f(#[trigger] list[i]) by {
            assert(is_record(list[i]));
        }
        lemma_all_kept(list, f);
    }
}

proof fn lemma_all_kept(list: Seq<Seq<char>>, f: spec_fn(Seq<char>) -> bool)
    requires
        forall|i: int| 0 <= i < list.len() ==> f(#[trigger] list[i]),
    ensures
        list.filter(f) == list,
    decreases list.len(),
{
    reveal(Seq::filter);
    if list.len() > 0 {
        lemma_all_kept(list.drop_last(), f);
        assert(f(list[list.len() - 1]));
        assert(list.drop_last().push(list.last()) =~= list);
    }
}

/// Whether two samples count as one: they are of one command and of nearly the same time.
pub open spec fn same_sample(a: DiagnosticSample, b: DiagnosticSample) -> bool {
    a.command@ == b.command@ && -SAME_SAMPLE_MS < a.ts_ms - b.ts_ms < SAME_SAMPLE_MS
}

/// Whether `list` has a sample that counts as one with `s`.
pub open spec fn has_sample(list: Seq<DiagnosticSample>, s: DiagnosticSample) -> bool {
    exists|i: int| 0 <= i < list.len() && same_sample(#[trigger] list[i], s)
}

/// The history and those of the samples `immediate` that do not count as one with any before.
pub open spec fn merged(
    history: Seq<DiagnosticSample>,
    immediate: Seq<DiagnosticSample>,
) -> Seq<DiagnosticSample>
    decreases immediate.len(),
{
    if immediate.len() == 0 {
        history
    } else {
        let before = merged(history, immediate.drop_last());
        if has_sample(before, immediate.last()) {
            before
        } else {
            before.push(immediate.last())
        }
    }
}

/// The time of a sample.
pub open spec fn sample_time() -> spec_fn(DiagnosticSample) -> int {
    |s: DiagnosticSample| s.ts_ms as int
}

/// Whether `list` has a sample that counts as one with `s`.
fn is_duplicate(list: &Vec<DiagnosticSample>, s: &DiagnosticSample) -> (r: bool)
    ensures
        r == has_sample(list@, *s),
{
    for i in 0..list.len()
        invariant
            forall|j: int| 0 <= j < i ==> !same_sample(#[trigger] list@[j], *s),
    {
        let h = &list[i];
        let apart: i128 = h.ts_ms as i128 - s.ts_ms as i128;
        if h.command == s.command && apart < SAME_SAMPLE_MS as i128 && -(SAME_SAMPLE_MS as i128)
            < apart {
            assert(same_sample(list@[i as int], *s));
            return true;
        }
    }
    false
}

/// The diagnostic values of an incident: those from before it and those of the moment, without
/// repetitions, by time.
pub fn merge_history(
    history: Vec<DiagnosticSample>,
    immediate: Vec<DiagnosticSample>,
) -> (r: Vec<DiagnosticSample>)
    ensures
        is_stable_sort(r@, merged(history@, immediate@), sample_time()),
{
    let ghost before = history@;
    let ghost now = immediate@;
    let mut all = history;
    assert(now.take(0) =~= Seq::<DiagnosticSample>::empty());
    for s in it: immediate.into_iter()
        invariant
            it.seq() == now,
            all@ == merged(before, now.take(it.index())),
    {
        proof {
            let i = it.index();
            assert(now.take(i + 1).drop_last() =~= now.take(i));
            assert(now.take(i + 1).last() == s);
        }
        if !is_duplicate(&all, &s) {
            all.push(s);
        }
    }
    assert(now.take(now.len() as int) =~= now);
    let ghost sorted_from = all@;
    let mut timed: Vec<(i128, DiagnosticSample)> = Vec::new();
    for s in it: all.into_iter()
        invariant
            it.seq() == sorted_from,
            timed@.len() == it.index(),
            forall|j: int|
                0 <= j < it.index() ==> (#[trigger] timed@[j]).1 == sorted_from[j] && timed@[j].0
                    == sample_time()(sorted_from[j]),
    {
        timed.push((s.ts_ms as i128, s));
    }
    let ghost plain = timed@.map_values(|p: (i128, DiagnosticSample)| p.1);
    assert(plain =~= sorted_from);
    stable_sort(timed, Ghost(sample_time()))
}

/// No sample of the moment repeats one that is there already.
pub proof fn law_history_has_no_repetition(
    history: Seq<DiagnosticSample>,
    immediate: Seq<DiagnosticSample>,
)
    ensures
        history.is_prefix_of(merged(history, immediate)),
        forall|i: int, j: int|
            0 <= i < j && history.len() <= j < merged(history, immediate).len() ==> !same_sample(
                #[trigger] merged(history, immediate)[i],
                #[trigger] merged(history, immediate)[j],
            ),
        forall|k: int|
            0 <= k < immediate.len() ==> has_sample(
                merged(history, immediate),
                #[trigger] immediate[k],
            ),
    decreases immediate.len(),
{
    if immediate.len() > 0 {
        let rest = immediate.drop_last();
        law_history_has_no_repetition(history, rest);
        let before = merged(history, rest);
        let after = merged(history, immediate);
        let s = immediate.last();
        assert(has_sample(after, s)) by {
            if !has_sample(before, s) {
                assert(after[after.len() - 1] == s);
                assert(same_sample(after[after.len() - 1], s));
            }
        }
        assert forall|k: int| 0 <= k < immediate.len() implies has_sample(
            after,
            #[trigger] immediate[k],
        ) by {
            if k < rest.len() {
                assert(rest[k] == immediate[k]);
                let m = choose|m: int|
                    0 <= m < before.len() && same_sample(#[trigger] before[m], rest[k]);
                assert(after[m] == before[m]);
            }
        }
    }
}

}
