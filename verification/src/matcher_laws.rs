//! What the search for errors promises over a whole stream of lines.

use crate::incident::FrameView;
use crate::matcher::{
    call_in, calls_in, fed, law_traces_are_bounded, marked, scanned, EventView, PendingView,
    MAX_FRAMES,
};
use crate::patterns::{regex_groups, regex_matches, NODE_FRAME, PY_FRAME};
use crate::text::{joined, parsed_u32, trimmed};
use vstd::prelude::*;

verus! {

/// The lines from `start` up to `end`, without the latter.
pub struct Span {
    pub start: int,
    pub end: int,
}

impl Span {
    /// Whether line `k` is one of them.
    pub open spec fn holds(self, k: int) -> bool {
        self.start <= k < self.end
    }

    /// The lines themselves.
    pub open spec fn of(self, lines: Seq<Seq<char>>) -> Seq<Seq<char>> {
        lines.subrange(self.start, self.end)
    }

    /// Whether the lines are an error line and lines of a stack trace, no more than are kept.
    pub open spec fn is_block(self, patterns: Seq<Seq<char>>, lines: Seq<Seq<char>>) -> bool {
        &&& 0 <= self.start < self.end <= lines.len()
        &&& marked(patterns, lines[self.start])
        &&& self.end - self.start - 1 <= MAX_FRAMES
        &&& forall|i: int| self.start < i < self.end ==> call_in(#[trigger] lines[i]) is Some
    }

    /// Whether no line after them belongs to them: they are as many as are kept, or the next line
    /// is none of a stack trace, or there is none.
    pub open spec fn is_whole(self, lines: Seq<Seq<char>>) -> bool {
        ||| self.end == lines.len()
        ||| self.is_closed(lines)
    }

    /// Whether it is plain from the lines read so far that no line after them belongs to them.
    pub open spec fn is_closed(self, lines: Seq<Seq<char>>) -> bool {
        ||| self.end - self.start - 1 == MAX_FRAMES
        ||| self.end < lines.len() && call_in(lines[self.end]) is None
    }
}

/// The error that a block tells of: its first line is the message, the others are the calls, and
/// all of them are kept as they were.
pub open spec fn event_of(block: Seq<Seq<char>>) -> EventView {
    EventView {
        message: trimmed(block[0]),
        frames: calls_in(block.drop_first()),
        raw: joined(block, "\n"@),
    }
}

/// The errors that blocks tell of.
pub open spec fn events_of(lines: Seq<Seq<char>>, blocks: Seq<Span>) -> Seq<EventView> {
    blocks.map_values(|b: Span| event_of(b.of(lines)))
}

/// The errors that are found in `lines` until they have ended.
pub open spec fn found(patterns: Seq<Seq<char>>, lines: Seq<Seq<char>>) -> Seq<EventView> {
    let (pending, events) = scanned(patterns, None, lines);
    match pending {
        Some(p) => events.push(p.event()),
        None => events,
    }
}

/// Whether line `k` is in one of the blocks.
pub open spec fn covered(blocks: Seq<Span>, k: int) -> bool {
    exists|i: int| 0 <= i < blocks.len() && (#[trigger] blocks[i]).holds(k)
}

/// Whether no block begins before the ones before it have ended.
pub open spec fn in_order(blocks: Seq<Span>) -> bool {
    forall|i: int, j: int|
        0 <= i < j < blocks.len() ==> (#[trigger] blocks[i]).end <= (#[trigger] blocks[j]).start
}

/// Whether `blocks` are the errors in `lines`: whole blocks, one after the other, and every line at
/// which an error could start is in one of them, as its first line or as a line of its trace.
pub open spec fn divides(
    patterns: Seq<Seq<char>>,
    lines: Seq<Seq<char>>,
    blocks: Seq<Span>,
) -> bool {
    &&& forall|i: int|
        0 <= i < blocks.len() ==> (#[trigger] blocks[i]).is_block(patterns, lines)
            && blocks[i].is_whole(lines)
    &&& in_order(blocks)
    &&& forall|k: int|
        0 <= k < lines.len() && marked(patterns, #[trigger] lines[k]) ==> covered(blocks, k)
}

/// Whether `blocks` are the errors that were handed over in `lines`, and `open` is where the one
/// begins that is pending.
spec fn tracks(
    patterns: Seq<Seq<char>>,
    lines: Seq<Seq<char>>,
    blocks: Seq<Span>,
    open: Option<int>,
) -> bool {
    let limit = match open {
        Some(start) => start,
        None => lines.len() as int,
    };
    let (pending, events) = scanned(patterns, None, lines);
    &&& 0 <= limit <= lines.len()
    &&& forall|i: int|
        0 <= i < blocks.len() ==> (#[trigger] blocks[i]).is_block(patterns, lines)
            && blocks[i].is_closed(lines) && blocks[i].end <= limit
    &&& in_order(blocks)
    &&& forall|k: int|
        0 <= k < limit && marked(patterns, #[trigger] lines[k]) ==> covered(blocks, k)
    &&& events == events_of(lines, blocks)
    &&& match open {
        None => pending is None,
        Some(start) => {
            let b = Span { start, end: lines.len() as int };
            &&& b.is_block(patterns, lines)
            &&& b.end - b.start - 1 < MAX_FRAMES
            &&& pending == Some(
                PendingView {
                    message: trimmed(lines[start]),
                    lines: b.of(lines),
                    frames: calls_in(b.of(lines).drop_first()),
                },
            )
        },
    }
}

proof fn lemma_covered(blocks: Seq<Span>, b: Span, k: int)
    ensures
        covered(blocks.push(b), k) == (covered(blocks, k) || b.holds(k)),
{
    let more = blocks.push(b);
    if covered(blocks, k) {
        let i = choose|i: int| 0 <= i < blocks.len() && (#[trigger] blocks[i]).holds(k);
        assert(more[i].holds(k));
    }
    if b.holds(k) {
        assert(more[blocks.len() as int].holds(k));
    }
}

proof fn lemma_events(lines: Seq<Seq<char>>, line: Seq<char>, blocks: Seq<Span>, b: Span)
    requires
        forall|i: int|
            0 <= i < blocks.len() ==> 0 <= (#[trigger] blocks[i]).start < blocks[i].end
                <= lines.len(),
    ensures
        events_of(lines.push(line), blocks) == events_of(lines, blocks),
        events_of(lines.push(line), blocks.push(b)) == events_of(lines, blocks).push(
            event_of(b.of(lines.push(line))),
        ),
{
    assert forall|i: int| 0 <= i < blocks.len() implies (#[trigger] blocks[i]).of(lines.push(line))
        == blocks[i].of(lines) by {
        assert(blocks[i].of(lines.push(line)) =~= blocks[i].of(lines));
    }
    assert(events_of(lines.push(line), blocks) =~= events_of(lines, blocks));
    assert(events_of(lines.push(line), blocks.push(b)) =~= events_of(lines, blocks).push(
        event_of(b.of(lines.push(line))),
    ));
}

proof fn lemma_tracks(patterns: Seq<Seq<char>>, lines: Seq<Seq<char>>) -> (r: (
    Seq<Span>,
    Option<int>,
))
    ensures
        tracks(patterns, lines, r.0, r.1),
    decreases lines.len(),
{
    if lines.len() == 0 {
        let blocks = Seq::<Span>::empty();
        assert(events_of(lines, blocks) =~= Seq::<EventView>::empty());
        (blocks, None)
    } else {
        let rest = lines.drop_last();
        let line = lines.last();
        let n = rest.len() as int;
        let (blocks, open) = lemma_tracks(patterns, rest);
        assert(rest.push(line) =~= lines);
        let (pending, events) = scanned(patterns, None, rest);
        let next: Option<int> = if marked(patterns, line) {
            Some(n)
        } else {
            None
        };
        let fresh = Span { start: n, end: n + 1 };
        assert(fresh.of(lines) =~= seq![line]);
        assert(calls_in(fresh.of(lines).drop_first()) =~= Seq::<FrameView>::empty());
        match open {
            None => {
                lemma_events(rest, line, blocks, fresh);
                assert(tracks(patterns, lines, blocks, next));
                (blocks, next)
            },
            Some(start) => {
                let was = Span { start, end: n };
                let now = Span { start, end: n + 1 };
                assert(was.of(lines) =~= was.of(rest));
                assert(now.of(lines) =~= was.of(rest).push(line));
                assert(now.of(lines).drop_first() =~= was.of(rest).drop_first().push(line));
                match call_in(line) {
                    Some(call) => {
                        assert(calls_in(now.of(lines).drop_first()) =~= calls_in(
                            was.of(rest).drop_first(),
                        ).push(call));
                        if n - start >= MAX_FRAMES {
                            lemma_events(rest, line, blocks, now);
                            let more = blocks.push(now);
                            assert forall|k: int|
                                0 <= k < lines.len() && marked(
                                    patterns,
                                    #[trigger] lines[k],
                                ) implies covered(more, k) by {
                                lemma_covered(blocks, now, k);
                            }
                            assert(tracks(patterns, lines, more, None));
                            (more, None)
                        } else {
                            lemma_events(rest, line, blocks, now);
                            assert(tracks(patterns, lines, blocks, open));
                            (blocks, open)
                        }
                    },
                    None => {
                        lemma_events(rest, line, blocks, was);
                        let more = blocks.push(was);
                        assert forall|k: int|
                            0 <= k < n && marked(
                                patterns,
                                #[trigger] lines[k],
                            ) implies covered(more, k) by {
                            lemma_covered(blocks, was, k);
                        }
                        assert(tracks(patterns, lines, more, next));
                        (more, next)
                    },
                }
            },
        }
    }
}

/// In any stream of lines exactly the blocks are found, in their order: each error line that is
/// not read as a line of the trace before it begins one, the lines of a stack trace that follow
/// belong to it, as many as are kept, and each block is handed over once and whole.
pub proof fn law_whole_blocks_are_found(patterns: Seq<Seq<char>>, lines: Seq<Seq<char>>)
    ensures
        exists|blocks: Seq<Span>| #[trigger]
            divides(patterns, lines, blocks) && found(patterns, lines) == events_of(lines, blocks),
{
    let (blocks, open) = lemma_tracks(patterns, lines);
    match open {
        None => {
            assert(divides(patterns, lines, blocks));
        },
        Some(start) => {
            let last = Span { start, end: lines.len() as int };
            let all = blocks.push(last);
            assert forall|k: int|
                0 <= k < lines.len() && marked(patterns, #[trigger] lines[k]) implies covered(
                all,
                k,
            ) by {
                lemma_covered(blocks, last, k);
            }
            assert(events_of(lines, all) =~= events_of(lines, blocks).push(
                event_of(last.of(lines)),
            ));
            assert(divides(patterns, lines, all));
        },
    }
}

/// There is only one way to divide lines into blocks.
pub proof fn law_blocks_are_determined(
    patterns: Seq<Seq<char>>,
    lines: Seq<Seq<char>>,
    one: Seq<Span>,
    other: Seq<Span>,
)
    requires
        divides(patterns, lines, one),
        divides(patterns, lines, other),
    ensures
        one == other,
{
    if one.len() <= other.len() {
        lemma_same_blocks(patterns, lines, one, other, one.len() as int);
        lemma_no_more(patterns, lines, one, other);
    } else {
        lemma_same_blocks(patterns, lines, other, one, other.len() as int);
        lemma_no_more(patterns, lines, other, one);
    }
    assert(one =~= other);
}

proof fn lemma_no_more(
    patterns: Seq<Seq<char>>,
    lines: Seq<Seq<char>>,
    one: Seq<Span>,
    other: Seq<Span>,
)
    requires
        divides(patterns, lines, one),
        divides(patterns, lines, other),
        one.len() <= other.len(),
        forall|i: int| 0 <= i < one.len() ==> #[trigger] one[i] == other[i],
    ensures
        one.len() == other.len(),
{
    if one.len() < other.len() {
        let n = one.len() as int;
        let k = other[n].start;
        assert(other[n].is_block(patterns, lines));
        assert(marked(patterns, lines[k]));
        assert(covered(one, k));
        let i = choose|i: int| 0 <= i < one.len() && (#[trigger] one[i]).holds(k);
        assert(one[i] == other[i]);
        assert(other[i].end <= other[n].start);
    }
}

proof fn lemma_same_blocks(
    patterns: Seq<Seq<char>>,
    lines: Seq<Seq<char>>,
    one: Seq<Span>,
    other: Seq<Span>,
    n: int,
)
    requires
        divides(patterns, lines, one),
        divides(patterns, lines, other),
        0 <= n <= one.len() <= other.len(),
    ensures
        forall|i: int| 0 <= i < n ==> #[trigger] one[i] == other[i],
    decreases n,
{
    if n > 0 {
        lemma_same_blocks(patterns, lines, one, other, n - 1);
        let (a, b) = (one[n - 1], other[n - 1]);
        assert(a.is_block(patterns, lines) && a.is_whole(lines));
        assert(b.is_block(patterns, lines) && b.is_whole(lines));
        lemma_starts_no_later(patterns, lines, one, other, n - 1);
        lemma_starts_no_later(patterns, lines, other, one, n - 1);
        assert(a.start == b.start);
        if a.end < b.end {
            assert(call_in(lines[a.end]) is Some);
        }
        if b.end < a.end {
            assert(call_in(lines[b.end]) is Some);
        }
        assert(a == b);
        assert forall|i: int| 0 <= i < n implies #[trigger] one[i] == other[i] by {
            assert(i < n - 1 || i == n - 1);
        }
    }
}

/// Where the blocks before are the same, the next block starts no later than the other one: the
/// first line of the other has to be in a block.
proof fn lemma_starts_no_later(
    patterns: Seq<Seq<char>>,
    lines: Seq<Seq<char>>,
    one: Seq<Span>,
    other: Seq<Span>,
    n: int,
)
    requires
        divides(patterns, lines, one),
        divides(patterns, lines, other),
        0 <= n < one.len(),
        n < other.len(),
        forall|i: int| 0 <= i < n ==> #[trigger] one[i] == other[i],
    ensures
        one[n].start <= other[n].start,
{
    let k = other[n].start;
    assert(other[n].is_block(patterns, lines));
    assert(marked(patterns, lines[k]));
    assert(covered(one, k));
    let i = choose|i: int| 0 <= i < one.len() && (#[trigger] one[i]).holds(k);
    if i < n {
        assert(one[i] == other[i]);
        assert(other[i].end <= other[n].start);
    } else if i > n {
        assert(one[n].is_block(patterns, lines));
        assert(one[n].end <= one[i].start);
    }
}

/// A line is an error line if and only if one of the patterns matches somewhere in it, whatever
/// else the line holds.
pub proof fn law_error_lines_are_those_that_a_pattern_matches(
    patterns: Seq<Seq<char>>,
    line: Seq<char>,
    i: int,
)
    ensures
        0 <= i < patterns.len() && regex_matches(patterns[i], line) ==> marked(patterns, line),
        (forall|j: int| 0 <= j < patterns.len() ==> !regex_matches(#[trigger] patterns[j], line))
            ==> !marked(patterns, line),
{
}

/// A pattern more finds no fewer errors, and those besides are the ones that it matches.
pub proof fn law_more_patterns_find_more(
    patterns: Seq<Seq<char>>,
    more: Seq<char>,
    line: Seq<char>,
)
    ensures
        marked(patterns.push(more), line) <==> marked(patterns, line) || regex_matches(more, line),
{
    let all = patterns.push(more);
    if marked(patterns, line) {
        let i = choose|i: int| 0 <= i < patterns.len() && regex_matches(#[trigger] patterns[i], line);
        assert(regex_matches(all[i], line));
    }
    if regex_matches(more, line) {
        assert(regex_matches(all[patterns.len() as int], line));
    }
    if marked(all, line) && !regex_matches(more, line) {
        let i = choose|i: int| 0 <= i < all.len() && regex_matches(#[trigger] all[i], line);
        assert(patterns[i] == all[i]);
    }
}

/// A line belongs to a stack trace if and only if it has the form of Node.js or that of Python. Its
/// call is what the groups of the match hold: of Node.js the function, the file, the line and the
/// column, of Python the file, the line and the function. A function without a name is called so,
/// a line number that does not fit is 0, and a column that does not fit is missing.
pub proof fn law_trace_lines(line: Seq<char>)
    ensures
        call_in(line) is Some <==> regex_matches(NODE_FRAME@, line) || regex_matches(
            PY_FRAME@,
            line,
        ),
        regex_matches(NODE_FRAME@, line) ==> {
            let g = regex_groups(NODE_FRAME@, line);
            let call = call_in(line)->0;
            &&& g[1] matches Some(name) ==> call.function == name
            &&& g[1] is None ==> call.function == "<anonymous>"@
            &&& call.file == g[2]->0
            &&& parsed_u32(g[3]->0) matches Some(n) ==> call.line == n
            &&& parsed_u32(g[3]->0) is None ==> call.line == 0
            &&& call.column == parsed_u32(g[4]->0)
            &&& call.raw == trimmed(line)
        },
        !regex_matches(NODE_FRAME@, line) && regex_matches(PY_FRAME@, line) ==> {
            let g = regex_groups(PY_FRAME@, line);
            let call = call_in(line)->0;
            &&& call.file == g[1]->0
            &&& parsed_u32(g[2]->0) matches Some(n) ==> call.line == n
            &&& parsed_u32(g[2]->0) is None ==> call.line == 0
            &&& call.function == g[3]->0
            &&& call.column is None
            &&& call.raw == trimmed(line)
        },
{
}

/// The calls of a trace are those of its lines, one for each, in their order.
pub proof fn law_one_call_for_each_line(lines: Seq<Seq<char>>, i: int)
    requires
        0 <= i < lines.len(),
        call_in(lines[i]) is Some,
    ensures
        calls_in(lines).len() == lines.len(),
        call_in(lines[i]) == Some(calls_in(lines)[i]),
{
}

/// An error keeps at most 50 calls: the line that brings the fiftieth hands it over, with all its
/// lines, and the line before it does not.
pub proof fn law_fiftieth_call_ends_an_error(
    patterns: Seq<Seq<char>>,
    p: PendingView,
    line: Seq<char>,
)
    requires
        call_in(line) is Some,
    ensures
        p.frames.len() >= 49 ==> fed(patterns, Some(p), line).0 is None && fed(
            patterns,
            Some(p),
            line,
        ).1 == Some(
            EventView {
                message: p.message,
                frames: p.frames.push(call_in(line)->0),
                raw: joined(p.lines.push(line), "\n"@),
            },
        ),
        p.frames.len() < 49 ==> fed(patterns, Some(p), line).1 is None && fed(
            patterns,
            Some(p),
            line,
        ).0 == Some(
            PendingView {
                message: p.message,
                lines: p.lines.push(line),
                frames: p.frames.push(call_in(line)->0),
            },
        ),
{
}

/// A line that belongs to no stack trace ends what is pending, which is handed over as it is, and
/// starts an error if and only if one of the patterns matches it. Without anything pending nothing
/// is handed over, and a line of a stack trace can start an error too.
pub proof fn law_other_lines_end_an_error(
    patterns: Seq<Seq<char>>,
    p: PendingView,
    line: Seq<char>,
)
    ensures
        ({
            let started = Some(
                PendingView {
                    message: trimmed(line),
                    lines: seq![line],
                    frames: Seq::<FrameView>::empty(),
                },
            );
            let (kept, event) = fed(patterns, None, line);
            &&& event is None
            &&& marked(patterns, line) ==> kept == started
            &&& !marked(patterns, line) ==> kept is None
            &&& call_in(line) is None ==> {
                let (kept, event) = fed(patterns, Some(p), line);
                &&& event == Some(
                    EventView {
                        message: p.message,
                        frames: p.frames,
                        raw: joined(p.lines, "\n"@),
                    },
                )
                &&& marked(patterns, line) ==> kept == started
                &&& !marked(patterns, line) ==> kept is None
            }
        }),
{
}

/// Whatever was read, what is pending has its first line and one line for each of its calls, fewer
/// than 50, and no error has more than 50 calls.
pub proof fn law_one_line_for_each_call(patterns: Seq<Seq<char>>, lines: Seq<Seq<char>>, i: int)
    ensures
        scanned(patterns, None, lines).0 matches Some(p) ==> p.lines.len() == p.frames.len() + 1
            && p.frames.len() < 50,
        0 <= i < scanned(patterns, None, lines).1.len() ==> scanned(
            patterns,
            None,
            lines,
        ).1[i].frames.len() <= 50,
{
    law_traces_are_bounded(patterns, lines);
}

/// Lines are read one by one: the last one acts on what the ones before it left pending, and what it
/// completes comes behind what they completed.
pub proof fn law_lines_are_read_one_by_one(
    patterns: Seq<Seq<char>>,
    pending: Option<PendingView>,
    lines: Seq<Seq<char>>,
    line: Seq<char>,
)
    ensures
        scanned(patterns, pending, Seq::empty()).0 == pending,
        scanned(patterns, pending, Seq::empty()).1.len() == 0,
        ({
            let (kept, events) = scanned(patterns, pending, lines);
            let (next, event) = fed(patterns, kept, line);
            let (after, all) = scanned(patterns, pending, lines.push(line));
            &&& after == next
            &&& event is None ==> all == events
            &&& event matches Some(e) ==> all == events.push(e)
        }),
{
    assert(lines.push(line).drop_last() =~= lines);
}

}
