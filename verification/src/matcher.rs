//! Finds errors and their stack traces in lines of output.

use crate::config::standard_error_patterns;
use crate::incident::{frame_views, Frame, FrameView};
use crate::patterns::{
    captures, compile, group_views, is_match, known_pattern, node_groups, py_groups,
    regex_compiles, regex_error, regex_groups, regex_matches, regex_source, NODE_FRAME, PY_FRAME,
};
use crate::text::{join, joined, parse_u32, parsed_u32, trim, trimmed, views};
use regex::Regex;
use vstd::prelude::*;

verus! {

/// The most calls that are kept of one stack trace.
pub const MAX_FRAMES: usize = 50;

/// An error that was found, with its stack trace.
#[derive(Debug, Clone)]
pub struct ErrorEvent {
    pub message: String,
    pub frames: Vec<Frame>,
    pub raw: String,
}

/// An error that was found, by what it says.
pub struct EventView {
    pub message: Seq<char>,
    pub frames: Seq<FrameView>,
    pub raw: Seq<char>,
}

impl View for ErrorEvent {
    type V = EventView;

    open spec fn view(&self) -> EventView {
        EventView {
            message: self.message@,
            frames: frame_views(self.frames@),
            raw: self.raw@,
        }
    }
}

/// A pattern that is no regular expression.
#[derive(Debug)]
pub struct PatternError {
    pub pattern: String,
    pub cause: regex::Error,
}

/// What `s` writes in decimal; 0 where it writes no number that fits.
pub open spec fn number_or_zero(s: Seq<char>) -> u32 {
    match parsed_u32(s) {
        Some(n) => n,
        None => 0,
    }
}

/// The call that a line of a Node.js stack trace describes, by the groups of its match.
pub open spec fn node_call(groups: Seq<Option<Seq<char>>>, line: Seq<char>) -> FrameView {
    FrameView {
        function: match groups[1] {
            Some(name) => name,
            None => "<anonymous>"@,
        },
        file: groups[2]->0,
        line: number_or_zero(groups[3]->0),
        column: parsed_u32(groups[4]->0),
        raw: trimmed(line),
    }
}

/// The call that a line of a Python stack trace describes, by the groups of its match.
pub open spec fn py_call(groups: Seq<Option<Seq<char>>>, line: Seq<char>) -> FrameView {
    FrameView {
        function: groups[3]->0,
        file: groups[1]->0,
        line: number_or_zero(groups[2]->0),
        column: None,
        raw: trimmed(line),
    }
}

/// The call that a line describes, if it is a line of a stack trace.
pub open spec fn call_in(line: Seq<char>) -> Option<FrameView> {
    if regex_matches(NODE_FRAME@, line) {
        Some(node_call(regex_groups(NODE_FRAME@, line), line))
    } else if regex_matches(PY_FRAME@, line) {
        Some(py_call(regex_groups(PY_FRAME@, line), line))
    } else {
        None
    }
}

/// The number that a group holds; 0 where it holds none.
fn group_number(group: &Option<String>) -> (r: u32)
    requires
        group is Some,
    ensures
        r == number_or_zero((group->0)@),
{
    match group {
        Some(s) => match parse_u32(s.as_str()) {
            Some(n) => n,
            None => 0,
        },
        None => 0,
    }
}

/// The text that a group holds.
fn group_text(group: &Option<String>) -> (r: String)
    requires
        group is Some,
    ensures
        r@ == (group->0)@,
{
    match group {
        Some(s) => s.clone(),
        None => String::new(),
    }
}

/// The call that a line of a Node.js stack trace describes, by the groups of its match.
pub fn node_frame(groups: &Vec<Option<String>>, line: &str) -> (r: Frame)
    requires
        node_groups(groups@),
    ensures
        r@ == node_call(group_views(groups@), line@),
{
    let function = match &groups[1] {
        Some(name) => name.clone(),
        None => "<anonymous>".to_string(),
    };
    let column: Option<u32> = match &groups[4] {
        Some(s) => parse_u32(s.as_str()),
        None => None,
    };
    Frame {
        function,
        file: group_text(&groups[2]),
        line: group_number(&groups[3]),
        column,
        raw: trim(line),
    }
}

/// The call that a line of a Python stack trace describes, by the groups of its match.
pub fn py_frame(groups: &Vec<Option<String>>, line: &str) -> (r: Frame)
    requires
        py_groups(groups@),
    ensures
        r@ == py_call(group_views(groups@), line@),
{
    Frame {
        function: group_text(&groups[3]),
        file: group_text(&groups[1]),
        line: group_number(&groups[2]),
        column: None,
        raw: trim(line),
    }
}

/// Tells the lines at which an error starts, and the lines of stack traces as Node.js and Python
/// write them.
pub struct StreamMatcher {
    patterns: Vec<Regex>,
    node_frame: Regex,
    py_frame: Regex,
}

impl StreamMatcher {
    /// The patterns that mark the first line of an error.
    pub closed spec fn error_patterns(&self) -> Seq<Seq<char>> {
        self.patterns@.map_values(|re: Regex| regex_source(re)->0)
    }

    /// Whether each expression was compiled from its pattern.
    pub closed spec fn wf(&self) -> bool {
        &&& forall|i: int|
            0 <= i < self.patterns@.len() ==> regex_source(#[trigger] self.patterns@[i]) is Some
        &&& regex_source(self.node_frame) == Some(NODE_FRAME@)
        &&& regex_source(self.py_frame) == Some(PY_FRAME@)
    }

    /// Whether an error starts at `line`.
    pub open spec fn marks(&self, line: Seq<char>) -> bool {
        marked(self.error_patterns(), line)
    }

    /// Compiles the patterns. The error is about the first one that does not compile, and says why.
    pub fn new(patterns: &[String]) -> (r: Result<Self, PatternError>)
        ensures
            match r {
                Ok(m) => m.wf() && m.error_patterns() == views(patterns@) && forall|i: int|
                    0 <= i < patterns@.len() ==> regex_compiles((#[trigger] patterns@[i])@),
                Err(e) => first_fault(patterns@, e.pattern@) && e.cause == regex_error(e.pattern@),
            },
            (forall|i: int| 0 <= i < patterns@.len() ==> known_pattern((#[trigger] patterns@[i])@))
                ==> r is Ok,
    {
        let mut compiled: Vec<Regex> = Vec::new();
        for i in 0..patterns.len()
            invariant
                compiled@.len() == i,
                forall|j: int|
                    0 <= j < i ==> regex_source(#[trigger] compiled@[j]) == Some(patterns@[j]@),
                forall|j: int| 0 <= j < i ==> regex_compiles((#[trigger] patterns@[j])@),
        {
            match compile(patterns[i].as_str()) {
                Ok(re) => {
                    compiled.push(re);
                },
                Err(cause) => {
                    assert(fault_at(patterns@, patterns@[i as int]@, i as int));
                    return Err(PatternError { pattern: patterns[i].clone(), cause });
                },
            }
        }
        let node_frame = match compile(NODE_FRAME) {
            Ok(re) => re,
            Err(_) => vstd::pervasive::unreached(),
        };
        let py_frame = match compile(PY_FRAME) {
            Ok(re) => re,
            Err(_) => vstd::pervasive::unreached(),
        };
        let m = StreamMatcher { patterns: compiled, node_frame, py_frame };
        assert(m.error_patterns() =~= views(patterns@));
        Ok(m)
    }

    /// Whether an error starts at `line`.
    pub fn is_error_line(&self, line: &str) -> (r: bool)
        requires
            self.wf(),
        ensures
            r == self.marks(line@),
            r <==> exists|i: int|
                0 <= i < self.error_patterns().len() && regex_matches(
                    #[trigger] self.error_patterns()[i],
                    line@,
                ),
    {
        for i in 0..self.patterns.len()
            invariant
                self.wf(),
                forall|j: int|
                    0 <= j < i ==> !regex_matches(#[trigger] self.error_patterns()[j], line@),
        {
            assert(self.error_patterns()[i as int] == regex_source(self.patterns@[i as int])->0);
            if is_match(&self.patterns[i], line) {
                return true;
            }
        }
        false
    }

    /// Whether `line` is a line of a stack trace.
    pub fn is_frame_line(&self, line: &str) -> (r: bool)
        requires
            self.wf(),
        ensures
            r == call_in(line@) is Some,
    {
        is_match(&self.node_frame, line) || is_match(&self.py_frame, line)
    }

    /// The call that `line` describes, if it is a line of a stack trace.
    pub fn parse_frame(&self, line: &str) -> (r: Option<Frame>)
        requires
            self.wf(),
        ensures
            match r {
                Some(f) => call_in(line@) == Some(f@),
                None => call_in(line@) is None,
            },
    {
        if let Some(groups) = captures(&self.node_frame, line) {
            return Some(node_frame(&groups, line));
        }
        if let Some(groups) = captures(&self.py_frame, line) {
            return Some(py_frame(&groups, line));
        }
        None
    }
}

/// Whether one of the patterns matches `line`.
pub open spec fn marked(patterns: Seq<Seq<char>>, line: Seq<char>) -> bool {
    exists|i: int| 0 <= i < patterns.len() && regex_matches(#[trigger] patterns[i], line)
}

/// Whether `pattern` is pattern `i`, does not compile, and all before it do.
pub open spec fn fault_at(patterns: Seq<String>, pattern: Seq<char>, i: int) -> bool {
    &&& 0 <= i < patterns.len()
    &&& patterns[i]@ == pattern
    &&& !regex_compiles(pattern)
    &&& forall|j: int| 0 <= j < i ==> regex_compiles((#[trigger] patterns[j])@)
}

/// Whether `pattern` is the first that does not compile.
pub open spec fn first_fault(patterns: Seq<String>, pattern: Seq<char>) -> bool {
    exists|i: int| fault_at(patterns, pattern, i)
}

/// An error whose stack trace may still go on: its message, its lines and its calls.
pub struct Pending {
    message: String,
    lines: Vec<String>,
    frames: Vec<Frame>,
}

/// An error whose stack trace may still go on, by what it says.
pub struct PendingView {
    pub message: Seq<char>,
    pub lines: Seq<Seq<char>>,
    pub frames: Seq<FrameView>,
}

impl View for Pending {
    type V = PendingView;

    closed spec fn view(&self) -> PendingView {
        PendingView {
            message: self.message@,
            lines: views(self.lines@),
            frames: frame_views(self.frames@),
        }
    }
}

impl PendingView {
    /// The error that starts at `line`.
    pub open spec fn started(line: Seq<char>) -> PendingView {
        PendingView { message: trimmed(line), lines: seq![line], frames: Seq::empty() }
    }

    /// One more line of the stack trace.
    pub open spec fn grown(self, line: Seq<char>, call: FrameView) -> PendingView {
        PendingView {
            message: self.message,
            lines: self.lines.push(line),
            frames: self.frames.push(call),
        }
    }

    /// The error, as far as it was read.
    pub open spec fn event(self) -> EventView {
        EventView { message: self.message, frames: self.frames, raw: joined(self.lines, "\n"@) }
    }
}

/// What one line does: what is pending after it, and the error that it completes.
///
/// A line of a stack trace belongs to what is pending, which is complete when it has as many
/// calls as are kept. Any other line completes it, and may start the next error.
pub open spec fn fed(
    patterns: Seq<Seq<char>>,
    pending: Option<PendingView>,
    line: Seq<char>,
) -> (Option<PendingView>, Option<EventView>) {
    let next = if marked(patterns, line) {
        Some(PendingView::started(line))
    } else {
        None
    };
    match pending {
        Some(p) => match call_in(line) {
            Some(call) => {
                let q = p.grown(line, call);
                if q.frames.len() >= MAX_FRAMES {
                    (None, Some(q.event()))
                } else {
                    (Some(q), None)
                }
            },
            None => (next, Some(p.event())),
        },
        None => (next, None),
    }
}

/// What an optional error says.
pub open spec fn event_view(e: Option<ErrorEvent>) -> Option<EventView> {
    match e {
        Some(e) => Some(e@),
        None => None,
    }
}

/// Finds errors in lines that come one by one.
pub struct LiveScanner<'a> {
    matcher: &'a StreamMatcher,
    pending: Option<Pending>,
}

impl<'a> View for LiveScanner<'a> {
    type V = Option<PendingView>;

    closed spec fn view(&self) -> Option<PendingView> {
        match self.pending {
            Some(p) => Some(p@),
            None => None,
        }
    }
}

impl<'a> LiveScanner<'a> {
    /// Whether the matcher is well formed.
    pub closed spec fn wf(&self) -> bool {
        self.matcher.wf()
    }

    /// The patterns that mark the first line of an error.
    pub closed spec fn error_patterns(&self) -> Seq<Seq<char>> {
        self.matcher.error_patterns()
    }

    /// Nothing was read yet.
    pub fn new(matcher: &'a StreamMatcher) -> (r: Self)
        requires
            matcher.wf(),
        ensures
            r.wf(),
            r.error_patterns() == matcher.error_patterns(),
            r@ is None,
    {
        LiveScanner { matcher, pending: None }
    }

    /// Reads one line, and gives the error that it completes.
    pub fn feed(&mut self, line: &str) -> (r: Option<ErrorEvent>)
        requires
            old(self).wf(),
        ensures
            final(self).wf(),
            final(self).error_patterns() == old(self).error_patterns(),
            (final(self)@, event_view(r)) == fed(old(self).error_patterns(), old(self)@, line@),
    {
        if self.pending.is_some() {
            if let Some(frame) = self.matcher.parse_frame(line) {
                if let Some(p) = self.pending.take() {
                    let mut q = p;
                    let ghost before = q@;
                    let ghost call = frame@;
                    q.frames.push(frame);
                    q.lines.push(line.to_string());
                    assert(q@.frames =~= before.frames.push(call));
                    assert(q@.lines =~= before.lines.push(line@));
                    let full = q.frames.len() >= MAX_FRAMES;
                    self.pending = Some(q);
                    if full {
                        return self.flush();
                    }
                }
                return None;
            }
            let finished = self.flush();
            if self.matcher.is_error_line(line) {
                self.start(line);
            }
            return finished;
        }
        if self.matcher.is_error_line(line) {
            self.start(line);
        }
        None
    }

    /// An error starts at `line`.
    fn start(&mut self, line: &str)
        ensures
            final(self).matcher == old(self).matcher,
            final(self)@ == Some(PendingView::started(line@)),
    {
        let mut lines: Vec<String> = Vec::new();
        lines.push(line.to_string());
        let p = Pending { message: trim(line), lines, frames: Vec::new() };
        assert(p@.lines =~= seq![line@]);
        assert(p@.frames =~= Seq::<FrameView>::empty());
        self.pending = Some(p);
    }

    /// Completes what is pending.
    fn flush(&mut self) -> (r: Option<ErrorEvent>)
        ensures
            final(self).matcher == old(self).matcher,
            final(self)@ is None,
            event_view(r) == (match old(self)@ {
                Some(p) => Some(p.event()),
                None => None,
            }),
    {
        match self.pending.take() {
            Some(p) => {
                let raw = join(&p.lines, "\n");
                Some(ErrorEvent { message: p.message, frames: p.frames, raw })
            },
            None => None,
        }
    }

    /// The lines have ended: completes what is pending.
    pub fn finish(&mut self) -> (r: Option<ErrorEvent>)
        requires
            old(self).wf(),
        ensures
            final(self).wf(),
            final(self).error_patterns() == old(self).error_patterns(),
            final(self)@ is None,
            event_view(r) == (match old(self)@ {
                Some(p) => Some(p.event()),
                None => None,
            }),
    {
        self.flush()
    }
}

/// What is pending after `lines`, and the errors that they completed, in order.
pub open spec fn scanned(
    patterns: Seq<Seq<char>>,
    pending: Option<PendingView>,
    lines: Seq<Seq<char>>,
) -> (Option<PendingView>, Seq<EventView>)
    decreases lines.len(),
{
    if lines.len() == 0 {
        (pending, Seq::empty())
    } else {
        let before = scanned(patterns, pending, lines.drop_last());
        let step = fed(patterns, before.0, lines.last());
        match step.1 {
            Some(e) => (step.0, before.1.push(e)),
            None => (step.0, before.1),
        }
    }
}

/// The calls that lines of a stack trace describe.
pub open spec fn calls_in(lines: Seq<Seq<char>>) -> Seq<FrameView> {
    lines.map_values(|line: Seq<char>| call_in(line)->0)
}

/// Whether what is pending has fewer calls than are kept, and one line for each of them besides
/// its first.
pub open spec fn unfinished(p: PendingView) -> bool {
    p.frames.len() < MAX_FRAMES && p.lines.len() == p.frames.len() + 1
}

/// Whatever is read, an error has at most as many calls as are kept, and what is pending has
/// fewer.
pub proof fn law_traces_are_bounded(patterns: Seq<Seq<char>>, lines: Seq<Seq<char>>)
    ensures
        scanned(patterns, None, lines).0 matches Some(p) ==> unfinished(p),
        forall|i: int|
            0 <= i < scanned(patterns, None, lines).1.len() ==> (#[trigger] scanned(
                patterns,
                None,
                lines,
            ).1[i]).frames.len() <= MAX_FRAMES,
    decreases lines.len(),
{
    if lines.len() > 0 {
        law_traces_are_bounded(patterns, lines.drop_last());
    }
}

/// A line at which an error starts is not lost: unless it is read as a line of the stack trace
/// before it, it is pending after it was read, with the line as its message.
pub proof fn law_error_line_starts_an_error(
    patterns: Seq<Seq<char>>,
    pending: Option<PendingView>,
    line: Seq<char>,
)
    requires
        marked(patterns, line),
        pending is None || call_in(line) is None,
    ensures
        fed(patterns, pending, line).0 == Some(PendingView::started(line)),
{
}

/// Nothing that is pending is lost: each line either leaves it pending, with all the lines it had,
/// or hands it over as an error.
pub proof fn law_pending_is_handed_over(
    patterns: Seq<Seq<char>>,
    p: PendingView,
    line: Seq<char>,
)
    ensures
        match fed(patterns, Some(p), line).1 {
            Some(e) => e.message == p.message && p.frames.is_prefix_of(e.frames),
            None => match fed(patterns, Some(p), line).0 {
                Some(q) => q.message == p.message && p.lines.is_prefix_of(q.lines)
                    && p.frames.is_prefix_of(q.frames),
                None => false,
            },
        },
{
    match call_in(line) {
        Some(call) => {
            let q = p.grown(line, call);
            assert(p.lines.is_prefix_of(q.lines));
            assert(p.frames.is_prefix_of(q.frames));
        },
        None => {},
    }
}

/// An error line and the lines of a stack trace after it, fewer than are kept, are one error: it
/// is pending with all those lines and all their calls, and the next line that belongs to no
/// stack trace completes it.
pub proof fn law_error_and_trace_are_one_error(
    patterns: Seq<Seq<char>>,
    first: Seq<char>,
    trace: Seq<Seq<char>>,
    after: Seq<char>,
)
    requires
        marked(patterns, first),
        trace.len() < MAX_FRAMES,
        forall|i: int| 0 <= i < trace.len() ==> call_in(#[trigger] trace[i]) is Some,
        call_in(after) is None,
    ensures
        scanned(patterns, None, seq![first] + trace) == (
            Some(
                PendingView {
                    message: trimmed(first),
                    lines: seq![first] + trace,
                    frames: calls_in(trace),
                },
            ),
            Seq::<EventView>::empty(),
        ),
        scanned(patterns, None, (seq![first] + trace).push(after)).1 == seq![
            EventView {
                message: trimmed(first),
                frames: calls_in(trace),
                raw: joined(seq![first] + trace, "\n"@),
            },
        ],
    decreases trace.len(),
{
    let lines = seq![first] + trace;
    let none: Option<PendingView> = None;
    let p = PendingView { message: trimmed(first), lines, frames: calls_in(trace) };
    if trace.len() == 0 {
        assert(lines =~= seq![first]);
        assert(lines.drop_last() =~= Seq::<Seq<char>>::empty());
        assert(scanned(patterns, none, lines.drop_last()) == (none, Seq::<EventView>::empty()));
        assert(calls_in(trace) =~= Seq::<FrameView>::empty());
        assert(p == PendingView::started(first));
    } else {
        let shorter = trace.drop_last();
        law_error_and_trace_are_one_error(patterns, first, shorter, after);
        assert(lines.drop_last() =~= seq![first] + shorter);
        assert(lines.last() == trace.last());
        assert((seq![first] + shorter).push(trace.last()) =~= lines);
        assert(call_in(trace[trace.len() - 1]) is Some);
        assert(calls_in(trace) =~= calls_in(shorter).push(call_in(trace.last())->0));
    }
    assert(scanned(patterns, none, lines) == (Some(p), Seq::<EventView>::empty()));
    assert(lines.push(after).drop_last() =~= lines);
    assert(lines.push(after).last() == after);
    assert(fed(patterns, Some(p), after).1 == Some(p.event()));
    assert(Seq::<EventView>::empty().push(p.event()) =~= seq![p.event()]);
}

/// The patterns that mark errors where none are configured are accepted.
pub proof fn law_standard_patterns_are_accepted(i: int)
    requires
        0 <= i < standard_error_patterns().len(),
    ensures
        known_pattern(standard_error_patterns()[i]),
{
    assert(standard_error_patterns().contains(standard_error_patterns()[i]));
}

}
