//! The command-line assistant that reads a project: how it is called, and how its answer is read.

use crate::json::{
    elements, json_elements, json_member, json_text, json_value, member, parse, text,
};
use crate::text::{
    chars_of, find, found, join, joined, lemma_found, lemma_found_occurs, occurs_at, opt_view,
    string_of, trim, trimmed, views,
};
use serde_json::Value;
use vstd::prelude::*;

verus! {

/// The arguments of a call without interaction: the prompt, and then what is allowed.
pub open spec fn arguments(
    prompt: Seq<char>,
    model: Option<Seq<char>>,
    allowed: Seq<Seq<char>>,
    disallowed: Seq<Seq<char>>,
    permission_mode: Seq<char>,
) -> Seq<Seq<char>> {
    seq!["-p"@, prompt, "--output-format"@, "json"@, "--permission-mode"@, permission_mode] + (
    if allowed.len() > 0 {
        seq!["--allowedTools"@, joined(allowed, ","@)]
    } else {
        Seq::empty()
    }) + (if disallowed.len() > 0 {
        seq!["--disallowedTools"@, joined(disallowed, ","@)]
    } else {
        Seq::empty()
    }) + (match model {
        Some(m) => seq!["--model"@, m],
        None => Seq::empty(),
    })
}

/// The arguments of a call without interaction.
pub fn cli_args(
    prompt: &str,
    model: Option<&str>,
    allowed_tools: &Vec<String>,
    disallowed_tools: &Vec<String>,
    permission_mode: &str,
) -> (r: Vec<String>)
    ensures
        views(r@) == arguments(
            prompt@,
            match model {
                Some(m) => Some(m@),
                None => None,
            },
            views(allowed_tools@),
            views(disallowed_tools@),
            permission_mode@,
        ),
{
    let mut r: Vec<String> = Vec::new();
    r.push("-p".to_string());
    r.push(prompt.to_string());
    r.push("--output-format".to_string());
    r.push("json".to_string());
    r.push("--permission-mode".to_string());
    r.push(permission_mode.to_string());
    if allowed_tools.len() > 0 {
        r.push("--allowedTools".to_string());
        r.push(join(allowed_tools, ","));
    }
    if disallowed_tools.len() > 0 {
        r.push("--disallowedTools".to_string());
        r.push(join(disallowed_tools, ","));
    }
    if let Some(m) = model {
        r.push("--model".to_string());
        r.push(m.to_string());
    }
    assert(views(r@) =~= arguments(
        prompt@,
        match model {
            Some(m) => Some(m@),
            None => None,
        },
        views(allowed_tools@),
        views(disallowed_tools@),
        permission_mode@,
    ));
    r
}

/// The text of an answer that was read as `v`: that of the member `result` of the last event, or
/// of the answer itself where it is no list of events.
pub open spec fn result_in(v: Value) -> Option<Seq<char>> {
    let event = match json_elements(v) {
        Some(es) => if es.len() > 0 {
            es.last()
        } else {
            v
        },
        None => v,
    };
    match json_member(event, "result"@) {
        Some(m) => json_text(m),
        None => None,
    }
}

/// The text of an answer: as it was printed, where it holds no result.
pub open spec fn reply(printed: Seq<char>) -> Seq<char> {
    match json_value(printed) {
        Some(v) => match result_in(v) {
            Some(s) => s,
            None => printed,
        },
        None => printed,
    }
}

/// The text of an answer that was read as `v`.
pub fn result_text(v: &Value) -> (r: Option<String>)
    ensures
        opt_view(r) == result_in(*v),
{
    let event: &Value = match elements(v) {
        Some(es) => if es.len() > 0 {
            &es[es.len() - 1]
        } else {
            v
        },
        None => v,
    };
    match member(event, "result") {
        Some(m) => match text(m) {
            Some(s) => Some(s.to_string()),
            None => None,
        },
        None => None,
    }
}

/// The text of an answer that was printed.
pub fn reply_text(printed: &str) -> (r: String)
    ensures
        r@ == reply(printed@),
{
    if let Some(v) = parse(printed) {
        if let Some(s) = result_text(&v) {
            return s;
        }
    }
    printed.to_string()
}

/// What the blocks of `text` that are marked as JSON hold, in order. A block that does not end is
/// none.
pub open spec fn json_blocks(text: Seq<char>) -> Seq<Seq<char>>
    decreases text.len(),
{
    proof {
        lemma_found_occurs(text, seq!['`', '`', '`', 'j', 's', 'o', 'n']);
        lemma_found_occurs(
            text.skip(found(text, seq!['`', '`', '`', 'j', 's', 'o', 'n'])->0 + 7),
            seq!['`', '`', '`'],
        );
    }
    match found(text, seq!['`', '`', '`', 'j', 's', 'o', 'n']) {
        Some(i) => match found(text.skip(i + 7), seq!['`', '`', '`']) {
            Some(j) => seq![text.skip(i + 7).take(j)] + json_blocks(
                text.skip(i + 7).skip(j + 3),
            ),
            None => Seq::empty(),
        },
        None => Seq::empty(),
    }
}

/// The marks at which a JSON block starts and ends.
fn fences() -> (r: (Vec<char>, Vec<char>))
    ensures
        r.0@ == seq!['`', '`', '`', 'j', 's', 'o', 'n'],
        r.1@ == seq!['`', '`', '`'],
{
    let mut open: Vec<char> = Vec::new();
    open.push('`');
    open.push('`');
    open.push('`');
    open.push('j');
    open.push('s');
    open.push('o');
    open.push('n');
    let mut close: Vec<char> = Vec::new();
    close.push('`');
    close.push('`');
    close.push('`');
    (open, close)
}

/// What the last block that is marked as JSON holds.
pub fn last_json_block(text: &str) -> (r: Option<String>)
    ensures
        match r {
            Some(b) => json_blocks(text@).len() > 0 && b@ == json_blocks(text@).last(),
            None => json_blocks(text@).len() == 0,
        },
{
    let cs = chars_of(text);
    let n: usize = cs.len();
    let (open, close) = fences();
    let mut last: Option<String> = None;
    let mut from: usize = 0;
    let ghost mut before: Seq<Seq<char>> = Seq::empty();
    assert(cs@.skip(0) =~= text@);
    assert(before + json_blocks(text@) =~= json_blocks(text@));
    loop
        invariant
            n == cs@.len(),
            from <= n,
            open@ == seq!['`', '`', '`', 'j', 's', 'o', 'n'],
            close@ == seq!['`', '`', '`'],
            before + json_blocks(cs@.skip(from as int)) == json_blocks(text@),
            match last {
                Some(b) => before.len() > 0 && b@ == before.last(),
                None => before.len() == 0,
            },
        decreases n - from,
    {
        let ghost rest = cs@.skip(from as int);
        let i = match find(&cs, from, &open) {
            Some(i) => i,
            None => {
                assert(before + json_blocks(rest) =~= before);
                return last;
            },
        };
        let start: usize = from + i + 7;
        assert(cs@.skip(start as int) =~= rest.skip(i + 7));
        let j = match find(&cs, start, &close) {
            Some(j) => j,
            None => {
                assert(before + json_blocks(rest) =~= before);
                return last;
            },
        };
        let block = string_of(&cs, start, start + j);
        proof {
            let after = rest.skip(i + 7);
            assert(block@ =~= after.take(j as int));
            assert(after.skip(j + 3) =~= cs@.skip(start + j + 3));
            assert(json_blocks(rest) == seq![after.take(j as int)] + json_blocks(
                after.skip(j + 3),
            ));
            assert(before.push(block@) + json_blocks(cs@.skip(start + j + 3)) =~= before
                + json_blocks(rest));
            before = before.push(block@);
        }
        last = Some(block);
        from = start + j + 3;
    }
}

/// The JSON value in the last block of `text` that is marked as JSON.
pub fn extract_json_block(text: &str) -> (r: Option<Value>)
    ensures
        r == (if json_blocks(text@).len() > 0 {
            json_value(trimmed(json_blocks(text@).last()))
        } else {
            None
        }),
{
    match last_json_block(text) {
        Some(b) => {
            let b = trim(b.as_str());
            parse(b.as_str())
        },
        None => None,
    }
}

/// Whether `s` holds no backtick.
pub open spec fn plain(s: Seq<char>) -> bool {
    forall|i: int| 0 <= i < s.len() ==> #[trigger] s[i] != '`'
}

/// A mark that starts with a backtick is first found behind a text without one.
pub proof fn lemma_found_behind(a: Seq<char>, pat: Seq<char>, rest: Seq<char>)
    requires
        plain(a),
        pat.len() > 0,
        pat[0] == '`',
    ensures
        found(a + pat + rest, pat) == Some(a.len() as int),
{
    let s = a + pat + rest;
    assert(s.subrange(a.len() as int, (a.len() + pat.len()) as int) =~= pat);
    assert forall|j: int| 0 <= j < a.len() implies !occurs_at(s, pat, j) by {
        if occurs_at(s, pat, j) {
            assert(s.subrange(j, j + pat.len())[0] == s[j]);
            assert(s[j] == a[j]);
        }
    }
    lemma_found(s, pat, a.len() as int);
}

/// A mark that starts with a backtick is not found in a text without one.
pub proof fn lemma_not_found(a: Seq<char>, pat: Seq<char>)
    requires
        plain(a),
        pat.len() > 0,
        pat[0] == '`',
    ensures
        found(a, pat) is None,
{
    assert forall|j: int| !occurs_at(a, pat, j) by {
        if occurs_at(a, pat, j) {
            assert(a.subrange(j, j + pat.len())[0] == a[j]);
        }
    }
}

/// The JSON of an answer is read as it was written, whatever the text around its block says.
pub proof fn law_block_is_read_as_written(before: Seq<char>, body: Seq<char>, after: Seq<char>)
    requires
        plain(before),
        plain(body),
        plain(after),
    ensures
        json_blocks(
            before + seq!['`', '`', '`', 'j', 's', 'o', 'n'] + (body + seq!['`', '`', '`'] + after),
        ) == seq![body],
{
    let open = seq!['`', '`', '`', 'j', 's', 'o', 'n'];
    let close = seq!['`', '`', '`'];
    let inner = body + close + after;
    let s = before + open + inner;
    let i = before.len() as int;
    lemma_found_behind(before, open, inner);
    assert(s.skip(i + 7) =~= inner);
    lemma_found_behind(body, close, after);
    assert(inner.take(body.len() as int) =~= body);
    assert(inner.skip(body.len() as int + 3) =~= after);
    lemma_not_found(after, open);
    assert(json_blocks(after) =~= Seq::<Seq<char>>::empty());
    assert(json_blocks(s) =~= seq![body]);
}

}
