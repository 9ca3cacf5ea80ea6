//! The markup inside a line of text: code between backticks, strong text
//! between double asterisks, emphasis between single asterisks, and links
//! written as `[text](address)`. A mark that nothing closes is text like any
//! other. What stands inside a span is text, not markup.

use vstd::prelude::*;
use crate::text::{
    escaped, escaped_char, find_from, position_of, position_of_bounds, push_escaped,
    push_escaped_char, push_str, slice_of,
};

verus! {

/// What starts at a place in a text.
#[derive(Clone, Copy, PartialEq, Eq, Structural, Debug)]
pub enum SpanKind {
    /// Code, from a backtick to the next.
    Code,
    /// Strong text, from two asterisks to the next two.
    Strong,
    /// Emphasis, from an asterisk to the next, with something between.
    Emphasis,
    /// A link: its text in square brackets, then its address in round ones.
    Link,
    /// One character of text.
    Plain,
}

/// Where the first two `c` in a row stand in `text` at or after `from`, or
/// the length of `text` where there are none.
pub open spec fn pair_position(text: Seq<char>, c: char, from: int) -> int
    decreases text.len() - from,
{
    if 0 <= from && from + 1 < text.len() {
        if text[from] == c && text[from + 1] == c {
            from
        } else {
            pair_position(text, c, from + 1)
        }
    } else {
        text.len() as int
    }
}

/// Where the bracket stands that closes the text of the link that starts at
/// `at`.
pub open spec fn link_text_end(text: Seq<char>, at: int) -> int {
    position_of(text, ']', at + 1)
}

/// Where the bracket stands that closes the address of the link that starts
/// at `at`, or the length of `text` where no link starts there.
pub open spec fn link_end(text: Seq<char>, at: int) -> int {
    let middle = link_text_end(text, at);
    if middle + 1 < text.len() && text[middle + 1] == '(' {
        position_of(text, ')', middle + 2)
    } else {
        text.len() as int
    }
}

/// What starts at `at` in `text`.
pub open spec fn span_kind(text: Seq<char>, at: int) -> SpanKind {
    if text[at] == '`' && position_of(text, '`', at + 1) < text.len() {
        SpanKind::Code
    } else if text[at] == '*' && at + 1 < text.len() && text[at + 1] == '*' && pair_position(
        text,
        '*',
        at + 2,
    ) < text.len() {
        SpanKind::Strong
    } else if text[at] == '*' && at + 1 < position_of(text, '*', at + 1) < text.len() {
        SpanKind::Emphasis
    } else if text[at] == '[' && link_end(text, at) < text.len() {
        SpanKind::Link
    } else {
        SpanKind::Plain
    }
}

/// The place after what starts at `at`.
pub open spec fn span_end(text: Seq<char>, at: int) -> int {
    match span_kind(text, at) {
        SpanKind::Code => position_of(text, '`', at + 1) + 1,
        SpanKind::Strong => pair_position(text, '*', at + 2) + 2,
        SpanKind::Emphasis => position_of(text, '*', at + 1) + 1,
        SpanKind::Link => link_end(text, at) + 1,
        SpanKind::Plain => at + 1,
    }
}

/// The HTML of what starts at `at`.
pub open spec fn span_html(text: Seq<char>, at: int) -> Seq<char> {
    match span_kind(text, at) {
        SpanKind::Code => "<code>"@ + escaped(
            text.subrange(at + 1, position_of(text, '`', at + 1)),
        ) + "</code>"@,
        SpanKind::Strong => "<strong>"@ + escaped(
            text.subrange(at + 2, pair_position(text, '*', at + 2)),
        ) + "</strong>"@,
        SpanKind::Emphasis => "<em>"@ + escaped(
            text.subrange(at + 1, position_of(text, '*', at + 1)),
        ) + "</em>"@,
        SpanKind::Link => "<a href=\""@ + escaped(
            text.subrange(link_text_end(text, at) + 2, link_end(text, at)),
        ) + "\">"@ + escaped(text.subrange(at + 1, link_text_end(text, at))) + "</a>"@,
        SpanKind::Plain => escaped_char(text[at]),
    }
}

/// The first two `c` in a row at or after a place stand at or after that
/// place and inside the text, where there are any.
pub proof fn pair_position_bounds(text: Seq<char>, c: char, from: int)
    requires
        0 <= from,
    ensures
        pair_position(text, c, from) <= text.len(),
        pair_position(text, c, from) < text.len() ==> from <= pair_position(text, c, from)
            && pair_position(text, c, from) + 1 < text.len(),
    decreases text.len() - from,
{
    if from + 1 < text.len() && !(text[from] == c && text[from + 1] == c) {
        pair_position_bounds(text, c, from + 1);
    }
}

/// What starts inside a text ends after its start and inside the text, and
/// so do its parts.
pub proof fn span_end_bounds(text: Seq<char>, at: int)
    requires
        0 <= at < text.len(),
    ensures
        at < span_end(text, at) <= text.len(),
        span_kind(text, at) == SpanKind::Link ==> at + 1 <= link_text_end(text, at)
            && link_text_end(text, at) + 2 <= link_end(text, at) < text.len(),
        span_kind(text, at) == SpanKind::Strong ==> at + 2 <= pair_position(text, '*', at + 2),
        span_kind(text, at) == SpanKind::Code ==> at + 1 <= position_of(text, '`', at + 1),
{
    position_of_bounds(text, '`', at + 1);
    position_of_bounds(text, '*', at + 1);
    pair_position_bounds(text, '*', at + 2);
    position_of_bounds(text, ']', at + 1);
    position_of_bounds(text, ')', link_text_end(text, at) + 2);
}

/// The HTML of `text` from `at` on.
pub open spec fn inline_from(text: Seq<char>, at: int) -> Seq<char>
    decreases text.len() - at,
    via inline_from_decreases
{
    if at < 0 || at >= text.len() {
        Seq::empty()
    } else {
        span_html(text, at) + inline_from(text, span_end(text, at))
    }
}

#[via_fn]
proof fn inline_from_decreases(text: Seq<char>, at: int) {
    if 0 <= at < text.len() {
        span_end_bounds(text, at);
    }
}

/// The HTML of a line of text.
pub open spec fn inline_html(text: Seq<char>) -> Seq<char> {
    inline_from(text, 0)
}

/// Finds the first two `c` in a row in `text` at or after `from`, or gives
/// the length of `text` where there are none.
pub fn find_pair_from(text: &Vec<char>, c: char, from: usize) -> (at: usize)
    requires
        from <= text.len(),
    ensures
        at == pair_position(text@, c, from as int),
        at <= text.len(),
{
    let mut i: usize = from;
    while text.len() - i > 1 && !(text[i] == c && text[i + 1] == c)
        invariant
            from <= i <= text.len(),
            pair_position(text@, c, from as int) == pair_position(text@, c, i as int),
        decreases text.len() - i,
    {
        i += 1;
    }
    if text.len() - i > 1 {
        i
    } else {
        text.len()
    }
}

/// Appends to `out` the text from `from` up to `to`, escaped, between `open`
/// and `close`.
fn push_span(out: &mut Vec<char>, open: &str, text: &Vec<char>, from: usize, to: usize, close: &str)
    requires
        from <= to <= text.len(),
    ensures
        final(out)@ == old(out)@ + (open@ + escaped(text@.subrange(from as int, to as int))
            + close@),
{
    let inner = slice_of(text, from, to);
    push_str(out, open);
    push_escaped(out, &inner);
    push_str(out, close);
    assert(out@ =~= old(out)@ + (open@ + escaped(text@.subrange(from as int, to as int))
        + close@));
}

/// Appends the HTML of the line `text` to `out`.
pub fn push_inline(out: &mut Vec<char>, text: &Vec<char>)
    ensures
        final(out)@ == old(out)@ + inline_html(text@),
{
    let ghost mut emitted: Seq<char> = Seq::empty();
    let n = text.len();
    let mut i: usize = 0;
    assert(out@ =~= old(out)@ + emitted);
    while i < n
        invariant
            i <= n == text.len(),
            out@ == old(out)@ + emitted,
            inline_from(text@, 0) == emitted + inline_from(text@, i as int),
        decreases n - i,
    {
        proof {
            span_end_bounds(text@, i as int);
        }
        let c = text[i];
        let ghost before = out@;
        let mut next: usize = i + 1;
        let mut done = false;
        if c == '`' {
            let close = find_from(text, '`', i + 1);
            if close < n {
                push_span(out, "<code>", text, i + 1, close, "</code>");
                next = close + 1;
                done = true;
            }
        } else if c == '*' {
            if i + 1 < n && text[i + 1] == '*' {
                let close = find_pair_from(text, '*', i + 2);
                if close < n {
                    push_span(out, "<strong>", text, i + 2, close, "</strong>");
                    next = close + 2;
                    done = true;
                }
            }
            if !done {
                let close = find_from(text, '*', i + 1);
                if i + 1 < close && close < n {
                    push_span(out, "<em>", text, i + 1, close, "</em>");
                    next = close + 1;
                    done = true;
                }
            }
        } else if c == '[' {
            let middle = find_from(text, ']', i + 1);
            if n - middle > 1 && text[middle + 1] == '(' {
                let close = find_from(text, ')', middle + 2);
                if close < n {
                    push_span(out, "<a href=\"", text, middle + 2, close, "\">");
                    push_span(out, "", text, i + 1, middle, "</a>");
                    proof {
                        reveal_strlit("");
                        let address = escaped(text@.subrange(middle + 2, close as int));
                        let label = escaped(text@.subrange(i + 1, middle as int));
                        assert(out@ =~= before + ("<a href=\""@ + address + "\">"@ + label
                            + "</a>"@));
                    }
                    next = close + 1;
                    done = true;
                }
            }
        }
        if !done {
            push_escaped_char(out, c);
        }
        proof {
            assert(out@ == before + span_html(text@, i as int));
            assert(next == span_end(text@, i as int));
            let grown = emitted + span_html(text@, i as int);
            assert(out@ =~= old(out)@ + grown);
            assert(inline_from(text@, 0) =~= grown + inline_from(text@, next as int));
            emitted = grown;
        }
        i = next;
    }
    assert(inline_from(text@, 0) =~= emitted);
}

} // verus!
