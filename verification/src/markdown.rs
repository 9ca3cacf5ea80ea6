//! Turning the lines of one slide into HTML. The slide is read block by
//! block: headings (`#` to `######`), bullet lists (`- ` or `* `), fenced
//! code blocks, and paragraphs; blank lines separate blocks. Text is read for
//! the markup inside it, code is highlighted.

use vstd::prelude::*;
use crate::highlight::{
    grammar_known, has_grammar, highlight, highlight_plain, highlighted_markup, markup_view,
    plain_markup,
};
use crate::inline::{inline_html, push_inline};
use crate::slides::{fence_line, is_fence};
use crate::text::{
    chars_of, count_leading_blanks, count_run, escaped, is_blank_text, lines_of, lines_view,
    push_all, push_escaped, push_str, run_length, slice_of, split_lines, string_of, trim, trimmed,
};

verus! {

/// What a line is, read by itself.
#[derive(Clone, Copy, PartialEq, Eq, Structural, Debug)]
pub enum LineKind {
    /// Nothing but blanks.
    Blank,
    /// Three backticks or more at its start.
    Fence,
    /// One to six `#`, then a space or the end of the line.
    Heading,
    /// `- ` or `* ` at its start.
    Item,
    /// Anything else: a line of a paragraph.
    Text,
}

/// The level of the heading that `line` is, or 0 where it is none.
pub open spec fn heading_level(line: Seq<char>) -> int {
    let marks = run_length(line, '#', 0);
    if 1 <= marks <= 6 && (marks == line.len() || line[marks] == ' ') {
        marks
    } else {
        0
    }
}

/// Whether `line` is an item of a bullet list.
pub open spec fn is_item(line: Seq<char>) -> bool {
    line.len() >= 2 && (line[0] == '-' || line[0] == '*') && line[1] == ' '
}

/// What `line` is.
pub open spec fn kind_of(line: Seq<char>) -> LineKind {
    if is_blank_text(line) {
        LineKind::Blank
    } else if is_fence(line) {
        LineKind::Fence
    } else if heading_level(line) > 0 {
        LineKind::Heading
    } else if is_item(line) {
        LineKind::Item
    } else {
        LineKind::Text
    }
}

/// How many lines of the kind `kind` stand in a row in `lines`, from `from`.
pub open spec fn run_count(lines: Seq<Seq<char>>, kind: LineKind, from: int) -> nat
    decreases lines.len() - from,
{
    if 0 <= from < lines.len() && kind_of(lines[from]) == kind {
        1 + run_count(lines, kind, from + 1)
    } else {
        0
    }
}

/// How many lines stand in `lines` from `from` before the next fence line.
pub open spec fn code_count(lines: Seq<Seq<char>>, from: int) -> nat
    decreases lines.len() - from,
{
    if 0 <= from < lines.len() && !is_fence(lines[from]) {
        1 + code_count(lines, from + 1)
    } else {
        0
    }
}

/// The digit that names a heading's level in its tag.
pub open spec fn level_digit(level: int) -> char {
    if level == 1 {
        '1'
    } else if level == 2 {
        '2'
    } else if level == 3 {
        '3'
    } else if level == 4 {
        '4'
    } else if level == 5 {
        '5'
    } else {
        '6'
    }
}

/// The HTML of a heading line.
pub open spec fn heading_html(line: Seq<char>) -> Seq<char> {
    let level = heading_level(line);
    "<h"@ + seq![level_digit(level)] + ">"@ + inline_html(
        trimmed(line.subrange(level, line.len() as int)),
    ) + "</h"@ + seq![level_digit(level)] + ">\n"@
}

/// The HTML of the items of a list, one `li` for each line.
pub open spec fn items_html(lines: Seq<Seq<char>>) -> Seq<char>
    decreases lines.len(),
{
    if lines.len() == 0 {
        Seq::empty()
    } else {
        items_html(lines.drop_last()) + "<li>"@ + inline_html(
            trimmed(lines.last().subrange(2, lines.last().len() as int)),
        ) + "</li>\n"@
    }
}

/// The HTML of a bullet list.
pub open spec fn list_html(lines: Seq<Seq<char>>) -> Seq<char> {
    "<ul>\n"@ + items_html(lines) + "</ul>\n"@
}

/// The text of a paragraph: its lines, trimmed, with a line feed between
/// each two.
pub open spec fn paragraph_text(lines: Seq<Seq<char>>) -> Seq<char>
    decreases lines.len(),
{
    if lines.len() == 0 {
        Seq::empty()
    } else if lines.len() == 1 {
        trimmed(lines[0])
    } else {
        paragraph_text(lines.drop_last()) + seq!['\n'] + trimmed(lines.last())
    }
}

/// The HTML of a paragraph.
pub open spec fn paragraph_html(lines: Seq<Seq<char>>) -> Seq<char> {
    "<p>"@ + inline_html(paragraph_text(lines)) + "</p>\n"@
}

/// The text of a code block: each of its lines, followed by a line feed.
pub open spec fn code_text(lines: Seq<Seq<char>>) -> Seq<char>
    decreases lines.len(),
{
    if lines.len() == 0 {
        Seq::empty()
    } else {
        code_text(lines.drop_last()) + lines.last() + seq!['\n']
    }
}

/// The token after the backticks of the line that opens a code block: it
/// names the language of the code.
pub open spec fn fence_token(line: Seq<char>) -> Seq<char> {
    trimmed(line.subrange(run_length(line, '`', 0), line.len() as int))
}

/// The HTML of a code block, given what the highlighter made of its text:
/// the highlighted markup where there is one, else the text itself, escaped.
pub open spec fn code_block_html(code: Seq<char>, markup: Option<Seq<char>>) -> Seq<char> {
    "<pre class=\"code\">"@ + (match markup {
        Some(text) => text,
        None => escaped(code),
    }) + "</pre>\n"@
}

/// What the highlighter makes of `code` in the language that `token` names:
/// the markup under the grammar for the token where there is one, and else
/// the markup of plain text.
pub open spec fn code_markup(code: Seq<char>, token: Seq<char>) -> Option<Seq<char>> {
    if grammar_known(token) {
        highlighted_markup(code, token)
    } else {
        plain_markup(code)
    }
}

/// The text of the code block that the fence line at `at` opens.
pub open spec fn block_code(lines: Seq<Seq<char>>, at: int) -> Seq<char> {
    code_text(lines.subrange(at + 1, at + 1 + code_count(lines, at + 1)))
}

/// What the highlighter makes of the code block that the fence line at `at`
/// opens.
pub open spec fn block_markup(lines: Seq<Seq<char>>, at: int) -> Option<Seq<char>> {
    code_markup(block_code(lines, at), fence_token(lines[at]))
}

/// The HTML of the fenced code block that `open` opens and that holds `body`.
pub open spec fn code_html(open: Seq<char>, body: Seq<Seq<char>>) -> Seq<char> {
    code_block_html(code_text(body), code_markup(code_text(body), fence_token(open)))
}

/// A run of lines that starts inside `lines` ends inside it.
pub proof fn run_count_bounds(lines: Seq<Seq<char>>, kind: LineKind, from: int)
    requires
        0 <= from <= lines.len(),
    ensures
        from + run_count(lines, kind, from) <= lines.len(),
    decreases lines.len() - from,
{
    if from < lines.len() && kind_of(lines[from]) == kind {
        run_count_bounds(lines, kind, from + 1);
    }
}

/// The lines of a code block that starts inside `lines` end inside it.
pub proof fn code_count_bounds(lines: Seq<Seq<char>>, from: int)
    requires
        0 <= from <= lines.len(),
    ensures
        from + code_count(lines, from) <= lines.len(),
    decreases lines.len() - from,
{
    if from < lines.len() && !is_fence(lines[from]) {
        code_count_bounds(lines, from + 1);
    }
}

/// The line after the block that starts at `at`: the line after a blank line
/// or a heading, after the fence that closes a code block (or the end, where
/// none closes it), after the last item of a list, after the last line of a
/// paragraph.
pub open spec fn block_end(lines: Seq<Seq<char>>, at: int) -> int {
    match kind_of(lines[at]) {
        LineKind::Blank => at + 1,
        LineKind::Heading => at + 1,
        LineKind::Fence => {
            let close = at + 1 + code_count(lines, at + 1);
            if close < lines.len() {
                close + 1
            } else {
                close
            }
        },
        LineKind::Item => at + 1 + run_count(lines, LineKind::Item, at + 1),
        LineKind::Text => at + 1 + run_count(lines, LineKind::Text, at + 1),
    }
}

/// A block is at least one line long and ends inside the slide.
pub proof fn block_end_bounds(lines: Seq<Seq<char>>, at: int)
    requires
        0 <= at < lines.len(),
    ensures
        at < block_end(lines, at) <= lines.len(),
{
    run_count_bounds(lines, LineKind::Item, at + 1);
    run_count_bounds(lines, LineKind::Text, at + 1);
    code_count_bounds(lines, at + 1);
}

/// The HTML of the block that starts at the line `at`.
pub open spec fn block_html(lines: Seq<Seq<char>>, at: int) -> Seq<char> {
    match kind_of(lines[at]) {
        LineKind::Blank => Seq::empty(),
        LineKind::Heading => heading_html(lines[at]),
        LineKind::Fence => code_html(
            lines[at],
            lines.subrange(at + 1, at + 1 + code_count(lines, at + 1)),
        ),
        LineKind::Item => list_html(lines.subrange(at, block_end(lines, at))),
        LineKind::Text => paragraph_html(lines.subrange(at, block_end(lines, at))),
    }
}

/// The HTML of the blocks of a slide from the line `at` on.
pub open spec fn html_from(lines: Seq<Seq<char>>, at: int) -> Seq<char>
    decreases lines.len() - at,
    via html_from_decreases
{
    if at < 0 || at >= lines.len() {
        Seq::empty()
    } else {
        block_html(lines, at) + html_from(lines, block_end(lines, at))
    }
}

#[via_fn]
proof fn html_from_decreases(lines: Seq<Seq<char>>, at: int) {
    if 0 <= at < lines.len() {
        block_end_bounds(lines, at);
    }
}

/// The HTML of a slide.
pub open spec fn slide_html(lines: Seq<Seq<char>>) -> Seq<char> {
    html_from(lines, 0)
}

/// Says what `line` is.
pub fn classify(line: &Vec<char>) -> (kind: LineKind)
    ensures
        kind == kind_of(line@),
{
    if count_leading_blanks(line) == line.len() {
        return LineKind::Blank;
    }
    if fence_line(line) {
        return LineKind::Fence;
    }
    let marks = count_run(line, '#', 0);
    if 1 <= marks && marks <= 6 && (marks == line.len() || line[marks] == ' ') {
        return LineKind::Heading;
    }
    if line.len() >= 2 && (line[0] == '-' || line[0] == '*') && line[1] == ' ' {
        return LineKind::Item;
    }
    LineKind::Text
}

/// Counts the lines of the kind `kind` that stand in a row from `from`.
pub fn count_kind_run(lines: &Vec<Vec<char>>, kind: LineKind, from: usize) -> (n: usize)
    requires
        from <= lines.len(),
    ensures
        n == run_count(lines_view(lines@), kind, from as int),
        from + n <= lines.len(),
{
    let mut i: usize = from;
    while i < lines.len() && classify(&lines[i]) == kind
        invariant
            from <= i <= lines.len(),
            run_count(lines_view(lines@), kind, from as int) == (i - from) + run_count(
                lines_view(lines@),
                kind,
                i as int,
            ),
        decreases lines.len() - i,
    {
        i += 1;
    }
    i - from
}

/// Counts the lines from `from` that stand before the next fence line.
pub fn count_code_lines(lines: &Vec<Vec<char>>, from: usize) -> (n: usize)
    requires
        from <= lines.len(),
    ensures
        n == code_count(lines_view(lines@), from as int),
        from + n <= lines.len(),
{
    let mut i: usize = from;
    while i < lines.len() && !fence_line(&lines[i])
        invariant
            from <= i <= lines.len(),
            code_count(lines_view(lines@), from as int) == (i - from) + code_count(
                lines_view(lines@),
                i as int,
            ),
        decreases lines.len() - i,
    {
        i += 1;
    }
    i - from
}


/// Every line of a run has the kind of the run.
pub proof fn run_count_kinds(lines: Seq<Seq<char>>, kind: LineKind, from: int, at: int)
    requires
        0 <= from <= at < from + run_count(lines, kind, from),
    ensures
        at < lines.len(),
        kind_of(lines[at]) == kind,
    decreases at - from,
{
    if at > from {
        run_count_kinds(lines, kind, from + 1, at);
    }
}

/// The HTML of a code block whose text is `code`, given what the highlighter
/// made of it: its markup where it gave one, else the code itself, escaped.
pub fn code_block(code: &Vec<char>, markup: Option<String>) -> (out: Vec<char>)
    ensures
        out@ == code_block_html(code@, markup_view(markup)),
{
    let mut out: Vec<char> = Vec::new();
    push_str(&mut out, "<pre class=\"code\">");
    match markup {
        Some(text) => {
            push_str(&mut out, text.as_str());
        },
        None => {
            push_escaped(&mut out, code);
        },
    }
    push_str(&mut out, "</pre>\n");
    assert(out@ =~= code_block_html(code@, markup_view(markup)));
    out
}

/// Appends the HTML of the heading `line` to `out`.
fn push_heading(out: &mut Vec<char>, line: &Vec<char>)
    requires
        heading_level(line@) > 0,
    ensures
        final(out)@ == old(out)@ + heading_html(line@),
{
    let level = count_run(line, '#', 0);
    let digit = if level == 1 {
        '1'
    } else if level == 2 {
        '2'
    } else if level == 3 {
        '3'
    } else if level == 4 {
        '4'
    } else if level == 5 {
        '5'
    } else {
        '6'
    };
    let rest = slice_of(line, level, line.len());
    let title = trim(&rest);
    push_str(out, "<h");
    out.push(digit);
    push_str(out, ">");
    push_inline(out, &title);
    push_str(out, "</h");
    out.push(digit);
    push_str(out, ">\n");
    assert(out@ =~= old(out)@ + heading_html(line@));
}

/// Appends the HTML of the list whose items are the lines from `from` up to
/// `to` to `out`.
fn push_list(out: &mut Vec<char>, lines: &Vec<Vec<char>>, from: usize, to: usize)
    requires
        from <= to <= lines.len(),
        forall|k: int| from <= k < to ==> is_item(#[trigger] lines_view(lines@)[k]),
    ensures
        final(out)@ == old(out)@ + list_html(lines_view(lines@).subrange(from as int, to as int)),
{
    let ghost all = lines_view(lines@);
    push_str(out, "<ul>\n");
    let ghost start = out@;
    let mut k: usize = from;
    assert(all.subrange(from as int, from as int) =~= Seq::<Seq<char>>::empty());
    while k < to
        invariant
            from <= k <= to <= lines.len(),
            all == lines_view(lines@),
            forall|j: int| from <= j < to ==> is_item(#[trigger] all[j]),
            out@ == start + items_html(all.subrange(from as int, k as int)),
        decreases to - k,
    {
        let line = &lines[k];
        assert(all[k as int] == line@);
        assert(is_item(all[k as int]));
        let rest = slice_of(line, 2, line.len());
        let item = trim(&rest);
        let ghost before = out@;
        push_str(out, "<li>");
        push_inline(out, &item);
        push_str(out, "</li>\n");
        k += 1;
        proof {
            let run = all.subrange(from as int, k as int);
            assert(run.drop_last() == all.subrange(from as int, k - 1));
            assert(run.last() == line@);
            assert(out@ =~= before + "<li>"@ + inline_html(item@) + "</li>\n"@);
            assert(out@ =~= start + items_html(run));
        }
    }
    push_str(out, "</ul>\n");
    assert(out@ =~= old(out)@ + list_html(all.subrange(from as int, to as int)));
}

/// Appends the HTML of the paragraph made of the lines from `from` up to `to`
/// to `out`.
fn push_paragraph(out: &mut Vec<char>, lines: &Vec<Vec<char>>, from: usize, to: usize)
    requires
        from <= to <= lines.len(),
    ensures
        final(out)@ == old(out)@ + paragraph_html(
            lines_view(lines@).subrange(from as int, to as int),
        ),
{
    let ghost all = lines_view(lines@);
    let mut content: Vec<char> = Vec::new();
    let mut k: usize = from;
    assert(all.subrange(from as int, from as int) =~= Seq::<Seq<char>>::empty());
    while k < to
        invariant
            from <= k <= to <= lines.len(),
            all == lines_view(lines@),
            content@ == paragraph_text(all.subrange(from as int, k as int)),
        decreases to - k,
    {
        let line = &lines[k];
        let piece = trim(line);
        let ghost before = content@;
        if k > from {
            content.push('\n');
        }
        push_all(&mut content, &piece);
        k += 1;
        proof {
            let run = all.subrange(from as int, k as int);
            assert(run.drop_last() == all.subrange(from as int, k - 1));
            assert(run.last() == line@);
            if run.len() == 1 {
                assert(run[0] == line@);
                assert(content@ =~= trimmed(line@));
            } else {
                assert(content@ =~= before + seq!['\n'] + trimmed(line@));
            }
        }
    }
    push_str(out, "<p>");
    push_inline(out, &content);
    push_str(out, "</p>\n");
    assert(out@ =~= old(out)@ + paragraph_html(all.subrange(from as int, to as int)));
}

/// Appends the HTML of a code block to `out`: `open` is the line that opens
/// it, and its text stands in the lines from `from` up to `to`.
fn push_code(
    out: &mut Vec<char>,
    open: &Vec<char>,
    lines: &Vec<Vec<char>>,
    from: usize,
    to: usize,
)
    requires
        from <= to <= lines.len(),
    ensures
        final(out)@ == old(out)@ + code_html(
            open@,
            lines_view(lines@).subrange(from as int, to as int),
        ),
{
    let ghost all = lines_view(lines@);
    let mut code: Vec<char> = Vec::new();
    let mut k: usize = from;
    assert(all.subrange(from as int, from as int) =~= Seq::<Seq<char>>::empty());
    while k < to
        invariant
            from <= k <= to <= lines.len(),
            all == lines_view(lines@),
            code@ == code_text(all.subrange(from as int, k as int)),
        decreases to - k,
    {
        let line = &lines[k];
        let ghost before = code@;
        push_all(&mut code, line);
        code.push('\n');
        k += 1;
        proof {
            let run = all.subrange(from as int, k as int);
            assert(run.drop_last() == all.subrange(from as int, k - 1));
            assert(run.last() == line@);
            assert(code@ =~= before + line@ + seq!['\n']);
        }
    }
    let ticks = count_run(open, '`', 0);
    let rest = slice_of(open, ticks, open.len());
    let token = trim(&rest);
    let code_string = string_of(&code);
    let token_string = string_of(&token);
    let markup = if has_grammar(token_string.as_str()) {
        highlight(code_string.as_str(), token_string.as_str())
    } else {
        highlight_plain(code_string.as_str())
    };
    let block = code_block(&code, markup);
    push_all(out, &block);
}

/// Appends the HTML of the slide made of `lines` to `out`.
pub fn push_slide(out: &mut Vec<char>, lines: &Vec<Vec<char>>)
    ensures
        final(out)@ == old(out)@ + slide_html(lines_view(lines@)),
{
    let ghost all = lines_view(lines@);
    let ghost mut emitted: Seq<char> = Seq::empty();
    let mut i: usize = 0;
    assert(out@ =~= old(out)@ + emitted);
    while i < lines.len()
        invariant
            i <= lines.len(),
            all == lines_view(lines@),
            out@ == old(out)@ + emitted,
            html_from(all, 0) == emitted + html_from(all, i as int),
        decreases lines.len() - i,
    {
        proof {
            block_end_bounds(all, i as int);
            run_count_bounds(all, LineKind::Item, i + 1);
            run_count_bounds(all, LineKind::Text, i + 1);
            code_count_bounds(all, i + 1);
        }
        let line = &lines[i];
        assert(all[i as int] == line@);
        let ghost before = out@;
        let mut next: usize = i + 1;
        match classify(line) {
            LineKind::Blank => {
                assert(out@ =~= before + block_html(all, i as int));
            },
            LineKind::Heading => {
                push_heading(out, line);
            },
            LineKind::Fence => {
                let n = count_code_lines(lines, i + 1);
                push_code(out, line, lines, i + 1, i + 1 + n);
                next = if i + 1 + n < lines.len() {
                    i + 2 + n
                } else {
                    i + 1 + n
                };
            },
            LineKind::Item => {
                let n = count_kind_run(lines, LineKind::Item, i + 1);
                proof {
                    assert forall|k: int| i <= k < i + 1 + n implies is_item(#[trigger] all[k]) by {
                        if k > i {
                            run_count_kinds(all, LineKind::Item, i + 1, k);
                        }
                    }
                }
                push_list(out, lines, i, i + 1 + n);
                next = i + 1 + n;
            },
            LineKind::Text => {
                let n = count_kind_run(lines, LineKind::Text, i + 1);
                push_paragraph(out, lines, i, i + 1 + n);
                next = i + 1 + n;
            },
        }
        proof {
            assert(out@ == before + block_html(all, i as int));
            assert(next == block_end(all, i as int));
            let grown = emitted + block_html(all, i as int);
            assert(out@ =~= old(out)@ + grown);
            assert(html_from(all, 0) =~= grown + html_from(all, next as int));
            emitted = grown;
        }
        i = next;
    }
    assert(html_from(all, 0) =~= emitted);
}

/// The HTML of the slide whose markdown is `markdown`.
pub fn slide_to_html(markdown: &str) -> (html: String)
    ensures
        html@ == slide_html(lines_of(markdown@)),
{
    let text = chars_of(markdown);
    let lines = split_lines(&text);
    let mut out: Vec<char> = Vec::new();
    push_slide(&mut out, &lines);
    string_of(&out)
}

} // verus!
