//! References to the outside. Every address on the network holds two
//! slashes in a row, before its host; a text without two slashes in a row
//! refers to nothing outside itself. This module scans for them and shows
//! that putting a page together adds none.

use vstd::prelude::*;
use crate::page::{
    compact_lines, page_html, script_text, sections_html, style_text, text_or_empty, title_html,
    LAYOUT_RULES, NAVIGATION,
};
use crate::inline::{
    inline_from, inline_html, link_end, link_text_end, pair_position, span_end, span_end_bounds,
    span_html, span_kind, SpanKind,
};
use crate::markdown::{
    block_code, block_end, block_end_bounds, block_html, block_markup, code_block_html,
    code_count_bounds, code_text, heading_html, heading_level, html_from, is_item, items_html,
    kind_of, level_digit, list_html, paragraph_html, paragraph_text, LineKind,
};
use crate::slides::{is_fence, slides_of};
use crate::text::{
    blanks_before, blanks_before_bounds, blanks_from, blanks_from_bounds, chars_of, escaped,
    escaped_char, is_blank_text, lines_of, position_of, trimmed,
};

verus! {

/// Whether `text` holds two slashes in a row.
pub open spec fn has_reference(text: Seq<char>) -> bool {
    exists|i: int| 0 <= i && i + 1 < text.len() && (#[trigger] text[i]) == '/' && text[i + 1] == '/'
}

/// Whether `text` holds no reference and neither begins nor ends with a
/// slash, so that it forms none with what stands beside it.
pub open spec fn is_framed(text: Seq<char>) -> bool {
    !has_reference(text) && text.len() > 0 && text[0] != '/' && text.last() != '/'
}

/// Scans `page` for references to the outside.
pub fn holds_reference(page: &str) -> (found: bool)
    ensures
        found == has_reference(page@),
{
    let text = chars_of(page);
    if text.len() < 2 {
        return false;
    }
    let mut i: usize = 0;
    while i + 1 < text.len()
        invariant
            i + 1 <= text.len(),
            text@ == page@,
            forall|k: int| 0 <= k < i ==> !(#[trigger] text@[k] == '/' && text@[k + 1] == '/'),
        decreases text.len() - i,
    {
        if text[i] == '/' && text[i + 1] == '/' {
            proof {
                let at = i as int;
                assert(0 <= at && at + 1 < page@.len() && page@[at] == '/' && page@[at + 1] == '/');
            }
            return true;
        }
        i += 1;
    }
    false
}

/// Two texts without a reference, put end to end, hold one only where the
/// first ends and the second begins with a slash.
pub proof fn joined_has_no_reference(a: Seq<char>, b: Seq<char>)
    requires
        !has_reference(a),
        !has_reference(b),
        a.len() == 0 || b.len() == 0 || a.last() != '/' || b[0] != '/',
    ensures
        !has_reference(a + b),
{
    let whole = a + b;
    assert forall|i: int| 0 <= i && i + 1 < whole.len() implies !(#[trigger] whole[i] == '/'
        && whole[i + 1] == '/') by {
        if i + 1 < a.len() {
            assert(a[i] == whole[i] && a[i + 1] == whole[i + 1]);
        } else if i >= a.len() {
            assert(b[i - a.len()] == whole[i] && b[i - a.len() + 1] == whole[i + 1]);
        }
    }
}

/// A part of a text without a reference holds none.
pub proof fn part_has_no_reference(text: Seq<char>, from: int, to: int)
    requires
        !has_reference(text),
        0 <= from <= to <= text.len(),
    ensures
        !has_reference(text.subrange(from, to)),
{
    let part = text.subrange(from, to);
    assert forall|i: int| 0 <= i && i + 1 < part.len() implies !(#[trigger] part[i] == '/'
        && part[i + 1] == '/') by {
        assert(text[from + i] == part[i] && text[from + i + 1] == part[i + 1]);
    }
}

/// A text without a reference between two framed texts is framed.
pub proof fn framed_around(before: Seq<char>, inner: Seq<char>, after: Seq<char>)
    requires
        is_framed(before),
        !has_reference(inner),
        is_framed(after),
    ensures
        is_framed(before + inner + after),
{
    joined_has_no_reference(before, inner);
    joined_has_no_reference(before + inner, after);
}

/// Two framed texts, put end to end, are framed.
pub proof fn framed_beside(before: Seq<char>, after: Seq<char>)
    requires
        is_framed(before),
        is_framed(after),
    ensures
        is_framed(before + after),
{
    joined_has_no_reference(before, after);
}

/// Escaping adds no reference, and no slash at the end.
pub proof fn escaped_has_no_reference(text: Seq<char>)
    requires
        !has_reference(text),
    ensures
        !has_reference(escaped(text)),
        escaped(text).len() > 0 && escaped(text).last() == '/' ==> text.len() > 0 && text.last()
            == '/',
    decreases text.len(),
{
    reveal_strlit("&amp;");
    reveal_strlit("&lt;");
    reveal_strlit("&gt;");
    reveal_strlit("&quot;");
    if text.len() > 0 {
        let head = text.drop_last();
        part_has_no_reference(text, 0, text.len() - 1);
        escaped_has_no_reference(head);
        let tail = escaped_char(text.last());
        assert(!has_reference(tail));
        if head.len() > 0 && head.last() == '/' {
            assert(text[text.len() - 2] == '/');
            assert(text.last() != '/');
        }
        joined_has_no_reference(escaped(head), tail);
    }
}

/// The lines of a text without a reference hold none, and a last line that
/// is not empty ends as the text ends.
pub proof fn lines_have_no_reference(text: Seq<char>)
    requires
        !has_reference(text),
    ensures
        forall|i: int| 0 <= i < lines_of(text).len() ==> !has_reference(#[trigger] lines_of(text)[i]),
        lines_of(text).len() > 0,
        lines_of(text).last().len() > 0 ==> text.len() > 0 && lines_of(text).last().last()
            == text.last(),
    decreases text.len(),
{
    if text.len() > 0 {
        let head = text.drop_last();
        part_has_no_reference(text, 0, text.len() - 1);
        lines_have_no_reference(head);
        let before = lines_of(head);
        if text.last() != '\n' {
            let open = before.last();
            if open.len() > 0 && open.last() == '/' {
                assert(text[text.len() - 2] == '/');
            }
            joined_has_no_reference(open, seq![text.last()]);
            assert(open + seq![text.last()] =~= open.push(text.last()));
        }
    }
}

/// Trimming a text without a reference leaves none.
pub proof fn trimmed_has_no_reference(text: Seq<char>)
    requires
        !has_reference(text),
    ensures
        !has_reference(trimmed(text)),
{
    if !is_blank_text(text) {
        blanks_from_bounds(text, 0);
        blanks_before_bounds(text, text.len() as int, blanks_from(text, 0));
        part_has_no_reference(
            text,
            blanks_from(text, 0),
            text.len() - blanks_before(text, text.len() as int),
        );
    }
}

/// Minifying lines without a reference gives a text without one, which ends
/// in a line feed where it is not empty.
pub proof fn compact_has_no_reference(lines: Seq<Seq<char>>)
    requires
        forall|i: int| 0 <= i < lines.len() ==> !has_reference(#[trigger] lines[i]),
    ensures
        !has_reference(compact_lines(lines)),
        compact_lines(lines).len() > 0 ==> compact_lines(lines).last() == '\n',
    decreases lines.len(),
{
    if lines.len() > 0 {
        let head = lines.drop_last();
        assert forall|i: int| 0 <= i < head.len() implies !has_reference(#[trigger] head[i]) by {
            assert(head[i] == lines[i]);
        }
        compact_has_no_reference(head);
        let line = lines.last();
        if !is_blank_text(line) {
            trimmed_has_no_reference(line);
            joined_has_no_reference(compact_lines(head), trimmed(line));
            joined_has_no_reference(compact_lines(head) + trimmed(line), seq!['\n']);
        }
    }
}

/// The sections of slides without a reference are framed, or there is none.
pub proof fn sections_are_framed(slides: Seq<Seq<char>>)
    requires
        forall|i: int| 0 <= i < slides.len() ==> !has_reference(#[trigger] slides[i]),
    ensures
        slides.len() == 0 ==> sections_html(slides).len() == 0,
        slides.len() > 0 ==> is_framed(sections_html(slides)),
    decreases slides.len(),
{
    reveal_strlit("<section class=\"slide\">\n");
    reveal_strlit("</section>\n");
    if slides.len() > 0 {
        let head = slides.drop_last();
        assert forall|i: int| 0 <= i < head.len() implies !has_reference(#[trigger] head[i]) by {
            assert(head[i] == slides[i]);
        }
        sections_are_framed(head);
        let open = "<section class=\"slide\">\n"@;
        let close = "</section>\n"@;
        assert(is_framed(open));
        assert(is_framed(close));
        framed_around(open, slides.last(), close);
        let section = open + slides.last() + close;
        if head.len() > 0 {
            framed_beside(sections_html(head), section);
        }
        assert(sections_html(slides) =~= sections_html(head) + section);
    }
}

/// Putting a page together adds no reference to the outside: the page holds
/// one only where its title, its style, its script or one of its slides
/// holds one.
pub proof fn page_adds_no_reference(
    title: Option<Seq<char>>,
    style: Seq<char>,
    script: Seq<char>,
    slides: Seq<Seq<char>>,
)
    requires
        !has_reference(text_or_empty(title)),
        !has_reference(style),
        !has_reference(script),
        forall|i: int| 0 <= i < slides.len() ==> !has_reference(#[trigger] slides[i]),
    ensures
        !has_reference(page_html(title, style, script, slides)),
{
    reveal_strlit("<!DOCTYPE html>\n<html>\n<head>\n<meta charset=\"utf-8\">\n");
    reveal_strlit("<title>");
    reveal_strlit("</title>\n");
    reveal_strlit("<style>\n");
    reveal_strlit("</style>\n</head>\n<body>\n");
    reveal_strlit("<script>\n");
    reveal_strlit("</script>\n</body>\n</html>\n");
    let top = "<!DOCTYPE html>\n<html>\n<head>\n<meta charset=\"utf-8\">\n"@;
    let style_open = "<style>\n"@;
    let body_open = "</style>\n</head>\n<body>\n"@;
    let script_open = "<script>\n"@;
    let bottom = "</script>\n</body>\n</html>\n"@;
    assert(is_framed(top));
    assert(is_framed(style_open));
    assert(is_framed(body_open));
    assert(is_framed(script_open));
    assert(is_framed(bottom));
    let head = top + title_html(title);
    match title {
        Some(text) => {
            escaped_has_no_reference(text);
            assert(is_framed("<title>"@));
            assert(is_framed("</title>\n"@));
            framed_around("<title>"@, escaped(text), "</title>\n"@);
            framed_beside(top, title_html(title));
        },
        None => {
            assert(head =~= top);
        },
    }
    framed_beside(head, style_open);
    framed_around(head + style_open, style, body_open);
    let upper = head + style_open + style + body_open;
    sections_are_framed(slides);
    let middle = upper + sections_html(slides);
    if slides.len() > 0 {
        framed_beside(upper, sections_html(slides));
    } else {
        assert(middle =~= upper);
    }
    framed_beside(middle, script_open);
    framed_around(middle + script_open, script, bottom);
    assert(page_html(title, style, script, slides) =~= middle + script_open + script + bottom);
}

/// The style of a deck holds no reference where neither the theme's rules
/// nor the author's hold one, before and after it is minified.
pub proof fn style_has_no_reference(rules: Seq<char>, css: Option<Seq<char>>)
    requires
        !has_reference(rules),
        !has_reference(text_or_empty(css)),
    ensures
        !has_reference(style_text(rules, css)),
        !has_reference(compact_lines(lines_of(style_text(rules, css)))),
{
    reveal_strlit(
        "html, body { margin: 0; height: 100%; }\n.slide { display: none; box-sizing: border-box; height: 100%; padding: 4% 8%; font-family: sans-serif; font-size: 2em; }\n.slide.current { display: block; }\npre.code { padding: 1em; font-size: 0.7em; overflow: auto; }\n",
    );
    assert(is_framed(LAYOUT_RULES@));
    let feed = seq!['\n'];
    assert(is_framed(feed));
    framed_around(LAYOUT_RULES@, rules, feed);
    framed_around(LAYOUT_RULES@ + rules + feed, text_or_empty(css), feed);
    lines_have_no_reference(style_text(rules, css));
    compact_has_no_reference(lines_of(style_text(rules, css)));
}

/// The script of a deck holds no reference where the author's holds none.
pub proof fn script_has_no_reference(js: Option<Seq<char>>)
    requires
        !has_reference(text_or_empty(js)),
    ensures
        !has_reference(script_text(js)),
{
    reveal_strlit(
        "(function () {\nvar slides = document.querySelectorAll(\"section.slide\");\nvar at = 0;\nfunction show(n) {\nif (slides.length === 0) { return; }\nat = Math.max(0, Math.min(slides.length - 1, n));\nfor (var i = 0; i < slides.length; i++) { slides[i].className = i === at ? \"slide current\" : \"slide\"; }\nlocation.hash = String(at + 1);\n}\ndocument.addEventListener(\"keydown\", function (e) {\nif (e.key === \"ArrowRight\" || e.key === \"PageDown\" || e.key === \" \") { show(at + 1); }\nelse if (e.key === \"ArrowLeft\" || e.key === \"PageUp\") { show(at - 1); }\nelse if (e.key === \"Home\") { show(0); }\nelse if (e.key === \"End\") { show(slides.length - 1); }\n});\nshow((parseInt(location.hash.slice(1), 10) || 1) - 1);\n})();\n",
    );
    assert(is_framed(NAVIGATION@));
    let feed = seq!['\n'];
    assert(is_framed(feed));
    framed_around(NAVIGATION@, text_or_empty(js), feed);
}


/// Escaped text between two framed marks is framed.
proof fn escaped_span_is_framed(open: Seq<char>, text: Seq<char>, from: int, to: int, close: Seq<char>)
    requires
        is_framed(open),
        is_framed(close),
        !has_reference(text),
        0 <= from <= to <= text.len(),
    ensures
        is_framed(open + escaped(text.subrange(from, to)) + close),
{
    part_has_no_reference(text, from, to);
    escaped_has_no_reference(text.subrange(from, to));
    framed_around(open, escaped(text.subrange(from, to)), close);
}

/// The HTML of a text without a reference holds none, and begins with a
/// slash only where the text does.
pub proof fn inline_has_no_reference(text: Seq<char>, at: int)
    requires
        !has_reference(text),
        0 <= at,
    ensures
        !has_reference(inline_from(text, at)),
        inline_from(text, at).len() > 0 && inline_from(text, at)[0] == '/' ==> at < text.len()
            && text[at] == '/',
    decreases text.len() - at,
{
    reveal_strlit("<code>");
    reveal_strlit("</code>");
    reveal_strlit("<strong>");
    reveal_strlit("</strong>");
    reveal_strlit("<em>");
    reveal_strlit("</em>");
    reveal_strlit("<a href=\"");
    reveal_strlit("\">");
    reveal_strlit("</a>");
    reveal_strlit("&amp;");
    reveal_strlit("&lt;");
    reveal_strlit("&gt;");
    reveal_strlit("&quot;");
    if at < text.len() {
        span_end_bounds(text, at);
        let next = span_end(text, at);
        let piece = span_html(text, at);
        let rest = inline_from(text, next);
        inline_has_no_reference(text, next);
        match span_kind(text, at) {
            SpanKind::Code => {
                escaped_span_is_framed(
                    "<code>"@,
                    text,
                    at + 1,
                    position_of(text, '`', at + 1),
                    "</code>"@,
                );
            },
            SpanKind::Strong => {
                escaped_span_is_framed(
                    "<strong>"@,
                    text,
                    at + 2,
                    pair_position(text, '*', at + 2),
                    "</strong>"@,
                );
            },
            SpanKind::Emphasis => {
                escaped_span_is_framed(
                    "<em>"@,
                    text,
                    at + 1,
                    position_of(text, '*', at + 1),
                    "</em>"@,
                );
            },
            SpanKind::Link => {
                let middle = link_text_end(text, at);
                escaped_span_is_framed("<a href=\""@, text, middle + 2, link_end(text, at), "\">"@);
                escaped_span_is_framed(
                    "<a href=\""@ + escaped(text.subrange(middle + 2, link_end(text, at)))
                        + "\">"@,
                    text,
                    at + 1,
                    middle,
                    "</a>"@,
                );
            },
            SpanKind::Plain => {
                assert(!has_reference(piece));
                if text[at] == '/' && rest.len() > 0 && rest[0] == '/' {
                    assert(text[at + 1] == '/');
                }
            },
        }
        joined_has_no_reference(piece, rest);
        assert(inline_from(text, at) == piece + rest);
    }
}

/// Whether a text is empty or framed: either way it forms no reference with
/// what stands beside it.
pub open spec fn is_sealed(text: Seq<char>) -> bool {
    text.len() == 0 || is_framed(text)
}

/// Two sealed texts, put end to end, are sealed.
pub proof fn sealed_beside(before: Seq<char>, after: Seq<char>)
    requires
        is_sealed(before),
        is_sealed(after),
    ensures
        is_sealed(before + after),
{
    if before.len() == 0 {
        assert(before + after =~= after);
    } else if after.len() == 0 {
        assert(before + after =~= before);
    } else {
        framed_beside(before, after);
    }
}

/// The HTML of a heading whose line holds no reference is framed.
pub proof fn heading_is_framed(line: Seq<char>)
    requires
        !has_reference(line),
        heading_level(line) > 0,
    ensures
        is_framed(heading_html(line)),
{
    reveal_strlit("<h");
    reveal_strlit(">");
    reveal_strlit("</h");
    reveal_strlit(">\n");
    let level = heading_level(line);
    crate::text::run_length_bounds(line, '#', 0);
    part_has_no_reference(line, level, line.len() as int);
    let title = trimmed(line.subrange(level, line.len() as int));
    trimmed_has_no_reference(line.subrange(level, line.len() as int));
    inline_has_no_reference(title, 0);
    let open = "<h"@ + seq![level_digit(level)] + ">"@;
    let close = "</h"@ + seq![level_digit(level)] + ">\n"@;
    assert(is_framed(open));
    assert(is_framed(close));
    framed_around(open, inline_html(title), close);
    assert(heading_html(line) =~= open + inline_html(title) + close);
}

/// The HTML of list items whose lines hold no reference is sealed.
pub proof fn items_are_sealed(lines: Seq<Seq<char>>)
    requires
        forall|i: int| 0 <= i < lines.len() ==> !has_reference(#[trigger] lines[i]),
        forall|i: int| 0 <= i < lines.len() ==> is_item(#[trigger] lines[i]),
    ensures
        is_sealed(items_html(lines)),
    decreases lines.len(),
{
    reveal_strlit("<li>");
    reveal_strlit("</li>\n");
    if lines.len() > 0 {
        let head = lines.drop_last();
        let line = lines.last();
        assert forall|i: int| 0 <= i < head.len() implies !has_reference(#[trigger] head[i])
            && is_item(head[i]) by {
            assert(head[i] == lines[i]);
        }
        items_are_sealed(head);
        part_has_no_reference(line, 2, line.len() as int);
        trimmed_has_no_reference(line.subrange(2, line.len() as int));
        let item = trimmed(line.subrange(2, line.len() as int));
        inline_has_no_reference(item, 0);
        assert(is_framed("<li>"@));
        assert(is_framed("</li>\n"@));
        framed_around("<li>"@, inline_html(item), "</li>\n"@);
        sealed_beside(items_html(head), "<li>"@ + inline_html(item) + "</li>\n"@);
        assert(items_html(lines) =~= items_html(head) + ("<li>"@ + inline_html(item) + "</li>\n"@));
    }
}

/// The text of a paragraph whose lines hold no reference holds none.
pub proof fn paragraph_text_has_no_reference(lines: Seq<Seq<char>>)
    requires
        forall|i: int| 0 <= i < lines.len() ==> !has_reference(#[trigger] lines[i]),
    ensures
        !has_reference(paragraph_text(lines)),
    decreases lines.len(),
{
    if lines.len() == 1 {
        trimmed_has_no_reference(lines[0]);
    } else if lines.len() > 1 {
        let head = lines.drop_last();
        assert forall|i: int| 0 <= i < head.len() implies !has_reference(#[trigger] head[i]) by {
            assert(head[i] == lines[i]);
        }
        paragraph_text_has_no_reference(head);
        trimmed_has_no_reference(lines.last());
        joined_has_no_reference(paragraph_text(head), seq!['\n']);
        joined_has_no_reference(paragraph_text(head) + seq!['\n'], trimmed(lines.last()));
    }
}

/// The HTML of a code block holds a reference to the outside only where
/// the code or the markup that the highlighter made of it holds one.
pub proof fn code_block_has_no_reference(code: Seq<char>, markup: Option<Seq<char>>)
    requires
        !has_reference(code),
        markup matches Some(text) ==> !has_reference(text),
    ensures
        is_framed(code_block_html(code, markup)),
{
    reveal_strlit("<pre class=\"code\">");
    reveal_strlit("</pre>\n");
    assert(is_framed("<pre class=\"code\">"@));
    assert(is_framed("</pre>\n"@));
    match markup {
        Some(text) => {
            framed_around("<pre class=\"code\">"@, text, "</pre>\n"@);
        },
        None => {
            escaped_has_no_reference(code);
            framed_around("<pre class=\"code\">"@, escaped(code), "</pre>\n"@);
        },
    }
}

/// The text of a code block whose lines hold no reference holds none.
pub proof fn code_text_has_no_reference(lines: Seq<Seq<char>>)
    requires
        forall|i: int| 0 <= i < lines.len() ==> !has_reference(#[trigger] lines[i]),
    ensures
        !has_reference(code_text(lines)),
        code_text(lines).len() > 0 ==> code_text(lines).last() == '\n',
    decreases lines.len(),
{
    if lines.len() > 0 {
        let head = lines.drop_last();
        assert forall|i: int| 0 <= i < head.len() implies !has_reference(#[trigger] head[i]) by {
            assert(head[i] == lines[i]);
        }
        code_text_has_no_reference(head);
        joined_has_no_reference(code_text(head), lines.last());
        joined_has_no_reference(code_text(head) + lines.last(), seq!['\n']);
    }
}

/// Whether the highlighter brought no reference into the code blocks of a
/// slide: the markup that it made of each of them holds none.
pub open spec fn code_stays_clean(lines: Seq<Seq<char>>) -> bool {
    forall|at: int|
        0 <= at < lines.len() && kind_of(lines[at]) == LineKind::Fence ==> match #[trigger] block_markup(
            lines,
            at,
        ) {
            Some(text) => !has_reference(text),
            None => true,
        }
}

/// The HTML of a block holds no reference where its lines hold none and
/// the highlighter brought none into its code, and is sealed.
pub proof fn block_is_sealed(lines: Seq<Seq<char>>, at: int)
    requires
        0 <= at < lines.len(),
        forall|i: int| 0 <= i < lines.len() ==> !has_reference(#[trigger] lines[i]),
        code_stays_clean(lines),
    ensures
        is_sealed(block_html(lines, at)),
{
    reveal_strlit("<ul>\n");
    reveal_strlit("</ul>\n");
    reveal_strlit("<p>");
    reveal_strlit("</p>\n");
    block_end_bounds(lines, at);
    let end = block_end(lines, at);
    let run = lines.subrange(at, end);
    assert forall|i: int| 0 <= i < run.len() implies !has_reference(#[trigger] run[i]) by {
        assert(run[i] == lines[at + i]);
    }
    match kind_of(lines[at]) {
        LineKind::Heading => {
            heading_is_framed(lines[at]);
        },
        LineKind::Item => {
            assert forall|i: int| 0 <= i < run.len() implies is_item(#[trigger] run[i]) by {
                if i > 0 {
                    crate::markdown::run_count_kinds(lines, LineKind::Item, at + 1, at + i);
                }
                assert(run[i] == lines[at + i]);
            }
            items_are_sealed(run);
            assert(is_framed("<ul>\n"@));
            assert(is_framed("</ul>\n"@));
            if items_html(run).len() == 0 {
                assert(list_html(run) =~= "<ul>\n"@ + "</ul>\n"@);
                framed_beside("<ul>\n"@, "</ul>\n"@);
            } else {
                framed_around("<ul>\n"@, items_html(run), "</ul>\n"@);
            }
        },
        LineKind::Text => {
            paragraph_text_has_no_reference(run);
            inline_has_no_reference(paragraph_text(run), 0);
            assert(is_framed("<p>"@));
            assert(is_framed("</p>\n"@));
            framed_around("<p>"@, inline_html(paragraph_text(run)), "</p>\n"@);
        },
        LineKind::Fence => {
            code_count_bounds(lines, at + 1);
            let body = lines.subrange(at + 1, at + 1 + crate::markdown::code_count(lines, at + 1));
            assert forall|i: int| 0 <= i < body.len() implies !has_reference(#[trigger] body[i]) by {
                assert(body[i] == lines[at + 1 + i]);
            }
            code_text_has_no_reference(body);
            assert(block_code(lines, at) == code_text(body));
            code_block_has_no_reference(block_code(lines, at), block_markup(lines, at));
        },
        LineKind::Blank => {},
    }
}

/// The HTML of a slide holds a reference to the outside only where one of
/// its lines holds one or the highlighter brought one into its code.
pub proof fn slide_is_sealed(lines: Seq<Seq<char>>, at: int)
    requires
        0 <= at,
        forall|i: int| 0 <= i < lines.len() ==> !has_reference(#[trigger] lines[i]),
        code_stays_clean(lines),
    ensures
        is_sealed(html_from(lines, at)),
    decreases lines.len() - at,
{
    if at < lines.len() {
        block_end_bounds(lines, at);
        block_is_sealed(lines, at);
        slide_is_sealed(lines, block_end(lines, at));
        sealed_beside(block_html(lines, at), html_from(lines, block_end(lines, at)));
    }
}

/// A slide without a fence line has no code that the highlighter could
/// bring a reference into.
pub proof fn slide_without_code_stays_clean(lines: Seq<Seq<char>>)
    requires
        forall|i: int| 0 <= i < lines.len() ==> !is_fence(#[trigger] lines[i]),
    ensures
        code_stays_clean(lines),
{
    assert forall|at: int| 0 <= at < lines.len() implies kind_of(#[trigger] lines[at])
        != LineKind::Fence by {
        blanks_from_bounds(lines[at], 0);
    }
}

/// Every line of every slide is a line of the deck.
pub proof fn slide_lines_are_deck_lines(lines: Seq<Seq<char>>, slide: int, line: int)
    requires
        0 <= slide < slides_of(lines).len(),
        0 <= line < slides_of(lines)[slide].len(),
    ensures
        exists|at: int| 0 <= at < lines.len() && #[trigger] lines[at] == slides_of(lines)[slide][line],
    decreases lines.len(),
{
    if lines.len() > 0 {
        let head = lines.drop_last();
        let before = slides_of(head);
        crate::slides::slides_keep_count_and_order(head);
        if slide < before.len() - 1 || (slide == before.len() - 1 && line < before.last().len()) {
            slide_lines_are_deck_lines(head, slide, line);
            let at = choose|at: int|
                0 <= at < head.len() && #[trigger] head[at] == slides_of(head)[slide][line];
            assert(lines[at] == head[at]);
        } else {
            assert(lines[lines.len() - 1] == slides_of(lines)[slide][line]);
        }
    }
}

} // verus!
