//! The page: one HTML document that holds the deck's style, its slides in
//! their order, and its script, and that needs nothing from outside itself.

use vstd::prelude::*;
use crate::text::{
    escaped, is_blank_text, lines_of, lines_view, occurs, occurs_in, push_all, push_escaped,
    push_str, split_lines, trim, trimmed, chars_of,
};

verus! {

/// The rules that lay the slides out: one slide fills the window, and only
/// the current one is shown.
pub const LAYOUT_RULES: &'static str =
    "html, body { margin: 0; height: 100%; }\n.slide { display: none; box-sizing: border-box; height: 100%; padding: 4% 8%; font-family: sans-serif; font-size: 2em; }\n.slide.current { display: block; }\npre.code { padding: 1em; font-size: 0.7em; overflow: auto; }\n";

/// The script that moves through the slides: arrow keys, page keys, space,
/// Home and End; the number of the current slide stands in the address.
pub const NAVIGATION: &'static str =
    "(function () {\nvar slides = document.querySelectorAll(\"section.slide\");\nvar at = 0;\nfunction show(n) {\nif (slides.length === 0) { return; }\nat = Math.max(0, Math.min(slides.length - 1, n));\nfor (var i = 0; i < slides.length; i++) { slides[i].className = i === at ? \"slide current\" : \"slide\"; }\nlocation.hash = String(at + 1);\n}\ndocument.addEventListener(\"keydown\", function (e) {\nif (e.key === \"ArrowRight\" || e.key === \"PageDown\" || e.key === \" \") { show(at + 1); }\nelse if (e.key === \"ArrowLeft\" || e.key === \"PageUp\") { show(at - 1); }\nelse if (e.key === \"Home\") { show(0); }\nelse if (e.key === \"End\") { show(slides.length - 1); }\n});\nshow((parseInt(location.hash.slice(1), 10) || 1) - 1);\n})();\n";

/// The text of an optional string: nothing where there is none.
pub open spec fn text_or_empty(text: Option<Seq<char>>) -> Seq<char> {
    match text {
        Some(given) => given,
        None => Seq::empty(),
    }
}

/// The style of a deck before it is minified: the layout rules, then the
/// theme's rules, then the author's own, so that the author's rules can
/// override the theme's.
pub open spec fn style_text(rules: Seq<char>, css: Option<Seq<char>>) -> Seq<char> {
    LAYOUT_RULES@ + rules + seq!['\n'] + text_or_empty(css) + seq!['\n']
}

/// The script of a deck: the navigation, then the author's own script.
pub open spec fn script_text(js: Option<Seq<char>>) -> Seq<char> {
    NAVIGATION@ + text_or_empty(js) + seq!['\n']
}

/// How many braces are open after `text`, or `None` where a brace closes
/// that none has opened.
pub open spec fn open_braces(text: Seq<char>) -> Option<nat>
    decreases text.len(),
{
    if text.len() == 0 {
        Some(0)
    } else {
        match open_braces(text.drop_last()) {
            None => None,
            Some(depth) => if text.last() == '{' {
                Some(depth + 1)
            } else if text.last() == '}' {
                if depth == 0 {
                    None
                } else {
                    Some((depth - 1) as nat)
                }
            } else {
                Some(depth)
            },
        }
    }
}

/// The lines `lines` minified: each line without the blanks at its ends and
/// followed by a line feed, lines of blanks left out.
pub open spec fn compact_lines(lines: Seq<Seq<char>>) -> Seq<char>
    decreases lines.len(),
{
    if lines.len() == 0 {
        Seq::empty()
    } else if is_blank_text(lines.last()) {
        compact_lines(lines.drop_last())
    } else {
        compact_lines(lines.drop_last()) + trimmed(lines.last()) + seq!['\n']
    }
}

/// What is wrong with a style that cannot be minified, if anything: it
/// would close its own block, or its braces do not match.
pub open spec fn style_fault(style: Seq<char>) -> Option<Seq<char>> {
    if occurs_in(style, "</style"@) {
        Some("style closes its own block"@)
    } else if open_braces(style) != Some(0nat) {
        Some("style has unbalanced braces"@)
    } else {
        None
    }
}

/// What is wrong with a script that cannot be put into the page, if
/// anything: it would close its own block.
pub open spec fn script_fault(script: Seq<char>) -> Option<Seq<char>> {
    if occurs_in(script, "</script"@) {
        Some("script closes its own block"@)
    } else {
        None
    }
}

/// The title of the page in its head, where the deck has one.
pub open spec fn title_html(title: Option<Seq<char>>) -> Seq<char> {
    match title {
        Some(text) => "<title>"@ + escaped(text) + "</title>\n"@,
        None => Seq::empty(),
    }
}

/// The slides in their containers, in order.
pub open spec fn sections_html(slides: Seq<Seq<char>>) -> Seq<char>
    decreases slides.len(),
{
    if slides.len() == 0 {
        Seq::empty()
    } else {
        sections_html(slides.drop_last()) + "<section class=\"slide\">\n"@ + slides.last()
            + "</section>\n"@
    }
}

/// The page: head with title and style, body with the slides and the script.
pub open spec fn page_html(
    title: Option<Seq<char>>,
    style: Seq<char>,
    script: Seq<char>,
    slides: Seq<Seq<char>>,
) -> Seq<char> {
    "<!DOCTYPE html>\n<html>\n<head>\n<meta charset=\"utf-8\">\n"@ + title_html(title)
        + "<style>\n"@ + style + "</style>\n</head>\n<body>\n"@ + sections_html(slides)
        + "<script>\n"@ + script + "</script>\n</body>\n</html>\n"@
}

/// Counts the braces that are open after `text`.
pub fn count_open_braces(text: &Vec<char>) -> (open: Option<usize>)
    ensures
        match open {
            Some(depth) => open_braces(text@) == Some(depth as nat),
            None => open_braces(text@) is None,
        },
{
    let mut depth: usize = 0;
    let mut i: usize = 0;
    assert(text@.subrange(0, 0) =~= Seq::<char>::empty());
    while i < text.len()
        invariant
            i <= text.len(),
            depth <= i,
            open_braces(text@.subrange(0, i as int)) == Some(depth as nat),
        decreases text.len() - i,
    {
        let c = text[i];
        proof {
            let next = text@.subrange(0, i + 1);
            assert(next.drop_last() == text@.subrange(0, i as int));
            assert(next.last() == c);
        }
        if c == '{' {
            depth += 1;
        } else if c == '}' {
            if depth == 0 {
                proof {
                    closed_stays_closed(text@, i + 1);
                }
                return None;
            }
            depth -= 1;
        }
        i += 1;
    }
    assert(text@.subrange(0, text.len() as int) == text@);
    Some(depth)
}

/// Once a brace has closed what none opened, no later text mends it.
pub proof fn closed_stays_closed(text: Seq<char>, upto: int)
    requires
        0 <= upto <= text.len(),
        open_braces(text.subrange(0, upto)) is None,
    ensures
        open_braces(text) is None,
    decreases text.len() - upto,
{
    if upto < text.len() {
        assert(text.subrange(0, upto + 1).drop_last() == text.subrange(0, upto));
        closed_stays_closed(text, upto + 1);
    } else {
        assert(text.subrange(0, upto) == text);
    }
}

/// Minifies a style: fails where the style has a fault, and else gives its
/// lines without the blanks at their ends and without the lines of blanks.
pub fn minify_style(style: &Vec<char>) -> (minified: Result<Vec<char>, &'static str>)
    ensures
        match minified {
            Ok(text) => style_fault(style@) is None && text@ == compact_lines(lines_of(style@)),
            Err(reason) => style_fault(style@) == Some(reason@),
        },
{
    if occurs(style, "</style") {
        return Err("style closes its own block");
    }
    match count_open_braces(style) {
        Some(depth) => {
            if depth != 0 {
                return Err("style has unbalanced braces");
            }
        },
        None => {
            return Err("style has unbalanced braces");
        },
    }
    let lines = split_lines(style);
    let ghost all = lines_view(lines@);
    let mut out: Vec<char> = Vec::new();
    let mut i: usize = 0;
    assert(all.subrange(0, 0) =~= Seq::<Seq<char>>::empty());
    while i < lines.len()
        invariant
            i <= lines.len(),
            all == lines_view(lines@),
            out@ == compact_lines(all.subrange(0, i as int)),
        decreases lines.len() - i,
    {
        let piece = trim(&lines[i]);
        let ghost before = out@;
        proof {
            let next = all.subrange(0, i + 1);
            assert(next.drop_last() == all.subrange(0, i as int));
            assert(next.last() == lines[i as int]@);
            trimmed_is_empty_for_blanks(lines[i as int]@);
        }
        if piece.len() > 0 {
            push_all(&mut out, &piece);
            out.push('\n');
            assert(out@ =~= before + trimmed(lines[i as int]@) + seq!['\n']);
        }
        i += 1;
    }
    assert(all.subrange(0, lines.len() as int) == all);
    Ok(out)
}

/// A text is trimmed to nothing exactly if it holds nothing but blanks.
pub proof fn trimmed_is_empty_for_blanks(text: Seq<char>)
    ensures
        trimmed(text).len() == 0 <==> is_blank_text(text),
{
    crate::text::blanks_from_bounds(text, 0);
    if !is_blank_text(text) {
        let first = crate::text::blanks_from(text, 0);
        crate::text::blanks_before_bounds(text, text.len() as int, first);
    }
}

/// Checks a script before it is put into the page.
pub fn check_script(script: &Vec<char>) -> (checked: Result<(), &'static str>)
    ensures
        match checked {
            Ok(_) => script_fault(script@) is None,
            Err(reason) => script_fault(script@) == Some(reason@),
        },
{
    if occurs(script, "</script") {
        Err("script closes its own block")
    } else {
        Ok(())
    }
}

/// The view of an optional string.
pub open spec fn option_view(text: Option<&str>) -> Option<Seq<char>> {
    match text {
        Some(given) => Some(given@),
        None => None,
    }
}

/// Puts the page together from its title, its style, its script and the
/// HTML of its slides.
pub fn assemble(
    title: Option<&str>,
    style: &Vec<char>,
    script: &Vec<char>,
    slides: &Vec<Vec<char>>,
) -> (page: Vec<char>)
    ensures
        page@ == page_html(option_view(title), style@, script@, lines_view(slides@)),
{
    let ghost all = lines_view(slides@);
    let mut page: Vec<char> = Vec::new();
    push_str(&mut page, "<!DOCTYPE html>\n<html>\n<head>\n<meta charset=\"utf-8\">\n");
    match title {
        Some(text) => {
            let chars = chars_of(text);
            push_str(&mut page, "<title>");
            push_escaped(&mut page, &chars);
            push_str(&mut page, "</title>\n");
        },
        None => {},
    }
    push_str(&mut page, "<style>\n");
    push_all(&mut page, style);
    push_str(&mut page, "</style>\n</head>\n<body>\n");
    let ghost head = page@;
    assert(head =~= "<!DOCTYPE html>\n<html>\n<head>\n<meta charset=\"utf-8\">\n"@ + title_html(
        option_view(title),
    ) + "<style>\n"@ + style@ + "</style>\n</head>\n<body>\n"@);
    let mut i: usize = 0;
    assert(all.subrange(0, 0) =~= Seq::<Seq<char>>::empty());
    assert(page@ =~= head + sections_html(all.subrange(0, 0)));
    while i < slides.len()
        invariant
            i <= slides.len(),
            all == lines_view(slides@),
            page@ == head + sections_html(all.subrange(0, i as int)),
        decreases slides.len() - i,
    {
        let ghost before = page@;
        push_str(&mut page, "<section class=\"slide\">\n");
        push_all(&mut page, &slides[i]);
        push_str(&mut page, "</section>\n");
        i += 1;
        proof {
            let next = all.subrange(0, i as int);
            assert(next.drop_last() == all.subrange(0, i - 1));
            assert(next.last() == slides[i - 1]@);
            assert(page@ =~= head + sections_html(next));
        }
    }
    assert(all.subrange(0, slides.len() as int) == all);
    push_str(&mut page, "<script>\n");
    push_all(&mut page, script);
    push_str(&mut page, "</script>\n</body>\n</html>\n");
    assert(page@ =~= page_html(option_view(title), style@, script@, all));
    page
}

} // verus!
