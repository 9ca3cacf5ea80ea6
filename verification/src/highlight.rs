//! Syntax highlighting of code blocks, done by `syntect` with its built-in
//! grammars. The markup marks each token with the classes of its scope; the
//! colours come from the stylesheet of the active theme. `syntect` enters
//! the scopes of a grammar in a table of a fixed size when it first reads
//! the grammar; the theme catalog reads every grammar before it reads a
//! theme file, so that no theme file can take the room that a grammar needs.

use vstd::prelude::*;
use syntect::html::{ClassStyle, ClassedHTMLGenerator};
use syntect::parsing::SyntaxSet;
use syntect::util::LinesWithEndings;

verus! {

/// Whether `syntect` has a grammar for the token `token` among its built-in
/// grammars.
pub uninterp spec fn grammar_known(token: Seq<char>) -> bool;

/// The markup that `syntect` gives for `code` under the grammar that the
/// token `token` selects, or `None` where it has no such grammar or cannot
/// parse the code.
pub uninterp spec fn highlighted_markup(code: Seq<char>, token: Seq<char>) -> Option<Seq<char>>;

/// The markup that `syntect` gives for `code` under its grammar for plain
/// text, or `None` where it cannot parse the code.
pub uninterp spec fn plain_markup(code: Seq<char>) -> Option<Seq<char>>;

/// What the highlighter returned, as the contracts speak of it.
pub open spec fn markup_view(markup: Option<String>) -> Option<Seq<char>> {
    match markup {
        Some(text) => Some(text@),
        None => None,
    }
}

/// Whether `SyntaxSet::find_syntax_by_token` finds a grammar for `token`
/// among the built-in grammars, by extension or by name.
#[verifier::external_body]
pub(crate) fn has_grammar(token: &str) -> (known: bool)
    ensures
        known == grammar_known(token@),
{
    SyntaxSet::load_defaults_newlines().find_syntax_by_token(token).is_some()
}

/// Highlights `code` with `syntect`'s `ClassedHTMLGenerator` under the
/// grammar that `SyntaxSet::find_syntax_by_token` finds for `token`: the
/// lines of `code` are fed to the generator one by one, and `finalize`
/// closes what is open. The contract claims only that the outcome depends
/// on `code` and `token` and on nothing else.
#[verifier::external_body]
pub(crate) fn highlight(code: &str, token: &str) -> (markup: Option<String>)
    ensures
        highlighted_markup(code@, token@) == markup_view(markup),
{
    let set = SyntaxSet::load_defaults_newlines();
    let syntax = set.find_syntax_by_token(token)?;
    let mut generator = ClassedHTMLGenerator::new_with_class_style(syntax, &set, ClassStyle::Spaced);
    for line in LinesWithEndings::from(code) {
        generator.parse_html_for_line_which_includes_newline(line).ok()?;
    }
    Some(generator.finalize())
}

/// Highlights `code` with `syntect`'s `ClassedHTMLGenerator` under the
/// grammar that `SyntaxSet::find_syntax_plain_text` gives: the lines of
/// `code` are fed to the generator one by one, and `finalize` closes what is
/// open. The contract claims only that the outcome depends on `code` and on
/// nothing else.
#[verifier::external_body]
pub(crate) fn highlight_plain(code: &str) -> (markup: Option<String>)
    ensures
        plain_markup(code@) == markup_view(markup),
{
    let set = SyntaxSet::load_defaults_newlines();
    let syntax = set.find_syntax_plain_text();
    let mut generator = ClassedHTMLGenerator::new_with_class_style(syntax, &set, ClassStyle::Spaced);
    for line in LinesWithEndings::from(code) {
        generator.parse_html_for_line_which_includes_newline(line).ok()?;
    }
    Some(generator.finalize())
}

} // verus!
