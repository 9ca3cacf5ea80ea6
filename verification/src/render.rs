//! The renderer: from a markdown document, an optional style and an optional
//! script to one page. The theme is chosen once, when the renderer is made;
//! rendering reads nothing but its arguments and the renderer.

use vstd::prelude::*;
use crate::error::DeckError;
use crate::markdown::{push_slide, slide_html};
use crate::page::{
    assemble, check_script, compact_lines, minify_style, page_html, script_fault, script_text,
    style_fault, style_text, text_or_empty, LAYOUT_RULES, NAVIGATION,
};
use crate::reference::{
    code_stays_clean, has_reference, lines_have_no_reference, page_adds_no_reference,
    script_has_no_reference, slide_is_sealed, slide_lines_are_deck_lines,
    slide_without_code_stays_clean, style_has_no_reference,
};
use crate::slides::{is_fence, separator_count, slides_keep_count_and_order, slides_of, slides_view, split_slides};
use crate::text::{chars_of, lines_of, lines_view, occurs_at, push_str, split_lines, string_of};
use crate::theme::{
    admissible, builtin_names, builtin_rules, default_theme_name, failed_at, files_of, has_name,
    paths_view, ThemeCatalog, ThemeDefinition, ThemeFile,
};

verus! {

/// What a renderer is made from.
pub struct Options {
    /// The title of the page.
    pub title: Option<String>,
    /// The name of the theme that highlights code; the default theme where
    /// there is none.
    pub theme: Option<String>,
    /// The directories that are searched for more themes, in order.
    pub theme_dirs: Vec<String>,
}

/// A renderer: the title of its pages and the theme it highlights with.
pub struct Renderer {
    title: Option<String>,
    theme: ThemeDefinition,
}

/// The view of an optional owned string.
pub open spec fn owned_view(text: Option<String>) -> Option<Seq<char>> {
    match text {
        Some(given) => Some(given@),
        None => None,
    }
}

/// The name of the theme to render with: the given one, or the default
/// theme's where none is given.
pub open spec fn wanted_theme(name: Option<Seq<char>>) -> Seq<char> {
    match name {
        Some(given) => given,
        None => default_theme_name(),
    }
}

/// The theme files that a renderer for `options` loads: those of `files`
/// that lie in the theme directories of the options, directory by directory.
pub open spec fn theme_files_of(options: Options, files: Seq<ThemeFile>) -> Seq<ThemeFile> {
    files_of(paths_view(options.theme_dirs@), files)
}

/// Whether the theme that the options want is known: its name is a built-in
/// theme's, or one of the theme files that the renderer loads gives it.
pub open spec fn is_known(options: Options, files: Seq<ThemeFile>) -> bool {
    builtin_names().contains(wanted_theme(owned_view(options.theme))) || has_name(
        theme_files_of(options, files),
        wanted_theme(owned_view(options.theme)),
    )
}

/// The HTML of each slide, in the order of the slides.
pub open spec fn slides_html(slides: Seq<Seq<Seq<char>>>) -> Seq<Seq<char>> {
    Seq::new(slides.len(), |i: int| slide_html(slides[i]))
}

/// The outcome of rendering: the page, or the reason why the deck cannot be
/// minified.
pub open spec fn rendered(
    title: Option<Seq<char>>,
    rules: Seq<char>,
    markdown: Seq<char>,
    css: Option<Seq<char>>,
    js: Option<Seq<char>>,
) -> Result<Seq<char>, Seq<char>> {
    let style = style_text(rules, css);
    let script = script_text(js);
    match style_fault(style) {
        Some(reason) => Err(reason),
        None => match script_fault(script) {
            Some(reason) => Err(reason),
            None => Ok(
                page_html(
                    title,
                    compact_lines(lines_of(style)),
                    script,
                    slides_html(slides_of(lines_of(markdown))),
                ),
            ),
        },
    }
}

/// The reason of a failure of minification.
pub open spec fn failure_reason(failure: DeckError) -> Option<Seq<char>> {
    match failure {
        DeckError::Minification(reason) => Some(reason@),
        _ => None,
    }
}

/// Whether `result` is the outcome `outcome`: the same page, or a failure
/// of minification for the same reason.
pub open spec fn is_outcome(
    result: Result<String, DeckError>,
    outcome: Result<Seq<char>, Seq<char>>,
) -> bool {
    match result {
        Ok(page) => outcome == Ok::<Seq<char>, Seq<char>>(page@),
        Err(DeckError::Minification(reason)) => outcome == Err::<Seq<char>, Seq<char>>(reason@),
        Err(_) => false,
    }
}

/// Rendering is deterministic: two results of rendering the same document
/// with the same renderer are the same page, character for character, or
/// the same failure.
pub proof fn render_is_deterministic(
    renderer: Renderer,
    markdown: Seq<char>,
    css: Option<Seq<char>>,
    js: Option<Seq<char>>,
    first: Result<String, DeckError>,
    second: Result<String, DeckError>,
)
    requires
        is_outcome(first, renderer.outcome(markdown, css, js)),
        is_outcome(second, renderer.outcome(markdown, css, js)),
    ensures
        first matches Ok(page) ==> second is Ok && second->Ok_0@ == page@,
        first is Err ==> second is Err && failure_reason(first->Err_0) is Some && failure_reason(
            first->Err_0,
        ) == failure_reason(second->Err_0),
{
}

/// A page has one section for each slide, in the order of the slides: with
/// `n` separating lines in the markdown, `n + 1` sections.
pub proof fn page_keeps_slides(markdown: Seq<char>)
    ensures
        slides_html(slides_of(lines_of(markdown))).len() == separator_count(lines_of(markdown))
            + 1,
        forall|i: int|
            0 <= i < slides_of(lines_of(markdown)).len() ==> #[trigger] slides_html(
                slides_of(lines_of(markdown)),
            )[i] == slide_html(slides_of(lines_of(markdown))[i]),
{
    slides_keep_count_and_order(lines_of(markdown));
}

/// A rendered page is self-contained: it holds no reference to the outside
/// unless the title, the theme's rules, the author's style or script, or the
/// HTML of a slide brought one in. What the renderer itself adds (its
/// markup, the layout rules, the navigation) holds none.
pub proof fn rendered_page_is_self_contained(
    title: Option<Seq<char>>,
    rules: Seq<char>,
    markdown: Seq<char>,
    css: Option<Seq<char>>,
    js: Option<Seq<char>>,
)
    requires
        !has_reference(text_or_empty(title)),
        !has_reference(rules),
        !has_reference(text_or_empty(css)),
        !has_reference(text_or_empty(js)),
        forall|i: int|
            0 <= i < slides_of(lines_of(markdown)).len() ==> !has_reference(
                slide_html(#[trigger] slides_of(lines_of(markdown))[i]),
            ),
    ensures
        rendered(title, rules, markdown, css, js) matches Ok(page) ==> !has_reference(page),
{
    style_has_no_reference(rules, css);
    script_has_no_reference(js);
    page_adds_no_reference(
        title,
        compact_lines(lines_of(style_text(rules, css))),
        script_text(js),
        slides_html(slides_of(lines_of(markdown))),
    );
}

/// A rendered page is self-contained: it holds a reference to the outside
/// only where the title, the theme's rules, the markdown, the author's style
/// or the author's script holds one, or where the highlighter brought one
/// into the code of a slide.
pub proof fn rendered_deck_is_self_contained(
    title: Option<Seq<char>>,
    rules: Seq<char>,
    markdown: Seq<char>,
    css: Option<Seq<char>>,
    js: Option<Seq<char>>,
)
    requires
        !has_reference(text_or_empty(title)),
        !has_reference(rules),
        !has_reference(markdown),
        !has_reference(text_or_empty(css)),
        !has_reference(text_or_empty(js)),
        forall|i: int|
            0 <= i < slides_of(lines_of(markdown)).len() ==> code_stays_clean(
                #[trigger] slides_of(lines_of(markdown))[i],
            ),
    ensures
        rendered(title, rules, markdown, css, js) matches Ok(page) ==> !has_reference(page),
{
    let lines = lines_of(markdown);
    let slides = slides_of(lines);
    lines_have_no_reference(markdown);
    assert forall|i: int| 0 <= i < slides.len() implies !has_reference(
        slide_html(#[trigger] slides[i]),
    ) by {
        let slide = slides[i];
        assert forall|j: int| 0 <= j < slide.len() implies !has_reference(#[trigger] slide[j]) by {
            slide_lines_are_deck_lines(lines, i, j);
        }
        slide_is_sealed(slide, 0);
    }
    rendered_page_is_self_contained(title, rules, markdown, css, js);
}

/// A deck without code is self-contained: where neither the title, the
/// theme's rules, the markdown, the author's style nor the author's script
/// holds a reference to the outside, the page holds none.
pub proof fn deck_without_code_is_self_contained(
    title: Option<Seq<char>>,
    rules: Seq<char>,
    markdown: Seq<char>,
    css: Option<Seq<char>>,
    js: Option<Seq<char>>,
)
    requires
        !has_reference(text_or_empty(title)),
        !has_reference(rules),
        !has_reference(markdown),
        !has_reference(text_or_empty(css)),
        !has_reference(text_or_empty(js)),
        forall|i: int|
            0 <= i < lines_of(markdown).len() ==> !is_fence(#[trigger] lines_of(markdown)[i]),
    ensures
        rendered(title, rules, markdown, css, js) matches Ok(page) ==> !has_reference(page),
{
    let lines = lines_of(markdown);
    let slides = slides_of(lines);
    assert forall|i: int| 0 <= i < slides.len() implies code_stays_clean(#[trigger] slides[i]) by {
        let slide = slides[i];
        assert forall|j: int| 0 <= j < slide.len() implies !is_fence(#[trigger] slide[j]) by {
            slide_lines_are_deck_lines(lines, i, j);
        }
        slide_without_code_stays_clean(slide);
    }
    rendered_deck_is_self_contained(title, rules, markdown, css, js);
}

/// The navigation closes no script block: the script of a deck that has no
/// script of the author's has no fault.
pub proof fn navigation_has_no_fault()
    ensures
        script_fault(script_text(None)) is None,
{
    reveal_strlit(
        "(function () {\nvar slides = document.querySelectorAll(\"section.slide\");\nvar at = 0;\nfunction show(n) {\nif (slides.length === 0) { return; }\nat = Math.max(0, Math.min(slides.length - 1, n));\nfor (var i = 0; i < slides.length; i++) { slides[i].className = i === at ? \"slide current\" : \"slide\"; }\nlocation.hash = String(at + 1);\n}\ndocument.addEventListener(\"keydown\", function (e) {\nif (e.key === \"ArrowRight\" || e.key === \"PageDown\" || e.key === \" \") { show(at + 1); }\nelse if (e.key === \"ArrowLeft\" || e.key === \"PageUp\") { show(at - 1); }\nelse if (e.key === \"Home\") { show(0); }\nelse if (e.key === \"End\") { show(slides.length - 1); }\n});\nshow((parseInt(location.hash.slice(1), 10) || 1) - 1);\n})();\n",
    );
    reveal_strlit("</script");
    let text = script_text(None);
    let mark = "</script"@;
    assert(text =~= NAVIGATION@ + seq!['\n']);
    assert(forall|i: int|
        0 <= i < NAVIGATION@.len() - 1 ==> !(#[trigger] NAVIGATION@[i] == '<' && NAVIGATION@[i + 1]
            == '/'));
    assert forall|at: int| !occurs_at(text, mark, at) by {
        if occurs_at(text, mark, at) {
            let part = text.subrange(at, at + mark.len());
            assert(part[0] == '<' && part[1] == '/');
            assert(text[at] == NAVIGATION@[at] && text[at + 1] == NAVIGATION@[at + 1]);
        }
    }
}

/// A deck without a style and a script of the author's renders to a page
/// exactly where the rules of the theme have no fault: nothing else can
/// fail.
pub proof fn deck_alone_renders(title: Option<Seq<char>>, rules: Seq<char>, markdown: Seq<char>)
    ensures
        rendered(title, rules, markdown, None, None) is Ok <==> style_fault(
            style_text(rules, None),
        ) is None,
{
    navigation_has_no_fault();
}

impl Renderer {
    /// The title of the pages.
    pub closed spec fn title(&self) -> Option<Seq<char>> {
        owned_view(self.title)
    }

    /// The name of the theme.
    pub closed spec fn theme_name(&self) -> Seq<char> {
        self.theme.name@
    }

    /// The rules of the theme.
    pub closed spec fn rules(&self) -> Seq<char> {
        self.theme.rules@
    }

    /// What rendering a document with this renderer gives.
    pub open spec fn outcome(
        &self,
        markdown: Seq<char>,
        css: Option<Seq<char>>,
        js: Option<Seq<char>>,
    ) -> Result<Seq<char>, Seq<char>> {
        rendered(self.title(), self.rules(), markdown, css, js)
    }

    /// A renderer with this title and this theme.
    pub fn with_theme(title: Option<String>, theme: ThemeDefinition) -> (renderer: Renderer)
        ensures
            renderer.title() == owned_view(title),
            renderer.theme_name() == theme.name@,
            renderer.rules() == theme.rules@,
    {
        Renderer { title, theme }
    }

    /// A renderer for these options, with the theme taken from `catalog`:
    /// the one that the options name, or the default theme. It fails only
    /// where the catalog does not have the named theme.
    pub fn from_catalog(options: Options, catalog: &ThemeCatalog) -> (made: Result<
        Renderer,
        DeckError,
    >)
        requires
            catalog.wf(),
        ensures
            match options.theme {
                None => made is Ok && made->Ok_0.theme_name() == default_theme_name()
                    && made->Ok_0.rules() == catalog@[default_theme_name()],
                Some(wanted) => if catalog@.dom().contains(wanted@) {
                    made is Ok && made->Ok_0.theme_name() == wanted@ && made->Ok_0.rules()
                        == catalog@[wanted@]
                } else {
                    made matches Err(DeckError::ThemeNotFound)
                },
            },
            made matches Ok(renderer) ==> renderer.title() == owned_view(options.title),
    {
        let resolved = match &options.theme {
            Some(wanted) => catalog.resolve(Some(wanted.as_str())),
            None => catalog.resolve(None),
        };
        match resolved {
            Ok(theme) => Ok(Renderer::with_theme(options.title, theme)),
            Err(failure) => Err(failure),
        }
    }

    /// A renderer for these options. The catalog is made of the built-in
    /// themes and of those of `theme_files` that lie in the theme
    /// directories of the options, a later directory overriding an earlier
    /// one; then the theme is chosen: the one that the options name, or the
    /// default theme. A file that cannot be loaded fails it, and so does a
    /// theme name that is neither a built-in theme's nor a theme file's.
    pub fn try_new(options: Options, theme_files: &Vec<ThemeFile>) -> (made: Result<
        Renderer,
        DeckError,
    >)
        ensures
            match made {
                Ok(renderer) => {
                    &&& renderer.title() == owned_view(options.title)
                    &&& renderer.theme_name() == wanted_theme(owned_view(options.theme))
                    &&& is_known(options, theme_files@)
                    &&& !has_name(theme_files_of(options, theme_files@), renderer.theme_name())
                        ==> renderer.rules() == builtin_rules()[renderer.theme_name()]
                },
                Err(DeckError::ThemeNotFound) => !is_known(options, theme_files@)
                    && options.theme is Some,
                Err(DeckError::Syntect(cause)) => failed_at(
                    theme_files_of(options, theme_files@),
                    cause.path@,
                ),
                Err(_) => false,
            },
            theme_files_of(options, theme_files@).len() == 0 ==> (made is Ok <==> is_known(
                options,
                theme_files@,
            )),
            !admissible(theme_files_of(options, theme_files@)) ==> made matches Err(
                DeckError::Syntect(_),
            ),
    {
        match ThemeCatalog::load(&options.theme_dirs, theme_files) {
            Ok(catalog) => {
                assert(builtin_names()[0] == default_theme_name());
                Renderer::from_catalog(options, &catalog)
            },
            Err(failure) => Err(failure),
        }
    }

    /// Renders a document: the markdown is cut into slides, each slide is
    /// turned into HTML, and the page is put together with the style (the
    /// theme's rules, then `css`) and the script (the navigation, then `js`).
    /// The style is minified; a style or a script that has a fault fails the
    /// rendering, and no page is given.
    pub fn render(&self, markdown: String, css: Option<String>, js: Option<String>) -> (result:
        Result<String, DeckError>)
        ensures
            is_outcome(result, self.outcome(markdown@, owned_view(css), owned_view(js))),
    {
        let mut style: Vec<char> = Vec::new();
        push_str(&mut style, LAYOUT_RULES);
        push_str(&mut style, self.theme.rules.as_str());
        style.push('\n');
        match &css {
            Some(given) => {
                push_str(&mut style, given.as_str());
            },
            None => {},
        }
        style.push('\n');
        assert(style@ =~= style_text(self.rules(), owned_view(css)));
        let mut script: Vec<char> = Vec::new();
        push_str(&mut script, NAVIGATION);
        match &js {
            Some(given) => {
                push_str(&mut script, given.as_str());
            },
            None => {},
        }
        script.push('\n');
        assert(script@ =~= script_text(owned_view(js)));
        let minified = match minify_style(&style) {
            Ok(text) => text,
            Err(reason) => {
                return Err(DeckError::Minification(reason));
            },
        };
        match check_script(&script) {
            Ok(_) => {},
            Err(reason) => {
                return Err(DeckError::Minification(reason));
            },
        }
        let text = chars_of(markdown.as_str());
        let lines = split_lines(&text);
        let slides = split_slides(&lines);
        let ghost wanted = slides_html(slides_view(slides@));
        let mut bodies: Vec<Vec<char>> = Vec::new();
        let mut i: usize = 0;
        while i < slides.len()
            invariant
                i <= slides.len(),
                bodies.len() == i,
                wanted == slides_html(slides_view(slides@)),
                forall|k: int| 0 <= k < i ==> (#[trigger] bodies@[k])@ == wanted[k],
            decreases slides.len() - i,
        {
            let mut body: Vec<char> = Vec::new();
            push_slide(&mut body, &slides[i]);
            assert(body@ =~= slide_html(slides_view(slides@)[i as int]));
            bodies.push(body);
            i += 1;
        }
        assert(lines_view(bodies@) =~= wanted);
        let title = match &self.title {
            Some(given) => Some(given.as_str()),
            None => None,
        };
        let page = assemble(title, &minified, &script, &bodies);
        Ok(string_of(&page))
    }
}

} // verus!
