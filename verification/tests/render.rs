use deck::error::DeckError;
use deck::markdown::{classify, code_block, slide_to_html, LineKind};
use deck::page::{assemble, check_script, minify_style};
use deck::reference::holds_reference;
use deck::render::{Options, Renderer};
use deck::slides::{separator_line, split_slides};
use deck::text::{chars_of, split_lines, string_of};
use deck::theme::{ThemeCatalog, ThemeDefinition, ThemeFile};

fn plain_renderer(title: Option<&str>) -> Renderer {
    Renderer::with_theme(
        title.map(|text| text.to_string()),
        ThemeDefinition { name: "plain".to_string(), rules: ".code { color: #000000; }\n".to_string() },
    )
}

fn default_renderer() -> Renderer {
    let options = Options { title: None, theme: None, theme_dirs: Vec::new() };
    Renderer::try_new(options, &Vec::new()).ok().unwrap()
}

fn count(text: &str, pattern: &str) -> usize {
    text.matches(pattern).count()
}

#[test]
fn build_scenario_gives_two_ordered_slides() {
    let renderer = default_renderer();
    let page = renderer.render("# Title\n\n---\n\nSlide two".to_string(), None, None).ok().unwrap();
    assert!(page.starts_with("<!DOCTYPE html>\n<html>\n<head>\n"));
    assert!(page.ends_with("</script>\n</body>\n</html>\n"));
    assert_eq!(count(&page, "<section class=\"slide\">"), 2);
    assert!(page.contains(
        "<section class=\"slide\">\n<h1>Title</h1>\n</section>\n<section class=\"slide\">\n<p>Slide two</p>\n</section>\n"
    ));
    assert_eq!(count(&page, "<style>"), 1);
    assert_eq!(count(&page, "<script>"), 1);
    assert_eq!(count(&page, "<!DOCTYPE html>"), 1);
}

#[test]
fn build_scenario_page_refers_to_nothing_outside() {
    let renderer = default_renderer();
    let page = renderer.render("# Title\n\n---\n\nSlide two".to_string(), None, None).ok().unwrap();
    assert!(!holds_reference(&page));
    assert!(!page.contains("<link"));
    assert!(!page.contains("src="));
}

#[test]
fn scan_finds_an_address() {
    assert!(holds_reference("<img src=\"https://example.com/a.png\">"));
    assert!(holds_reference("//cdn.example.com/deck.js"));
    assert!(!holds_reference("a / b /c/ d"));
    assert!(!holds_reference("/"));
    assert!(!holds_reference(""));
}

#[test]
fn render_is_the_same_twice() {
    let renderer = default_renderer();
    let markdown = "# One\n\n```rust\nfn main() {}\n```\n\n---\n\n- a\n- b\n";
    let css = Some("h1 {\n  color: red;\n}\n".to_string());
    let js = Some("console.log(1);".to_string());
    let first = renderer.render(markdown.to_string(), css.clone(), js.clone()).ok().unwrap();
    let second = renderer.render(markdown.to_string(), css, js).ok().unwrap();
    assert_eq!(first, second);
}

#[test]
fn slides_come_in_source_order() {
    let renderer = plain_renderer(None);
    let page = renderer
        .render("first\n---\nsecond\n----\nthird\n---   \nfourth".to_string(), None, None)
        .ok()
        .unwrap();
    assert_eq!(count(&page, "<section class=\"slide\">"), 4);
    let first = page.find("<p>first</p>").unwrap();
    let second = page.find("<p>second</p>").unwrap();
    let third = page.find("<p>third</p>").unwrap();
    let fourth = page.find("<p>fourth</p>").unwrap();
    assert!(first < second && second < third && third < fourth);
}

#[test]
fn deck_without_separator_is_one_slide() {
    let renderer = plain_renderer(None);
    let page = renderer.render("only".to_string(), None, None).ok().unwrap();
    assert_eq!(count(&page, "<section class=\"slide\">"), 1);
    let empty = renderer.render(String::new(), None, None).ok().unwrap();
    assert_eq!(count(&empty, "<section class=\"slide\">\n</section>\n"), 1);
}

#[test]
fn separator_inside_code_does_not_split() {
    let lines = split_lines(&chars_of("a\n```\n---\n```\n---\nb"));
    let slides = split_slides(&lines);
    assert_eq!(slides.len(), 2);
    assert_eq!(slides[0].len(), 4);
    assert_eq!(string_of(&slides[0][2]), "---");
    assert_eq!(slides[1].len(), 1);
    assert_eq!(string_of(&slides[1][0]), "b");
}

#[test]
fn separator_is_three_dashes_or_more() {
    assert!(separator_line(&chars_of("---")));
    assert!(separator_line(&chars_of("-----")));
    assert!(separator_line(&chars_of("--- \t\r")));
    assert!(!separator_line(&chars_of("--")));
    assert!(!separator_line(&chars_of("--- a")));
    assert!(!separator_line(&chars_of(" ---")));
    assert!(!separator_line(&chars_of("")));
}

#[test]
fn lines_are_classified() {
    assert_eq!(classify(&chars_of("")), LineKind::Blank);
    assert_eq!(classify(&chars_of(" \t ")), LineKind::Blank);
    assert_eq!(classify(&chars_of("```rust")), LineKind::Fence);
    assert_eq!(classify(&chars_of("# a")), LineKind::Heading);
    assert_eq!(classify(&chars_of("######")), LineKind::Heading);
    assert_eq!(classify(&chars_of("####### a")), LineKind::Text);
    assert_eq!(classify(&chars_of("#a")), LineKind::Text);
    assert_eq!(classify(&chars_of("- a")), LineKind::Item);
    assert_eq!(classify(&chars_of("* a")), LineKind::Item);
    assert_eq!(classify(&chars_of("-a")), LineKind::Text);
    assert_eq!(classify(&chars_of("text")), LineKind::Text);
}

#[test]
fn blocks_become_html() {
    assert_eq!(slide_to_html("# Title"), "<h1>Title</h1>\n");
    assert_eq!(slide_to_html("###   Deep  \n"), "<h3>Deep</h3>\n");
    assert_eq!(slide_to_html("one\n two \n\nthree"), "<p>one\ntwo</p>\n<p>three</p>\n");
    assert_eq!(slide_to_html("- a\n-  b\n* c\ntext"), "<ul>\n<li>a</li>\n<li>b</li>\n<li>c</li>\n</ul>\n<p>text</p>\n");
    assert_eq!(slide_to_html("\n\n"), "");
    assert_eq!(slide_to_html(""), "");
}

#[test]
fn text_is_escaped() {
    assert_eq!(
        slide_to_html("a < b && c > \"d\""),
        "<p>a &lt; b &amp;&amp; c &gt; &quot;d&quot;</p>\n"
    );
    assert_eq!(slide_to_html("# <b>"), "<h1>&lt;b&gt;</h1>\n");
}

#[test]
fn code_is_highlighted() {
    let html = slide_to_html("```rust\nfn main() {}\n```\nafter");
    assert!(html.starts_with("<pre class=\"code\"><span class=\"source rust\">"));
    assert!(html.contains("<span class=\"storage type function rust\">fn</span>"));
    assert!(html.ends_with("</pre>\n<p>after</p>\n"));
    assert!(!html.contains("```"));
}

#[test]
fn code_of_unknown_language_is_kept_as_text() {
    let html = slide_to_html("```no-such-language\na < b\n```");
    assert!(html.starts_with("<pre class=\"code\"><span class=\"text plain\">"));
    assert!(!html.contains("source"));
    assert!(html.contains("a &lt; b"));
    assert!(html.ends_with("</pre>\n"));
}

#[test]
fn unclosed_code_block_runs_to_the_end() {
    let html = slide_to_html("```\n# not a heading\n- not an item");
    assert!(!html.contains("<h1>"));
    assert!(!html.contains("<li>"));
    assert!(html.contains("# not a heading\n- not an item\n"));
}

#[test]
fn code_block_without_markup_is_escaped() {
    let code = chars_of("a < b\n");
    assert_eq!(string_of(&code_block(&code, None)), "<pre class=\"code\">a &lt; b\n</pre>\n");
    assert_eq!(
        string_of(&code_block(&code, Some("<span>x</span>".to_string()))),
        "<pre class=\"code\"><span>x</span></pre>\n"
    );
}

#[test]
fn title_style_and_script_stand_in_the_page() {
    let renderer = plain_renderer(Some("Talk <1>"));
    let page = renderer
        .render(
            "hello".to_string(),
            Some("  h1 { color: red; }  \n\n".to_string()),
            Some("console.log(1);".to_string()),
        )
        .ok()
        .unwrap();
    assert!(page.contains("<title>Talk &lt;1&gt;</title>\n"));
    let theme = page.find(".code { color: #000000; }\n").unwrap();
    let custom = page.find("h1 { color: red; }\n").unwrap();
    assert!(theme < custom);
    assert!(page.contains("h1 { color: red; }\n</style>\n"));
    assert!(page.contains("})();\nconsole.log(1);\n</script>\n"));
    let style = page.find("<style>").unwrap();
    let body = page.find("<body>").unwrap();
    let script = page.find("<script>").unwrap();
    assert!(style < body && body < script);
}

#[test]
fn page_without_title_has_no_title_element() {
    let page = plain_renderer(None).render("hello".to_string(), None, None).ok().unwrap();
    assert!(!page.contains("<title>"));
}

#[test]
fn style_is_minified() {
    let style = chars_of("  a {\n\tcolor: red;  \n\n   \n}\n");
    assert_eq!(string_of(&minify_style(&style).ok().unwrap()), "a {\ncolor: red;\n}\n");
    assert_eq!(string_of(&minify_style(&chars_of("")).ok().unwrap()), "");
}

#[test]
fn unbalanced_style_fails_minification() {
    assert_eq!(minify_style(&chars_of("a { color: red;")).err(), Some("style has unbalanced braces"));
    assert_eq!(minify_style(&chars_of("a } b {")).err(), Some("style has unbalanced braces"));
    assert_eq!(
        minify_style(&chars_of("a {} </style><b>")).err(),
        Some("style closes its own block")
    );
    let renderer = plain_renderer(None);
    match renderer.render("x".to_string(), Some("h1 {".to_string()), None) {
        Err(DeckError::Minification(reason)) => assert_eq!(reason, "style has unbalanced braces"),
        _ => panic!("the render should have failed"),
    }
}

#[test]
fn script_that_closes_its_block_fails_minification() {
    assert_eq!(check_script(&chars_of("var a = 1;")).err(), None);
    assert_eq!(
        check_script(&chars_of("var a = \"</script>\";")).err(),
        Some("script closes its own block")
    );
    let renderer = plain_renderer(None);
    match renderer.render("x".to_string(), None, Some("</script>".to_string())) {
        Err(DeckError::Minification(reason)) => assert_eq!(reason, "script closes its own block"),
        _ => panic!("the render should have failed"),
    }
}

#[test]
fn page_is_assembled_from_its_parts() {
    let slides = vec![chars_of("<p>a</p>\n"), chars_of("<p>b</p>\n")];
    let page = assemble(Some("T"), &chars_of("s {}\n"), &chars_of("j();\n"), &slides);
    assert_eq!(
        string_of(&page),
        "<!DOCTYPE html>\n<html>\n<head>\n<meta charset=\"utf-8\">\n<title>T</title>\n<style>\ns {}\n</style>\n</head>\n<body>\n<section class=\"slide\">\n<p>a</p>\n</section>\n<section class=\"slide\">\n<p>b</p>\n</section>\n<script>\nj();\n</script>\n</body>\n</html>\n"
    );
}

#[test]
fn renderer_uses_the_named_theme() {
    let options = Options { title: None, theme: Some("Solarized (dark)".to_string()), theme_dirs: Vec::new() };
    let solarized = Renderer::try_new(options, &Vec::new()).ok().unwrap();
    let page = solarized.render("x".to_string(), None, None).ok().unwrap();
    assert!(page.contains("theme \"Solarized (dark)\" generated by syntect"));
    let page = default_renderer().render("x".to_string(), None, None).ok().unwrap();
    assert!(!page.contains("theme \"Solarized (dark)\" generated by syntect"));
    assert!(page.contains("generated by syntect"));
}

#[test]
fn renderer_fails_for_an_unknown_theme() {
    let options = Options { title: None, theme: Some("does-not-exist".to_string()), theme_dirs: Vec::new() };
    assert!(matches!(Renderer::try_new(options, &Vec::new()), Err(DeckError::ThemeNotFound)));
    let catalog = ThemeCatalog::builtin();
    let options = Options { title: None, theme: Some("does-not-exist".to_string()), theme_dirs: Vec::new() };
    assert!(matches!(Renderer::from_catalog(options, &catalog), Err(DeckError::ThemeNotFound)));
}

const TINY_THEME: &str = "<?xml version=\"1.0\" encoding=\"UTF-8\"?>\n<plist version=\"1.0\"><dict><key>name</key><string>Tiny</string><key>settings</key><array><dict><key>settings</key><dict><key>background</key><string>#010203</string><key>foreground</key><string>#0a0b0c</string></dict></dict><dict><key>name</key><string>Comment</string><key>scope</key><string>comment</string><key>settings</key><dict><key>foreground</key><string>#112233</string></dict></dict></array></dict></plist>\n";

#[test]
fn theme_from_a_directory_is_loaded_and_used() {
    let files = vec![ThemeFile { path: "themes/tiny.tmTheme".to_string(), contents: TINY_THEME.as_bytes().to_vec() }];
    let options = Options { title: None, theme: Some("tiny".to_string()), theme_dirs: vec!["themes".to_string()] };
    let renderer = Renderer::try_new(options, &files).ok().unwrap();
    let page = renderer.render("x".to_string(), None, None).ok().unwrap();
    assert!(page.contains(".code {\ncolor: #0a0b0c;\nbackground-color: #010203;\n}\n"));
    assert!(page.contains(".comment {\ncolor: #112233;\n}\n"));
}

#[test]
fn theme_from_a_directory_overrides_a_built_in_theme() {
    let files = vec![ThemeFile {
        path: "themes/InspiredGitHub.tmTheme".to_string(),
        contents: TINY_THEME.as_bytes().to_vec(),
    }];
    let catalog = ThemeCatalog::load(&vec!["themes".to_string()], &files).ok().unwrap();
    let theme = catalog.resolve(None).ok().unwrap();
    assert!(theme.rules.contains("theme \"Tiny\" generated by syntect"));
    let builtin = ThemeCatalog::builtin().resolve(None).ok().unwrap();
    assert!(!builtin.rules.contains("theme \"Tiny\" generated by syntect"));
    assert!(builtin.rules.contains("generated by syntect"));
    assert_eq!(builtin.name, theme.name);
}

#[test]
fn renderer_fails_for_a_malformed_theme_file() {
    let files = vec![
        ThemeFile { path: "themes/tiny.tmTheme".to_string(), contents: TINY_THEME.as_bytes().to_vec() },
        ThemeFile { path: "themes/bad.tmTheme".to_string(), contents: b"<plist>".to_vec() },
    ];
    let options = Options { title: None, theme: None, theme_dirs: vec!["themes".to_string()] };
    match Renderer::try_new(options, &files) {
        Err(DeckError::Syntect(cause)) => assert_eq!(cause.path, "themes/bad.tmTheme"),
        _ => panic!("the renderer should not have been made"),
    }
}

#[test]
fn marks_inside_text_become_html() {
    assert_eq!(slide_to_html("use `a < b` here"), "<p>use <code>a &lt; b</code> here</p>\n");
    assert_eq!(slide_to_html("**very** *much*"), "<p><strong>very</strong> <em>much</em></p>\n");
    assert_eq!(
        slide_to_html("see [the \"site\"](page.html?a=1&b=2)."),
        "<p>see <a href=\"page.html?a=1&amp;b=2\">the &quot;site&quot;</a>.</p>\n"
    );
    assert_eq!(slide_to_html("# A `b` *c*"), "<h1>A <code>b</code> <em>c</em></h1>\n");
    assert_eq!(slide_to_html("- **x**"), "<ul>\n<li><strong>x</strong></li>\n</ul>\n");
    assert_eq!(slide_to_html("`*not emphasis*`"), "<p><code>*not emphasis*</code></p>\n");
}

#[test]
fn marks_that_nothing_closes_are_text() {
    assert_eq!(slide_to_html("a ` b"), "<p>a ` b</p>\n");
    assert_eq!(slide_to_html("2 * 3"), "<p>2 * 3</p>\n");
    assert_eq!(slide_to_html("**open"), "<p>**open</p>\n");
    assert_eq!(slide_to_html("a ** b"), "<p>a ** b</p>\n");
    assert_eq!(slide_to_html("[text] (gap)"), "<p>[text] (gap)</p>\n");
    assert_eq!(slide_to_html("[text](open"), "<p>[text](open</p>\n");
    assert_eq!(slide_to_html("[text"), "<p>[text</p>\n");
    assert_eq!(slide_to_html("*a* * b *"), "<p><em>a</em> <em> b </em></p>\n");
}

#[test]
fn span_may_run_over_the_lines_of_a_paragraph() {
    assert_eq!(slide_to_html("a *b\nc* d"), "<p>a <em>b\nc</em> d</p>\n");
}

#[test]
fn code_without_a_language_is_plain_text() {
    let html = slide_to_html("```\nfn main() {}\n```");
    assert_eq!(html, "<pre class=\"code\"><span class=\"text plain\">fn main() {}\n</span></pre>\n");
}

#[test]
fn language_is_found_by_name_or_by_extension() {
    let by_extension = slide_to_html("```rs\nfn main() {}\n```");
    let by_name = slide_to_html("```Rust\nfn main() {}\n```");
    assert!(by_extension.contains("<span class=\"source rust\">"));
    assert_eq!(by_extension, by_name);
}

#[test]
fn renderer_reads_only_the_theme_directories_of_its_options() {
    let files = vec![ThemeFile { path: "themes/tiny.tmTheme".to_string(), contents: TINY_THEME.as_bytes().to_vec() }];
    let options = Options { title: None, theme: Some("tiny".to_string()), theme_dirs: vec!["other".to_string()] };
    assert!(matches!(Renderer::try_new(options, &files), Err(DeckError::ThemeNotFound)));
    let options = Options { title: None, theme: Some("tiny".to_string()), theme_dirs: vec!["themes/".to_string()] };
    assert!(Renderer::try_new(options, &files).is_ok());
}
