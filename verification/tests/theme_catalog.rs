use deck::error::DeckError;
use deck::markdown::slide_to_html;
use deck::nesting::readable;
use deck::theme::{in_dir, resolved_from, theme_name_of, ThemeCatalog, ThemeFile};

const FIRST_THEME: &str = "<?xml version=\"1.0\" encoding=\"UTF-8\"?>\n<plist version=\"1.0\"><dict><key>name</key><string>First</string><key>settings</key><array><dict><key>settings</key><dict><key>foreground</key><string>#010101</string></dict></dict></array></dict></plist>\n";
const SECOND_THEME: &str = "<?xml version=\"1.0\" encoding=\"UTF-8\"?>\n<plist version=\"1.0\"><dict><key>name</key><string>Second</string><key>settings</key><array><dict><key>settings</key><dict><key>foreground</key><string>#020202</string></dict></dict></array></dict></plist>\n";

fn theme_file(path: &str, contents: &str) -> ThemeFile {
    ThemeFile { path: path.to_string(), contents: contents.as_bytes().to_vec() }
}

fn dirs(names: &[&str]) -> Vec<String> {
    names.iter().map(|name| name.to_string()).collect()
}

fn nested(depth: usize) -> Vec<u8> {
    let mut text = String::from("<?xml version=\"1.0\"?>\n");
    for _ in 0..depth {
        text.push_str("<array>");
    }
    for _ in 0..depth {
        text.push_str("</array>");
    }
    text.into_bytes()
}

#[test]
fn default_theme_is_always_resolved() {
    let catalog = ThemeCatalog::builtin();
    let theme = catalog.resolve(None).ok().unwrap();
    assert_eq!(theme.name, "InspiredGitHub");
    assert!(theme.rules.contains(".code"));
}

#[test]
fn unknown_theme_is_not_found() {
    let catalog = ThemeCatalog::builtin();
    assert!(matches!(catalog.resolve(Some("does-not-exist")), Err(DeckError::ThemeNotFound)));
    assert!(matches!(catalog.resolve(Some("Monokai")), Err(DeckError::ThemeNotFound)));
}

#[test]
fn theme_names_are_case_sensitive() {
    let catalog = ThemeCatalog::builtin();
    assert!(catalog.contains("InspiredGitHub"));
    assert!(!catalog.contains("inspiredgithub"));
    assert!(matches!(catalog.resolve(Some("inspiredgithub")), Err(DeckError::ThemeNotFound)));
}

#[test]
fn built_in_themes_are_the_documented_ones() {
    let mut names = ThemeCatalog::builtin().names();
    names.sort();
    assert_eq!(
        names,
        vec![
            "InspiredGitHub",
            "Solarized (dark)",
            "Solarized (light)",
            "base16-eighties.dark",
            "base16-mocha.dark",
            "base16-ocean.dark",
            "base16-ocean.light",
        ]
    );
}

#[test]
fn built_in_themes_have_different_stylesheets() {
    let catalog = ThemeCatalog::builtin();
    let dark = catalog.resolve(Some("Solarized (dark)")).ok().unwrap();
    let light = catalog.resolve(Some("Solarized (light)")).ok().unwrap();
    assert!(dark.rules.contains(".code {"));
    assert!(light.rules.contains(".code {"));
    assert_ne!(dark.rules, light.rules);
}

#[test]
fn theme_is_resolved_from_what_the_catalog_found() {
    let theme = resolved_from("night", Some(".code {}".to_string())).ok().unwrap();
    assert_eq!(theme.name, "night");
    assert_eq!(theme.rules, ".code {}");
    assert!(matches!(resolved_from("night", None), Err(DeckError::ThemeNotFound)));
}

#[test]
fn theme_name_is_the_file_stem() {
    assert_eq!(theme_name_of("themes/Night Owl.tmTheme"), Some("Night Owl".to_string()));
    assert_eq!(theme_name_of("a.b/base16-ocean.dark.tmTheme"), Some("base16-ocean.dark".to_string()));
    assert_eq!(theme_name_of("plain"), Some("plain".to_string()));
    assert_eq!(theme_name_of(".hidden"), Some(".hidden".to_string()));
    assert_eq!(theme_name_of("themes/"), None);
    assert_eq!(theme_name_of(""), None);
}

#[test]
fn malformed_theme_file_fails_the_load_and_names_the_path() {
    let files = vec![theme_file("themes/broken.tmTheme", "not a plist")];
    match ThemeCatalog::load(&dirs(&["themes"]), &files) {
        Err(DeckError::Syntect(cause)) => assert_eq!(cause.path, "themes/broken.tmTheme"),
        _ => panic!("the load should have failed"),
    }
    let files = vec![theme_file("themes/empty.tmTheme", "<?xml version=\"1.0\"?>\n<plist version=\"1.0\"><dict></dict></plist>")];
    match ThemeCatalog::load(&dirs(&["themes"]), &files) {
        Err(DeckError::Syntect(cause)) => assert_eq!(cause.path, "themes/empty.tmTheme"),
        _ => panic!("the load should have failed"),
    }
}

#[test]
fn load_without_files_gives_the_built_in_themes() {
    let catalog = ThemeCatalog::load(&Vec::new(), &Vec::new()).ok().unwrap();
    assert!(catalog.contains("base16-ocean.dark"));
    assert!(catalog.contains("Solarized (light)"));
    assert_eq!(catalog.names().len(), 7);
}

#[test]
fn theme_file_without_a_name_fails_the_load() {
    let files = vec![ThemeFile { path: "/themes/".to_string(), contents: Vec::new() }];
    match ThemeCatalog::load(&dirs(&[""]), &files) {
        Err(failure) => assert_eq!(failure.message(), "/themes/: Invalid path"),
        Ok(_) => panic!("the load should have failed"),
    }
}

#[test]
fn later_directory_overrides_earlier_one() {
    let files = vec![theme_file("b/night.tmTheme", SECOND_THEME), theme_file("a/night.tmTheme", FIRST_THEME)];
    let a_then_b = ThemeCatalog::load(&dirs(&["a", "b"]), &files).ok().unwrap();
    assert!(a_then_b.resolve(Some("night")).ok().unwrap().rules.contains("color: #020202;"));
    let b_then_a = ThemeCatalog::load(&dirs(&["b", "a"]), &files).ok().unwrap();
    assert!(b_then_a.resolve(Some("night")).ok().unwrap().rules.contains("color: #010101;"));
    assert_eq!(b_then_a.names().len(), 8);
}

#[test]
fn theme_file_overrides_a_built_in_theme() {
    let files = vec![theme_file("a/InspiredGitHub.tmTheme", FIRST_THEME)];
    let catalog = ThemeCatalog::load(&dirs(&["a"]), &files).ok().unwrap();
    assert!(catalog.resolve(None).ok().unwrap().rules.contains("theme \"First\" generated by syntect"));
    assert_eq!(catalog.names().len(), 7);
}

#[test]
fn file_outside_the_theme_directories_is_not_loaded() {
    let files = vec![theme_file("a/night.tmTheme", FIRST_THEME), theme_file("c/broken.tmTheme", "no theme")];
    let catalog = ThemeCatalog::load(&dirs(&["a"]), &files).ok().unwrap();
    assert!(catalog.contains("night"));
    assert!(!catalog.contains("broken"));
    let none = ThemeCatalog::load(&Vec::new(), &files).ok().unwrap();
    assert!(!none.contains("night"));
}

#[test]
fn files_lie_in_their_directories() {
    assert!(in_dir("themes/a.tmTheme", "themes"));
    assert!(in_dir("themes/a.tmTheme", "themes/"));
    assert!(in_dir("themes/deep/a.tmTheme", "themes"));
    assert!(in_dir("/a.tmTheme", ""));
    assert!(!in_dir("themes2/a.tmTheme", "themes"));
    assert!(!in_dir("themes", "themes"));
    assert!(!in_dir("themes/", "themes"));
    assert!(!in_dir("a.tmTheme", "themes"));
    assert!(!in_dir("a.tmTheme", ""));
}

#[test]
fn plain_property_lists_are_readable() {
    assert!(readable(&FIRST_THEME.as_bytes().to_vec()));
    assert!(readable(&b"<?xml version=\"1.0\" encoding=\"UTF-8\"?>\n<!DOCTYPE plist PUBLIC \"-//Apple//DTD PLIST 1.0//EN\" \"http://www.apple.com/DTDs/PropertyList-1.0.dtd\">\n<!-- Ben's theme, for \"all\" -->\n<plist version=\"1.0\"><dict/><array><true/></array></plist>".to_vec()));
    assert!(readable(&b"<?xml version='1.0'?><plist><dict><key>a > b</key></dict>".to_vec()));
    assert!(readable(&b"<?xml version=\"1.0\"?><plist><dict".to_vec()));
}

#[test]
fn nesting_is_limited() {
    assert!(readable(&nested(64)));
    assert!(!readable(&nested(65)));
    assert!(!readable(&nested(100_000)));
    let mut wide = String::from("<?xml version=\"1.0\"?><plist><array>");
    for _ in 0..10_000 {
        wide.push_str("<dict><key>a</key><string>b</string></dict><dict/>");
    }
    wide.push_str("</array></plist>");
    assert!(readable(&wide.into_bytes()));
}

#[test]
fn other_forms_of_property_lists_are_not_readable() {
    assert!(!readable(&Vec::new()));
    assert!(!readable(&b"bplist00\x00\x00".to_vec()));
    assert!(!readable(&b"((((((((".to_vec()));
    assert!(!readable(&b"{ a = (b, c); }".to_vec()));
    assert!(!readable(&b"<plist><dict/></plist>".to_vec()));
    assert!(!readable(&b"\xEF\xBB\xBF<?xml version=\"1.0\"?><plist/>".to_vec()));
    assert!(!readable(&b"<?xml version=\"1.0\"?><a b=\"<\"></a>".to_vec()));
    assert!(!readable(&b"<?xml version=\"1.0\"?><a b=\">\"></a>".to_vec()));
    assert!(!readable(&b"<?xml version=\"1.0\"?><a b='></a>".to_vec()));
    assert!(!readable(&b"<?xml version=\"1.0\"?><![CDATA[ x ]]>".to_vec()));
    assert!(!readable(&b"<?xml version=\"1.0\"?><!DOCTYPE plist [ <!ENTITY a \"b\"> ]><plist/>".to_vec()));
    assert!(!readable(&b"<?xml version=\"1.0\"?><!DOCTYPE plist [ ]><plist/>".to_vec()));
    assert!(!readable(&b"<?xml version=\"1.0\"?><!-- a -- > --><plist/>".to_vec()));
    assert!(!readable(&b"<?xml version=\"1.0\"?><!-- a > b --><plist/>".to_vec()));
    assert!(!readable(&b"<?xml version=\"1.0\"?><!-- <dict> --><plist/>".to_vec()));
    assert!(!readable(&b"<?xml version=\"1.0\"?><?pi > ?><plist/>".to_vec()));
}

#[test]
fn deeply_nested_theme_file_fails_the_load_unread() {
    let files = vec![ThemeFile { path: "themes/deep.tmTheme".to_string(), contents: nested(200_000) }];
    match ThemeCatalog::load(&dirs(&["themes"]), &files) {
        Err(failure) => assert_eq!(
            failure.message(),
            "themes/deep.tmTheme: error reading a file: the theme definition is no plain XML property list"
        ),
        Ok(_) => panic!("the load should have failed"),
    }
}

#[test]
fn theme_of_very_many_scopes_leaves_the_highlighter_working() {
    let mut text = String::from("<?xml version=\"1.0\"?>\n<plist version=\"1.0\"><dict><key>name</key><string>Many</string><key>settings</key><array>");
    for item in 0..700 {
        text.push_str("<dict><key>scope</key><string>");
        for atom in 0..100 {
            if atom > 0 {
                text.push_str(", ");
            }
            text.push_str(&format!("q{}x{}", item, atom));
        }
        text.push_str("</string><key>settings</key><dict><key>foreground</key><string>#010101</string></dict></dict>");
    }
    text.push_str("</array></dict></plist>\n");
    let files = vec![theme_file("themes/many.tmTheme", &text)];
    let catalog = ThemeCatalog::load(&dirs(&["themes"]), &files).ok().unwrap();
    assert!(catalog.contains("many"));
    let html = slide_to_html("```rust\nfn main() {}\n```\n```py\nprint(1)\n```\n```\nplain\n```");
    assert!(html.contains("<span class=\"source rust\">"));
    assert!(html.contains("<span class=\"source python\">"));
    assert!(html.contains("<span class=\"text plain\">"));
    assert!(ThemeCatalog::load(&Vec::new(), &Vec::new()).is_ok());
}
