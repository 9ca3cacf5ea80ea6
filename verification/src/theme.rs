//! The theme catalog: the highlighting themes that can be named. It is
//! `syntect`'s own set of themes, begun with the built-in themes and grown
//! by the definitions found in the theme directories, in the order they were
//! found: a later one takes the place of an earlier one of the same name.
//! The contracts speak of a theme by what the renderer reads of it, the
//! stylesheet that it gives to highlighted code.

use vstd::prelude::*;
use crate::error::{DeckError, ThemeLoadError};
use crate::nesting::{is_readable, readable};
use crate::text::{chars_of, matches_at, occurs_at, slice_of, string_of};
use syntect::highlighting::{Theme, ThemeSet};
use syntect::parsing::SyntaxSet;
use syntect::LoadingError;

verus! {

/// `syntect::highlighting::Theme`, carried as an opaque value.
#[verifier::external_type_specification]
#[verifier::external_body]
pub struct ExTheme(syntect::highlighting::Theme);

/// `syntect::highlighting::ThemeSet`: the themes of a catalog, each under
/// its name.
#[verifier::external_type_specification]
#[verifier::external_body]
pub struct ExThemeSet(syntect::highlighting::ThemeSet);

/// A theme as the renderer uses it: its name and the style rules it gives to
/// the classes of highlighted code.
pub struct ThemeDefinition {
    pub name: String,
    pub rules: String,
}

/// A theme definition file, as read from a theme directory.
pub struct ThemeFile {
    pub path: String,
    pub contents: Vec<u8>,
}

/// The themes that can be named. A later definition takes the place of an
/// earlier one of the same name.
pub struct ThemeCatalog {
    set: ThemeSet,
}

/// The name of the theme that is used where none is named.
pub open spec fn default_theme_name() -> Seq<char> {
    "InspiredGitHub"@
}

/// Where the last `c` stands in `text`, or -1 where there is none.
pub open spec fn last_index_of(text: Seq<char>, c: char) -> int
    decreases text.len(),
{
    if text.len() == 0 {
        -1
    } else if text.last() == c {
        text.len() - 1
    } else {
        last_index_of(text.drop_last(), c)
    }
}

/// The name that a theme file gives its theme: the file's name without the
/// directories before it and without its extension. A path that ends in a
/// directory separator names no theme. A dot at the very start of the file's
/// name starts no extension.
pub open spec fn theme_name(path: Seq<char>) -> Option<Seq<char>> {
    let file = path.subrange(last_index_of(path, '/') + 1, path.len() as int);
    let dot = last_index_of(file, '.');
    if file.len() == 0 {
        None
    } else if dot <= 0 {
        Some(file)
    } else {
        Some(file.subrange(0, dot))
    }
}

/// Finds the last `c` in `text`: its index plus one, or 0 where there is
/// none.
fn after_last(text: &Vec<char>, c: char) -> (after: usize)
    ensures
        after == last_index_of(text@, c) + 1,
        after <= text.len(),
{
    let mut i: usize = text.len();
    assert(text@.subrange(0, i as int) == text@);
    while i > 0 && text[i - 1] != c
        invariant
            i <= text.len(),
            last_index_of(text@, c) == last_index_of(text@.subrange(0, i as int), c),
        decreases i,
    {
        i -= 1;
        assert(text@.subrange(0, i + 1).drop_last() == text@.subrange(0, i as int));
    }
    proof {
        if i > 0 {
            assert(text@.subrange(0, i as int).last() == c);
        }
    }
    i
}

/// The name that the theme file at `path` gives its theme.
pub fn theme_name_of(path: &str) -> (name: Option<String>)
    ensures
        match name {
            Some(text) => theme_name(path@) == Some(text@),
            None => theme_name(path@) is None,
        },
{
    let chars = chars_of(path);
    let start = after_last(&chars, '/');
    let file = slice_of(&chars, start, chars.len());
    if file.len() == 0 {
        return None;
    }
    let dot = after_last(&file, '.');
    if dot <= 1 {
        Some(string_of(&file))
    } else {
        let stem = slice_of(&file, 0, dot - 1);
        Some(string_of(&stem))
    }
}

/// The names of the built-in themes, as `syntect` documents them.
pub open spec fn builtin_names() -> Seq<Seq<char>> {
    seq![
        "InspiredGitHub"@,
        "Solarized (dark)"@,
        "Solarized (light)"@,
        "base16-eighties.dark"@,
        "base16-mocha.dark"@,
        "base16-ocean.dark"@,
        "base16-ocean.light"@,
    ]
}

/// The stylesheet that `syntect` writes for its built-in theme of this name,
/// or `None` where it has no such theme.
pub uninterp spec fn builtin_sheet(name: Seq<char>) -> Option<Seq<char>>;

/// What a set of themes holds: under each name the stylesheet that
/// `syntect::html::css_for_theme` writes for the theme of that name.
pub uninterp spec fn sheets_of(set: ThemeSet) -> Map<Seq<char>, Seq<char>>;

/// The set of the built-in themes of `syntect`: `ThemeSet::load_defaults`.
/// Its themes are those that its documentation lists, the default theme
/// among them, and no others.
#[verifier::external_body]
fn default_set() -> (set: ThemeSet)
    ensures
        forall|name: Seq<char>|
            #[trigger] sheets_of(set).dom().contains(name) <==> builtin_sheet(name) is Some,
        forall|name: Seq<char>|
            #[trigger] sheets_of(set).dom().contains(name) ==> sheets_of(set)[name]
                == builtin_sheet(name)->0 && builtin_names().contains(name),
        forall|k: int|
            0 <= k < builtin_names().len() ==> sheets_of(set).dom().contains(
                #[trigger] builtin_names()[k],
            ),
{
    ThemeSet::load_defaults()
}

/// Reads every built-in grammar of `syntect` once: `SyntaxSet::
/// load_defaults_newlines`, and `find_unlinked_contexts`, which visits the
/// contexts of each grammar. `syntect` keeps the names of all scopes in one
/// table of a fixed size, and the highlighter does not return where it
/// cannot enter a grammar's scope there; after this call they are all
/// entered, whatever a theme file adds later.
#[verifier::external_body]
fn prepare_grammars() {
    SyntaxSet::load_defaults_newlines().find_unlinked_contexts();
}

/// Reads a theme from the text of a `.tmTheme` file with
/// `ThemeSet::load_from_reader`, which fails on a malformed definition. The
/// reader descends once for each element that stands open in the text, so
/// it is only handed text whose nesting is tested.
#[verifier::external_body]
fn read_theme(contents: &[u8]) -> (read: Result<Theme, LoadingError>)
    requires
        is_readable(contents@),
{
    ThemeSet::load_from_reader(&mut std::io::Cursor::new(contents))
}

/// Puts a theme into a set under a name, in place of the theme that the set
/// had under that name, if it had one: `BTreeMap::insert` on the themes of
/// the set. Nothing is claimed of the stylesheet of the theme but that
/// there is one.
#[verifier::external_body]
fn put_theme(set: &mut ThemeSet, name: String, theme: Theme)
    ensures
        exists|sheet: Seq<char>| #[trigger]
            sheets_of(*old(set)).insert(name@, sheet) == sheets_of(*final(set)),
{
    set.themes.insert(name, theme);
}

/// The stylesheet of the theme that a set has under a name: `BTreeMap::get`
/// on the themes of the set, and `syntect::html::css_for_theme` on what it
/// finds.
#[verifier::external_body]
#[allow(deprecated)]
fn sheet_in(set: &ThemeSet, name: &str) -> (sheet: Option<String>)
    ensures
        match sheet {
            Some(text) => sheets_of(*set).dom().contains(name@) && text@ == sheets_of(*set)[name@],
            None => !sheets_of(*set).dom().contains(name@),
        },
{
    set.themes.get(name).map(|theme| syntect::html::css_for_theme(theme))
}

/// The names that a set has themes under: the keys of its themes.
#[verifier::external_body]
fn names_in(set: &ThemeSet) -> (names: Vec<String>)
    ensures
        forall|i: int| 0 <= i < names.len() ==> sheets_of(*set).dom().contains((#[trigger] names[i])@),
        forall|name: Seq<char>|
            #[trigger] sheets_of(*set).dom().contains(name) ==> exists|i: int|
                0 <= i < names.len() && (#[trigger] names[i])@ == name,
{
    set.themes.keys().cloned().collect()
}

/// The failure that `syntect` reports for a path that names no file:
/// `LoadingError::BadPath`.
#[verifier::external_body]
fn bad_path() -> (cause: LoadingError) {
    LoadingError::BadPath
}

/// The failure that `syntect` reports for a file that cannot be read:
/// `LoadingError::Io`, here with an `std::io::Error` of the kind
/// `InvalidData` that carries `reason`.
#[verifier::external_body]
fn unreadable(reason: &str) -> (cause: LoadingError) {
    LoadingError::Io(std::io::Error::new(std::io::ErrorKind::InvalidData, reason.to_string()))
}

/// The catalog of the built-in themes: each of their names with its
/// stylesheet.
pub open spec fn builtin_rules() -> Map<Seq<char>, Seq<char>> {
    Map::new(|name: Seq<char>| builtin_sheet(name) is Some, |name: Seq<char>| builtin_sheet(name)->0)
}

/// The path of a directory as it stands before the paths of its files: with
/// one separator at its end.
pub open spec fn dir_stem(dir: Seq<char>) -> Seq<char> {
    if dir.len() > 0 && dir.last() == '/' {
        dir
    } else {
        dir.push('/')
    }
}

/// Whether the file at `path` lies in the directory `dir`, or in a directory
/// below it.
pub open spec fn lies_in(path: Seq<char>, dir: Seq<char>) -> bool {
    dir_stem(dir).len() < path.len() && occurs_at(path, dir_stem(dir), 0)
}

/// The files of `files` that lie in the directory `dir`, in their order.
pub open spec fn files_in(dir: Seq<char>, files: Seq<ThemeFile>) -> Seq<ThemeFile>
    decreases files.len(),
{
    if files.len() == 0 {
        Seq::empty()
    } else if lies_in(files.last().path@, dir) {
        files_in(dir, files.drop_last()).push(files.last())
    } else {
        files_in(dir, files.drop_last())
    }
}

/// The files of `files` that lie in the theme directories `dirs`, directory
/// by directory in the order of the directories, so that a theme of a later
/// directory comes after a theme of an earlier one.
pub open spec fn files_of(dirs: Seq<Seq<char>>, files: Seq<ThemeFile>) -> Seq<ThemeFile>
    decreases dirs.len(),
{
    if dirs.len() == 0 {
        Seq::empty()
    } else {
        files_of(dirs.drop_last(), files) + files_in(dirs.last(), files)
    }
}

/// The paths held by a vector of strings.
pub open spec fn paths_view(paths: Seq<String>) -> Seq<Seq<char>> {
    Seq::new(paths.len(), |i: int| paths[i]@)
}

/// Whether `whole` begins with the files `begun`.
pub open spec fn begins_with(whole: Seq<ThemeFile>, begun: Seq<ThemeFile>) -> bool {
    begun.len() <= whole.len() && forall|i: int| 0 <= i < begun.len() ==> begun[i] == whole[i]
}

/// The files of a directory among the first files are the first of its
/// files among all.
pub proof fn files_in_begin(dir: Seq<char>, files: Seq<ThemeFile>, upto: int)
    requires
        0 <= upto <= files.len(),
    ensures
        begins_with(files_in(dir, files), files_in(dir, files.subrange(0, upto))),
    decreases files.len(),
{
    if upto == files.len() {
        assert(files.subrange(0, upto) == files);
    } else {
        assert(files.drop_last().subrange(0, upto) == files.subrange(0, upto));
        files_in_begin(dir, files.drop_last(), upto);
    }
}

/// The files of the first directories are the first of the files of all
/// directories.
pub proof fn files_of_begin(dirs: Seq<Seq<char>>, files: Seq<ThemeFile>, upto: int)
    requires
        0 <= upto <= dirs.len(),
    ensures
        begins_with(files_of(dirs, files), files_of(dirs.subrange(0, upto), files)),
    decreases dirs.len(),
{
    if upto == dirs.len() {
        assert(dirs.subrange(0, upto) == dirs);
    } else {
        assert(dirs.drop_last().subrange(0, upto) == dirs.subrange(0, upto));
        files_of_begin(dirs.drop_last(), files, upto);
    }
}

/// The file at `at`, which lies in the directory at `dir`, follows in the
/// files of the directories on those of the directories before it and those
/// of its own directory among the files before it.
pub proof fn file_follows(dirs: Seq<Seq<char>>, files: Seq<ThemeFile>, dir: int, at: int)
    requires
        0 <= dir < dirs.len(),
        0 <= at < files.len(),
        lies_in(files[at].path@, dirs[dir]),
    ensures
        begins_with(
            files_of(dirs, files),
            (files_of(dirs.subrange(0, dir), files) + files_in(dirs[dir], files.subrange(0, at))).push(
                files[at],
            ),
        ),
{
    let before = files_of(dirs.subrange(0, dir), files);
    let upto = dirs.subrange(0, dir + 1);
    assert(upto.drop_last() == dirs.subrange(0, dir));
    assert(upto.last() == dirs[dir]);
    files_of_begin(dirs, files, dir + 1);
    let step = files.subrange(0, at + 1);
    assert(step.drop_last() == files.subrange(0, at));
    assert(step.last() == files[at]);
    files_in_begin(dirs[dir], files, at + 1);
    let begun = (before + files_in(dirs[dir], files.subrange(0, at))).push(files[at]);
    assert(begun =~= before + files_in(dirs[dir], step));
    let whole = files_of(dirs, files);
    assert forall|i: int| 0 <= i < begun.len() implies begun[i] == whole[i] by {
        assert(files_of(upto, files)[i] == whole[i]);
        if i >= before.len() {
            assert(files_in(dirs[dir], step)[i - before.len()] == files_in(dirs[dir], files)[i
                - before.len()]);
        }
    }
}

/// Whether the file at `path` lies in the directory `dir`.
pub fn in_dir(path: &str, dir: &str) -> (yes: bool)
    ensures
        yes == lies_in(path@, dir@),
{
    let text = chars_of(path);
    let mut stem = chars_of(dir);
    if stem.len() == 0 || stem[stem.len() - 1] != '/' {
        stem.push('/');
    }
    if stem.len() < text.len() {
        matches_at(&text, &stem, 0)
    } else {
        false
    }
}

/// Whether each of the files can be handed to `syntect`: its path names a
/// theme, and its contents pass the test on their nesting.
pub open spec fn admissible(files: Seq<ThemeFile>) -> bool {
    forall|i: int|
        0 <= i < files.len() ==> theme_name((#[trigger] files[i]).path@) is Some && is_readable(
            files[i].contents@,
        )
}

/// Whether a load of the files `files` can have failed with the path
/// `path`: it is the path of one of the files, and each file before that one
/// could be handed to `syntect`.
pub open spec fn failed_at(files: Seq<ThemeFile>, path: Seq<char>) -> bool {
    exists|i: int|
        0 <= i < files.len() && path == (#[trigger] files[i]).path@ && admissible(
            files.subrange(0, i),
        )
}

/// Whether one of the files gives the name `name` to its theme.
pub open spec fn has_name(files: Seq<ThemeFile>, name: Seq<char>) -> bool {
    exists|i: int| 0 <= i < files.len() && theme_name((#[trigger] files[i]).path@) == Some(name)
}

/// The catalog `base` after the theme files `files`, taken in their order,
/// where the theme of each file has the stylesheet at its place in
/// `sheets`: each file puts its stylesheet under the name that its path
/// gives.
pub open spec fn with_sheets(
    base: Map<Seq<char>, Seq<char>>,
    files: Seq<ThemeFile>,
    sheets: Seq<Seq<char>>,
) -> Map<Seq<char>, Seq<char>>
    decreases files.len(),
{
    if files.len() == 0 || sheets.len() != files.len() {
        base
    } else {
        with_sheets(base, files.drop_last(), sheets.drop_last()).insert(
            theme_name(files.last().path@)->0,
            sheets.last(),
        )
    }
}

/// Whether `catalog` is the catalog of the built-in themes and of the theme
/// files `files`, whatever stylesheets their themes have.
pub open spec fn loaded_as(catalog: Map<Seq<char>, Seq<char>>, files: Seq<ThemeFile>) -> bool {
    exists|sheets: Seq<Seq<char>>|
        sheets.len() == files.len() && catalog == #[trigger] with_sheets(
            builtin_rules(),
            files,
            sheets,
        )
}

/// Whether the names of `catalog` are those of the built-in themes and
/// those that the theme files `files` give, and a name that no file gives
/// stands for the stylesheet of the built-in theme.
pub open spec fn known_names(catalog: Map<Seq<char>, Seq<char>>, files: Seq<ThemeFile>) -> bool {
    &&& forall|name: Seq<char>|
        #[trigger] catalog.dom().contains(name) <==> (builtin_names().contains(name) || has_name(
            files,
            name,
        ))
    &&& forall|name: Seq<char>|
        !has_name(files, name) ==> #[trigger] catalog[name] == builtin_rules()[name]
}

/// A theme from a theme file overrides every theme of its name that came
/// before it, the built-in ones too: in the catalog its name stands for the
/// stylesheet of the last file of that name.
pub proof fn loaded_theme_overrides_builtin(
    base: Map<Seq<char>, Seq<char>>,
    files: Seq<ThemeFile>,
    sheets: Seq<Seq<char>>,
    at: int,
)
    requires
        0 <= at < files.len() == sheets.len(),
        admissible(files),
        forall|k: int|
            at < k < files.len() ==> theme_name((#[trigger] files[k]).path@) != theme_name(
                files[at].path@,
            ),
    ensures
        with_sheets(base, files, sheets).dom().contains(theme_name(files[at].path@)->0),
        with_sheets(base, files, sheets)[theme_name(files[at].path@)->0] == sheets[at],
    decreases files.len(),
{
    if at < files.len() - 1 {
        let head = files.drop_last();
        assert(head[at] == files[at]);
        assert forall|k: int| at < k < head.len() implies theme_name((#[trigger] head[k]).path@)
            != theme_name(head[at].path@) by {
            assert(head[k] == files[k]);
        }
        assert forall|k: int| 0 <= k < head.len() implies theme_name((#[trigger] head[k]).path@)
            is Some && is_readable(head[k].contents@) by {
            assert(head[k] == files[k]);
        }
        loaded_theme_overrides_builtin(base, head, sheets.drop_last(), at);
        assert(theme_name(files[files.len() - 1].path@) != theme_name(files[at].path@));
        assert(theme_name(files[files.len() - 1].path@) is Some);
        assert(theme_name(files[at].path@) is Some);
    }
}

/// The names of a catalog after theme files are those it had before and
/// those that the files give, and a name that no file gives stands for what
/// it stood for before.
pub proof fn names_after_files(
    base: Map<Seq<char>, Seq<char>>,
    files: Seq<ThemeFile>,
    sheets: Seq<Seq<char>>,
    name: Seq<char>,
)
    requires
        files.len() == sheets.len(),
        admissible(files),
    ensures
        with_sheets(base, files, sheets).dom().contains(name) <==> base.dom().contains(name)
            || has_name(files, name),
        !has_name(files, name) ==> with_sheets(base, files, sheets)[name] == base[name],
    decreases files.len(),
{
    if files.len() > 0 {
        let head = files.drop_last();
        assert forall|k: int| 0 <= k < head.len() implies theme_name((#[trigger] head[k]).path@)
            is Some && is_readable(head[k].contents@) by {
            assert(head[k] == files[k]);
        }
        names_after_files(base, head, sheets.drop_last(), name);
        let last = files[files.len() - 1];
        assert(theme_name(last.path@) is Some);
        if has_name(head, name) {
            let i = choose|i: int|
                0 <= i < head.len() && theme_name((#[trigger] head[i]).path@) == Some(name);
            assert(files[i] == head[i]);
        }
        if has_name(files, name) && theme_name(last.path@) != Some(name) {
            let i = choose|i: int|
                0 <= i < files.len() && theme_name((#[trigger] files[i]).path@) == Some(name);
            assert(head[i] == files[i]);
        }
    }
}

/// The theme that a name resolves to, from what the catalog found under the
/// name: the definition with the stylesheet that it found, or the failure
/// that the name is not there.
pub fn resolved_from(name: &str, found: Option<String>) -> (resolved: Result<
    ThemeDefinition,
    DeckError,
>)
    ensures
        match found {
            Some(rules) => resolved is Ok && resolved->Ok_0.name@ == name@ && resolved->Ok_0.rules@
                == rules@,
            None => resolved matches Err(DeckError::ThemeNotFound),
        },
{
    match found {
        Some(rules) => Ok(ThemeDefinition { name: String::from_str(name), rules }),
        None => Err(DeckError::ThemeNotFound),
    }
}

/// The failure of a theme file, with its path.
fn load_failure(path: &str, cause: LoadingError) -> (failure: DeckError)
    ensures
        failure matches DeckError::Syntect(held) && held.path@ == path@ && held.cause == cause,
{
    DeckError::Syntect(ThemeLoadError { path: String::from_str(path), cause })
}

impl View for ThemeCatalog {
    type V = Map<Seq<char>, Seq<char>>;

    /// The stylesheet that each name of the catalog stands for.
    closed spec fn view(&self) -> Map<Seq<char>, Seq<char>> {
        sheets_of(self.set)
    }
}

impl ThemeCatalog {
    /// A catalog is well formed when the default theme is in it.
    pub open spec fn wf(&self) -> bool {
        self@.dom().contains(default_theme_name())
    }

    /// The catalog of the built-in themes: each of the names that `syntect`
    /// documents, with the stylesheet of its theme, and no other name.
    pub fn builtin() -> (catalog: ThemeCatalog)
        ensures
            catalog.wf(),
            catalog@ == builtin_rules(),
            forall|name: Seq<char>|
                #[trigger] catalog@.dom().contains(name) <==> builtin_names().contains(name),
    {
        let catalog = ThemeCatalog { set: default_set() };
        proof {
            assert(catalog@ =~= builtin_rules());
            assert(builtin_names()[0] == default_theme_name());
            assert forall|name: Seq<char>| builtin_names().contains(name) implies #[trigger] catalog@.dom().contains(
                name,
            ) by {
                let k = choose|k: int| 0 <= k < builtin_names().len() && builtin_names()[k] == name;
                assert(catalog@.dom().contains(builtin_names()[k]));
            }
        }
        catalog
    }

    /// The catalog of the built-in themes and of the theme files that lie in
    /// the theme directories `dirs`, taken directory by directory in the
    /// order of the directories, so that a later directory overrides an
    /// earlier one. A file fails the load where its path names no theme,
    /// where its contents do not pass the test on their nesting, and where
    /// `syntect` cannot read a theme from them: the failure names the path
    /// of the file that failed, and no catalog is given.
    pub fn load(dirs: &Vec<String>, files: &Vec<ThemeFile>) -> (loaded: Result<
        ThemeCatalog,
        DeckError,
    >)
        ensures
            files_of(paths_view(dirs@), files@).len() == 0 ==> loaded is Ok,
            !admissible(files_of(paths_view(dirs@), files@)) ==> loaded is Err,
            loaded matches Ok(catalog) ==> catalog.wf() && loaded_as(
                catalog@,
                files_of(paths_view(dirs@), files@),
            ) && known_names(catalog@, files_of(paths_view(dirs@), files@)),
            loaded matches Err(failure) ==> failure matches DeckError::Syntect(cause)
                && failed_at(files_of(paths_view(dirs@), files@), cause.path@),
    {
        let ghost places = paths_view(dirs@);
        let mut catalog = ThemeCatalog::builtin();
        prepare_grammars();
        let ghost mut taken: Seq<ThemeFile> = Seq::empty();
        let ghost mut sheets: Seq<Seq<char>> = Seq::empty();
        let mut d: usize = 0;
        assert(places.subrange(0, 0) =~= Seq::<Seq<char>>::empty());
        while d < dirs.len()
            invariant
                d <= dirs.len(),
                places == paths_view(dirs@),
                catalog.wf(),
                admissible(taken),
                sheets.len() == taken.len(),
                catalog@ == with_sheets(builtin_rules(), taken, sheets),
                taken == files_of(places.subrange(0, d as int), files@),
                forall|name: Seq<char>|
                    #[trigger] builtin_rules().dom().contains(name) <==> builtin_names().contains(
                        name,
                    ),
            decreases dirs.len() - d,
        {
            let dir = &dirs[d];
            let ghost before = taken;
            let mut k: usize = 0;
            assert(files@.subrange(0, 0) =~= Seq::<ThemeFile>::empty());
            assert(taken =~= before + files_in(dir@, files@.subrange(0, 0)));
            while k < files.len()
                invariant
                    k <= files.len(),
                    d < dirs.len(),
                    places == paths_view(dirs@),
                    dir@ == places[d as int],
                    catalog.wf(),
                    admissible(taken),
                    sheets.len() == taken.len(),
                    catalog@ == with_sheets(builtin_rules(), taken, sheets),
                    before == files_of(places.subrange(0, d as int), files@),
                    taken == before + files_in(dir@, files@.subrange(0, k as int)),
                decreases files.len() - k,
            {
                let file = &files[k];
                proof {
                    let next = files@.subrange(0, k + 1);
                    assert(next.drop_last() == files@.subrange(0, k as int));
                    assert(next.last() == files@[k as int]);
                }
                if in_dir(file.path.as_str(), dir.as_str()) {
                    proof {
                        file_follows(places, files@, d as int, k as int);
                        let chosen = files_of(places, files@);
                        let begun = taken.push(files@[k as int]);
                        assert(chosen[taken.len() as int] == begun[taken.len() as int]);
                        assert forall|j: int| 0 <= j < taken.len() implies theme_name(
                            (#[trigger] chosen.subrange(0, taken.len() as int)[j]).path@,
                        ) is Some && is_readable(
                            chosen.subrange(0, taken.len() as int)[j].contents@,
                        ) by {
                            assert(chosen[j] == begun[j]);
                            assert(begun[j] == taken[j]);
                        }
                        assert(failed_at(chosen, files@[k as int].path@));
                    }
                    let name = match theme_name_of(file.path.as_str()) {
                        Some(name) => name,
                        None => {
                            return Err(load_failure(file.path.as_str(), bad_path()));
                        },
                    };
                    if !readable(&file.contents) {
                        return Err(
                            load_failure(
                                file.path.as_str(),
                                unreadable("the theme definition is no plain XML property list"),
                            ),
                        );
                    }
                    let theme = match read_theme(file.contents.as_slice()) {
                        Ok(theme) => theme,
                        Err(cause) => {
                            return Err(load_failure(file.path.as_str(), cause));
                        },
                    };
                    let ghost held = catalog@;
                    put_theme(&mut catalog.set, name, theme);
                    proof {
                        let sheet = choose|sheet: Seq<char>| #[trigger]
                            held.insert(name@, sheet) == catalog@;
                        let grown = taken.push(files@[k as int]);
                        let more = sheets.push(sheet);
                        assert(grown.drop_last() == taken);
                        assert(more.drop_last() == sheets);
                        assert(grown =~= before + files_in(
                            dir@,
                            files@.subrange(0, k as int),
                        ).push(files@[k as int]));
                        assert forall|j: int| 0 <= j < grown.len() implies theme_name(
                            (#[trigger] grown[j]).path@,
                        ) is Some && is_readable(grown[j].contents@) by {
                            if j < taken.len() {
                                assert(grown[j] == taken[j]);
                            }
                        }
                        taken = grown;
                        sheets = more;
                    }
                }
                k += 1;
            }
            d += 1;
            proof {
                assert(files@.subrange(0, files.len() as int) == files@);
                let upto = places.subrange(0, d as int);
                assert(upto.drop_last() == places.subrange(0, d - 1));
                assert(upto.last() == places[d - 1]);
            }
        }
        proof {
            assert(places.subrange(0, dirs.len() as int) == places);
            assert forall|name: Seq<char>| #[trigger] catalog@.dom().contains(name) <==> (
            builtin_names().contains(name) || has_name(taken, name)) by {
                names_after_files(builtin_rules(), taken, sheets, name);
            }
            assert forall|name: Seq<char>| !has_name(taken, name) implies #[trigger] catalog@[name]
                == builtin_rules()[name] by {
                names_after_files(builtin_rules(), taken, sheets, name);
            }
        }
        Ok(catalog)
    }

    /// The names that the catalog has themes under.
    pub fn names(&self) -> (names: Vec<String>)
        ensures
            forall|i: int| 0 <= i < names.len() ==> self@.dom().contains((#[trigger] names[i])@),
            forall|name: Seq<char>|
                #[trigger] self@.dom().contains(name) ==> exists|i: int|
                    0 <= i < names.len() && (#[trigger] names[i])@ == name,
    {
        names_in(&self.set)
    }

    /// Whether the catalog has a theme of this name. Names are compared
    /// character by character.
    pub fn contains(&self, name: &str) -> (yes: bool)
        ensures
            yes == self@.dom().contains(name@),
    {
        sheet_in(&self.set, name).is_some()
    }

    /// The theme to render with: the one that `name` names, or the default
    /// theme where no name is given. A name that the catalog does not have
    /// is the only failure.
    pub fn resolve(&self, name: Option<&str>) -> (resolved: Result<ThemeDefinition, DeckError>)
        requires
            self.wf(),
        ensures
            match name {
                None => resolved is Ok && resolved->Ok_0.name@ == default_theme_name()
                    && resolved->Ok_0.rules@ == self@[default_theme_name()],
                Some(wanted) => if self@.dom().contains(wanted@) {
                    resolved is Ok && resolved->Ok_0.name@ == wanted@ && resolved->Ok_0.rules@
                        == self@[wanted@]
                } else {
                    resolved matches Err(DeckError::ThemeNotFound)
                },
            },
    {
        let wanted = match name {
            Some(given) => given,
            None => "InspiredGitHub",
        };
        resolved_from(wanted, sheet_in(&self.set, wanted))
    }
}

} // verus!
