//! Text as sequences of characters: conversions between `str` and `Vec<char>`,
//! and the small building, escaping and splitting helpers the other modules
//! share.

use vstd::prelude::*;

verus! {

/// `String::push` appends one character to the end of the string.
pub assume_specification[ String::push ](s: &mut String, c: char)
    ensures
        final(s)@ == old(s)@.push(c),
;

/// The lines held by a vector of character vectors.
pub open spec fn lines_view(lines: Seq<Vec<char>>) -> Seq<Seq<char>> {
    Seq::new(lines.len(), |i: int| lines[i]@)
}

/// The characters of `s`, in order.
pub fn chars_of(s: &str) -> (out: Vec<char>)
    ensures
        out@ == s@,
{
    let mut out: Vec<char> = Vec::new();
    for c in it: s.chars()
        invariant
            out@ == it.history(),
    {
        out.push(c);
    }
    out
}

/// The string made of the characters of `chars`, in order.
pub fn string_of(chars: &Vec<char>) -> (out: String)
    ensures
        out@ == chars@,
{
    let mut out = String::new();
    let mut i: usize = 0;
    while i < chars.len()
        invariant
            i <= chars.len(),
            out@ == chars@.subrange(0, i as int),
        decreases chars.len() - i,
    {
        out.push(chars[i]);
        i += 1;
        assert(chars@.subrange(0, i as int) == chars@.subrange(0, i - 1).push(chars@[i - 1]));
    }
    assert(chars@.subrange(0, chars.len() as int) == chars@);
    out
}

/// Appends the characters of `piece` to `out`.
pub fn push_all(out: &mut Vec<char>, piece: &Vec<char>)
    ensures
        final(out)@ == old(out)@ + piece@,
{
    let mut i: usize = 0;
    while i < piece.len()
        invariant
            i <= piece.len(),
            out@ == old(out)@ + piece@.subrange(0, i as int),
        decreases piece.len() - i,
    {
        out.push(piece[i]);
        i += 1;
        assert(piece@.subrange(0, i as int) == piece@.subrange(0, i - 1).push(piece@[i - 1]));
    }
    assert(piece@.subrange(0, piece.len() as int) == piece@);
}

/// Appends the characters of the string `piece` to `out`.
pub fn push_str(out: &mut Vec<char>, piece: &str)
    ensures
        final(out)@ == old(out)@ + piece@,
{
    let chars = chars_of(piece);
    push_all(out, &chars);
}

/// A copy of the characters of `text` from `from` up to `to`.
pub fn slice_of(text: &Vec<char>, from: usize, to: usize) -> (out: Vec<char>)
    requires
        from <= to <= text.len(),
    ensures
        out@ == text@.subrange(from as int, to as int),
{
    let mut out: Vec<char> = Vec::new();
    let mut i: usize = from;
    while i < to
        invariant
            from <= i <= to <= text.len(),
            out@ == text@.subrange(from as int, i as int),
        decreases to - i,
    {
        out.push(text[i]);
        i += 1;
        assert(text@.subrange(from as int, i as int) == text@.subrange(from as int, i - 1).push(
            text@[i - 1],
        ));
    }
    out
}

/// What stands for one character in HTML text: the four characters that
/// markup gives a meaning to become entities, every other stays itself.
pub open spec fn escaped_char(c: char) -> Seq<char> {
    if c == '&' {
        "&amp;"@
    } else if c == '<' {
        "&lt;"@
    } else if c == '>' {
        "&gt;"@
    } else if c == '"' {
        "&quot;"@
    } else {
        seq![c]
    }
}

/// `text` with each character replaced by what stands for it in HTML.
pub open spec fn escaped(text: Seq<char>) -> Seq<char>
    decreases text.len(),
{
    if text.len() == 0 {
        Seq::empty()
    } else {
        escaped(text.drop_last()) + escaped_char(text.last())
    }
}

/// Appends to `out` what stands for `c` in HTML.
pub fn push_escaped_char(out: &mut Vec<char>, c: char)
    ensures
        final(out)@ == old(out)@ + escaped_char(c),
{
    if c == '&' {
        push_str(out, "&amp;");
    } else if c == '<' {
        push_str(out, "&lt;");
    } else if c == '>' {
        push_str(out, "&gt;");
    } else if c == '"' {
        push_str(out, "&quot;");
    } else {
        out.push(c);
        assert(out@ == old(out)@ + seq![c]);
    }
}

/// Appends `text` to `out`, escaped for HTML.
pub fn push_escaped(out: &mut Vec<char>, text: &Vec<char>)
    ensures
        final(out)@ == old(out)@ + escaped(text@),
{
    let mut i: usize = 0;
    while i < text.len()
        invariant
            i <= text.len(),
            out@ == old(out)@ + escaped(text@.subrange(0, i as int)),
        decreases text.len() - i,
    {
        push_escaped_char(out, text[i]);
        i += 1;
        proof {
            let prefix = text@.subrange(0, i as int);
            assert(prefix.drop_last() == text@.subrange(0, i - 1));
            assert(prefix.last() == text@[i - 1]);
        }
    }
    assert(text@.subrange(0, text.len() as int) == text@);
}

/// The lines of `text`: the pieces between its line feeds, so that a text
/// with `n` line feeds has `n + 1` lines, the last one possibly empty.
pub open spec fn lines_of(text: Seq<char>) -> Seq<Seq<char>>
    decreases text.len(),
{
    if text.len() == 0 {
        seq![Seq::empty()]
    } else {
        let before = lines_of(text.drop_last());
        if text.last() == '\n' {
            before.push(Seq::empty())
        } else {
            before.drop_last().push(before.last().push(text.last()))
        }
    }
}

/// Splits `text` into its lines.
pub fn split_lines(text: &Vec<char>) -> (lines: Vec<Vec<char>>)
    ensures
        lines_view(lines@) == lines_of(text@),
{
    let mut lines: Vec<Vec<char>> = Vec::new();
    let mut current: Vec<char> = Vec::new();
    let mut i: usize = 0;
    while i < text.len()
        invariant
            i <= text.len(),
            lines_view(lines@).push(current@) == lines_of(text@.subrange(0, i as int)),
        decreases text.len() - i,
    {
        let c = text[i];
        let ghost done = lines_view(lines@);
        let ghost open = current@;
        if c == '\n' {
            lines.push(current);
            current = Vec::new();
            assert(lines_view(lines@) == done.push(open));
        } else {
            current.push(c);
        }
        i += 1;
        proof {
            let prefix = text@.subrange(0, i as int);
            assert(prefix.drop_last() == text@.subrange(0, i - 1));
            assert(prefix.last() == c);
            assert(done.push(open).drop_last() == done);
        }
    }
    assert(text@.subrange(0, text.len() as int) == text@);
    let ghost done = lines_view(lines@);
    lines.push(current);
    assert(lines_view(lines@) == done.push(current@));
    lines
}


/// Spaces, tabs and carriage returns: what may surround the text of a line.
pub open spec fn is_blank(c: char) -> bool {
    c == ' ' || c == '\t' || c == '\r'
}

/// Whether `c` is a space, a tab or a carriage return.
pub fn blank(c: char) -> (yes: bool)
    ensures
        yes == is_blank(c),
{
    c == ' ' || c == '\t' || c == '\r'
}

/// How many times `c` stands in a row in `text`, starting at `from`.
pub open spec fn run_length(text: Seq<char>, c: char, from: int) -> int
    decreases text.len() - from,
{
    if 0 <= from < text.len() && text[from] == c {
        1 + run_length(text, c, from + 1)
    } else {
        0
    }
}

/// A run that starts inside the text ends inside it.
pub proof fn run_length_bounds(text: Seq<char>, c: char, from: int)
    requires
        0 <= from <= text.len(),
    ensures
        0 <= run_length(text, c, from) <= text.len() - from,
    decreases text.len() - from,
{
    if from < text.len() && text[from] == c {
        run_length_bounds(text, c, from + 1);
    }
}

/// Counts how many times `c` stands in a row in `text`, starting at `from`.
pub fn count_run(text: &Vec<char>, c: char, from: usize) -> (n: usize)
    requires
        from <= text.len(),
    ensures
        n == run_length(text@, c, from as int),
        from + n <= text.len(),
{
    let mut i: usize = from;
    while i < text.len() && text[i] == c
        invariant
            from <= i <= text.len(),
            run_length(text@, c, from as int) == (i - from) + run_length(text@, c, i as int),
        decreases text.len() - i,
    {
        i += 1;
    }
    i - from
}

/// How many blanks stand in a row in `text`, starting at `from`.
pub open spec fn blanks_from(text: Seq<char>, from: int) -> int
    decreases text.len() - from,
{
    if 0 <= from < text.len() && is_blank(text[from]) {
        1 + blanks_from(text, from + 1)
    } else {
        0
    }
}

/// How many blanks stand in a row in `text`, ending just before `to`.
pub open spec fn blanks_before(text: Seq<char>, to: int) -> int
    decreases to,
{
    if 0 < to <= text.len() && is_blank(text[to - 1]) {
        1 + blanks_before(text, to - 1)
    } else {
        0
    }
}

/// Whether `text` holds nothing but blanks.
pub open spec fn is_blank_text(text: Seq<char>) -> bool {
    blanks_from(text, 0) == text.len()
}

/// `text` without the blanks at its two ends.
pub open spec fn trimmed(text: Seq<char>) -> Seq<char> {
    if is_blank_text(text) {
        Seq::empty()
    } else {
        text.subrange(blanks_from(text, 0), text.len() - blanks_before(text, text.len() as int))
    }
}

/// The blanks at the front of a text end inside it.
pub proof fn blanks_from_bounds(text: Seq<char>, from: int)
    requires
        0 <= from <= text.len(),
    ensures
        0 <= blanks_from(text, from) <= text.len() - from,
        from + blanks_from(text, from) < text.len() ==> !is_blank(
            text[from + blanks_from(text, from)],
        ),
    decreases text.len() - from,
{
    if from < text.len() && is_blank(text[from]) {
        blanks_from_bounds(text, from + 1);
    }
}

/// The blanks at the back of a text stop at the latest where a character
/// that is no blank stands.
pub proof fn blanks_before_bounds(text: Seq<char>, to: int, at: int)
    requires
        0 <= at < to <= text.len(),
        !is_blank(text[at]),
    ensures
        0 <= blanks_before(text, to) <= to - at - 1,
    decreases to,
{
    if is_blank(text[to - 1]) {
        blanks_before_bounds(text, to - 1, at);
    }
}

/// Counts the blanks at the front of `text`.
pub fn count_leading_blanks(text: &Vec<char>) -> (n: usize)
    ensures
        n == blanks_from(text@, 0),
        n <= text.len(),
        n < text.len() ==> !is_blank(text@[n as int]),
{
    let mut i: usize = 0;
    while i < text.len() && blank(text[i])
        invariant
            i <= text.len(),
            blanks_from(text@, 0) == i + blanks_from(text@, i as int),
        decreases text.len() - i,
    {
        i += 1;
    }
    i
}

/// A copy of `text` without the blanks at its two ends.
pub fn trim(text: &Vec<char>) -> (out: Vec<char>)
    ensures
        out@ == trimmed(text@),
{
    let start = count_leading_blanks(text);
    if start == text.len() {
        return Vec::new();
    }
    let mut end: usize = text.len();
    while end > start + 1 && blank(text[end - 1])
        invariant
            start < end <= text.len(),
            !is_blank(text@[start as int]),
            blanks_before(text@, text.len() as int) == (text.len() - end) + blanks_before(
                text@,
                end as int,
            ),
        decreases end,
    {
        end -= 1;
    }
    proof {
        if end == start + 1 {
            assert(blanks_before(text@, end as int) == 0);
        }
    }
    slice_of(text, start, end)
}

/// Whether `text` begins with the characters of `prefix`.
pub fn starts_with(text: &Vec<char>, prefix: &str) -> (yes: bool)
    ensures
        yes == prefix@.is_prefix_of(text@),
{
    let wanted = chars_of(prefix);
    if wanted.len() > text.len() {
        return false;
    }
    let mut i: usize = 0;
    while i < wanted.len()
        invariant
            i <= wanted.len() <= text.len(),
            wanted@ == prefix@,
            forall|k: int| 0 <= k < i ==> text@[k] == wanted@[k],
        decreases wanted.len() - i,
    {
        if text[i] != wanted[i] {
            return false;
        }
        i += 1;
    }
    assert(text@.subrange(0, wanted.len() as int) =~= wanted@);
    true
}


/// Whether two vectors hold the same characters.
pub fn same_chars(a: &Vec<char>, b: &Vec<char>) -> (yes: bool)
    ensures
        yes == (a@ == b@),
{
    if a.len() != b.len() {
        return false;
    }
    let mut i: usize = 0;
    while i < a.len()
        invariant
            i <= a.len() == b.len(),
            forall|k: int| 0 <= k < i ==> a@[k] == b@[k],
        decreases a.len() - i,
    {
        if a[i] != b[i] {
            return false;
        }
        i += 1;
    }
    assert(a@ =~= b@);
    true
}

/// Whether two strings hold the same characters.
pub fn same_text(a: &str, b: &str) -> (yes: bool)
    ensures
        yes == (a@ == b@),
{
    let left = chars_of(a);
    let right = chars_of(b);
    same_chars(&left, &right)
}


/// Whether `pattern` stands in `text` at the index `at`.
pub open spec fn occurs_at(text: Seq<char>, pattern: Seq<char>, at: int) -> bool {
    0 <= at && at + pattern.len() <= text.len() && text.subrange(at, at + pattern.len())
        == pattern
}

/// Whether `pattern` stands somewhere in `text`.
pub open spec fn occurs_in(text: Seq<char>, pattern: Seq<char>) -> bool {
    exists|at: int| occurs_at(text, pattern, at)
}

/// Whether `pattern` stands in `text` at the index `at`.
pub fn matches_at(text: &Vec<char>, pattern: &Vec<char>, at: usize) -> (yes: bool)
    requires
        at + pattern.len() <= text.len(),
    ensures
        yes == occurs_at(text@, pattern@, at as int),
{
    let mut k: usize = 0;
    while k < pattern.len()
        invariant
            k <= pattern.len(),
            at + pattern.len() <= text.len(),
            forall|j: int| 0 <= j < k ==> text@[at + j] == pattern@[j],
        decreases pattern.len() - k,
    {
        if text[at + k] != pattern[k] {
            assert(text@.subrange(at as int, at + pattern.len())[k as int] != pattern@[k as int]);
            return false;
        }
        k += 1;
    }
    assert(text@.subrange(at as int, at + pattern.len()) =~= pattern@);
    true
}

/// Whether `pattern` stands somewhere in `text`.
pub fn occurs(text: &Vec<char>, pattern: &str) -> (yes: bool)
    ensures
        yes == occurs_in(text@, pattern@),
{
    let wanted = chars_of(pattern);
    if wanted.len() > text.len() {
        assert(forall|at: int| !occurs_at(text@, pattern@, at));
        return false;
    }
    if wanted.len() == 0 {
        assert(text@.subrange(0, 0) =~= pattern@);
        assert(occurs_at(text@, pattern@, 0));
        return true;
    }
    let last: usize = text.len() - wanted.len();
    let mut at: usize = 0;
    while at <= last
        invariant
            at <= last + 1,
            wanted.len() > 0,
            last == text.len() - wanted.len(),
            wanted@ == pattern@,
            forall|k: int| 0 <= k < at ==> !occurs_at(text@, pattern@, k),
        decreases last + 1 - at,
    {
        if matches_at(text, &wanted, at) {
            return true;
        }
        at += 1;
    }
    assert(forall|k: int| !occurs_at(text@, pattern@, k));
    false
}


/// Where the first `c` stands in `text` at or after `from`, or the length of
/// `text` where there is none.
pub open spec fn position_of(text: Seq<char>, c: char, from: int) -> int
    decreases text.len() - from,
{
    if 0 <= from < text.len() && text[from] != c {
        position_of(text, c, from + 1)
    } else if from < text.len() {
        from
    } else {
        text.len() as int
    }
}

/// The first `c` at or after a place stands at or after that place and
/// inside the text, where there is one.
pub proof fn position_of_bounds(text: Seq<char>, c: char, from: int)
    requires
        0 <= from,
    ensures
        from <= text.len() ==> from <= position_of(text, c, from) <= text.len(),
        from > text.len() ==> position_of(text, c, from) == text.len(),
        position_of(text, c, from) < text.len() ==> text[position_of(text, c, from)] == c,
    decreases text.len() - from,
{
    if from < text.len() && text[from] != c {
        position_of_bounds(text, c, from + 1);
    }
}

/// Finds the first `c` in `text` at or after `from`, or gives the length of
/// `text` where there is none.
pub fn find_from(text: &Vec<char>, c: char, from: usize) -> (at: usize)
    requires
        from <= text.len(),
    ensures
        at == position_of(text@, c, from as int),
        from <= at <= text.len(),
{
    let mut i: usize = from;
    while i < text.len() && text[i] != c
        invariant
            from <= i <= text.len(),
            position_of(text@, c, from as int) == position_of(text@, c, i as int),
        decreases text.len() - i,
    {
        i += 1;
    }
    i
}

} // verus!
