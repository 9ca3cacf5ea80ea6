//! Cutting a deck into slides. A line of three or more dashes, followed by
//! nothing but blanks, separates two slides, unless it stands inside a fenced
//! code block, where it is code like any other line.

use vstd::prelude::*;
use crate::text::{blank, blanks_from, blanks_from_bounds, count_run, lines_view, run_length, slice_of};

verus! {

/// A line that opens or closes a fenced code block: it starts with three
/// backticks.
pub open spec fn is_fence(line: Seq<char>) -> bool {
    run_length(line, '`', 0) >= 3
}

/// A line that separates two slides where it stands outside code: at least
/// three dashes, then blanks only.
pub open spec fn is_separator(line: Seq<char>) -> bool {
    let dashes = run_length(line, '-', 0);
    dashes >= 3 && dashes + blanks_from(line, dashes) == line.len()
}

/// Whether a fenced code block is open after `lines`: each fence line opens
/// a block or closes the open one.
pub open spec fn fence_open(lines: Seq<Seq<char>>) -> bool
    decreases lines.len(),
{
    if lines.len() == 0 {
        false
    } else {
        fence_open(lines.drop_last()) != is_fence(lines.last())
    }
}

/// Whether the line at `at` separates two slides: a separator outside code.
pub open spec fn splits_at(lines: Seq<Seq<char>>, at: int) -> bool {
    0 <= at < lines.len() && is_separator(lines[at]) && !fence_open(lines.subrange(0, at))
}

/// How many lines of `lines` separate two slides.
pub open spec fn separator_count(lines: Seq<Seq<char>>) -> nat
    decreases lines.len(),
{
    if lines.len() == 0 {
        0
    } else if splits_at(lines, lines.len() - 1) {
        separator_count(lines.drop_last()) + 1
    } else {
        separator_count(lines.drop_last())
    }
}

/// The lines of `lines` that separate nothing, in order.
pub open spec fn content_lines(lines: Seq<Seq<char>>) -> Seq<Seq<char>>
    decreases lines.len(),
{
    if lines.len() == 0 {
        Seq::empty()
    } else if splits_at(lines, lines.len() - 1) {
        content_lines(lines.drop_last())
    } else {
        content_lines(lines.drop_last()).push(lines.last())
    }
}

/// The slides of a deck, each with its lines: a separating line ends one
/// slide and starts the next, and belongs to neither.
pub open spec fn slides_of(lines: Seq<Seq<char>>) -> Seq<Seq<Seq<char>>>
    decreases lines.len(),
{
    if lines.len() == 0 {
        seq![Seq::empty()]
    } else {
        let before = slides_of(lines.drop_last());
        if splits_at(lines, lines.len() - 1) {
            before.push(Seq::empty())
        } else {
            before.drop_last().push(before.last().push(lines.last()))
        }
    }
}

/// The slides held by a vector of vectors of lines.
pub open spec fn slides_view(slides: Seq<Vec<Vec<char>>>) -> Seq<Seq<Seq<char>>> {
    Seq::new(slides.len(), |i: int| lines_view(slides[i]@))
}

/// A deck with `n` separating lines has `n + 1` slides, and the slides put
/// end to end are the deck's other lines in their order.
pub proof fn slides_keep_count_and_order(lines: Seq<Seq<char>>)
    ensures
        slides_of(lines).len() == separator_count(lines) + 1,
        slides_of(lines).flatten() == content_lines(lines),
    decreases lines.len(),
{
    if lines.len() == 0 {
        assert(slides_of(lines) == seq![Seq::<Seq<char>>::empty()]);
        seq![Seq::<Seq<char>>::empty()].lemma_flatten_one_element();
        assert(slides_of(lines).flatten() =~= Seq::<Seq<char>>::empty());
    } else {
        let before = slides_of(lines.drop_last());
        slides_keep_count_and_order(lines.drop_last());
        if splits_at(lines, lines.len() - 1) {
            before.lemma_flatten_push(Seq::empty());
            assert(before.flatten() + Seq::<Seq<char>>::empty() =~= before.flatten());
        } else {
            let head = before.drop_last();
            let tail = before.last();
            assert(before == head.push(tail));
            head.lemma_flatten_push(tail);
            head.lemma_flatten_push(tail.push(lines.last()));
            assert(head.flatten() + tail.push(lines.last()) =~= (head.flatten() + tail).push(
                lines.last(),
            ));
        }
    }
}

/// Whether `line` opens or closes a fenced code block.
pub fn fence_line(line: &Vec<char>) -> (yes: bool)
    ensures
        yes == is_fence(line@),
{
    count_run(line, '`', 0) >= 3
}

/// Whether `line` is a separator: at least three dashes, then blanks only.
pub fn separator_line(line: &Vec<char>) -> (yes: bool)
    ensures
        yes == is_separator(line@),
{
    let dashes = count_run(line, '-', 0);
    if dashes < 3 {
        return false;
    }
    let mut i: usize = dashes;
    while i < line.len() && blank(line[i])
        invariant
            dashes <= i <= line.len(),
            blanks_from(line@, dashes as int) == (i - dashes) + blanks_from(line@, i as int),
        decreases line.len() - i,
    {
        i += 1;
    }
    proof {
        blanks_from_bounds(line@, dashes as int);
    }
    i == line.len()
}

/// Cuts the lines of a deck into its slides.
pub fn split_slides(lines: &Vec<Vec<char>>) -> (slides: Vec<Vec<Vec<char>>>)
    ensures
        slides_view(slides@) == slides_of(lines_view(lines@)),
        slides.len() == separator_count(lines_view(lines@)) + 1,
{
    let ghost all = lines_view(lines@);
    let mut slides: Vec<Vec<Vec<char>>> = Vec::new();
    let mut current: Vec<Vec<char>> = Vec::new();
    let mut in_code = false;
    let mut i: usize = 0;
    proof {
        assert(lines_view(current@) =~= Seq::<Seq<char>>::empty());
        assert(slides_view(slides@).push(lines_view(current@)) =~= seq![
            Seq::<Seq<char>>::empty(),
        ]);
    }
    while i < lines.len()
        invariant
            i <= lines.len(),
            all == lines_view(lines@),
            in_code == fence_open(all.subrange(0, i as int)),
            slides_view(slides@).push(lines_view(current@)) == slides_of(all.subrange(0, i as int)),
        decreases lines.len() - i,
    {
        let line = &lines[i];
        let ghost done = slides_view(slides@);
        let ghost open = lines_view(current@);
        let ghost prefix = all.subrange(0, i + 1);
        proof {
            assert(prefix.drop_last() == all.subrange(0, i as int));
            assert(prefix.subrange(0, i as int) == all.subrange(0, i as int));
            assert(prefix.last() == line@);
            assert(done.push(open).drop_last() == done);
        }
        if !in_code && separator_line(line) {
            slides.push(current);
            current = Vec::new();
            assert(slides_view(slides@) == done.push(open));
            assert(lines_view(current@) == Seq::<Seq<char>>::empty());
        } else {
            if fence_line(line) {
                in_code = !in_code;
            }
            current.push(slice_of(line, 0, line.len()));
            assert(line@.subrange(0, line.len() as int) == line@);
            assert(lines_view(current@) == open.push(line@));
        }
        i += 1;
    }
    assert(all.subrange(0, lines.len() as int) == all);
    let ghost done = slides_view(slides@);
    slides.push(current);
    assert(slides_view(slides@) == done.push(lines_view(current@)));
    proof {
        slides_keep_count_and_order(all);
    }
    slides
}

} // verus!
