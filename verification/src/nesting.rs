//! A test on the bytes of a theme definition before they are handed to the
//! reader of property lists. That reader descends once for each element that
//! stands open, so a definition is read only where it is a plain XML
//! document whose elements are nested no deeper than a fixed limit: it
//! begins with an XML declaration, every tag holds no `<` and ends at the
//! first `>` after its start with no quotation open, and comments,
//! processing instructions and the document type end where they must; the
//! document type declares nothing of its own.
//! Anything else is refused unread.

use vstd::prelude::*;

verus! {

/// How deep the elements of a theme definition may be nested.
pub const NESTING_LIMIT: usize = 64;

/// Where the first `>` stands in `bytes` at or after `from`, or the length
/// of `bytes` where there is none.
pub open spec fn tag_close(bytes: Seq<u8>, from: int) -> int
    decreases bytes.len() - from,
{
    if 0 <= from < bytes.len() && bytes[from] != 62 {
        tag_close(bytes, from + 1)
    } else if from < bytes.len() {
        from
    } else {
        bytes.len() as int
    }
}

/// The first `>` at or after a place stands at or after that place.
pub proof fn tag_close_bounds(bytes: Seq<u8>, from: int)
    requires
        0 <= from <= bytes.len(),
    ensures
        from <= tag_close(bytes, from) <= bytes.len(),
        tag_close(bytes, from) < bytes.len() ==> bytes[tag_close(bytes, from)] == 62,
    decreases bytes.len() - from,
{
    if from < bytes.len() && bytes[from] != 62 {
        tag_close_bounds(bytes, from + 1);
    }
}

/// Which quotation is open after the bytes from `from` up to `to`: none
/// (0), one in double quotes (1), or one in single quotes (2).
pub open spec fn quote_after(bytes: Seq<u8>, from: int, to: int) -> int
    decreases to - from,
{
    if from >= to {
        0
    } else {
        let before = quote_after(bytes, from, to - 1);
        let byte = bytes[to - 1];
        if before == 0 {
            if byte == 34 {
                1
            } else if byte == 39 {
                2
            } else {
                0
            }
        } else if before == 1 {
            if byte == 34 {
                0
            } else {
                1
            }
        } else {
            if byte == 39 {
                0
            } else {
                2
            }
        }
    }
}

/// Whether no `<` stands in `bytes` from `from` up to `to`.
pub open spec fn no_open_inside(bytes: Seq<u8>, from: int, to: int) -> bool {
    forall|k: int| from <= k < to ==> bytes[k] != 60
}

/// Whether the tag that starts at `at` and ends with the `>` at `end` is a
/// comment that ends in `-->`.
pub open spec fn is_comment(bytes: Seq<u8>, at: int, end: int) -> bool {
    end >= at + 6 && bytes[at + 2] == 45 && bytes[at + 3] == 45 && bytes[end - 2] == 45 && bytes[end
        - 1] == 45
}

/// Whether no `[` stands in `bytes` from `from` up to `to`.
pub open spec fn no_bracket_inside(bytes: Seq<u8>, from: int, to: int) -> bool {
    forall|k: int| from <= k < to ==> bytes[k] != 91
}

/// Whether the tag that starts at `at` and ends with the `>` at `end` is a
/// document type without declarations of its own.
pub open spec fn is_doctype(bytes: Seq<u8>, at: int, end: int) -> bool {
    end >= at + 9 && bytes.subrange(at + 2, at + 9) == seq![68u8, 79u8, 67u8, 84u8, 89u8, 80u8, 69u8]
        && no_bracket_inside(bytes, at + 1, end)
}

/// Whether the tag that starts with the `<` at `at` and ends with the `>` at
/// `end` is plain: no `<` stands in it, and it is a comment, or no quotation
/// is open at its end and it is a document type, a processing instruction
/// that ends in `?>`, or the tag of an element.
pub open spec fn plain_tag(bytes: Seq<u8>, at: int, end: int) -> bool {
    &&& no_open_inside(bytes, at + 1, end)
    &&& if bytes[at + 1] == 33 {
        is_comment(bytes, at, end) || (is_doctype(bytes, at, end) && quote_after(
            bytes,
            at + 1,
            end,
        ) == 0)
    } else if bytes[at + 1] == 63 {
        end >= at + 3 && bytes[end - 1] == 63 && quote_after(bytes, at + 1, end) == 0
    } else {
        quote_after(bytes, at + 1, end) == 0
    }
}

/// Whether the tags of `bytes` from `at` on are plain and its elements are
/// nested no deeper than the limit, when `depth` elements stand open at
/// `at`. A tag that nothing ends is the end of what is read.
pub open spec fn shallow_from(bytes: Seq<u8>, at: int, depth: int) -> bool
    decreases bytes.len() - at,
    via shallow_from_decreases
{
    if at < 0 || at >= bytes.len() {
        true
    } else if bytes[at] != 60 {
        shallow_from(bytes, at + 1, depth)
    } else {
        let end = tag_close(bytes, at + 1);
        if end >= bytes.len() {
            true
        } else if !plain_tag(bytes, at, end) {
            false
        } else if bytes[at + 1] == 33 || bytes[at + 1] == 63 {
            shallow_from(bytes, end + 1, depth)
        } else if bytes[at + 1] == 47 {
            shallow_from(
                bytes,
                end + 1,
                if depth > 0 {
                    depth - 1
                } else {
                    0
                },
            )
        } else if depth >= NESTING_LIMIT {
            false
        } else if end - 1 > at && bytes[end - 1] == 47 {
            shallow_from(bytes, end + 1, depth)
        } else {
            shallow_from(bytes, end + 1, depth + 1)
        }
    }
}

#[via_fn]
proof fn shallow_from_decreases(bytes: Seq<u8>, at: int, depth: int) {
    if 0 <= at < bytes.len() {
        tag_close_bounds(bytes, at + 1);
    }
}

/// Whether `bytes` begin with an XML declaration: `<?xml` and a space.
pub open spec fn is_declared(bytes: Seq<u8>) -> bool {
    bytes.len() >= 6 && bytes[0] == 60 && bytes[1] == 63 && bytes[2] == 120 && bytes[3] == 109
        && bytes[4] == 108 && bytes[5] == 32
}

/// Whether `bytes` may be handed to the reader of property lists: they
/// begin with an XML declaration, their tags are plain, and their elements
/// are nested no deeper than the limit.
pub open spec fn is_readable(bytes: Seq<u8>) -> bool {
    is_declared(bytes) && shallow_from(bytes, 0, 0)
}

/// Finds the first `>` in `bytes` at or after `from`.
fn find_close(bytes: &Vec<u8>, from: usize) -> (end: usize)
    requires
        from <= bytes.len(),
    ensures
        end == tag_close(bytes@, from as int),
        from <= end <= bytes.len(),
{
    let mut i: usize = from;
    while i < bytes.len() && bytes[i] != 62
        invariant
            from <= i <= bytes.len(),
            tag_close(bytes@, from as int) == tag_close(bytes@, i as int),
        decreases bytes.len() - i,
    {
        i += 1;
    }
    i
}

/// Whether the tag from `at` to `end` is plain.
fn tag_is_plain(bytes: &Vec<u8>, at: usize, end: usize) -> (plain: bool)
    requires
        at < end < bytes.len(),
    ensures
        plain == plain_tag(bytes@, at as int, end as int),
{
    let mut quote: u8 = 0;
    let mut bracket = false;
    let mut k: usize = at + 1;
    while k < end
        invariant
            at < k <= end < bytes.len(),
            quote == quote_after(bytes@, at + 1, k as int),
            no_open_inside(bytes@, at + 1, k as int),
            bracket == !no_bracket_inside(bytes@, at + 1, k as int),
        decreases end - k,
    {
        let byte = bytes[k];
        if byte == 60 {
            return false;
        }
        if byte == 91 {
            bracket = true;
        }
        if quote == 0 {
            if byte == 34 {
                quote = 1;
            } else if byte == 39 {
                quote = 2;
            }
        } else if quote == 1 {
            if byte == 34 {
                quote = 0;
            }
        } else {
            if byte == 39 {
                quote = 0;
            }
        }
        k += 1;
    }
    let second = bytes[at + 1];
    if second == 33 {
        let comment = end - at >= 6 && bytes[at + 2] == 45 && bytes[at + 3] == 45 && bytes[end - 2]
            == 45 && bytes[end - 1] == 45;
        let doctype = end - at >= 9 && bytes[at + 2] == 68 && bytes[at + 3] == 79 && bytes[at + 4]
            == 67 && bytes[at + 5] == 84 && bytes[at + 6] == 89 && bytes[at + 7] == 80 && bytes[at
            + 8] == 69;
        proof {
            if end >= at + 9 {
                let name = bytes@.subrange(at + 2, at + 9);
                let wanted = seq![68u8, 79u8, 67u8, 84u8, 89u8, 80u8, 69u8];
                if doctype {
                    assert(name =~= wanted);
                } else {
                    assert(name[0] == bytes@[at + 2] && name[1] == bytes@[at + 3] && name[2]
                        == bytes@[at + 4] && name[3] == bytes@[at + 5] && name[4] == bytes@[at + 6]
                        && name[5] == bytes@[at + 7] && name[6] == bytes@[at + 8]);
                    assert(wanted[0] == 68 && wanted[1] == 79 && wanted[2] == 67 && wanted[3] == 84
                        && wanted[4] == 89 && wanted[5] == 80 && wanted[6] == 69);
                }
            }
        }
        comment || (doctype && !bracket && quote == 0)
    } else if second == 63 {
        end - at >= 3 && bytes[end - 1] == 63 && quote == 0
    } else {
        quote == 0
    }
}

/// Whether `bytes` may be handed to the reader of property lists.
pub fn readable(bytes: &Vec<u8>) -> (yes: bool)
    ensures
        yes == is_readable(bytes@),
{
    let n = bytes.len();
    if !(n >= 6 && bytes[0] == 60 && bytes[1] == 63 && bytes[2] == 120 && bytes[3] == 109
        && bytes[4] == 108 && bytes[5] == 32) {
        return false;
    }
    let mut depth: usize = 0;
    let mut i: usize = 0;
    while i < n
        invariant
            i <= n == bytes.len(),
            depth <= NESTING_LIMIT,
            is_declared(bytes@),
            shallow_from(bytes@, 0, 0) == shallow_from(bytes@, i as int, depth as int),
        decreases n - i,
    {
        if bytes[i] != 60 {
            i += 1;
        } else {
            let end = find_close(bytes, i + 1);
            if end >= n {
                return true;
            }
            if !tag_is_plain(bytes, i, end) {
                return false;
            }
            let second = bytes[i + 1];
            if second == 33 || second == 63 {
            } else if second == 47 {
                if depth > 0 {
                    depth -= 1;
                }
            } else if depth >= NESTING_LIMIT {
                return false;
            } else if end - 1 > i && bytes[end - 1] == 47 {
            } else {
                depth += 1;
            }
            i = end + 1;
        }
    }
    true
}

} // verus!
