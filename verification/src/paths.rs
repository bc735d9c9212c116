//! Paths, as text with `/` between the parts.
use vstd::prelude::*;

use crate::text;

verus! {

broadcast use text::group_views;

/// Whether a path starts at the root.
pub open spec fn rooted(path: Seq<char>) -> bool {
    path.len() > 0 && path[0] == '/'
}

/// Whether a piece of a path, at a given place among the pieces, counts as a part of it: not where
/// it is empty, nor where it is `.` after the beginning.
pub open spec fn is_part(piece: Seq<char>, at: int) -> bool {
    piece.len() > 0 && (piece == "."@ ==> at == 0)
}

/// The parts among the first pieces of a path.
pub open spec fn parts_among(pieces: Seq<Seq<char>>, count: int) -> Seq<Seq<char>>
    decreases count,
{
    if count <= 0 {
        Seq::empty()
    } else if is_part(pieces[count - 1], count - 1) {
        parts_among(pieces, count - 1).push(pieces[count - 1])
    } else {
        parts_among(pieces, count - 1)
    }
}

/// The parts of a path.
pub open spec fn parts_of(path: Seq<char>) -> Seq<Seq<char>> {
    parts_among(text::split_of(path, '/'), text::split_of(path, '/').len() as int)
}

/// Whether two paths have the same parts from the same start.
pub open spec fn same_path_of(a: Seq<char>, b: Seq<char>) -> bool {
    rooted(a) == rooted(b) && parts_of(a) == parts_of(b)
}

/// A path taken from within another: from the root it stays as it is, else it goes on after the
/// other one.
pub open spec fn joined(a: Seq<char>, b: Seq<char>) -> Seq<char> {
    if rooted(b) || a.len() == 0 {
        b
    } else if a.last() == '/' {
        a + b
    } else {
        a + "/"@ + b
    }
}

/// A path taken from within another.
pub fn join(a: &str, b: &str) -> (out: String)
    ensures
        out@ == joined(a@, b@),
{
    let chars: Vec<char> = text::chars_of(a);
    if is_absolute(b) || chars.len() == 0 {
        b.to_owned()
    } else if chars[chars.len() - 1] == '/' {
        text::glue(a, b)
    } else {
        text::glue3(a, "/", b)
    }
}

/// Whether a path starts at the root.
pub fn is_absolute(path: &str) -> (b: bool)
    ensures
        b == rooted(path@),
{
    let chars: Vec<char> = text::chars_of(path);
    chars.len() > 0 && chars[0] == '/'
}

/// The parts of a path.
pub fn parts(path: &str) -> (out: Vec<String>)
    ensures
        text::views(out@) == parts_of(path@),
{
    let pieces: Vec<String> = text::split_on(path, '/');
    let mut out: Vec<String> = Vec::new();
    let mut i: usize = 0;
    while i < pieces.len()
        invariant
            i <= pieces@.len(),
            text::views(pieces@) == text::split_of(path@, '/'),
            text::views(out@) == parts_among(text::split_of(path@, '/'), i as int),
        decreases pieces@.len() - i,
    {
        assert(text::split_of(path@, '/')[i as int] == pieces@[i as int]@);
        let piece: &str = pieces[i].as_str();
        if !text::is_empty(piece) && (i == 0 || !text::same_text(piece, ".")) {
            out.push(pieces[i].clone());
        }
        i = i + 1;
    }
    out
}

/// Whether two paths have the same parts from the same start.
pub fn same_path(a: &str, b: &str) -> (same: bool)
    ensures
        same == same_path_of(a@, b@),
{
    if is_absolute(a) != is_absolute(b) {
        return false;
    }
    let left: Vec<String> = parts(a);
    let right: Vec<String> = parts(b);
    text::same_list(&left, &right)
}

/// What is joined to a path that does not end in a slash has one before it; what begins at the root
/// stands alone.
pub proof fn law_joining_puts_one_slash_between(a: Seq<char>, b: Seq<char>)
    ensures
        b.len() > 0 && b[0] == '/' ==> joined(a, b) == b,
        a.len() == 0 ==> joined(a, b) == b,
        a.len() > 0 && a.last() != '/' && !(b.len() > 0 && b[0] == '/') ==> joined(a, b) == a.push(
            '/',
        ) + b,
        a.len() > 0 && a.last() == '/' && !(b.len() > 0 && b[0] == '/') ==> joined(a, b) == a + b,
        rooted(a) && a.len() > 0 ==> rooted(joined(a, b)),
{
    reveal_strlit("/");
    assert(a + "/"@ + b =~= a.push('/') + b);
}

/// To be the same path is an equivalence, and a path at the root is never the same as one that is not.
pub proof fn law_the_same_path_is_the_same(a: Seq<char>, b: Seq<char>, c: Seq<char>)
    ensures
        same_path_of(a, a),
        same_path_of(a, b) == same_path_of(b, a),
        same_path_of(a, b) && same_path_of(b, c) ==> same_path_of(a, c),
        same_path_of(a, b) ==> (a.len() > 0 && a[0] == '/' <==> b.len() > 0 && b[0] == '/'),
{
}

/// The parts of a path are those of its pieces that name something, in their order: none is empty, and
/// one dot is a part only where the path begins with it.
pub proof fn law_parts_name_something(pieces: Seq<Seq<char>>, count: int)
    requires
        0 <= count <= pieces.len(),
    ensures
        ({
            let parts = parts_among(pieces, count);
            &&& forall|i: int| 0 <= i < parts.len() ==> (#[trigger] parts[i]).len() > 0
            &&& forall|i: int| 0 < i < parts.len() ==> #[trigger] parts[i] != "."@
            &&& forall|k: int|
                0 <= k < count && (#[trigger] pieces[k]).len() > 0 && pieces[k] != "."@
                    ==> parts.contains(pieces[k])
            &&& forall|i: int|
                0 <= i < parts.len() ==> exists|k: int|
                    0 <= k < count && #[trigger] pieces[k] == #[trigger] parts[i]
            &&& parts.len() <= count
        }),
    decreases count,
{
    if count > 0 {
        law_parts_name_something(pieces, count - 1);
        let before = parts_among(pieces, count - 1);
        let parts = parts_among(pieces, count);
        assert forall|k: int|
            0 <= k < count && (#[trigger] pieces[k]).len() > 0 && pieces[k]
                != "."@ implies parts.contains(pieces[k]) by {
            if k < count - 1 {
                let i = choose|i: int| 0 <= i < before.len() && before[i] == pieces[k];
                assert(parts[i] == pieces[k]);
            } else {
                assert(parts[before.len() as int] == pieces[k]);
            }
        }
        assert forall|i: int| 0 <= i < parts.len() implies exists|k: int|
            0 <= k < count && #[trigger] pieces[k] == #[trigger] parts[i] by {
            if i < before.len() {
                let k = choose|k: int| 0 <= k < count - 1 && #[trigger] pieces[k] == before[i];
                assert(pieces[k] == parts[i]);
            } else {
                assert(pieces[count - 1] == parts[i]);
            }
        }
    }
}

} // verus!
