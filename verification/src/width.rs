//! The room that text takes on a terminal.
use vstd::prelude::*;

use crate::text;

verus! {

/// The number of columns that a text takes.
pub uninterp spec fn columns_of(s: Seq<char>) -> usize;

/// `unicode_width::UnicodeWidthStr::width` of a text: the number of terminal columns that the text
/// takes, which depends on the text alone.
#[verifier::external_body]
pub(crate) fn columns(s: &str) -> (n: usize)
    ensures
        n == columns_of(s@),
{
    unicode_width::UnicodeWidthStr::width(s)
}

/// The number of columns that a character takes on its own.
pub open spec fn char_columns(c: char) -> usize {
    columns_of(seq![c])
}

/// The number of columns that a character takes on its own.
pub fn columns_of_char(c: char) -> (n: usize)
    ensures
        n == char_columns(c),
{
    let mut one: String = String::new();
    one.push(c);
    assert(one@ =~= seq![c]);
    columns(one.as_str())
}

/// The number of columns that a character takes; nothing for a control character.
pub uninterp spec fn glyph_columns_of(c: char) -> Option<usize>;

/// `unicode_width::UnicodeWidthChar::width` of a character: the number of terminal columns that it
/// takes, which depends on the character alone.
#[verifier::external_body]
pub(crate) fn glyph_columns(c: char) -> (n: Option<usize>)
    ensures
        n == glyph_columns_of(c),
{
    unicode_width::UnicodeWidthChar::width(c)
}

/// The characters of a text as a reader sees them, each with what is put on top of it.
pub uninterp spec fn graphemes_of(s: Seq<char>) -> Seq<Seq<char>>;

/// Texts, one after the other.
pub open spec fn joined(parts: Seq<Seq<char>>) -> Seq<char>
    decreases parts.len(),
{
    if parts.len() == 0 {
        Seq::empty()
    } else {
        joined(parts.drop_last()) + parts.last()
    }
}

pub proof fn lemma_joined_add(a: Seq<Seq<char>>, b: Seq<Seq<char>>)
    ensures
        joined(a + b) == joined(a) + joined(b),
    decreases b.len(),
{
    if b.len() == 0 {
        assert(a + b =~= a);
        assert(joined(a) + joined(b) =~= joined(a));
    } else {
        lemma_joined_add(a, b.drop_last());
        assert((a + b).drop_last() =~= a + b.drop_last());
        assert(joined(a + b) =~= joined(a) + joined(b));
    }
}

pub proof fn lemma_joined_one(part: Seq<char>)
    ensures
        joined(seq![part]) == part,
{
    assert(seq![part].drop_last() =~= Seq::<Seq<char>>::empty());
    assert(joined(Seq::<Seq<char>>::empty()) + part =~= part);
}

/// The pieces between the occurrences of a character, one after the other, are the text without that
/// character.
pub proof fn lemma_joined_split(s: Seq<char>, c: char)
    ensures
        joined(text::split_of(s, c)) == s.filter(|x: char| x != c),
    decreases s.len(),
{
    let keep = |x: char| x != c;
    let k = text::first_index(s, c);
    text::lemma_first_index(s, c);
    if k < s.len() {
        let rest = s.skip(k + 1);
        lemma_joined_split(rest, c);
        lemma_joined_add(seq![s.take(k)], text::split_of(rest, c));
        lemma_joined_one(s.take(k));
        lemma_filter_without(s.take(k), c);
        assert(s =~= s.take(k).push(c) + rest);
        Seq::filter_distributes_over_add(s.take(k).push(c), rest, keep);
        reveal(Seq::filter);
        assert(s.take(k).push(c).drop_last() =~= s.take(k));
    } else {
        lemma_joined_one(s);
        lemma_filter_without(s, c);
    }
}

proof fn lemma_filter_without(s: Seq<char>, c: char)
    requires
        forall|i: int| 0 <= i < s.len() ==> #[trigger] s[i] != c,
    ensures
        s.filter(|x: char| x != c) == s,
    decreases s.len(),
{
    reveal(Seq::filter);
    if s.len() > 0 {
        lemma_filter_without(s.drop_last(), c);
        assert(s[s.len() - 1] != c);
        assert(s.drop_last().push(s.last()) =~= s);
    } else {
        assert(s.filter(|x: char| x != c) =~= s);
    }
}

/// `unicode_segmentation::UnicodeSegmentation::grapheme_indices` of a text, with the extended
/// clusters, without the offsets. The clusters depend on the text alone; they cut the text into
/// pieces, none of them empty, that make up the text again one after the other.
#[verifier::external_body]
pub(crate) fn graphemes(s: &str) -> (parts: Vec<String>)
    ensures
        text::views(parts@) == graphemes_of(s@),
        joined(text::views(parts@)) == s@,
        forall|i: int| 0 <= i < parts@.len() ==> (#[trigger] parts@[i])@.len() > 0,
{
    let clusters = unicode_segmentation::UnicodeSegmentation::grapheme_indices(s, true);
    clusters.map(|cluster| cluster.1.to_owned()).collect()
}

} // verus!
