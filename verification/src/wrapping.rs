//! Long lines broken into rows.
use vstd::prelude::*;

use crate::text;

verus! {

broadcast use text::group_views;

/// The index of the last white space in a text, or -1.
pub open spec fn last_space(s: Seq<char>) -> int
    decreases s.len(),
{
    if s.len() == 0 {
        -1
    } else if text::is_space(s.last()) {
        s.len() - 1
    } else {
        last_space(s.drop_last())
    }
}

/// Where the first row of a line ends: at the end of a line that fits, else at the last white
/// space that leaves something on the row, else where the row is full.
pub open spec fn row_end(s: Seq<char>, width: int) -> int {
    if s.len() <= width {
        s.len() as int
    } else if last_space(s.take(width)) > 0 {
        last_space(s.take(width))
    } else {
        width
    }
}

/// The rows of a line. White space where a row ends is left out.
pub open spec fn rows_of(s: Seq<char>, width: int) -> Seq<Seq<char>>
    decreases s.len(),
    via rows_of_terminates
{
    if s.len() == 0 || width <= 0 {
        Seq::empty()
    } else {
        let end = row_end(s, width);
        seq![text::trim_end_of(s.take(end))] + rows_of(text::trim_start_of(s.skip(end)), width)
    }
}

#[via_fn]
proof fn rows_of_terminates(s: Seq<char>, width: int) {
    if s.len() > 0 && width > 0 {
        lemma_row_end(s, width);
        text::lemma_trim_start(s.skip(row_end(s, width)));
    }
}

proof fn lemma_last_space(s: Seq<char>)
    ensures
        -1 <= last_space(s) < s.len(),
        last_space(s) >= 0 ==> text::is_space(s[last_space(s)]),
        forall|i: int| last_space(s) < i < s.len() ==> !text::is_space(#[trigger] s[i]),
    decreases s.len(),
{
    if s.len() > 0 && !text::is_space(s.last()) {
        let t = s.drop_last();
        lemma_last_space(t);
        assert forall|i: int| last_space(s) < i < s.len() implies !text::is_space(
            #[trigger] s[i],
        ) by {
            if i < t.len() {
                assert(t[i] == s[i]);
            }
        }
    }
}

proof fn lemma_row_end(s: Seq<char>, width: int)
    requires
        s.len() > 0,
        width > 0,
    ensures
        0 < row_end(s, width) <= s.len(),
        row_end(s, width) <= width,
{
    if s.len() > width {
        lemma_last_space(s.take(width));
    }
}

/// The rows of a line, of which there is at least one.
pub open spec fn line_rows(line: Seq<char>, width: int) -> Seq<Seq<char>> {
    if line.len() == 0 {
        seq![Seq::<char>::empty()]
    } else {
        rows_of(line, width)
    }
}

/// The rows of lines, one line after the other.
pub open spec fn lines_rows(lines: Seq<Seq<char>>, width: int) -> Seq<Seq<char>>
    decreases lines.len(),
{
    if lines.len() == 0 {
        Seq::empty()
    } else {
        lines_rows(lines.drop_last(), width) + line_rows(lines.last(), width)
    }
}

/// The rows of a text: none on a screen without columns, else at least one.
pub open spec fn wrapped(words: Seq<char>, width: int) -> Seq<Seq<char>> {
    if width == 0 {
        Seq::empty()
    } else if text::lines_of(words).len() == 0 {
        seq![Seq::<char>::empty()]
    } else {
        lines_rows(text::lines_of(words), width)
    }
}

/// The rows of texts, one text after the other.
pub open spec fn all_wrapped(lines: Seq<Seq<char>>, width: int) -> Seq<Seq<char>>
    decreases lines.len(),
{
    if lines.len() == 0 || width == 0 {
        Seq::empty()
    } else {
        all_wrapped(lines.drop_last(), width) + wrapped(lines.last(), width)
    }
}

/// Where the row that starts at an index ends.
fn end_of_row(chars: &Vec<char>, start: usize, width: usize) -> (end: usize)
    requires
        start < chars@.len(),
        width > 0,
    ensures
        end == start + row_end(chars@.skip(start as int), width as int),
        start < end <= chars@.len(),
{
    let ghost rest = chars@.skip(start as int);
    proof {
        lemma_row_end(rest, width as int);
    }
    let n: usize = chars.len();
    if n - start <= width {
        return n;
    }
    let mut at: usize = start + width;
    assert(rest.take(width as int) =~= rest.take(at - start));
    while at > start && !chars[at - 1].is_whitespace()
        invariant
            start <= at <= start + width,
            start + width <= chars@.len(),
            rest == chars@.skip(start as int),
            last_space(rest.take(width as int)) == last_space(rest.take(at - start)),
        decreases at,
    {
        assert(rest.take(at - start).last() == chars@[at - 1]);
        assert(rest.take(at - start).drop_last() =~= rest.take(at - 1 - start));
        at = at - 1;
    }
    proof {
        if at > start {
            assert(rest.take(at - start).last() == chars@[at - 1]);
        } else {
            assert(rest.take(0) =~= Seq::<char>::empty());
        }
    }
    if at > start + 1 {
        at - 1
    } else {
        start + width
    }
}

/// Adds the rows of a line.
fn push_rows(line: &str, width: usize, out: &mut Vec<String>)
    requires
        width > 0,
    ensures
        text::views(final(out)@) == text::views(old(out)@) + line_rows(line@, width as int),
{
    if text::is_empty(line) {
        out.push(String::new());
        assert(text::views(out@) =~= text::views(old(out)@) + line_rows(line@, width as int));
        return ;
    }
    let chars: Vec<char> = text::chars_of(line);
    let mut start: usize = 0;
    let ghost w = width as int;
    let ghost before = text::views(out@);
    assert(line@.skip(0) =~= line@);
    while start < chars.len()
        invariant
            chars@ == line@,
            start <= chars@.len(),
            width > 0,
            w == width,
            before + rows_of(line@, w) == text::views(out@) + rows_of(line@.skip(start as int), w),
        decreases chars@.len() - start,
    {
        let ghost rest = line@.skip(start as int);
        let ghost done = text::views(out@);
        let end: usize = end_of_row(&chars, start, width);
        let row: String = text::text_of(&chars, start, end);
        assert(row@ =~= rest.take(end - start));
        let kept: String = text::trim_end(row.as_str());
        out.push(kept);
        let mut next: usize = end;
        assert(line@.skip(end as int) =~= rest.skip(end - start));
        while next < chars.len() && chars[next].is_whitespace()
            invariant
                chars@ == line@,
                end <= next <= chars@.len(),
                text::trim_start_of(line@.skip(end as int)) == text::trim_start_of(
                    line@.skip(next as int),
                ),
            decreases chars@.len() - next,
        {
            assert(line@.skip(next as int).drop_first() =~= line@.skip(next + 1));
            assert(line@.skip(next as int)[0] == chars@[next as int]);
            next = next + 1;
        }
        proof {
            let left = line@.skip(next as int);
            if left.len() > 0 {
                assert(left[0] == chars@[next as int]);
            }
            assert(text::trim_start_of(rest.skip(end - start)) == left);
            assert(done + rows_of(rest, w) =~= text::views(out@) + rows_of(left, w));
        }
        start = next;
    }
    assert(line@.skip(start as int).len() == 0);
    assert(text::views(out@) + rows_of(line@.skip(start as int), w) =~= text::views(out@));
}

/// The rows of a text.
pub fn wrap_text(words: &str, width: usize) -> (out: Vec<String>)
    ensures
        text::views(out@) == wrapped(words@, width as int),
{
    let mut out: Vec<String> = Vec::new();
    if width == 0 {
        return out;
    }
    let lines: Vec<String> = text::lines(words);
    let ghost all = text::lines_of(words@);
    let mut i: usize = 0;
    assert(all.take(0) =~= Seq::<Seq<char>>::empty());
    while i < lines.len()
        invariant
            i <= lines@.len(),
            width > 0,
            all == text::views(lines@),
            text::views(out@) == lines_rows(all.take(i as int), width as int),
        decreases lines@.len() - i,
    {
        assert(all.take(i + 1).drop_last() =~= all.take(i as int));
        assert(all.take(i + 1).last() == lines@[i as int]@);
        push_rows(lines[i].as_str(), width, &mut out);
        i = i + 1;
    }
    assert(all.take(all.len() as int) =~= all);
    if lines.len() == 0 {
        out.push(String::new());
        assert(text::views(out@) =~= seq![Seq::<char>::empty()]);
    }
    out
}

/// The rows of texts.
pub fn wrap_lines(lines: &Vec<String>, width: usize) -> (out: Vec<String>)
    ensures
        text::views(out@) == all_wrapped(text::views(lines@), width as int),
{
    let mut out: Vec<String> = Vec::new();
    if width == 0 {
        return out;
    }
    let ghost all = text::views(lines@);
    let mut i: usize = 0;
    assert(all.take(0) =~= Seq::<Seq<char>>::empty());
    while i < lines.len()
        invariant
            i <= lines@.len(),
            width > 0,
            all == text::views(lines@),
            text::views(out@) == all_wrapped(all.take(i as int), width as int),
        decreases lines@.len() - i,
    {
        assert(all.take(i + 1).drop_last() =~= all.take(i as int));
        assert(all.take(i + 1).last() == lines@[i as int]@);
        let mut rows: Vec<String> = wrap_text(lines[i].as_str(), width);
        out.append(&mut rows);
        i = i + 1;
    }
    assert(all.take(all.len() as int) =~= all);
    out
}

// -- What holds of the rows ------------------------------------------------------------------------

/// What a text shows: its characters without the white space.
pub open spec fn ink(s: Seq<char>) -> Seq<char>
    decreases s.len(),
{
    if s.len() == 0 {
        Seq::empty()
    } else if text::is_space(s.last()) {
        ink(s.drop_last())
    } else {
        ink(s.drop_last()).push(s.last())
    }
}

/// What texts show, one after the other.
pub open spec fn all_ink(rows: Seq<Seq<char>>) -> Seq<char>
    decreases rows.len(),
{
    if rows.len() == 0 {
        Seq::empty()
    } else {
        all_ink(rows.drop_last()) + ink(rows.last())
    }
}

proof fn lemma_ink_add(a: Seq<char>, b: Seq<char>)
    ensures
        ink(a + b) == ink(a) + ink(b),
    decreases b.len(),
{
    if b.len() == 0 {
        assert(a + b =~= a);
        assert(ink(a) + ink(b) =~= ink(a));
    } else {
        lemma_ink_add(a, b.drop_last());
        assert((a + b).drop_last() =~= a + b.drop_last());
        assert(ink(a + b) =~= ink(a) + ink(b));
    }
}

proof fn lemma_ink_blank(s: Seq<char>)
    requires
        text::blank(s),
    ensures
        ink(s) == Seq::<char>::empty(),
    decreases s.len(),
{
    if s.len() > 0 {
        assert(text::is_space(s[s.len() - 1]));
        assert forall|i: int| 0 <= i < s.drop_last().len() implies text::is_space(
            #[trigger] s.drop_last()[i],
        ) by {
            assert(text::is_space(s[i]));
        }
        lemma_ink_blank(s.drop_last());
    }
}

proof fn lemma_ink_trimmed(s: Seq<char>)
    ensures
        ink(text::trim_end_of(s)) == ink(s),
        ink(text::trim_start_of(s)) == ink(s),
{
    text::lemma_trim_end(s);
    text::lemma_trim_start(s);
    let k = text::trim_end_of(s).len() as int;
    assert(s =~= s.take(k) + s.skip(k));
    assert forall|i: int| 0 <= i < s.skip(k).len() implies text::is_space(
        #[trigger] s.skip(k)[i],
    ) by {
        assert(text::is_space(s[k + i]));
    }
    lemma_ink_blank(s.skip(k));
    lemma_ink_add(s.take(k), s.skip(k));
    assert(ink(s) =~= ink(s.take(k)));
    let h = s.len() - text::trim_start_of(s).len();
    assert(s =~= s.take(h) + s.skip(h));
    assert forall|i: int| 0 <= i < s.take(h).len() implies text::is_space(
        #[trigger] s.take(h)[i],
    ) by {
        assert(text::is_space(s[i]));
    }
    lemma_ink_blank(s.take(h));
    lemma_ink_add(s.take(h), s.skip(h));
    assert(ink(s) =~= ink(s.skip(h)));
}

proof fn lemma_all_ink_one(row: Seq<char>)
    ensures
        all_ink(seq![row]) == ink(row),
{
    reveal_with_fuel(all_ink, 2);
    assert(seq![row].drop_last() =~= Seq::<Seq<char>>::empty());
    assert(all_ink(seq![row]) =~= ink(row));
}

proof fn lemma_all_ink_add(a: Seq<Seq<char>>, b: Seq<Seq<char>>)
    ensures
        all_ink(a + b) == all_ink(a) + all_ink(b),
    decreases b.len(),
{
    if b.len() == 0 {
        assert(a + b =~= a);
        assert(all_ink(a) + all_ink(b) =~= all_ink(a));
    } else {
        lemma_all_ink_add(a, b.drop_last());
        assert((a + b).drop_last() =~= a + b.drop_last());
        assert(all_ink(a + b) =~= all_ink(a) + all_ink(b));
    }
}

proof fn lemma_rows_ink(s: Seq<char>, width: int)
    requires
        width > 0,
    ensures
        all_ink(rows_of(s, width)) == ink(s),
        forall|i: int|
            0 <= i < rows_of(s, width).len() ==> (#[trigger] rows_of(s, width)[i]).len() <= width,
    decreases s.len(),
{
    if s.len() > 0 {
        let end = row_end(s, width);
        lemma_row_end(s, width);
        let row = text::trim_end_of(s.take(end));
        let left = text::trim_start_of(s.skip(end));
        text::lemma_trim_start(s.skip(end));
        text::lemma_trim_end(s.take(end));
        lemma_rows_ink(left, width);
        lemma_ink_trimmed(s.take(end));
        lemma_ink_trimmed(s.skip(end));
        assert(s =~= s.take(end) + s.skip(end));
        lemma_ink_add(s.take(end), s.skip(end));
        lemma_all_ink_add(seq![row], rows_of(left, width));
        lemma_all_ink_one(row);
    }
}

proof fn lemma_lines_rows_ink(lines: Seq<Seq<char>>, width: int)
    requires
        width > 0,
    ensures
        all_ink(lines_rows(lines, width)) == all_ink(lines),
        forall|i: int|
            0 <= i < lines_rows(lines, width).len() ==> (#[trigger] lines_rows(
                lines,
                width,
            )[i]).len() <= width,
    decreases lines.len(),
{
    if lines.len() > 0 {
        let line = lines.last();
        lemma_lines_rows_ink(lines.drop_last(), width);
        lemma_rows_ink(line, width);
        lemma_all_ink_add(lines_rows(lines.drop_last(), width), line_rows(line, width));
        if line.len() == 0 {
            lemma_all_ink_one(Seq::empty());
            assert(line =~= Seq::<char>::empty());
        }
    }
}

proof fn lemma_lines_ink(s: Seq<char>)
    ensures
        all_ink(text::lines_of(s)) == ink(s),
    decreases s.len(),
{
    let k = text::first_index(s, '\n');
    text::lemma_first_index(s, '\n');
    if s.len() == 0 {
    } else if k < s.len() {
        let head = s.take(k);
        let rest = s.skip(k + 1);
        lemma_lines_ink(rest);
        assert(s =~= head + (seq!['\n'] + rest));
        lemma_ink_add(head, seq!['\n'] + rest);
        lemma_ink_add(seq!['\n'], rest);
        lemma_ink_blank(seq!['\n']);
        assert(ink(seq!['\n']) + ink(rest) =~= ink(rest));
        let line = text::without_cr(head);
        assert(ink(line) == ink(head));
        lemma_all_ink_one(line);
        lemma_all_ink_add(seq![line], text::lines_of(rest));
    } else {
        lemma_all_ink_one(s);
    }
}

/// Nothing but white space is lost or moved where a text is broken into rows, and no row is longer
/// than the screen is wide.
pub proof fn law_wrapping_keeps_the_words(words: Seq<char>, width: int)
    requires
        width > 0,
    ensures
        all_ink(wrapped(words, width)) == ink(words),
        forall|i: int|
            0 <= i < wrapped(words, width).len() ==> (#[trigger] wrapped(words, width)[i]).len()
                <= width,
{
    lemma_lines_ink(words);
    lemma_lines_rows_ink(text::lines_of(words), width);
    if text::lines_of(words).len() == 0 {
        lemma_all_ink_one(Seq::empty());
        assert(words =~= Seq::<char>::empty());
    }
}

/// A row ends at the last white space that leaves it room, and only where there is none inside a word;
/// what has room is not broken.
pub proof fn law_rows_end_between_words(s: Seq<char>, width: int)
    requires
        width > 0,
        s.len() > 0,
    ensures
        ({
            let end = row_end(s, width);
            &&& 0 < end <= width || s.len() <= width
            &&& s.len() <= width ==> end == s.len()
            &&& s.len() > width && end < width ==> text::is_space(s[end]) && forall|i: int|
                end < i < width ==> !text::is_space(#[trigger] s[i])
            &&& s.len() > width && end == width ==> forall|i: int|
                0 < i < width ==> !text::is_space(#[trigger] s[i])
        }),
{
    if s.len() > width {
        let row = s.take(width);
        lemma_last_space(row);
        assert forall|i: int| last_space(row) < i < width implies !text::is_space(#[trigger] s[i]) by {
            assert(row[i] == s[i]);
        }
    }
}

/// Lines are wrapped one by one: an empty line takes an empty row, and a text without lines one.
pub proof fn law_lines_are_wrapped_one_by_one(
    lines: Seq<Seq<char>>,
    line: Seq<char>,
    words: Seq<char>,
    width: int,
)
    requires
        width > 0,
    ensures
        lines_rows(lines.push(line), width) == lines_rows(lines, width) + line_rows(line, width),
        line_rows(Seq::empty(), width) == seq![Seq::<char>::empty()],
        line.len() > 0 && line.len() <= width ==> line_rows(line, width)[0] == text::trim_end_of(line),
        wrapped(words, 0).len() == 0,
        all_wrapped(lines.push(line), width) == all_wrapped(lines, width) + wrapped(line, width),
{
    assert(lines.push(line).drop_last() =~= lines);
    assert(line.take(line.len() as int) =~= line);
}

} // verus!
