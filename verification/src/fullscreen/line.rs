//! The line that is typed on the full screen. The cursor may lie anywhere: it counts as the
//! nearest boundary before it.
use vstd::prelude::*;

use crate::cursor;
use crate::edit;
use crate::ui::{AppState, AppStateView, ComposerStateView};

verus! {

/// The boundary that a cursor counts as.
pub open spec fn settled(buffer: Seq<char>, at: usize) -> int {
    cursor::floor_boundary(buffer, cursor::least(at as int, cursor::byte_len(buffer)))
}

/// The boundary that a cursor counts as.
pub fn normalized_cursor(buffer: &str, at: usize) -> (found: usize)
    ensures
        found == settled(buffer@, at),
        cursor::boundary(buffer@, found as int),
        found <= at,
{
    let least: usize = cursor::min(at, cursor::len_of(buffer));
    proof {
        cursor::lemma_floor(buffer@, least as int);
    }
    cursor::floor_of(buffer, least)
}

/// The line with the cursor elsewhere.
pub open spec fn cursor_moved(state: AppStateView, at: int) -> AppStateView {
    AppStateView {
        composer: ComposerStateView { cursor: at as usize, ..state.composer },
        ..state
    }
}

/// The line with another text and the cursor elsewhere.
pub open spec fn line_edited(state: AppStateView, buffer: Seq<char>, at: int) -> AppStateView {
    AppStateView {
        composer: ComposerStateView { buffer, cursor: at as usize, ..state.composer },
        ..state
    }
}

/// The boundary before a cursor.
pub open spec fn boundary_before(buffer: Seq<char>, at: usize) -> int {
    edit::before(buffer, settled(buffer, at))
}

/// The boundary after a cursor.
pub open spec fn boundary_after(buffer: Seq<char>, at: usize) -> int {
    edit::after(buffer, settled(buffer, at))
}

/// The boundary before a cursor.
pub fn previous_char_boundary(buffer: &str, at: usize) -> (found: usize)
    ensures
        found == boundary_before(buffer@, at),
        cursor::boundary(buffer@, found as int),
{
    let here: usize = normalized_cursor(buffer, at);
    edit::prev_char_boundary(buffer, here)
}

/// The boundary after a cursor.
pub fn next_char_boundary(buffer: &str, at: usize) -> (found: usize)
    ensures
        found == boundary_after(buffer@, at),
        cursor::boundary(buffer@, found as int),
{
    let here: usize = normalized_cursor(buffer, at);
    edit::next_char_boundary(buffer, here)
}

/// Moves before the character before the cursor.
pub fn move_composer_cursor_left(state: &mut AppState)
    ensures
        final(state)@ == cursor_moved(
            old(state)@,
            boundary_before(old(state)@.composer.buffer, old(state)@.composer.cursor),
        ),
{
    let at: usize = previous_char_boundary(state.composer.buffer.as_str(), state.composer.cursor);
    state.composer.cursor = at;
}

/// Moves behind the character after the cursor.
pub fn move_composer_cursor_right(state: &mut AppState)
    ensures
        final(state)@ == cursor_moved(
            old(state)@,
            boundary_after(old(state)@.composer.buffer, old(state)@.composer.cursor),
        ),
{
    let at: usize = next_char_boundary(state.composer.buffer.as_str(), state.composer.cursor);
    state.composer.cursor = at;
}

/// The state after a character was typed.
pub open spec fn char_typed(state: AppStateView, ch: char) -> AppStateView {
    let buffer = state.composer.buffer;
    let at = settled(buffer, state.composer.cursor);
    line_edited(
        state,
        edit::put_in(buffer, cursor::chars_before(buffer, at), seq![ch]),
        at + cursor::char_width(ch),
    )
}

/// Types a character.
pub fn insert_composer_char(state: &mut AppState, ch: char)
    ensures
        final(state)@ == char_typed(old(state)@, ch),
        cursor::boundary(final(state)@.composer.buffer, final(state)@.composer.cursor as int),
        cursor::byte_len(final(state)@.composer.buffer) == cursor::byte_len(
            old(state)@.composer.buffer,
        ) + cursor::char_width(ch),
        cursor::byte_len(final(state)@.composer.buffer) <= usize::MAX,
{
    let at: usize = normalized_cursor(state.composer.buffer.as_str(), state.composer.cursor);
    let mut one: String = String::new();
    one.push(ch);
    assert(one@ =~= seq![ch]);
    proof {
        cursor::lemma_encode_one(ch);
        cursor::lemma_char_width(ch);
        edit::lemma_put_in(state.composer.buffer@, at as int, seq![ch]);
    }
    edit::insert_at(&mut state.composer.buffer, at, one.as_str());
    proof {
        cursor::lemma_boundary(state.composer.buffer@, at + cursor::char_width(ch));
    }
    state.composer.cursor = at + cursor::width_of(ch);
}

/// The state without the character before the cursor.
pub open spec fn char_erased(state: AppStateView) -> AppStateView {
    let buffer = state.composer.buffer;
    let at = settled(buffer, state.composer.cursor);
    if at == 0 {
        state
    } else {
        line_edited(
            state,
            edit::cut(
                buffer,
                cursor::chars_before(buffer, edit::before(buffer, at)),
                cursor::chars_before(buffer, at),
            ),
            edit::before(buffer, at),
        )
    }
}

/// Takes out the character before the cursor.
pub fn delete_composer_backward(state: &mut AppState)
    ensures
        final(state)@ == char_erased(old(state)@),
{
    let at: usize = normalized_cursor(state.composer.buffer.as_str(), state.composer.cursor);
    if at == 0 {
        return ;
    }
    let from: usize = edit::prev_char_boundary(state.composer.buffer.as_str(), at);
    edit::cut_out(&mut state.composer.buffer, from, at);
    state.composer.cursor = from;
}

/// The state without the character after the cursor, which stays where it is.
pub open spec fn char_deleted(state: AppStateView) -> AppStateView {
    let buffer = state.composer.buffer;
    let at = settled(buffer, state.composer.cursor);
    if at >= cursor::byte_len(buffer) {
        state
    } else {
        line_edited(
            state,
            edit::cut(
                buffer,
                cursor::chars_before(buffer, at),
                cursor::chars_before(buffer, edit::after(buffer, at)),
            ),
            state.composer.cursor as int,
        )
    }
}

/// Takes out the character after the cursor.
pub fn delete_composer_forward(state: &mut AppState)
    ensures
        final(state)@ == char_deleted(old(state)@),
{
    let at: usize = normalized_cursor(state.composer.buffer.as_str(), state.composer.cursor);
    if at >= cursor::len_of(state.composer.buffer.as_str()) {
        return ;
    }
    let end: usize = edit::next_char_boundary(state.composer.buffer.as_str(), at);
    edit::cut_out(&mut state.composer.buffer, at, end);
}

/// A text with a bar where the cursor is.
pub open spec fn with_bar(buffer: Seq<char>, at: usize) -> Seq<char> {
    let k = cursor::chars_before(buffer, settled(buffer, at));
    buffer.take(k) + seq!['|'] + buffer.skip(k)
}

/// A text with a bar where the cursor is.
pub fn composer_with_cursor(buffer: &str, at: usize) -> (out: String)
    ensures
        out@ == with_bar(buffer@, at),
{
    let here: usize = normalized_cursor(buffer, at);
    let (head, tail) = cursor::split_at_byte(buffer, here);
    let mut out: String = head;
    out.push('|');
    out.append(tail.as_str());
    assert(out@ =~= with_bar(buffer@, at));
    out
}

/// As many stars.
pub open spec fn stars(n: int) -> Seq<char> {
    Seq::new(n as nat, |i: int| '*')
}

/// A text with every character starred and a bar where the cursor is.
pub open spec fn masked(buffer: Seq<char>, at: usize) -> Seq<char> {
    let k = cursor::chars_before(buffer, settled(buffer, at));
    stars(k) + seq!['|'] + stars(buffer.len() - k)
}

fn push_stars(out: &mut String, n: usize)
    ensures
        final(out)@ == old(out)@ + stars(n as int),
{
    let mut i: usize = 0;
    assert(out@ =~= out@ + stars(0));
    while i < n
        invariant
            i <= n,
            out@ == old(out)@ + stars(i as int),
        decreases n - i,
    {
        out.push('*');
        assert(stars(i as int).push('*') =~= stars(i + 1));
        i = i + 1;
        assert(out@ =~= old(out)@ + stars(i as int));
    }
}

/// A text with every character starred and a bar where the cursor is.
pub fn masked_text_with_cursor(buffer: &str, at: usize) -> (out: String)
    ensures
        out@ == masked(buffer@, at),
{
    let here: usize = normalized_cursor(buffer, at);
    let (head, tail) = cursor::split_at_byte(buffer, here);
    let before: usize = crate::text::chars_of(head.as_str()).len();
    let after: usize = crate::text::chars_of(tail.as_str()).len();
    proof {
        cursor::lemma_boundary(buffer@, here as int);
    }
    let mut out: String = String::new();
    push_stars(&mut out, before);
    out.push('|');
    push_stars(&mut out, after);
    assert(out@ =~= masked(buffer@, at));
    out
}

/// A masked text shows how long the text is and where the cursor is, and nothing more: two texts of
/// the same length with the cursor after as many characters look the same.
pub proof fn law_mask_hides_the_text(a: Seq<char>, b: Seq<char>, at_a: usize, at_b: usize)
    requires
        a.len() == b.len(),
        cursor::chars_before(a, settled(a, at_a)) == cursor::chars_before(b, settled(b, at_b)),
    ensures
        masked(a, at_a) == masked(b, at_b),
{
}

/// A character that is typed and taken back leaves the text as it was and the cursor on the
/// boundary that it counted as; so where the cursor was on a boundary, everything is as it was. The
/// text with the character in it has a length, as every text that was typed has.
pub proof fn law_erasing_undoes_typing(state: AppStateView, ch: char)
    requires
        cursor::byte_len(state.composer.buffer) + cursor::char_width(ch) <= usize::MAX,
    ensures
        cursor::boundary(state.composer.buffer, state.composer.cursor as int) ==> char_erased(
            char_typed(state, ch),
        ) == state,
        char_erased(char_typed(state, ch)) == cursor_moved(
            state,
            settled(state.composer.buffer, state.composer.cursor),
        ),
{
    let s = state.composer.buffer;
    let low = cursor::least(state.composer.cursor as int, cursor::byte_len(s));
    cursor::lemma_floor(s, low);
    let at = settled(s, state.composer.cursor);
    cursor::lemma_boundary(s, at);
    let k = cursor::chars_before(s, at);
    let t = edit::put_in(s, k, seq![ch]);
    let end = at + cursor::char_width(ch);
    cursor::lemma_encode_one(ch);
    cursor::lemma_char_width(ch);
    edit::lemma_put_in(s, at, seq![ch]);
    cursor::lemma_boundary(t, end);
    cursor::lemma_floor(t, end);
    assert(settled(t, end as usize) == end);
    cursor::lemma_step_from(t, end);
    assert(t.take(k) =~= s.take(k));
    assert(edit::before(t, end) == at);
    assert(edit::cut(t, k, k + 1) =~= s);
    if cursor::boundary(s, state.composer.cursor as int) {
        cursor::lemma_boundary(s, state.composer.cursor as int);
        assert(at == state.composer.cursor);
    }
}

/// A character goes where the cursor is and changes nothing else of the line; what the cursor shows
/// stands just there.
pub proof fn law_a_character_goes_to_the_cursor(state: AppStateView, ch: char)
    requires
        cursor::boundary(state.composer.buffer, state.composer.cursor as int),
        cursor::byte_len(state.composer.buffer) + cursor::char_width(ch) <= usize::MAX,
    ensures
        ({
            let line = state.composer.buffer;
            let at = state.composer.cursor;
            let k = cursor::chars_before(line, at as int);
            let now = char_typed(state, ch);
            &&& 0 <= k <= line.len()
            &&& now.composer.buffer == line.take(k).push(ch) + line.skip(k)
            &&& now.composer.cursor == at + cursor::char_width(ch)
            &&& now.transcript == state.transcript
            &&& with_bar(line, at) == line.take(k).push('|') + line.skip(k)
            &&& masked(line, at).len() == line.len() + 1
            &&& forall|i: int|
                0 <= i < masked(line, at).len() ==> #[trigger] masked(line, at)[i] == (if i == k {
                    '|'
                } else {
                    '*'
                })
        }),
{
    let line = state.composer.buffer;
    let at = state.composer.cursor as int;
    let k = cursor::chars_before(line, at);
    cursor::lemma_boundary(line, at);
    assert(cursor::least(at, cursor::byte_len(line)) == at);
    assert(settled(line, state.composer.cursor) == at);
    assert(line.take(k) + seq![ch] =~= line.take(k).push(ch));
    assert(line.take(k) + seq!['|'] =~= line.take(k).push('|'));
}

/// Erasing takes the one character before the cursor and deleting the one behind it; neither does
/// anything where there is none.
pub proof fn law_one_character_is_taken(state: AppStateView)
    requires
        cursor::boundary(state.composer.buffer, state.composer.cursor as int),
    ensures
        ({
            let line = state.composer.buffer;
            let k = cursor::chars_before(line, state.composer.cursor as int);
            &&& k == 0 ==> char_erased(state) == state
            &&& k > 0 ==> char_erased(state).composer.buffer == line.take(k - 1) + line.skip(k)
            &&& k == line.len() ==> char_deleted(state) == state
            &&& k < line.len() ==> char_deleted(state).composer.buffer == line.take(k) + line.skip(
                k + 1,
            ) && char_deleted(state).composer.cursor == state.composer.cursor
        }),
{
    let line = state.composer.buffer;
    let at = state.composer.cursor as int;
    let k = cursor::chars_before(line, at);
    cursor::lemma_boundary(line, at);
    cursor::lemma_ends(line);
    cursor::lemma_step_from(line, at);
    assert(cursor::least(at, cursor::byte_len(line)) == at);
    assert(settled(line, state.composer.cursor) == at);
    if k > 0 {
        cursor::lemma_chars_before_byte_at(line, k - 1);
        cursor::lemma_byte_at_monotone(line, 0, k);
    }
    if k < line.len() {
        cursor::lemma_chars_before_byte_at(line, k + 1);
        cursor::lemma_byte_at_monotone(line, k, line.len() as int);
    }
}

/// The arrows go over one character and change none.
pub proof fn law_the_cursor_goes_over_one_character(state: AppStateView, at: int)
    requires
        cursor::boundary(state.composer.buffer, state.composer.cursor as int),
    ensures
        ({
            let line = state.composer.buffer;
            let k = cursor::chars_before(line, state.composer.cursor as int);
            let left = boundary_before(line, state.composer.cursor);
            let right = boundary_after(line, state.composer.cursor);
            &&& cursor_moved(state, at).composer.buffer == line
            &&& 0 <= at <= usize::MAX ==> cursor_moved(state, at).composer.cursor == at
            &&& k > 0 ==> cursor::chars_before(line, left) == k - 1
            &&& k == 0 ==> left == 0
            &&& k < line.len() ==> cursor::chars_before(line, right) == k + 1
            &&& k == line.len() ==> right == state.composer.cursor
        }),
{
    let line = state.composer.buffer;
    let at = state.composer.cursor as int;
    let k = cursor::chars_before(line, at);
    cursor::lemma_boundary(line, at);
    cursor::lemma_ends(line);
    cursor::lemma_step_from(line, at);
    assert(cursor::least(at, cursor::byte_len(line)) == at);
    assert(settled(line, state.composer.cursor) == at);
    if k > 0 {
        cursor::lemma_chars_before_byte_at(line, k - 1);
        cursor::lemma_byte_at_monotone(line, 0, k);
    }
    if k < line.len() {
        cursor::lemma_chars_before_byte_at(line, k + 1);
        cursor::lemma_byte_at_monotone(line, k, line.len() as int);
    }
}

} // verus!
