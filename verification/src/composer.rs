//! The line being typed: keys that change it, and keys that move in it.
use vstd::prelude::*;

use crate::cursor;
use crate::edit;
use crate::ui::{ComposerState, ComposerStateView};

verus! {

/// The cursor, at the end where it lies past it.
pub open spec fn clamped(c: ComposerStateView) -> int {
    cursor::least(c.cursor as int, cursor::byte_len(c.buffer))
}

/// Whether the cursor is on a boundary.
pub open spec fn on_boundary(c: ComposerStateView) -> bool {
    cursor::boundary(c.buffer, c.cursor as int)
}

/// The line with another text and another cursor.
pub open spec fn edited(c: ComposerStateView, buffer: Seq<char>, at: int) -> ComposerStateView {
    ComposerStateView { buffer, cursor: at as usize, ..c }
}

/// The line after a text was typed at the cursor.
pub open spec fn typed(c: ComposerStateView, words: Seq<char>) -> ComposerStateView {
    edited(
        c,
        edit::put_in(c.buffer, cursor::chars_before(c.buffer, clamped(c)), words),
        clamped(c) + cursor::byte_len(words),
    )
}

/// The line without what stands between two places, with the cursor at the first.
pub open spec fn removed(c: ComposerStateView, from: int, to: int) -> ComposerStateView {
    edited(
        c,
        edit::cut(
            c.buffer,
            cursor::chars_before(c.buffer, from),
            cursor::chars_before(c.buffer, to),
        ),
        from,
    )
}

/// The line with the cursor elsewhere.
pub open spec fn moved(c: ComposerStateView, at: int) -> ComposerStateView {
    ComposerStateView { cursor: at as usize, ..c }
}

/// Types a text.
pub fn insert_str(composer: &mut ComposerState, s: &str)
    requires
        cursor::boundary(old(composer)@.buffer, clamped(old(composer)@)),
    ensures
        final(composer)@ == typed(old(composer)@, s@),
        on_boundary(final(composer)@),
        cursor::byte_len(final(composer)@.buffer) <= usize::MAX,
{
    let idx: usize = cursor::min(composer.cursor, cursor::len_of(composer.buffer.as_str()));
    proof {
        edit::lemma_put_in(composer.buffer@, idx as int, s@);
    }
    edit::insert_at(&mut composer.buffer, idx, s);
    composer.cursor = idx + cursor::len_of(s);
}

/// Types a character.
pub fn insert_char(composer: &mut ComposerState, ch: char)
    requires
        cursor::boundary(old(composer)@.buffer, clamped(old(composer)@)),
    ensures
        final(composer)@ == typed(old(composer)@, seq![ch]),
        on_boundary(final(composer)@),
        cursor::byte_len(final(composer)@.buffer) <= usize::MAX,
{
    let mut one: String = String::new();
    one.push(ch);
    assert(one@ =~= seq![ch]);
    insert_str(composer, one.as_str());
}

/// The line without the character before the cursor.
pub open spec fn backspaced(c: ComposerStateView) -> ComposerStateView {
    if c.cursor == 0 {
        c
    } else {
        removed(c, edit::before(c.buffer, c.cursor as int), c.cursor as int)
    }
}

/// Takes out the character before the cursor.
pub fn backspace(composer: &mut ComposerState)
    requires
        old(composer)@.cursor == 0 || on_boundary(old(composer)@),
    ensures
        final(composer)@ == backspaced(old(composer)@),
        on_boundary(final(composer)@),
{
    if composer.cursor == 0 {
        proof {
            cursor::lemma_ends(composer.buffer@);
        }
        return ;
    }
    let at: usize = edit::prev_char_boundary(composer.buffer.as_str(), composer.cursor);
    proof {
        edit::lemma_cut(composer.buffer@, at as int, composer.cursor as int);
    }
    edit::cut_out(&mut composer.buffer, at, composer.cursor);
    composer.cursor = at;
}

/// The line without the character after the cursor.
pub open spec fn deleted(c: ComposerStateView) -> ComposerStateView {
    if c.cursor >= cursor::byte_len(c.buffer) {
        c
    } else {
        removed(c, c.cursor as int, edit::after(c.buffer, c.cursor as int))
    }
}

/// Takes out the character after the cursor.
pub fn delete_forward(composer: &mut ComposerState)
    requires
        old(composer)@.cursor >= cursor::byte_len(old(composer)@.buffer) || on_boundary(
            old(composer)@,
        ),
    ensures
        final(composer)@ == deleted(old(composer)@),
        on_boundary(old(composer)@) ==> on_boundary(final(composer)@),
{
    if composer.cursor >= cursor::len_of(composer.buffer.as_str()) {
        return ;
    }
    let end: usize = edit::next_char_boundary(composer.buffer.as_str(), composer.cursor);
    proof {
        edit::lemma_cut(composer.buffer@, composer.cursor as int, end as int);
    }
    edit::cut_out(&mut composer.buffer, composer.cursor, end);
}

/// The line without the word before the cursor.
pub open spec fn word_backspaced(c: ComposerStateView) -> ComposerStateView {
    let start = edit::word_before(c.buffer, c.cursor as int);
    if start < c.cursor {
        removed(c, start, c.cursor as int)
    } else {
        c
    }
}

/// Takes out the word before the cursor.
pub fn delete_word_backward(composer: &mut ComposerState)
    requires
        old(composer)@.cursor == 0 || on_boundary(old(composer)@),
    ensures
        final(composer)@ == word_backspaced(old(composer)@),
        on_boundary(final(composer)@),
{
    proof {
        cursor::lemma_ends(composer.buffer@);
        cursor::lemma_boundary(composer.buffer@, composer.cursor as int);
    }
    let start: usize = edit::prev_word_boundary(composer.buffer.as_str(), composer.cursor);
    if start < composer.cursor {
        proof {
            edit::lemma_cut(composer.buffer@, start as int, composer.cursor as int);
        }
        edit::cut_out(&mut composer.buffer, start, composer.cursor);
        composer.cursor = start;
    }
}

/// The line without the word after the cursor.
pub open spec fn word_deleted(c: ComposerStateView) -> ComposerStateView {
    let end = edit::word_after(c.buffer, c.cursor as int);
    if end > c.cursor {
        removed(c, c.cursor as int, end)
    } else {
        c
    }
}

/// Takes out the word after the cursor.
pub fn delete_word_forward(composer: &mut ComposerState)
    requires
        old(composer)@.cursor >= cursor::byte_len(old(composer)@.buffer) || on_boundary(
            old(composer)@,
        ),
    ensures
        final(composer)@ == word_deleted(old(composer)@),
        on_boundary(old(composer)@) ==> on_boundary(final(composer)@),
{
    let end: usize = edit::next_word_boundary(composer.buffer.as_str(), composer.cursor);
    if end > composer.cursor {
        proof {
            cursor::lemma_boundary(composer.buffer@, composer.cursor as int);
            edit::lemma_cut(composer.buffer@, composer.cursor as int, end as int);
        }
        edit::cut_out(&mut composer.buffer, composer.cursor, end);
    }
}

/// Moves before the character before the cursor.
pub fn move_left(composer: &mut ComposerState)
    ensures
        final(composer)@ == moved(
            old(composer)@,
            edit::before(old(composer)@.buffer, old(composer)@.cursor as int),
        ),
        on_boundary(final(composer)@),
{
    composer.cursor = edit::prev_char_boundary(composer.buffer.as_str(), composer.cursor);
}

/// Moves behind the character after the cursor.
pub fn move_right(composer: &mut ComposerState)
    ensures
        final(composer)@ == moved(
            old(composer)@,
            edit::after(old(composer)@.buffer, old(composer)@.cursor as int),
        ),
        on_boundary(final(composer)@),
{
    composer.cursor = edit::next_char_boundary(composer.buffer.as_str(), composer.cursor);
}

/// Moves to the start of the word before the cursor.
pub fn move_word_left(composer: &mut ComposerState)
    ensures
        final(composer)@ == moved(
            old(composer)@,
            edit::word_before(old(composer)@.buffer, old(composer)@.cursor as int),
        ),
        on_boundary(final(composer)@),
{
    composer.cursor = edit::prev_word_boundary(composer.buffer.as_str(), composer.cursor);
}

/// Moves to the end of the word after the cursor.
pub fn move_word_right(composer: &mut ComposerState)
    ensures
        final(composer)@ == moved(
            old(composer)@,
            edit::word_after(old(composer)@.buffer, old(composer)@.cursor as int),
        ),
        on_boundary(final(composer)@),
{
    composer.cursor = edit::next_word_boundary(composer.buffer.as_str(), composer.cursor);
}

/// Moves to the start of the line.
pub fn move_line_home(composer: &mut ComposerState)
    requires
        cursor::boundary(old(composer)@.buffer, clamped(old(composer)@)),
    ensures
        final(composer)@ == moved(
            old(composer)@,
            edit::line_start(old(composer)@.buffer, clamped(old(composer)@)),
        ),
        on_boundary(final(composer)@),
{
    let c: usize = cursor::min(composer.cursor, cursor::len_of(composer.buffer.as_str()));
    composer.cursor = edit::line_start_of(composer.buffer.as_str(), c);
}

/// Moves to the end of the line.
pub fn move_line_end(composer: &mut ComposerState)
    requires
        cursor::boundary(old(composer)@.buffer, clamped(old(composer)@)),
    ensures
        final(composer)@ == moved(
            old(composer)@,
            edit::line_end(old(composer)@.buffer, clamped(old(composer)@)),
        ),
        on_boundary(final(composer)@),
{
    let c: usize = cursor::min(composer.cursor, cursor::len_of(composer.buffer.as_str()));
    composer.cursor = edit::line_end_of(composer.buffer.as_str(), c);
}

/// The line without what stands before the cursor.
pub open spec fn cleared_before(c: ComposerStateView) -> ComposerStateView {
    let start = edit::line_start(c.buffer, clamped(c));
    if start < clamped(c) {
        removed(c, start, clamped(c))
    } else {
        c
    }
}

/// Takes out what stands before the cursor in its line.
pub fn clear_to_line_start(composer: &mut ComposerState)
    requires
        cursor::boundary(old(composer)@.buffer, clamped(old(composer)@)),
    ensures
        final(composer)@ == cleared_before(old(composer)@),
        on_boundary(old(composer)@) ==> on_boundary(final(composer)@),
{
    let c: usize = cursor::min(composer.cursor, cursor::len_of(composer.buffer.as_str()));
    let start: usize = edit::line_start_of(composer.buffer.as_str(), c);
    if start < c {
        proof {
            edit::lemma_cut(composer.buffer@, start as int, c as int);
        }
        edit::cut_out(&mut composer.buffer, start, c);
        composer.cursor = start;
    }
}

/// The line without what stands after the cursor; the cursor stays where it is.
pub open spec fn cleared_after(c: ComposerStateView) -> ComposerStateView {
    let end = edit::line_end(c.buffer, clamped(c));
    if end > clamped(c) {
        edited(
            c,
            edit::cut(
                c.buffer,
                cursor::chars_before(c.buffer, clamped(c)),
                cursor::chars_before(c.buffer, end),
            ),
            c.cursor as int,
        )
    } else {
        c
    }
}

/// Takes out what stands after the cursor in its line.
pub fn clear_to_line_end(composer: &mut ComposerState)
    requires
        cursor::boundary(old(composer)@.buffer, clamped(old(composer)@)),
    ensures
        final(composer)@ == cleared_after(old(composer)@),
        on_boundary(old(composer)@) ==> on_boundary(final(composer)@),
{
    proof {
        cursor::lemma_boundary(composer.buffer@, composer.cursor as int);
    }
    let c: usize = cursor::min(composer.cursor, cursor::len_of(composer.buffer.as_str()));
    let end: usize = edit::line_end_of(composer.buffer.as_str(), c);
    if end > c {
        proof {
            edit::lemma_cut(composer.buffer@, c as int, end as int);
        }
        edit::cut_out(&mut composer.buffer, c, end);
    }
}

// -- What holds of the keys ------------------------------------------------------------------------

/// A character that is typed and then taken back leaves the line as it was.
pub proof fn law_backspace_undoes_typing(c: ComposerStateView, ch: char)
    requires
        on_boundary(c),
        cursor::byte_len(c.buffer) + cursor::char_width(ch) <= usize::MAX,
    ensures
        backspaced(typed(c, seq![ch])) == c,
{
    let s = c.buffer;
    let at = c.cursor as int;
    cursor::lemma_boundary(s, at);
    let k = cursor::chars_before(s, at);
    let t = edit::put_in(s, k, seq![ch]);
    let end = at + cursor::byte_len(seq![ch]);
    edit::lemma_put_in(s, at, seq![ch]);
    cursor::lemma_encode_one(ch);
    cursor::lemma_char_width(ch);
    cursor::lemma_step_from(t, end);
    assert(t.take(k) =~= s.take(k));
    assert(cursor::byte_at(t, k) == at);
    cursor::lemma_boundary(t, end);
    assert(edit::before(t, end) == at);
    assert(edit::cut(t, k, k + 1) =~= s);
}

/// The character after the cursor that is taken out and typed again leaves the text as it was.
pub proof fn law_typing_undoes_delete(c: ComposerStateView)
    requires
        on_boundary(c),
        c.cursor < cursor::byte_len(c.buffer),
    ensures
        cursor::chars_before(c.buffer, c.cursor as int) < c.buffer.len(),
        typed(
            deleted(c),
            seq![c.buffer[cursor::chars_before(c.buffer, c.cursor as int)]],
        ).buffer == c.buffer,
{
    let s = c.buffer;
    let at = c.cursor as int;
    cursor::lemma_boundary(s, at);
    cursor::lemma_step_from(s, at);
    let k = cursor::chars_before(s, at);
    let next = edit::after(s, at);
    cursor::lemma_ceil(s, at + 1);
    cursor::lemma_chars_before_byte_at(s, k + 1);
    edit::lemma_cut(s, at, next);
    let t = deleted(c).buffer;
    cursor::lemma_boundary(t, at);
    assert(edit::put_in(t, k, seq![s[k]]) =~= s);
}

/// To the right and back to the left is where one was.
pub proof fn law_left_undoes_right(c: ComposerStateView)
    requires
        on_boundary(c),
        c.cursor < cursor::byte_len(c.buffer),
    ensures
        edit::before(c.buffer, edit::after(c.buffer, c.cursor as int)) == c.cursor,
{
    let s = c.buffer;
    let at = c.cursor as int;
    cursor::lemma_boundary(s, at);
    cursor::lemma_step_from(s, at);
    let k = cursor::chars_before(s, at);
    cursor::lemma_chars_before_byte_at(s, k + 1);
    cursor::lemma_boundary(s, cursor::byte_at(s, k + 1));
    cursor::lemma_byte_at_monotone(s, k, k + 1);
    cursor::lemma_step_from(s, cursor::byte_at(s, k + 1));
}

/// Every key that changes the line or moves in it leaves the cursor on a boundary where it was on
/// one.
pub proof fn law_cursor_stays_on_a_boundary(c: ComposerStateView, words: Seq<char>)
    requires
        on_boundary(c),
        cursor::byte_len(c.buffer) + cursor::byte_len(words) <= usize::MAX,
    ensures
        on_boundary(typed(c, words)),
        on_boundary(backspaced(c)),
        on_boundary(deleted(c)),
        on_boundary(word_backspaced(c)),
        on_boundary(word_deleted(c)),
        on_boundary(cleared_before(c)),
        on_boundary(cleared_after(c)),
        on_boundary(moved(c, edit::before(c.buffer, c.cursor as int))),
        on_boundary(moved(c, edit::after(c.buffer, c.cursor as int))),
        on_boundary(moved(c, edit::word_before(c.buffer, c.cursor as int))),
        on_boundary(moved(c, edit::word_after(c.buffer, c.cursor as int))),
        on_boundary(moved(c, edit::line_start(c.buffer, c.cursor as int))),
        on_boundary(moved(c, edit::line_end(c.buffer, c.cursor as int))),
{
    let s = c.buffer;
    let at = c.cursor as int;
    cursor::lemma_boundary(s, at);
    cursor::lemma_ends(s);
    let k = cursor::chars_before(s, at);
    edit::lemma_put_in(s, at, words);
    if at > 0 {
        cursor::lemma_floor(s, at - 1);
        edit::lemma_cut(s, edit::before(s, at), at);
    }
    if at < cursor::byte_len(s) {
        cursor::lemma_ceil(s, at + 1);
        edit::lemma_cut(s, at, edit::after(s, at));
    }
    edit::lemma_line_head(s, k);
    edit::lemma_line_tail(s, k);
    cursor::lemma_chars_before_byte_at(s, edit::line_head(s, k));
    cursor::lemma_chars_before_byte_at(s, edit::line_tail(s, k));
    cursor::lemma_split_at(s, edit::line_tail(s, k));
    cursor::lemma_split_at(s, edit::line_head(s, k));
    let start = edit::line_start(s, at);
    let end = edit::line_end(s, at);
    if start < at {
        edit::lemma_cut(s, start, at);
    }
    if at < end {
        edit::lemma_cut(s, at, end);
    }
    edit::lemma_word_before(s, at);
    edit::lemma_cut(s, edit::word_before(s, at), at);
    edit::lemma_word_after(s, at);
    edit::lemma_cut(s, at, edit::word_after(s, at));
}

// -- What editing does to the text -----------------------------------------------------------------------

/// Typing puts the words where the cursor is and changes nothing else, and the cursor goes behind them.
pub proof fn law_words_go_where_the_cursor_is(c: ComposerStateView, words: Seq<char>)
    requires
        on_boundary(c),
        cursor::byte_len(c.buffer) + cursor::byte_len(words) <= usize::MAX,
    ensures
        ({
            let k = cursor::chars_before(c.buffer, c.cursor as int);
            let now = typed(c, words);
            &&& 0 <= k <= c.buffer.len()
            &&& now.buffer == c.buffer.take(k) + words + c.buffer.skip(k)
            &&& now.cursor == c.cursor + cursor::byte_len(words)
            &&& cursor::chars_before(now.buffer, now.cursor as int) == k + words.len()
        }),
{
    cursor::lemma_boundary(c.buffer, c.cursor as int);
    edit::lemma_put_in(c.buffer, c.cursor as int, words);
}

/// Backspace takes the one character before the cursor and delete the one behind it; at the ends of the
/// text they do nothing.
pub proof fn law_one_character_goes(c: ComposerStateView)
    requires
        on_boundary(c),
    ensures
        ({
            let k = cursor::chars_before(c.buffer, c.cursor as int);
            &&& k == 0 ==> backspaced(c) == c
            &&& k > 0 ==> backspaced(c).buffer == c.buffer.take(k - 1) + c.buffer.skip(k)
                && cursor::chars_before(backspaced(c).buffer, backspaced(c).cursor as int) == k - 1
            &&& k == c.buffer.len() ==> deleted(c) == c
            &&& k < c.buffer.len() ==> deleted(c).buffer == c.buffer.take(k) + c.buffer.skip(k + 1)
                && deleted(c).cursor == c.cursor
        }),
{
    let k = cursor::chars_before(c.buffer, c.cursor as int);
    cursor::lemma_boundary(c.buffer, c.cursor as int);
    cursor::lemma_step_from(c.buffer, c.cursor as int);
    cursor::lemma_ends(c.buffer);
    if k > 0 {
        cursor::lemma_chars_before_byte_at(c.buffer, k - 1);
        cursor::lemma_byte_at_monotone(c.buffer, k - 1, k);
        cursor::lemma_byte_at_monotone(c.buffer, 0, k - 1);
        let from = cursor::byte_at(c.buffer, k - 1);
        assert(edit::before(c.buffer, c.cursor as int) == from);
        edit::lemma_cut(c.buffer, from, c.cursor as int);
    }
    if k < c.buffer.len() {
        cursor::lemma_chars_before_byte_at(c.buffer, k + 1);
        cursor::lemma_byte_at_monotone(c.buffer, k, c.buffer.len() as int);
        assert(edit::after(c.buffer, c.cursor as int) == cursor::byte_at(c.buffer, k + 1));
    }
}

/// Moving changes no character, and one step goes over one character.
pub proof fn law_moving_changes_no_character(c: ComposerStateView, at: int)
    requires
        on_boundary(c),
    ensures
        ({
            let k = cursor::chars_before(c.buffer, c.cursor as int);
            let left = edit::before(c.buffer, c.cursor as int);
            let right = edit::after(c.buffer, c.cursor as int);
            &&& moved(c, at).buffer == c.buffer
            &&& 0 <= at <= usize::MAX ==> moved(c, at).cursor == at
            &&& k > 0 ==> cursor::chars_before(c.buffer, left) == k - 1
            &&& k == 0 ==> left == 0
            &&& k < c.buffer.len() ==> cursor::chars_before(c.buffer, right) == k + 1
            &&& k == c.buffer.len() ==> right == c.cursor
        }),
{
    let k = cursor::chars_before(c.buffer, c.cursor as int);
    cursor::lemma_boundary(c.buffer, c.cursor as int);
    cursor::lemma_step_from(c.buffer, c.cursor as int);
    cursor::lemma_ends(c.buffer);
    if k > 0 {
        cursor::lemma_chars_before_byte_at(c.buffer, k - 1);
        cursor::lemma_byte_at_monotone(c.buffer, 0, k);
    }
    if k < c.buffer.len() {
        cursor::lemma_chars_before_byte_at(c.buffer, k + 1);
        cursor::lemma_byte_at_monotone(c.buffer, k, c.buffer.len() as int);
    }
}

/// The start of a line lies behind a line feed or at the start of the text, and its end before one or at
/// the end of the text, with none between; clearing to either takes just what lies between.
pub proof fn law_clearing_takes_the_rest_of_the_line(c: ComposerStateView)
    requires
        on_boundary(c),
    ensures
        ({
            let k = cursor::chars_before(c.buffer, c.cursor as int);
            let head = cursor::chars_before(c.buffer, edit::line_start(c.buffer, c.cursor as int));
            let tail = cursor::chars_before(c.buffer, edit::line_end(c.buffer, c.cursor as int));
            &&& 0 <= head <= k <= tail <= c.buffer.len()
            &&& head > 0 ==> c.buffer[head - 1] == '\n'
            &&& tail < c.buffer.len() ==> c.buffer[tail] == '\n'
            &&& forall|i: int| head <= i < tail ==> #[trigger] c.buffer[i] != '\n'
            &&& cleared_before(c).buffer == c.buffer.take(head) + c.buffer.skip(k)
            &&& cleared_before(c).cursor == edit::line_start(c.buffer, c.cursor as int)
            &&& cleared_after(c).buffer == c.buffer.take(k) + c.buffer.skip(tail)
            &&& cleared_after(c).cursor == c.cursor
        }),
{
    let k = cursor::chars_before(c.buffer, c.cursor as int);
    cursor::lemma_boundary(c.buffer, c.cursor as int);
    edit::lemma_line_head(c.buffer, k);
    edit::lemma_line_tail(c.buffer, k);
    let head = edit::line_head(c.buffer, k);
    let tail = edit::line_tail(c.buffer, k);
    cursor::lemma_chars_before_byte_at(c.buffer, head);
    cursor::lemma_chars_before_byte_at(c.buffer, tail);
    cursor::lemma_byte_at_monotone(c.buffer, head, k);
    cursor::lemma_byte_at_monotone(c.buffer, k, tail);
    cursor::lemma_byte_at_monotone(c.buffer, 0, head);
    assert(c.buffer.take(k) + c.buffer.skip(k) =~= c.buffer);
}

/// What goes with a word is the word and what lies between it and the cursor.
pub proof fn law_a_word_goes_whole(c: ComposerStateView)
    requires
        on_boundary(c),
    ensures
        ({
            let k = cursor::chars_before(c.buffer, c.cursor as int);
            let start = cursor::chars_before(
                c.buffer,
                edit::word_before(c.buffer, c.cursor as int),
            );
            let end = cursor::chars_before(c.buffer, edit::word_after(c.buffer, c.cursor as int));
            &&& 0 <= start <= k <= end <= c.buffer.len()
            &&& start > 0 ==> !edit::in_word(c.buffer[start - 1]) && edit::in_word(c.buffer[start])
            &&& end < c.buffer.len() ==> !edit::in_word(c.buffer[end]) && edit::in_word(
                c.buffer[end - 1],
            )
            &&& word_backspaced(c).buffer == c.buffer.take(start) + c.buffer.skip(k)
            &&& word_deleted(c).buffer == c.buffer.take(k) + c.buffer.skip(end)
            &&& word_deleted(c).cursor == c.cursor
        }),
{
    let at = c.cursor as int;
    let k = cursor::chars_before(c.buffer, at);
    cursor::lemma_boundary(c.buffer, at);
    cursor::lemma_ends(c.buffer);
    cursor::lemma_byte_at_monotone(c.buffer, k, c.buffer.len() as int);
    assert(cursor::least(at, cursor::byte_len(c.buffer)) == at);
    assert(cursor::floor_boundary(c.buffer, at) == at);
    assert(cursor::ceil_boundary(c.buffer, at) == at);
    edit::law_word_before_is_a_run(c.buffer, at);
    edit::law_word_after_is_a_run(c.buffer, at);
    edit::lemma_word_before(c.buffer, at);
    edit::lemma_word_after(c.buffer, at);
    let start = edit::word_before(c.buffer, at);
    let end = edit::word_after(c.buffer, at);
    edit::lemma_chars_before_monotone(c.buffer, start, at);
    edit::lemma_chars_before_monotone(c.buffer, at, end);
    cursor::lemma_boundary(c.buffer, start);
    cursor::lemma_boundary(c.buffer, end);
    assert(c.buffer.take(k) + c.buffer.skip(k) =~= c.buffer);
}

} // verus!
