//! Editing a text at a cursor that counts bytes.
use vstd::prelude::*;

use crate::cursor;
use crate::text;

verus! {

// -- Cutting and inserting ---------------------------------------------------------------

/// A text with another put in before its character with a given index.
pub open spec fn put_in(s: Seq<char>, at: int, words: Seq<char>) -> Seq<char> {
    s.take(at) + words + s.skip(at)
}

/// A text without the characters from one index to another.
pub open spec fn cut(s: Seq<char>, from: int, to: int) -> Seq<char> {
    s.take(from) + s.skip(to)
}

pub proof fn lemma_chars_before_monotone(s: Seq<char>, a: int, b: int)
    requires
        cursor::boundary(s, a),
        cursor::boundary(s, b),
        a <= b,
    ensures
        0 <= cursor::chars_before(s, a) <= cursor::chars_before(s, b) <= s.len(),
        a < b ==> cursor::chars_before(s, a) < cursor::chars_before(s, b),
{
    cursor::lemma_boundary(s, a);
    cursor::lemma_boundary(s, b);
    let i = cursor::chars_before(s, a);
    let j = cursor::chars_before(s, b);
    if j < i {
        cursor::lemma_byte_at_monotone(s, j, i);
    }
}

/// Puts a text in at a boundary.
pub fn insert_at(buffer: &mut String, at: usize, words: &str)
    requires
        cursor::boundary(old(buffer)@, at as int),
    ensures
        final(buffer)@ == put_in(
            old(buffer)@,
            cursor::chars_before(old(buffer)@, at as int),
            words@,
        ),
        cursor::byte_len(final(buffer)@) <= usize::MAX,
{
    let (head, tail) = cursor::split_at_byte(buffer.as_str(), at);
    let whole: String = text::glue3(head.as_str(), words, tail.as_str());
    let total: usize = cursor::len_of(whole.as_str());
    assert(total == cursor::byte_len(whole@));
    *buffer = whole;
}

/// Takes out what stands between two boundaries.
pub fn cut_out(buffer: &mut String, from: usize, to: usize)
    requires
        cursor::boundary(old(buffer)@, from as int),
        cursor::boundary(old(buffer)@, to as int),
        from <= to,
    ensures
        final(buffer)@ == cut(
            old(buffer)@,
            cursor::chars_before(old(buffer)@, from as int),
            cursor::chars_before(old(buffer)@, to as int),
        ),
{
    let (head, _rest) = cursor::split_at_byte(buffer.as_str(), from);
    let (_gone, tail) = cursor::split_at_byte(buffer.as_str(), to);
    *buffer = text::glue(head.as_str(), tail.as_str());
}

/// Where the text put in ends.
pub proof fn lemma_put_in(s: Seq<char>, at: int, words: Seq<char>)
    requires
        cursor::boundary(s, at),
    ensures
        ({
            let k = cursor::chars_before(s, at);
            let t = put_in(s, k, words);
            &&& cursor::boundary(t, at + cursor::byte_len(words))
            &&& cursor::chars_before(t, at + cursor::byte_len(words)) == k + words.len()
            &&& cursor::boundary(t, at)
            &&& cursor::chars_before(t, at) == k
            &&& cursor::byte_len(t) == cursor::byte_len(s) + cursor::byte_len(words)
        }),
{
    cursor::lemma_boundary(s, at);
    let k = cursor::chars_before(s, at);
    let t = put_in(s, k, words);
    assert(t.take(k + words.len()) =~= s.take(k) + words);
    assert(t.take(k) =~= s.take(k));
    cursor::lemma_encode_concat(s.take(k), words);
    cursor::lemma_encode_concat(s.take(k) + words, s.skip(k));
    cursor::lemma_split_at(s, k);
    cursor::lemma_chars_before_byte_at(t, k + words.len());
    cursor::lemma_chars_before_byte_at(t, k);
}

/// Where the text is joined after a cut.
pub proof fn lemma_cut(s: Seq<char>, from: int, to: int)
    requires
        cursor::boundary(s, from),
        cursor::boundary(s, to),
        from <= to,
    ensures
        ({
            let t = cut(s, cursor::chars_before(s, from), cursor::chars_before(s, to));
            &&& cursor::boundary(t, from)
            &&& cursor::chars_before(t, from) == cursor::chars_before(s, from)
        }),
{
    lemma_chars_before_monotone(s, from, to);
    cursor::lemma_boundary(s, from);
    let i = cursor::chars_before(s, from);
    let t = cut(s, i, cursor::chars_before(s, to));
    assert(t.take(i) =~= s.take(i));
    cursor::lemma_chars_before_byte_at(t, i);
}

// -- Characters ----------------------------------------------------------------------------

/// The boundary before a cursor.
pub open spec fn before(s: Seq<char>, at: int) -> int {
    let c = cursor::least(at, cursor::byte_len(s));
    if c == 0 {
        0
    } else {
        cursor::floor_boundary(s, c - 1)
    }
}

/// The boundary after a cursor.
pub open spec fn after(s: Seq<char>, at: int) -> int {
    let c = cursor::least(at, cursor::byte_len(s));
    if c == cursor::byte_len(s) {
        cursor::byte_len(s)
    } else {
        cursor::ceil_boundary(s, c + 1)
    }
}

/// The boundary before a cursor.
pub fn prev_char_boundary(buffer: &str, cursor: usize) -> (at: usize)
    ensures
        at == before(buffer@, cursor as int),
        cursor::boundary(buffer@, at as int),
        cursor > 0 ==> at < cursor,
        at <= cursor,
{
    let c: usize = cursor::min(cursor, cursor::len_of(buffer));
    if c == 0 {
        proof {
            cursor::lemma_ends(buffer@);
        }
        return 0;
    }
    proof {
        cursor::lemma_floor(buffer@, c - 1);
    }
    cursor::floor_of(buffer, c - 1)
}

/// The boundary after a cursor.
pub fn next_char_boundary(buffer: &str, cursor: usize) -> (at: usize)
    ensures
        at == after(buffer@, cursor as int),
        cursor::boundary(buffer@, at as int),
        cursor < cursor::byte_len(buffer@) ==> at > cursor,
        at <= cursor::byte_len(buffer@),
{
    let n: usize = cursor::len_of(buffer);
    let c: usize = cursor::min(cursor, n);
    if c == n {
        proof {
            cursor::lemma_ends(buffer@);
        }
        return n;
    }
    proof {
        cursor::lemma_ceil(buffer@, c + 1);
    }
    cursor::ceil_of(buffer, c + 1)
}

/// The first boundary at or after an offset.
pub fn snap_to_boundary(buffer: &str, idx: usize) -> (at: usize)
    ensures
        at == cursor::ceil_boundary(
            buffer@,
            cursor::least(idx as int, cursor::byte_len(buffer@)),
        ),
        cursor::boundary(buffer@, at as int),
{
    let c: usize = cursor::min(idx, cursor::len_of(buffer));
    proof {
        cursor::lemma_ceil(buffer@, c as int);
    }
    cursor::ceil_of(buffer, c)
}

// -- Words ------------------------------------------------------------------------------------

/// Whether a character of the first 256 is a letter or a number.
pub open spec fn is_latin_alphanumeric(c: char) -> bool {
    ||| ('0' <= c && c <= '9')
    ||| ('A' <= c && c <= 'Z')
    ||| ('a' <= c && c <= 'z')
    ||| c == '\u{AA}'
    ||| c == '\u{B2}'
    ||| c == '\u{B3}'
    ||| c == '\u{B5}'
    ||| c == '\u{B9}'
    ||| c == '\u{BA}'
    ||| ('\u{BC}' <= c && c <= '\u{BE}')
    ||| ('\u{C0}' <= c && c <= '\u{D6}')
    ||| ('\u{D8}' <= c && c <= '\u{F6}')
    ||| ('\u{F8}' <= c && c <= '\u{FF}')
}

/// What `char::is_alphanumeric` says of a character after the first 256.
pub uninterp spec fn is_alphanumeric_of(c: char) -> bool;

/// `char::is_alphanumeric`: letters and numbers, in the Unicode sense. Of the first 256 characters
/// it holds of the ASCII letters and digits, of the letters of Latin-1 and of its superscript digits
/// and fractions; of the others it is a matter of the character alone.
pub assume_specification[ char::is_alphanumeric ](c: char) -> (b: bool)
    ensures
        (c as u32) < 256 ==> b == is_latin_alphanumeric(c),
        (c as u32) >= 256 ==> b == is_alphanumeric_of(c),
;

/// Whether a character belongs to a word: letters and numbers do, white space and punctuation do
/// not.
pub open spec fn in_word(c: char) -> bool {
    if (c as u32) < 256 {
        is_latin_alphanumeric(c)
    } else {
        is_alphanumeric_of(c)
    }
}

/// Whether a character belongs to a word.
pub fn is_word_char(ch: char) -> (b: bool)
    ensures
        b == in_word(ch),
{
    ch.is_alphanumeric()
}

/// The index of the first of the characters right before an index that all belong to words, or that
/// all do not.
pub open spec fn run_head(s: Seq<char>, k: int, words: bool) -> int
    decreases k,
{
    if k <= 0 {
        0
    } else if in_word(s[k - 1]) == words {
        run_head(s, k - 1, words)
    } else {
        k
    }
}

/// The index after the last of the characters from an index on that all belong to words, or that all
/// do not.
pub open spec fn run_tail(s: Seq<char>, k: int, words: bool) -> int
    decreases s.len() - k,
{
    if k >= s.len() {
        s.len() as int
    } else if in_word(s[k]) == words {
        run_tail(s, k + 1, words)
    } else {
        k
    }
}

/// The number of characters that begin before a cursor.
pub open spec fn begun(s: Seq<char>, at: int) -> int {
    cursor::chars_before(s, cursor::ceil_boundary(s, cursor::least(at, cursor::byte_len(s))))
}

/// The number of characters that end at a cursor or before it.
pub open spec fn ended(s: Seq<char>, at: int) -> int {
    cursor::chars_before(s, cursor::floor_boundary(s, cursor::least(at, cursor::byte_len(s))))
}

/// The start of the word before a cursor: back over what is no word, then over the word.
pub open spec fn word_before(s: Seq<char>, at: int) -> int {
    cursor::byte_at(s, run_head(s, run_head(s, begun(s, at), false), true))
}

/// The end of the word after a cursor: on over what is no word, then over the word.
pub open spec fn word_after(s: Seq<char>, at: int) -> int {
    cursor::byte_at(s, run_tail(s, run_tail(s, ended(s, at), false), true))
}

proof fn lemma_run_head(s: Seq<char>, k: int, words: bool)
    requires
        0 <= k <= s.len(),
    ensures
        0 <= run_head(s, k, words) <= k,
        forall|i: int| run_head(s, k, words) <= i < k ==> in_word(#[trigger] s[i]) == words,
        run_head(s, k, words) > 0 ==> in_word(s[run_head(s, k, words) - 1]) != words,
        k > 0 && in_word(s[k - 1]) == words ==> run_head(s, k, words) < k,
    decreases k,
{
    if k > 0 && in_word(s[k - 1]) == words {
        lemma_run_head(s, k - 1, words);
    }
}

proof fn lemma_run_tail(s: Seq<char>, k: int, words: bool)
    requires
        0 <= k <= s.len(),
    ensures
        k <= run_tail(s, k, words) <= s.len(),
        forall|i: int| k <= i < run_tail(s, k, words) ==> in_word(#[trigger] s[i]) == words,
        run_tail(s, k, words) < s.len() ==> in_word(s[run_tail(s, k, words)]) != words,
        k < s.len() && in_word(s[k]) == words ==> run_tail(s, k, words) > k,
    decreases s.len() - k,
{
    if k < s.len() && in_word(s[k]) == words {
        lemma_run_tail(s, k + 1, words);
    }
}

/// What stands between the start of the word before a cursor and the cursor is letters and numbers
/// only, then none; and the word is whole: no letter or number stands right before it.
pub proof fn law_word_before_is_a_run(s: Seq<char>, at: int)
    requires
        0 <= at,
    ensures
        ({
            let k = begun(s, at);
            let end = run_head(s, k, false);
            let start = cursor::chars_before(s, word_before(s, at));
            &&& 0 <= start <= end <= k <= s.len()
            &&& forall|i: int| start <= i < end ==> in_word(#[trigger] s[i])
            &&& forall|i: int| end <= i < k ==> !in_word(#[trigger] s[i])
            &&& start > 0 ==> !in_word(s[start - 1])
            &&& start == end ==> start == 0
        }),
{
    let k = begun(s, at);
    cursor::lemma_boundary(s, cursor::ceil_boundary(s, cursor::least(at, cursor::byte_len(s))));
    lemma_run_head(s, k, false);
    let end = run_head(s, k, false);
    lemma_run_head(s, end, true);
    cursor::lemma_chars_before_byte_at(s, run_head(s, end, true));
}

/// What stands between a cursor and the end of the word after it is no letter or number, then
/// letters and numbers only; and the word is whole: no letter or number stands right after it.
pub proof fn law_word_after_is_a_run(s: Seq<char>, at: int)
    requires
        0 <= at,
    ensures
        ({
            let k = ended(s, at);
            let start = run_tail(s, k, false);
            let end = cursor::chars_before(s, word_after(s, at));
            &&& 0 <= k <= start <= end <= s.len()
            &&& forall|i: int| k <= i < start ==> !in_word(#[trigger] s[i])
            &&& forall|i: int| start <= i < end ==> in_word(#[trigger] s[i])
            &&& end < s.len() ==> !in_word(s[end])
            &&& start == end ==> end == s.len()
        }),
{
    let k = ended(s, at);
    cursor::lemma_boundary(s, cursor::floor_boundary(s, cursor::least(at, cursor::byte_len(s))));
    lemma_run_tail(s, k, false);
    let start = run_tail(s, k, false);
    lemma_run_tail(s, start, true);
    cursor::lemma_chars_before_byte_at(s, run_tail(s, start, true));
}

pub proof fn lemma_word_before(s: Seq<char>, at: int)
    requires
        0 <= at,
    ensures
        cursor::boundary(s, word_before(s, at)),
        0 <= word_before(s, at) <= at,
{
    let low = cursor::least(at, cursor::byte_len(s));
    let up = cursor::ceil_boundary(s, low);
    let k = begun(s, at);
    cursor::lemma_ceil(s, low);
    cursor::lemma_boundary(s, up);
    lemma_run_head(s, k, false);
    let gap = run_head(s, k, false);
    lemma_run_head(s, gap, true);
    let head = run_head(s, gap, true);
    cursor::lemma_chars_before_byte_at(s, head);
    cursor::lemma_boundary(s, word_before(s, at));
    cursor::lemma_ends(s);
    if k > 0 {
        assert(head <= k - 1);
        cursor::lemma_byte_at_monotone(s, head, k - 1);
        cursor::lemma_chars_before_byte_at(s, k - 1);
        cursor::lemma_neighbours(s, k - 1);
        assert(cursor::byte_at(s, k - 1) < up);
        assert(cursor::byte_at(s, k - 1) < low);
    }
}

pub proof fn lemma_word_after(s: Seq<char>, at: int)
    requires
        0 <= at,
    ensures
        cursor::boundary(s, word_after(s, at)),
        cursor::least(at, cursor::byte_len(s)) <= word_after(s, at) <= cursor::byte_len(s),
{
    let low = cursor::least(at, cursor::byte_len(s));
    let down = cursor::floor_boundary(s, low);
    let k = ended(s, at);
    cursor::lemma_floor(s, low);
    cursor::lemma_boundary(s, down);
    lemma_run_tail(s, k, false);
    let gap = run_tail(s, k, false);
    lemma_run_tail(s, gap, true);
    let tail = run_tail(s, gap, true);
    cursor::lemma_chars_before_byte_at(s, tail);
    cursor::lemma_boundary(s, word_after(s, at));
    cursor::lemma_ends(s);
    if k < s.len() {
        assert(tail >= k + 1);
        cursor::lemma_byte_at_monotone(s, k + 1, tail);
        cursor::lemma_chars_before_byte_at(s, k + 1);
        cursor::lemma_neighbours(s, k);
        assert(cursor::byte_at(s, k + 1) > down);
        assert(cursor::byte_at(s, k + 1) > low);
    }
}

/// The start of the word before a cursor.
pub fn prev_word_boundary(buffer: &str, cursor: usize) -> (at: usize)
    ensures
        at == word_before(buffer@, cursor as int),
        at <= cursor,
        cursor::boundary(buffer@, at as int),
{
    let c: usize = cursor::min(cursor, cursor::len_of(buffer));
    let up: usize = cursor::ceil_of(buffer, c);
    proof {
        cursor::lemma_ceil(buffer@, c as int);
        cursor::lemma_boundary(buffer@, up as int);
        lemma_word_before(buffer@, cursor as int);
    }
    let (head, _rest) = cursor::split_at_byte(buffer, up);
    let chars: Vec<char> = text::chars_of(head.as_str());
    let total: usize = chars.len();
    let ghost all = begun(buffer@, cursor as int);
    let mut k: usize = total;
    while k > 0 && !is_word_char(chars[k - 1])
        invariant
            total == chars@.len(),
            total == all,
            all <= buffer@.len(),
            chars@ == buffer@.take(all),
            k <= total,
            run_head(buffer@, k as int, false) == run_head(buffer@, all, false),
        decreases k,
    {
        assert(chars@[k - 1] == buffer@[k - 1]);
        k = k - 1;
    }
    let ghost gap = k as int;
    proof {
        if k > 0 {
            assert(chars@[k - 1] == buffer@[k - 1]);
        }
        assert(run_head(buffer@, all, false) == gap);
    }
    while k > 0 && is_word_char(chars[k - 1])
        invariant
            total == chars@.len(),
            total == all,
            all <= buffer@.len(),
            chars@ == buffer@.take(all),
            k <= total,
            run_head(buffer@, k as int, true) == run_head(buffer@, gap, true),
        decreases k,
    {
        assert(chars@[k - 1] == buffer@[k - 1]);
        k = k - 1;
    }
    let part: String = text::text_of(&chars, 0, k);
    proof {
        if k > 0 {
            assert(chars@[k - 1] == buffer@[k - 1]);
        }
        assert(part@ =~= buffer@.take(k as int));
    }
    cursor::len_of(part.as_str())
}

/// The end of the word after a cursor.
pub fn next_word_boundary(buffer: &str, cursor: usize) -> (at: usize)
    ensures
        at == word_after(buffer@, cursor as int),
        cursor::least(cursor as int, cursor::byte_len(buffer@)) <= at <= cursor::byte_len(buffer@),
        cursor::boundary(buffer@, at as int),
{
    let c: usize = cursor::min(cursor, cursor::len_of(buffer));
    let down: usize = cursor::floor_of(buffer, c);
    proof {
        cursor::lemma_floor(buffer@, c as int);
        cursor::lemma_boundary(buffer@, down as int);
        lemma_word_after(buffer@, cursor as int);
    }
    let (head, _rest) = cursor::split_at_byte(buffer, down);
    let first: usize = text::chars_of(head.as_str()).len();
    let chars: Vec<char> = text::chars_of(buffer);
    let total: usize = chars.len();
    let mut k: usize = first;
    while k < total && !is_word_char(chars[k])
        invariant
            total == chars@.len(),
            chars@ == buffer@,
            first <= k <= total,
            run_tail(buffer@, k as int, false) == run_tail(buffer@, first as int, false),
        decreases total - k,
    {
        k = k + 1;
    }
    let ghost gap = k as int;
    while k < total && is_word_char(chars[k])
        invariant
            total == chars@.len(),
            chars@ == buffer@,
            gap <= k <= total,
            run_tail(buffer@, k as int, true) == run_tail(buffer@, gap, true),
        decreases total - k,
    {
        k = k + 1;
    }
    let part: String = text::text_of(&chars, 0, k);
    assert(part@ =~= buffer@.take(k as int));
    cursor::len_of(part.as_str())
}

// -- Lines ----------------------------------------------------------------------------------------

/// The index of the first character of the line in which a character index lies.
pub open spec fn line_head(s: Seq<char>, k: int) -> int
    decreases k,
{
    if k <= 0 {
        0
    } else if s[k - 1] == '\n' {
        k
    } else {
        line_head(s, k - 1)
    }
}

/// The index of the line feed that ends the line in which a character index lies, or the end.
pub open spec fn line_tail(s: Seq<char>, k: int) -> int
    decreases s.len() - k,
{
    if k >= s.len() {
        s.len() as int
    } else if s[k] == '\n' {
        k
    } else {
        line_tail(s, k + 1)
    }
}

pub proof fn lemma_line_head(s: Seq<char>, k: int)
    requires
        0 <= k <= s.len(),
    ensures
        0 <= line_head(s, k) <= k,
        line_head(s, k) > 0 ==> s[line_head(s, k) - 1] == '\n',
        forall|i: int| line_head(s, k) <= i < k ==> #[trigger] s[i] != '\n',
    decreases k,
{
    if k > 0 && s[k - 1] != '\n' {
        lemma_line_head(s, k - 1);
    }
}

pub proof fn lemma_line_tail(s: Seq<char>, k: int)
    requires
        0 <= k <= s.len(),
    ensures
        k <= line_tail(s, k) <= s.len(),
        line_tail(s, k) < s.len() ==> s[line_tail(s, k)] == '\n',
        forall|i: int| k <= i < line_tail(s, k) ==> #[trigger] s[i] != '\n',
    decreases s.len() - k,
{
    if k < s.len() && s[k] != '\n' {
        lemma_line_tail(s, k + 1);
    }
}

/// The byte at which the line of a cursor begins.
pub open spec fn line_start(s: Seq<char>, at: int) -> int {
    cursor::byte_at(s, line_head(s, cursor::chars_before(s, at)))
}

/// The byte at which the line of a cursor ends.
pub open spec fn line_end(s: Seq<char>, at: int) -> int {
    cursor::byte_at(s, line_tail(s, cursor::chars_before(s, at)))
}

/// The byte at which the line of a cursor begins.
pub fn line_start_of(buffer: &str, at: usize) -> (start: usize)
    requires
        cursor::boundary(buffer@, at as int),
    ensures
        start == line_start(buffer@, at as int),
        start <= at,
        cursor::boundary(buffer@, start as int),
        cursor::chars_before(buffer@, start as int) == line_head(
            buffer@,
            cursor::chars_before(buffer@, at as int),
        ),
{
    proof {
        cursor::lemma_boundary(buffer@, at as int);
    }
    let (head, _rest) = cursor::split_at_byte(buffer, at);
    let chars: Vec<char> = text::chars_of(head.as_str());
    let total: usize = chars.len();
    let ghost all = cursor::chars_before(buffer@, at as int);
    let mut k: usize = total;
    while k > 0 && chars[k - 1] != '\n'
        invariant
            total == chars@.len(),
            total == all,
            all <= buffer@.len(),
            chars@ == buffer@.take(all),
            k <= total,
            line_head(buffer@, k as int) == line_head(buffer@, all),
        decreases k,
    {
        assert(chars@[k - 1] == buffer@[k - 1]);
        k = k - 1;
    }
    let part: String = text::text_of(&chars, 0, k);
    proof {
        if k > 0 {
            assert(chars@[k - 1] == buffer@[k - 1]);
        }
        assert(part@ =~= buffer@.take(k as int));
        cursor::lemma_chars_before_byte_at(buffer@, k as int);
        cursor::lemma_byte_at_monotone(buffer@, k as int, all);
    }
    cursor::len_of(part.as_str())
}

/// The byte at which the line of a cursor ends.
pub fn line_end_of(buffer: &str, at: usize) -> (end: usize)
    requires
        cursor::boundary(buffer@, at as int),
    ensures
        end == line_end(buffer@, at as int),
        at <= end <= cursor::byte_len(buffer@),
        cursor::boundary(buffer@, end as int),
        cursor::chars_before(buffer@, end as int) == line_tail(
            buffer@,
            cursor::chars_before(buffer@, at as int),
        ),
{
    proof {
        cursor::lemma_boundary(buffer@, at as int);
    }
    let (head, _rest) = cursor::split_at_byte(buffer, at);
    let first: usize = text::chars_of(head.as_str()).len();
    let chars: Vec<char> = text::chars_of(buffer);
    let total: usize = chars.len();
    let ghost from = cursor::chars_before(buffer@, at as int);
    let mut k: usize = first;
    while k < total && chars[k] != '\n'
        invariant
            total == chars@.len(),
            chars@ == buffer@,
            from <= k <= total,
            line_tail(buffer@, k as int) == line_tail(buffer@, from),
        decreases total - k,
    {
        k = k + 1;
    }
    let part: String = text::text_of(&chars, 0, k);
    proof {
        assert(part@ =~= buffer@.take(k as int));
        cursor::lemma_chars_before_byte_at(buffer@, k as int);
        cursor::lemma_byte_at_monotone(buffer@, from, k as int);
        cursor::lemma_split_at(buffer@, k as int);
    }
    cursor::len_of(part.as_str())
}

/// The place at the same distance from the start of its line in the line before; nothing in the
/// first line.
pub open spec fn line_above(s: Seq<char>, at: int) -> Option<int> {
    let start = line_start(s, at);
    if start == 0 {
        None
    } else {
        let last = start - 1;
        let first = line_start(s, last);
        Some(cursor::ceil_boundary(s, first + cursor::least(at - start, last - first)))
    }
}

/// The place at the same distance from the start of its line in the line after; nothing in the last
/// line.
pub open spec fn line_below(s: Seq<char>, at: int) -> Option<int> {
    let start = line_start(s, at);
    let end = line_end(s, at);
    if end == cursor::byte_len(s) {
        None
    } else {
        let first = end + 1;
        let last = line_end(s, first);
        Some(cursor::ceil_boundary(s, first + cursor::least(at - start, last - first)))
    }
}

proof fn lemma_line_feed(s: Seq<char>, k: int)
    requires
        0 <= k < s.len(),
        s[k] == '\n',
    ensures
        cursor::byte_at(s, k + 1) == cursor::byte_at(s, k) + 1,
        cursor::boundary(s, cursor::byte_at(s, k)),
        cursor::boundary(s, cursor::byte_at(s, k + 1)),
        cursor::chars_before(s, cursor::byte_at(s, k)) == k,
        cursor::chars_before(s, cursor::byte_at(s, k + 1)) == k + 1,
{
    cursor::lemma_byte_at_step(s, k);
    cursor::lemma_char_width('\n');
    cursor::lemma_chars_before_byte_at(s, k);
    cursor::lemma_chars_before_byte_at(s, k + 1);
}

/// The place above a cursor.
pub fn prev_line_cursor(buffer: &str, cursor: usize) -> (at: Option<usize>)
    requires
        cursor::boundary(
            buffer@,
            cursor::least(cursor as int, cursor::byte_len(buffer@)),
        ),
    ensures
        match (at, line_above(
            buffer@,
            cursor::least(cursor as int, cursor::byte_len(buffer@)),
        )) {
            (Some(found), Some(wanted)) => found == wanted && cursor::boundary(
                buffer@,
                found as int,
            ),
            (None, None) => true,
            _ => false,
        },
{
    let c: usize = cursor::min(cursor, cursor::len_of(buffer));
    let start: usize = line_start_of(buffer, c);
    if start == 0 {
        return None;
    }
    proof {
        let k = cursor::chars_before(buffer@, c as int);
        cursor::lemma_boundary(buffer@, c as int);
        lemma_line_head(buffer@, k);
        if line_head(buffer@, k) == 0 {
            cursor::lemma_ends(buffer@);
        }
        lemma_line_feed(buffer@, line_head(buffer@, k) - 1);
    }
    let last: usize = start - 1;
    let first: usize = line_start_of(buffer, last);
    let column: usize = cursor::min(c - start, last - first);
    proof {
        cursor::lemma_boundary(buffer@, c as int);
    }
    Some(snap_to_boundary(buffer, first + column))
}

/// The place below a cursor.
pub fn next_line_cursor(buffer: &str, cursor: usize) -> (at: Option<usize>)
    requires
        cursor::boundary(
            buffer@,
            cursor::least(cursor as int, cursor::byte_len(buffer@)),
        ),
    ensures
        match (at, line_below(
            buffer@,
            cursor::least(cursor as int, cursor::byte_len(buffer@)),
        )) {
            (Some(found), Some(wanted)) => found == wanted && cursor::boundary(
                buffer@,
                found as int,
            ),
            (None, None) => true,
            _ => false,
        },
{
    let n: usize = cursor::len_of(buffer);
    let c: usize = cursor::min(cursor, n);
    let start: usize = line_start_of(buffer, c);
    let end: usize = line_end_of(buffer, c);
    if end == n {
        return None;
    }
    proof {
        let k = cursor::chars_before(buffer@, c as int);
        cursor::lemma_boundary(buffer@, c as int);
        lemma_line_tail(buffer@, k);
        if line_tail(buffer@, k) == buffer@.len() {
            cursor::lemma_ends(buffer@);
        }
        lemma_line_feed(buffer@, line_tail(buffer@, k));
        cursor::lemma_boundary(buffer@, end + 1);
    }
    let first: usize = end + 1;
    let last: usize = line_end_of(buffer, first);
    let column: usize = cursor::min(c - start, last - first);
    Some(snap_to_boundary(buffer, first + column))
}

/// Of the characters that everyone types, letters and digits make words, and nothing else does.
pub proof fn law_letters_and_digits_make_words(c: char)
    requires
        (c as u32) < 128,
    ensures
        in_word(c) <==> '0' <= c <= '9' || 'A' <= c <= 'Z' || 'a' <= c <= 'z',
{
}

/// The line above is there exactly where a line feed stands before, and what is found lies on it, as far
/// in as before or at its end.
pub proof fn law_the_line_above_is_the_one_before(s: Seq<char>, at: int)
    requires
        cursor::boundary(s, at),
    ensures
        ({
            let start = line_start(s, at);
            let first = line_start(s, start - 1);
            &&& line_above(s, at) is None <==> start == 0
            &&& line_above(s, at) matches Some(found) ==> first <= found <= start - 1
                && cursor::boundary(s, found) && (cursor::boundary(
                s,
                first + cursor::least(at - start, start - 1 - first),
            ) ==> found == first + cursor::least(at - start, start - 1 - first))
        }),
{
    let start = line_start(s, at);
    let k = cursor::chars_before(s, at);
    cursor::lemma_boundary(s, at);
    lemma_line_head(s, k);
    let head = line_head(s, k);
    cursor::lemma_chars_before_byte_at(s, head);
    cursor::lemma_byte_at_monotone(s, head, k);
    cursor::lemma_ends(s);
    if start != 0 {
        assert(head > 0);
        lemma_line_feed(s, head - 1);
        let last = start - 1;
        lemma_line_head(s, head - 1);
        let first_head = line_head(s, head - 1);
        cursor::lemma_chars_before_byte_at(s, first_head);
        cursor::lemma_byte_at_monotone(s, first_head, head - 1);
        cursor::lemma_byte_at_monotone(s, 0, first_head);
        cursor::lemma_byte_at_monotone(s, head, s.len() as int);
        let first = line_start(s, last);
        let wanted = first + cursor::least(at - start, last - first);
        cursor::lemma_ceil(s, wanted);
        let found = cursor::ceil_boundary(s, wanted);
        assert(cursor::boundary(s, last));
        if last < found {
            assert(!cursor::boundary(s, last));
        }
        if cursor::boundary(s, wanted) && wanted < found {
            assert(!cursor::boundary(s, wanted));
        }
    } else if head > 0 {
        cursor::lemma_byte_at_monotone(s, 0, head);
    }
}

/// The line below is there exactly where a line feed stands behind, and what is found lies on it, as far
/// in as before or at its end.
pub proof fn law_the_line_below_is_the_one_behind(s: Seq<char>, at: int)
    requires
        cursor::boundary(s, at),
    ensures
        ({
            let start = line_start(s, at);
            let end = line_end(s, at);
            let last = line_end(s, end + 1);
            &&& line_below(s, at) is None <==> end == cursor::byte_len(s)
            &&& line_below(s, at) matches Some(found) ==> end + 1 <= found <= last
                && cursor::boundary(s, found) && (cursor::boundary(
                s,
                end + 1 + cursor::least(at - start, last - end - 1),
            ) ==> found == end + 1 + cursor::least(at - start, last - end - 1))
        }),
{
    let start = line_start(s, at);
    let end = line_end(s, at);
    let k = cursor::chars_before(s, at);
    cursor::lemma_boundary(s, at);
    lemma_line_head(s, k);
    lemma_line_tail(s, k);
    let head = line_head(s, k);
    let tail = line_tail(s, k);
    cursor::lemma_byte_at_monotone(s, head, k);
    cursor::lemma_ends(s);
    if end != cursor::byte_len(s) {
        assert(tail < s.len());
        lemma_line_feed(s, tail);
        lemma_line_tail(s, tail + 1);
        let last_tail = line_tail(s, tail + 1);
        cursor::lemma_chars_before_byte_at(s, last_tail);
        cursor::lemma_byte_at_monotone(s, tail + 1, last_tail);
        cursor::lemma_byte_at_monotone(s, last_tail, s.len() as int);
        cursor::lemma_byte_at_monotone(s, 0, tail);
        let last = line_end(s, end + 1);
        let wanted = end + 1 + cursor::least(at - start, last - end - 1);
        cursor::lemma_ceil(s, wanted);
        let found = cursor::ceil_boundary(s, wanted);
        if last < found {
            assert(!cursor::boundary(s, last));
        }
        if cursor::boundary(s, wanted) && wanted < found {
            assert(!cursor::boundary(s, wanted));
        }
    }
}

} // verus!
