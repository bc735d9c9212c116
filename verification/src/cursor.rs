//! Byte cursors into UTF-8 text: character, word and line boundaries.
use vstd::prelude::*;
use vstd::utf8::*;

verus! {

// -- Model ---------------------------------------------------------------------

/// The number of bytes that a text takes in UTF-8.
pub open spec fn byte_len(s: Seq<char>) -> int {
    encode_utf8(s).len() as int
}

/// The byte offset at which the character with index `k` starts.
pub open spec fn byte_at(s: Seq<char>, k: int) -> int {
    encode_utf8(s.take(k)).len() as int
}

/// The number of bytes that one character takes in UTF-8.
pub open spec fn char_width(c: char) -> int {
    encode_scalar(c as u32).len() as int
}

/// A byte offset between two characters, or at either end.
pub open spec fn boundary(s: Seq<char>, b: int) -> bool {
    is_char_boundary(encode_utf8(s), b)
}

/// The number of characters before a byte offset.
pub open spec fn chars_before(s: Seq<char>, b: int) -> int
    decreases s.len(),
{
    if b <= 0 || s.len() == 0 {
        0
    } else {
        1 + chars_before(s.drop_first(), b - char_width(s[0]))
    }
}

/// The last boundary at or before `b`.
pub open spec fn floor_boundary(s: Seq<char>, b: int) -> int
    decreases b,
{
    if b <= 0 {
        0
    } else if boundary(s, b) {
        b
    } else {
        floor_boundary(s, b - 1)
    }
}

/// The first boundary at or after `b`.
pub open spec fn ceil_boundary(s: Seq<char>, b: int) -> int
    decreases byte_len(s) - b,
{
    if b >= byte_len(s) {
        byte_len(s)
    } else if boundary(s, b) {
        b
    } else {
        ceil_boundary(s, b + 1)
    }
}

/// The smaller of two offsets.
pub open spec fn least(a: int, b: int) -> int {
    if a <= b {
        a
    } else {
        b
    }
}

// -- Facts about the encoding -----------------------------------------------------

pub proof fn lemma_encode_concat(a: Seq<char>, b: Seq<char>)
    ensures
        encode_utf8(a + b) == encode_utf8(a) + encode_utf8(b),
    decreases a.len(),
{
    if a.len() == 0 {
        assert(a + b =~= b);
        assert(encode_utf8(a) + encode_utf8(b) =~= encode_utf8(b));
    } else {
        lemma_encode_concat(a.drop_first(), b);
        assert((a + b).drop_first() =~= a.drop_first() + b);
        assert(encode_utf8(a + b) =~= encode_utf8(a) + encode_utf8(b));
    }
}

pub proof fn lemma_char_width(c: char)
    ensures
        1 <= char_width(c) <= 4,
        (c as u32) < 0x80 ==> char_width(c) == 1,
        0x80 <= (c as u32) < 0x800 ==> char_width(c) == 2,
        0x800 <= (c as u32) < 0x10000 ==> char_width(c) == 3,
        0x10000 <= (c as u32) ==> char_width(c) == 4,
{
    char_is_scalar(c);
}

/// The parts of the encoding before and after a character index.
pub proof fn lemma_split_at(s: Seq<char>, k: int)
    requires
        0 <= k <= s.len(),
    ensures
        0 <= byte_at(s, k) <= byte_len(s),
        encode_utf8(s).subrange(0, byte_at(s, k)) == encode_utf8(s.take(k)),
        encode_utf8(s).subrange(byte_at(s, k), byte_len(s)) == encode_utf8(s.skip(k)),
        byte_len(s) == byte_at(s, k) + byte_len(s.skip(k)),
{
    assert(s =~= s.take(k) + s.skip(k));
    lemma_encode_concat(s.take(k), s.skip(k));
    assert(encode_utf8(s).subrange(0, byte_at(s, k)) =~= encode_utf8(s.take(k)));
    assert(encode_utf8(s).subrange(byte_at(s, k), byte_len(s)) =~= encode_utf8(s.skip(k)));
}

pub proof fn lemma_byte_at_step(s: Seq<char>, k: int)
    requires
        0 <= k < s.len(),
    ensures
        byte_at(s, k + 1) == byte_at(s, k) + char_width(s[k]),
{
    assert(s.take(k + 1) =~= s.take(k) + seq![s[k]]);
    lemma_encode_concat(s.take(k), seq![s[k]]);
    lemma_encode_one(s[k]);
}

pub proof fn lemma_encode_one(c: char)
    ensures
        encode_utf8(seq![c]) == encode_scalar(c as u32),
{
    assert(seq![c].drop_first() =~= Seq::<char>::empty());
    assert(encode_utf8(Seq::<char>::empty()) =~= Seq::<u8>::empty());
    assert(encode_scalar(c as u32) + Seq::<u8>::empty() =~= encode_scalar(c as u32));
}

/// An offset is a boundary exactly when it is where some character starts or the end.
pub proof fn lemma_boundary(s: Seq<char>, b: int)
    ensures
        boundary(s, b) <==> (0 <= chars_before(s, b) <= s.len() && byte_at(s, chars_before(s, b))
            == b),
        boundary(s, b) ==> 0 <= b <= byte_len(s),
        0 <= chars_before(s, b) <= s.len(),
    decreases s.len(),
{
    encode_utf8_valid_utf8(s);
    let k = chars_before(s, b);
    if b <= 0 {
        assert(s.take(0) =~= Seq::<char>::empty());
        assert(byte_at(s, 0) == 0);
    } else if s.len() == 0 {
        assert(s.take(0) =~= Seq::<char>::empty());
    } else {
        let t = s.drop_first();
        let w = char_width(s[0]);
        lemma_char_width(s[0]);
        encode_utf8_first_scalar(s);
        encode_utf8_valid_utf8(t);
        assert(pop_first_scalar(encode_utf8(s)) =~= encode_utf8(t));
        lemma_boundary(t, b - w);
        let j = chars_before(t, b - w);
        assert(s.take(k).drop_first() =~= t.take(j));
        assert(s.take(k)[0] == s[0]);
        assert(byte_at(s, k) == w + byte_at(t, j));
        assert(byte_len(s) == w + byte_len(t));
        if b > byte_len(s) {
            lemma_split_at(t, j);
        }
    }
}

pub proof fn lemma_byte_at_monotone(s: Seq<char>, i: int, j: int)
    requires
        0 <= i <= j <= s.len(),
    ensures
        byte_at(s, i) + (j - i) <= byte_at(s, j),
    decreases j - i,
{
    if i < j {
        lemma_byte_at_monotone(s, i, j - 1);
        lemma_byte_at_step(s, j - 1);
        lemma_char_width(s[j - 1]);
    }
}

/// The start of each character is a boundary, with as many characters before it as its index.
pub proof fn lemma_chars_before_byte_at(s: Seq<char>, k: int)
    requires
        0 <= k <= s.len(),
    ensures
        boundary(s, byte_at(s, k)),
        chars_before(s, byte_at(s, k)) == k,
    decreases s.len(),
{
    if k == 0 {
        assert(s.take(0) =~= Seq::<char>::empty());
        lemma_boundary(s, 0);
    } else {
        let t = s.drop_first();
        lemma_chars_before_byte_at(t, k - 1);
        assert(s.take(k).drop_first() =~= t.take(k - 1));
        assert(s.take(k)[0] == s[0]);
        lemma_char_width(s[0]);
        assert(byte_at(s, k) == char_width(s[0]) + byte_at(t, k - 1));
        lemma_boundary(s, byte_at(s, k));
    }
}

pub proof fn lemma_ends(s: Seq<char>)
    ensures
        boundary(s, 0),
        boundary(s, byte_len(s)),
        chars_before(s, byte_len(s)) == s.len(),
        byte_at(s, s.len() as int) == byte_len(s),
        byte_at(s, 0) == 0,
        byte_len(s) >= s.len(),
{
    assert(s.take(s.len() as int) =~= s);
    assert(s.take(0) =~= Seq::<char>::empty());
    lemma_chars_before_byte_at(s, s.len() as int);
    lemma_chars_before_byte_at(s, 0);
    lemma_byte_at_monotone(s, 0, s.len() as int);
}

pub proof fn lemma_floor(s: Seq<char>, b: int)
    requires
        b <= byte_len(s),
    ensures
        boundary(s, floor_boundary(s, b)),
        0 <= floor_boundary(s, b),
        0 <= b ==> floor_boundary(s, b) <= b,
        forall|x: int| floor_boundary(s, b) < x <= b ==> !boundary(s, x),
    decreases b,
{
    lemma_ends(s);
    if b > 0 && !boundary(s, b) {
        lemma_floor(s, b - 1);
    }
}

pub proof fn lemma_ceil(s: Seq<char>, b: int)
    requires
        0 <= b,
    ensures
        boundary(s, ceil_boundary(s, b)),
        b <= byte_len(s) ==> b <= ceil_boundary(s, b) <= byte_len(s),
        forall|x: int| b <= x < ceil_boundary(s, b) ==> !boundary(s, x),
    decreases byte_len(s) - b,
{
    lemma_ends(s);
    if b < byte_len(s) && !boundary(s, b) {
        lemma_ceil(s, b + 1);
    }
}

/// Between two neighbouring boundaries lies exactly one character.
pub proof fn lemma_neighbours(s: Seq<char>, k: int)
    requires
        0 <= k < s.len(),
    ensures
        forall|x: int| byte_at(s, k) < x < byte_at(s, k + 1) ==> !boundary(s, x),
        byte_at(s, k) < byte_at(s, k + 1),
{
    lemma_byte_at_step(s, k);
    lemma_char_width(s[k]);
    assert forall|x: int| byte_at(s, k) < x < byte_at(s, k + 1) implies !boundary(s, x) by {
        lemma_boundary(s, x);
        let j = chars_before(s, x);
        if j <= k {
            lemma_byte_at_monotone(s, j, k);
        } else {
            lemma_byte_at_monotone(s, k + 1, j);
        }
    }
}

/// Steps from a boundary to the one before and the one after it.
pub proof fn lemma_step_from(s: Seq<char>, b: int)
    requires
        boundary(s, b),
    ensures
        b > 0 ==> floor_boundary(s, b - 1) == byte_at(s, chars_before(s, b) - 1) && chars_before(
            s,
            b,
        ) > 0,
        b < byte_len(s) ==> ceil_boundary(s, b + 1) == byte_at(s, chars_before(s, b) + 1)
            && chars_before(s, b) < s.len(),
{
    lemma_boundary(s, b);
    lemma_ends(s);
    let k = chars_before(s, b);
    if b > 0 {
        if k == 0 {
            assert(byte_at(s, 0) == 0);
        }
        lemma_neighbours(s, k - 1);
        lemma_chars_before_byte_at(s, k - 1);
        lemma_floor(s, b - 1);
    }
    if b < byte_len(s) {
        if k == s.len() {
            assert(byte_at(s, k) == byte_len(s));
        }
        lemma_neighbours(s, k);
        lemma_chars_before_byte_at(s, k + 1);
        lemma_split_at(s, k + 1);
        lemma_ceil(s, b + 1);
    }
}

/// Texts with the same encoding are the same.
pub proof fn lemma_encode_injective(a: Seq<char>, b: Seq<char>)
    requires
        encode_utf8(a) == encode_utf8(b),
    ensures
        a == b,
{
    encode_utf8_decode_utf8(a);
    encode_utf8_decode_utf8(b);
}

// -- Splitting ---------------------------------------------------------------------

/// The number of bytes of a text.
pub fn len_of(s: &str) -> (n: usize)
    ensures
        n == byte_len(s@),
{
    s.as_bytes().len()
}

/// Whether a byte offset is a boundary.
pub fn at_boundary(s: &str, b: usize) -> (r: bool)
    ensures
        r == boundary(s@, b as int),
{
    s.is_char_boundary(b)
}

/// The text before and the text after a boundary.
pub fn split_at_byte(s: &str, b: usize) -> (parts: (String, String))
    requires
        boundary(s@, b as int),
    ensures
        parts.0@ == s@.take(chars_before(s@, b as int)),
        parts.1@ == s@.skip(chars_before(s@, b as int)),
{
    let (head, tail) = s.split_at(b);
    proof {
        lemma_boundary(s@, b as int);
        lemma_split_at(s@, chars_before(s@, b as int));
        lemma_encode_injective(head@, s@.take(chars_before(s@, b as int)));
        lemma_encode_injective(tail@, s@.skip(chars_before(s@, b as int)));
    }
    (head.to_owned(), tail.to_owned())
}

/// The number of bytes that one character takes (`char::len_utf8`).
pub fn width_of(c: char) -> (n: usize)
    ensures
        n == char_width(c),
        1 <= n <= 4,
{
    proof {
        lemma_char_width(c);
    }
    let u: u32 = c as u32;
    if u < 0x80 {
        1
    } else if u < 0x800 {
        2
    } else if u < 0x10000 {
        3
    } else {
        4
    }
}

/// The smaller of two offsets.
pub fn min(a: usize, b: usize) -> (m: usize)
    ensures
        m == least(a as int, b as int),
{
    if a <= b {
        a
    } else {
        b
    }
}

/// The last boundary at or before an offset, at most the end.
pub fn floor_of(s: &str, b: usize) -> (r: usize)
    requires
        b <= byte_len(s@),
    ensures
        r == floor_boundary(s@, b as int),
        r <= b,
{
    proof {
        lemma_floor(s@, b as int);
    }
    let mut i: usize = b;
    while i > 0 && !at_boundary(s, i)
        invariant
            floor_boundary(s@, i as int) == floor_boundary(s@, b as int),
        decreases i,
    {
        i = i - 1;
    }
    i
}

/// The first boundary at or after an offset.
pub fn ceil_of(s: &str, b: usize) -> (r: usize)
    requires
        b <= byte_len(s@),
    ensures
        r == ceil_boundary(s@, b as int),
        b <= r <= byte_len(s@),
{
    proof {
        lemma_ceil(s@, b as int);
    }
    let n: usize = len_of(s);
    let mut i: usize = b;
    while i < n && !at_boundary(s, i)
        invariant
            n == byte_len(s@),
            i <= n,
            ceil_boundary(s@, i as int) == ceil_boundary(s@, b as int),
        decreases n - i,
    {
        i = i + 1;
    }
    i
}

} // verus!
