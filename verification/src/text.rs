//! Character-level text operations, stated over sequences of characters.
use vstd::prelude::*;

verus! {

// -- Characters --------------------------------------------------------------

/// The characters with Unicode's `White_Space` property.
pub open spec fn is_space(c: char) -> bool {
    let u = c as u32;
    ||| 0x09 <= u <= 0x0d
    ||| u == 0x20
    ||| u == 0x85
    ||| u == 0xa0
    ||| u == 0x1680
    ||| 0x2000 <= u <= 0x200a
    ||| u == 0x2028
    ||| u == 0x2029
    ||| u == 0x202f
    ||| u == 0x205f
    ||| u == 0x3000
}

/// The control characters: Unicode's general category `Cc`.
pub open spec fn is_control_char(c: char) -> bool {
    let u = c as u32;
    u <= 0x1f || 0x7f <= u <= 0x9f
}

/// `char::is_whitespace`: the characters with the `White_Space` property, which is listed in full
/// in `is_space`.
pub assume_specification[ char::is_whitespace ](c: char) -> (b: bool)
    ensures
        b == is_space(c),
;

/// `char::is_control`: the code points of general category `Cc`, which are the two ranges of
/// `is_control_char`.
pub assume_specification[ char::is_control ](c: char) -> (b: bool)
    ensures
        b == is_control_char(c),
;

/// `String::push`: appends one character at the end.
pub assume_specification[ String::push ](s: &mut String, c: char)
    ensures
        final(s)@ == old(s)@.push(c),
;

/// A character with `A` to `Z` made lower case.
pub open spec fn lower_char(c: char) -> char {
    if 'A' <= c <= 'Z' {
        ((c as u8) + 32) as char
    } else {
        c
    }
}

/// A text with `A` to `Z` made lower case.
pub open spec fn lower(s: Seq<char>) -> Seq<char> {
    Seq::new(s.len(), |i: int| lower_char(s[i]))
}

// -- Views -------------------------------------------------------------------

/// The views of the elements of a sequence.
pub open spec fn views<T: View>(s: Seq<T>) -> Seq<T::V> {
    Seq::new(s.len(), |i: int| s[i]@)
}

/// The view of what an option holds.
pub open spec fn opt_view<T: View>(o: Option<T>) -> Option<T::V> {
    match o {
        Some(x) => Some(x@),
        None => None,
    }
}

/// The views of the elements of an optional list.
pub open spec fn opt_views<T: View>(o: Option<Vec<T>>) -> Option<Seq<T::V>> {
    match o {
        Some(list) => Some(views(list@)),
        None => None,
    }
}

pub broadcast proof fn lemma_views_push<T: View>(s: Seq<T>, x: T)
    ensures
        #[trigger] views(s.push(x)) == views(s).push(x@),
{
    assert(views(s.push(x)) =~= views(s).push(x@));
}

pub broadcast proof fn lemma_views_empty<T: View>()
    ensures
        #[trigger] views(Seq::<T>::empty()) == Seq::<T::V>::empty(),
{
    assert(views(Seq::<T>::empty()) =~= Seq::<T::V>::empty());
}

pub broadcast proof fn lemma_views_add<T: View>(a: Seq<T>, b: Seq<T>)
    ensures
        #[trigger] views(a + b) == views(a) + views(b),
{
    assert(views(a + b) =~= views(a) + views(b));
}

pub broadcast proof fn lemma_views_update<T: View>(s: Seq<T>, i: int, x: T)
    requires
        0 <= i < s.len(),
    ensures
        #[trigger] views(s.update(i, x)) == views(s).update(i, x@),
{
    assert(views(s.update(i, x)) =~= views(s).update(i, x@));
}

pub broadcast proof fn lemma_views_subrange<T: View>(s: Seq<T>, a: int, b: int)
    requires
        0 <= a <= b <= s.len(),
    ensures
        #[trigger] views(s.subrange(a, b)) == views(s).subrange(a, b),
{
    assert(views(s.subrange(a, b)) =~= views(s).subrange(a, b));
}

pub broadcast group group_views {
    lemma_views_push,
    lemma_views_empty,
    lemma_views_add,
    lemma_views_update,
    lemma_views_subrange,
}

// -- Spec of text operations ---------------------------------------------------

/// Without its leading white space.
pub open spec fn trim_start_of(s: Seq<char>) -> Seq<char>
    decreases s.len(),
{
    if s.len() > 0 && is_space(s[0]) {
        trim_start_of(s.drop_first())
    } else {
        s
    }
}

/// Without its trailing white space.
pub open spec fn trim_end_of(s: Seq<char>) -> Seq<char>
    decreases s.len(),
{
    if s.len() > 0 && is_space(s.last()) {
        trim_end_of(s.drop_last())
    } else {
        s
    }
}

/// Without its leading and trailing white space.
pub open spec fn trim_of(s: Seq<char>) -> Seq<char> {
    trim_end_of(trim_start_of(s))
}

/// Nothing but white space.
pub open spec fn blank(s: Seq<char>) -> bool {
    forall|i: int| 0 <= i < s.len() ==> is_space(#[trigger] s[i])
}

/// The index of the first `c` in `s`, or the length of `s` if there is none.
pub open spec fn first_index(s: Seq<char>, c: char) -> int
    decreases s.len(),
{
    if s.len() == 0 || s[0] == c {
        0
    } else {
        1 + first_index(s.drop_first(), c)
    }
}

/// The pieces of `s` between the occurrences of `c`; always at least one.
pub open spec fn split_of(s: Seq<char>, c: char) -> Seq<Seq<char>>
    decreases s.len(),
{
    let k = first_index(s, c);
    if 0 <= k < s.len() {
        seq![s.take(k)] + split_of(s.skip(k + 1), c)
    } else {
        seq![s]
    }
}

/// The index of the first white space in `s`, or the length of `s` if there is none.
pub open spec fn first_space(s: Seq<char>) -> int
    decreases s.len(),
{
    if s.len() == 0 || is_space(s[0]) {
        0
    } else {
        1 + first_space(s.drop_first())
    }
}

/// The words of `s`: what stands between stretches of white space.
pub open spec fn words_of(s: Seq<char>) -> Seq<Seq<char>>
    decreases s.len(),
    via words_of_terminates
{
    let t = trim_start_of(s);
    if t.len() == 0 {
        Seq::empty()
    } else {
        seq![t.take(first_space(t))] + words_of(t.skip(first_space(t)))
    }
}

#[via_fn]
proof fn words_of_terminates(s: Seq<char>) {
    lemma_trim_start(s);
    lemma_first_space(trim_start_of(s));
}

/// Whether a character is one of the ten digits.
pub open spec fn is_digit(c: char) -> bool {
    '0' <= c && c <= '9'
}

/// The number that a sequence of digits stands for.
pub open spec fn digits_value(s: Seq<char>) -> nat
    decreases s.len(),
{
    if s.len() == 0 {
        0
    } else {
        (digits_value(s.drop_last()) * 10 + (s.last() as u32 - '0' as u32)) as nat
    }
}

/// A text without a plus sign in front.
pub open spec fn without_plus(s: Seq<char>) -> Seq<char> {
    if s.len() > 0 && s[0] == '+' {
        s.skip(1)
    } else {
        s
    }
}

/// Nothing but digits.
pub open spec fn all_digits(s: Seq<char>) -> bool {
    forall|i: int| 0 <= i < s.len() ==> is_digit(#[trigger] s[i])
}

/// The number that a text stands for: digits, at least one, after a plus sign or nothing; nothing
/// where the text is anything else or the number is too large.
pub open spec fn number_of(s: Seq<char>) -> Option<nat> {
    let digits = without_plus(s);
    if digits.len() == 0 || !all_digits(digits) || digits_value(digits) > usize::MAX {
        None
    } else {
        Some(digits_value(digits))
    }
}

/// A line that ended in a line feed, without the carriage return before it.
pub open spec fn without_cr(s: Seq<char>) -> Seq<char> {
    if s.len() > 0 && s.last() == '\r' {
        s.drop_last()
    } else {
        s
    }
}

/// The lines of a text: each ends at a line feed, which it does not contain, and a final line feed
/// opens no further line.
pub open spec fn lines_of(s: Seq<char>) -> Seq<Seq<char>>
    decreases s.len(),
{
    let k = first_index(s, '\n');
    if s.len() == 0 {
        seq![]
    } else if 0 <= k < s.len() {
        seq![without_cr(s.take(k))] + lines_of(s.skip(k + 1))
    } else {
        seq![s]
    }
}

/// `p` occurs in `s`.
pub open spec fn contains_text(s: Seq<char>, p: Seq<char>) -> bool {
    exists|i: int| 0 <= i <= s.len() - p.len() && #[trigger] s.subrange(i, i + p.len()) == p
}

/// `s` starts with `p`.
pub open spec fn begins(s: Seq<char>, p: Seq<char>) -> bool {
    p.len() <= s.len() && s.take(p.len() as int) == p
}

/// The pieces of `parts` with `sep` between them.
pub open spec fn join_of(parts: Seq<Seq<char>>, sep: Seq<char>) -> Seq<char>
    decreases parts.len(),
{
    if parts.len() == 0 {
        seq![]
    } else if parts.len() == 1 {
        parts[0]
    } else {
        join_of(parts.drop_last(), sep) + sep + parts.last()
    }
}

/// The digit character of a number below ten.
pub open spec fn digit_char(d: nat) -> char {
    (('0' as u8) + d) as u8 as char
}

/// A number in decimal notation.
pub open spec fn decimal(n: nat) -> Seq<char>
    decreases n,
{
    if n < 10 {
        seq![digit_char(n)]
    } else {
        decimal(n / 10).push(digit_char(n % 10))
    }
}

// -- Facts ---------------------------------------------------------------------

pub proof fn lemma_first_index(s: Seq<char>, c: char)
    ensures
        0 <= first_index(s, c) <= s.len(),
        first_index(s, c) < s.len() ==> s[first_index(s, c)] == c,
        forall|i: int| 0 <= i < first_index(s, c) ==> s[i] != c,
    decreases s.len(),
{
    if s.len() > 0 && s[0] != c {
        let t = s.drop_first();
        lemma_first_index(t, c);
        let k = first_index(t, c);
        assert forall|i: int| 0 <= i < k + 1 implies s[i] != c by {
            if i > 0 {
                assert(t[i - 1] == s[i]);
            }
        }
    }
}

pub proof fn lemma_first_index_is(s: Seq<char>, c: char, k: int)
    requires
        0 <= k <= s.len(),
        k < s.len() ==> s[k] == c,
        forall|i: int| 0 <= i < k ==> s[i] != c,
    ensures
        first_index(s, c) == k,
{
    lemma_first_index(s, c);
}

pub proof fn lemma_trim_start(s: Seq<char>)
    ensures
        trim_start_of(s).len() <= s.len(),
        trim_start_of(s) == s.skip(s.len() - trim_start_of(s).len()),
        trim_start_of(s).len() > 0 ==> !is_space(trim_start_of(s)[0]),
        forall|i: int| 0 <= i < s.len() - trim_start_of(s).len() ==> is_space(#[trigger] s[i]),
    decreases s.len(),
{
    if s.len() > 0 && is_space(s[0]) {
        let t = s.drop_first();
        lemma_trim_start(t);
        assert(trim_start_of(s) =~= s.skip(s.len() - trim_start_of(s).len()));
        assert forall|i: int| 0 <= i < s.len() - trim_start_of(s).len() implies is_space(
            #[trigger] s[i],
        ) by {
            if i > 0 {
                assert(is_space(t[i - 1]));
            }
        }
    } else {
        assert(s.skip(0) =~= s);
    }
}

pub proof fn lemma_trim_end(s: Seq<char>)
    ensures
        trim_end_of(s).len() <= s.len(),
        trim_end_of(s) == s.take(trim_end_of(s).len() as int),
        trim_end_of(s).len() > 0 ==> !is_space(trim_end_of(s).last()),
        forall|i: int| trim_end_of(s).len() <= i < s.len() ==> is_space(#[trigger] s[i]),
        (trim_end_of(s).len() == 0) == blank(s),
    decreases s.len(),
{
    if s.len() > 0 && is_space(s.last()) {
        let t = s.drop_last();
        lemma_trim_end(t);
        assert(trim_end_of(s) =~= s.take(trim_end_of(s).len() as int));
        assert forall|i: int| trim_end_of(s).len() <= i < s.len() implies is_space(
            #[trigger] s[i],
        ) by {
            if i < t.len() {
                assert(is_space(t[i]));
            }
        }
        if blank(s) {
            assert forall|i: int| 0 <= i < t.len() implies is_space(#[trigger] t[i]) by {
                assert(is_space(s[i]));
            }
        }
        if blank(t) {
            assert forall|i: int| 0 <= i < s.len() implies is_space(#[trigger] s[i]) by {
                if i < t.len() {
                    assert(is_space(t[i]));
                }
            }
        }
    } else {
        assert(s.take(s.len() as int) =~= s);
        if s.len() > 0 {
            assert(!is_space(s[s.len() - 1]));
        }
    }
}

// -- Operations ------------------------------------------------------------------

/// The characters of a text, in order.
pub fn chars_of(s: &str) -> (out: Vec<char>)
    ensures
        out@ == s@,
{
    let mut out: Vec<char> = Vec::new();
    for c in it: s.chars()
        invariant
            out@ == it.seq().take(it.index()),
            it.seq() == s@,
    {
        out.push(c);
    }
    out
}

/// The text that the characters from `from` up to `to` make.
pub fn text_of(chars: &Vec<char>, from: usize, to: usize) -> (out: String)
    requires
        from <= to <= chars@.len(),
    ensures
        out@ == chars@.subrange(from as int, to as int),
{
    let mut out: String = String::new();
    let mut i: usize = from;
    while i < to
        invariant
            from <= i <= to <= chars@.len(),
            out@ == chars@.subrange(from as int, i as int),
        decreases to - i,
    {
        out.push(chars[i]);
        i = i + 1;
        assert(out@ =~= chars@.subrange(from as int, i as int));
    }
    out
}

/// Whether two texts are the same.
pub fn same_text(a: &str, b: &str) -> (same: bool)
    ensures
        same == (a@ == b@),
{
    let x: String = a.to_owned();
    let y: String = b.to_owned();
    x == y
}

/// Whether a text has no characters.
pub fn is_empty(s: &str) -> (b: bool)
    ensures
        b == (s@.len() == 0),
{
    proof {
        crate::cursor::lemma_ends(s@);
    }
    s.as_bytes().len() == 0
}

/// Whether every character is white space.
pub fn is_blank(s: &str) -> (b: bool)
    ensures
        b == blank(s@),
{
    let chars: Vec<char> = chars_of(s);
    let mut i: usize = 0;
    while i < chars.len()
        invariant
            chars@ == s@,
            i <= chars@.len(),
            forall|j: int| 0 <= j < i ==> is_space(#[trigger] s@[j]),
        decreases chars@.len() - i,
    {
        if !chars[i].is_whitespace() {
            assert(!is_space(s@[i as int]));
            return false;
        }
        i = i + 1;
    }
    true
}

/// Without leading white space.
pub fn trim_start(s: &str) -> (out: String)
    ensures
        out@ == trim_start_of(s@),
{
    let chars: Vec<char> = chars_of(s);
    let mut i: usize = 0;
    assert(s@.skip(0) =~= s@);
    while i < chars.len() && chars[i].is_whitespace()
        invariant
            chars@ == s@,
            i <= chars@.len(),
            trim_start_of(s@) == trim_start_of(s@.skip(i as int)),
        decreases chars@.len() - i,
    {
        assert(s@.skip(i as int).drop_first() =~= s@.skip(i + 1));
        i = i + 1;
    }
    let out: String = text_of(&chars, i, chars.len());
    assert(out@ =~= s@.skip(i as int));
    out
}

/// Without trailing white space.
pub fn trim_end(s: &str) -> (out: String)
    ensures
        out@ == trim_end_of(s@),
{
    let chars: Vec<char> = chars_of(s);
    let mut n: usize = chars.len();
    assert(s@.take(s@.len() as int) =~= s@);
    while n > 0 && chars[n - 1].is_whitespace()
        invariant
            chars@ == s@,
            n <= chars@.len(),
            trim_end_of(s@) == trim_end_of(s@.take(n as int)),
        decreases n,
    {
        assert(s@.take(n as int).drop_last() =~= s@.take(n - 1));
        n = n - 1;
    }
    let out: String = text_of(&chars, 0, n);
    assert(out@ =~= s@.take(n as int));
    out
}

/// Without leading and trailing white space.
pub fn trim(s: &str) -> (out: String)
    ensures
        out@ == trim_of(s@),
{
    let t: String = trim_start(s);
    trim_end(t.as_str())
}

/// The index of the first `c` at or after `from`, or the length if there is none.
pub fn find_char(chars: &Vec<char>, from: usize, c: char) -> (k: usize)
    requires
        from <= chars@.len(),
    ensures
        from <= k <= chars@.len(),
        k - from == first_index(chars@.skip(from as int), c),
{
    let mut k: usize = from;
    while k < chars.len() && chars[k] != c
        invariant
            from <= k <= chars@.len(),
            forall|j: int| from <= j < k ==> chars@[j] != c,
        decreases chars@.len() - k,
    {
        k = k + 1;
    }
    proof {
        lemma_first_index_is(chars@.skip(from as int), c, k - from);
    }
    k
}

/// The pieces of a text between the occurrences of a character.
pub fn split_on(s: &str, c: char) -> (out: Vec<String>)
    ensures
        views(out@) == split_of(s@, c),
        out@.len() >= 1,
{
    broadcast use group_views;

    let chars: Vec<char> = chars_of(s);
    let mut out: Vec<String> = Vec::new();
    let mut start: usize = 0;
    assert(s@.skip(0) =~= s@);
    assert(views(out@) + split_of(s@, c) =~= split_of(s@, c));
    loop
        invariant_except_break
            chars@ == s@,
            start <= chars@.len(),
            views(out@) + split_of(s@.skip(start as int), c) == split_of(s@, c),
        ensures
            views(out@) == split_of(s@, c),
            out@.len() >= 1,
        decreases chars@.len() - start,
    {
        let end: usize = find_char(&chars, start, c);
        let ghost rest = s@.skip(start as int);
        let ghost before = views(out@);
        let piece: String = text_of(&chars, start, end);
        assert(piece@ =~= rest.take(end - start));
        out.push(piece);
        if end < chars.len() {
            assert(rest.skip(end - start + 1) =~= s@.skip(end + 1));
            assert(before + (seq![piece@] + split_of(s@.skip(end + 1), c)) =~= before.push(piece@)
                + split_of(s@.skip(end + 1), c));
            start = end + 1;
        } else {
            assert(rest.take(rest.len() as int) =~= rest);
            assert(before + seq![piece@] =~= before.push(piece@));
            break;
        }
    }
    out
}

/// The lines of a text.
pub fn lines(s: &str) -> (out: Vec<String>)
    ensures
        views(out@) == lines_of(s@),
{
    broadcast use group_views;

    let chars: Vec<char> = chars_of(s);
    let mut out: Vec<String> = Vec::new();
    let mut start: usize = 0;
    assert(s@.skip(0) =~= s@);
    assert(views(out@) + lines_of(s@) =~= lines_of(s@));
    while start < chars.len()
        invariant
            chars@ == s@,
            start <= chars@.len(),
            views(out@) + lines_of(s@.skip(start as int)) == lines_of(s@),
        decreases chars@.len() - start,
    {
        let end: usize = find_char(&chars, start, '\n');
        let ghost rest = s@.skip(start as int);
        let ghost before = views(out@);
        if end < chars.len() {
            let mut cut: usize = end;
            if cut > start && chars[cut - 1] == '\r' {
                cut = cut - 1;
            }
            let piece: String = text_of(&chars, start, cut);
            assert(piece@ =~= without_cr(rest.take(end - start)));
            out.push(piece);
            assert(rest.skip(end - start + 1) =~= s@.skip(end + 1));
            assert(before + (seq![piece@] + lines_of(s@.skip(end + 1))) =~= before.push(piece@)
                + lines_of(s@.skip(end + 1)));
            start = end + 1;
        } else {
            let piece: String = text_of(&chars, start, end);
            assert(piece@ =~= rest);
            out.push(piece);
            assert(before + seq![piece@] =~= before.push(piece@));
            start = end;
            assert(s@.skip(end as int) =~= seq![]);
            assert(before.push(piece@) + lines_of(seq![]) =~= before.push(piece@));
        }
    }
    assert(s@.skip(start as int) =~= seq![]);
    assert(views(out@) + lines_of(seq![]) =~= views(out@));
    out
}

/// Whether a text starts with another.
pub fn starts_with(s: &str, p: &str) -> (b: bool)
    ensures
        b == begins(s@, p@),
{
    let sc: Vec<char> = chars_of(s);
    let pc: Vec<char> = chars_of(p);
    assert(s@.skip(0) =~= s@);
    matches_at(&sc, 0, &pc)
}

/// Whether the characters of `p` stand in `s` from index `at` on.
pub fn matches_at(s: &Vec<char>, at: usize, p: &Vec<char>) -> (b: bool)
    requires
        at <= s@.len(),
    ensures
        b == begins(s@.skip(at as int), p@),
{
    let n: usize = s.len();
    if p.len() > n - at {
        return false;
    }
    let mut i: usize = 0;
    while i < p.len()
        invariant
            at + p@.len() <= n,
            n == s@.len(),
            i <= p@.len(),
            forall|j: int| 0 <= j < i ==> #[trigger] p@[j] == s@[at + j],
        decreases p@.len() - i,
    {
        if s[at + i] != p[i] {
            assert(s@.skip(at as int).take(p@.len() as int)[i as int] != p@[i as int]);
            return false;
        }
        i = i + 1;
    }
    assert(s@.skip(at as int).take(p@.len() as int) =~= p@);
    true
}

/// Whether a text occurs in another.
pub fn contains(s: &str, p: &str) -> (b: bool)
    ensures
        b == contains_text(s@, p@),
{
    let sc: Vec<char> = chars_of(s);
    let pc: Vec<char> = chars_of(p);
    let mut i: usize = 0;
    while i <= sc.len()
        invariant
            sc@ == s@,
            pc@ == p@,
            i <= sc@.len() + 1,
            forall|j: int|
                0 <= j < i && j <= s@.len() - p@.len() ==> #[trigger] s@.subrange(j, j + p@.len())
                    != p@,
        decreases sc@.len() + 1 - i,
    {
        let ghost rest = s@.skip(i as int);
        if matches_at(&sc, i, &pc) {
            assert(rest.take(p@.len() as int) =~= s@.subrange(i as int, i + p@.len()));
            return true;
        }
        assert(i <= s@.len() - p@.len() ==> s@.subrange(i as int, i + p@.len()) =~= rest.take(
            p@.len() as int,
        ));
        if i == sc.len() {
            return false;
        }
        i = i + 1;
    }
    false
}

/// What follows a prefix, if the text starts with it.
pub fn strip_prefix(s: &str, p: &str) -> (out: Option<String>)
    ensures
        out is Some <==> begins(s@, p@),
        out matches Some(rest) ==> rest@ == s@.skip(p@.len() as int),
{
    if !starts_with(s, p) {
        return None;
    }
    let sc: Vec<char> = chars_of(s);
    let pc: Vec<char> = chars_of(p);
    let rest: String = text_of(&sc, pc.len(), sc.len());
    assert(rest@ =~= s@.skip(p@.len() as int));
    Some(rest)
}

/// A text with `A` to `Z` made lower case.
pub fn to_lower(s: &str) -> (out: String)
    ensures
        out@ == lower(s@),
{
    let chars: Vec<char> = chars_of(s);
    let mut out: String = String::new();
    let mut i: usize = 0;
    while i < chars.len()
        invariant
            chars@ == s@,
            i <= chars@.len(),
            out@ == lower(s@).take(i as int),
        decreases chars@.len() - i,
    {
        let c: char = chars[i];
        if 'A' <= c && c <= 'Z' {
            out.push(((c as u8) + 32u8) as char);
        } else {
            out.push(c);
        }
        i = i + 1;
        assert(out@ =~= lower(s@).take(i as int));
    }
    assert(lower(s@).take(s@.len() as int) =~= lower(s@));
    out
}

/// A number in decimal notation.
pub fn number(n: u64) -> (out: String)
    ensures
        out@ == decimal(n as nat),
    decreases n,
{
    let mut out: String = if n < 10 {
        String::new()
    } else {
        number(n / 10)
    };
    let d: u8 = (n % 10) as u8;
    out.push((48u8 + d) as char);
    assert(out@ =~= decimal(n as nat));
    out
}

/// The pieces of a list with a separator between them.
pub fn join(parts: &Vec<String>, sep: &str) -> (out: String)
    ensures
        out@ == join_of(views(parts@), sep@),
{
    let mut out: String = String::new();
    let mut i: usize = 0;
    let ghost all = views(parts@);
    assert(all.take(0) =~= seq![]);
    while i < parts.len()
        invariant
            all == views(parts@),
            i <= parts@.len(),
            out@ == join_of(all.take(i as int), sep@),
        decreases parts@.len() - i,
    {
        assert(all.take(i + 1).drop_last() =~= all.take(i as int));
        assert(all.take(i + 1).last() == parts@[i as int]@);
        if i > 0 {
            out.append(sep);
        }
        out.append(parts[i].as_str());
        i = i + 1;
        assert(out@ =~= join_of(all.take(i as int), sep@));
    }
    assert(all.take(all.len() as int) =~= all);
    out
}

/// Whether cloning a value keeps what it stands for.
pub open spec fn clone_keeps_view<T: View + Clone>() -> bool {
    forall|a: T, b: T| #[trigger] call_ensures(T::clone, (&a,), b) ==> b@ == a@
}

/// A copy of an optional value.
pub fn copy_maybe<T: View + Clone>(o: &Option<T>) -> (out: Option<T>)
    requires
        clone_keeps_view::<T>(),
    ensures
        opt_view(out) == opt_view(*o),
{
    match o {
        Some(x) => Some(x.clone()),
        None => None,
    }
}

/// A copy of a list.
pub fn copy_all<T: View + Clone>(list: &Vec<T>) -> (out: Vec<T>)
    requires
        clone_keeps_view::<T>(),
    ensures
        views(out@) == views(list@),
        out@.len() == list@.len(),
{
    broadcast use group_views;

    let mut out: Vec<T> = Vec::new();
    let mut i: usize = 0;
    while i < list.len()
        invariant
            i <= list@.len(),
            clone_keeps_view::<T>(),
            views(out@) == views(list@).take(i as int),
            out@.len() == i,
        decreases list@.len() - i,
    {
        let item: T = list[i].clone();
        let ghost before = out@;
        out.push(item);
        assert(views(out@) == views(before).push(views(list@)[i as int]));
        i = i + 1;
        assert(views(out@) =~= views(list@).take(i as int));
    }
    assert(views(list@).take(list@.len() as int) =~= views(list@));
    out
}

/// A copy of an optional list.
pub fn copy_maybe_all<T: View + Clone>(o: &Option<Vec<T>>) -> (out: Option<Vec<T>>)
    requires
        clone_keeps_view::<T>(),
    ensures
        opt_views(out) == opt_views(*o),
{
    match o {
        Some(list) => Some(copy_all(list)),
        None => None,
    }
}

// -- Words and numbers -----------------------------------------------------------------

pub proof fn lemma_first_space(s: Seq<char>)
    ensures
        0 <= first_space(s) <= s.len(),
        first_space(s) < s.len() ==> is_space(s[first_space(s)]),
        forall|i: int| 0 <= i < first_space(s) ==> !is_space(#[trigger] s[i]),
        s.len() > 0 && !is_space(s[0]) ==> first_space(s) > 0,
    decreases s.len(),
{
    if s.len() > 0 && !is_space(s[0]) {
        let t = s.drop_first();
        lemma_first_space(t);
        assert forall|i: int| 0 <= i < first_space(s) implies !is_space(#[trigger] s[i]) by {
            if i > 0 {
                assert(s[i] == t[i - 1]);
            }
        }
    }
}

/// The words of a text.
pub fn words(s: &str) -> (out: Vec<String>)
    ensures
        views(out@) == words_of(s@),
{
    broadcast use group_views;

    let mut rest: String = trim_start(s);
    let mut out: Vec<String> = Vec::new();
    proof {
        lemma_trim_start(s@);
        lemma_trim_start_fixed(rest@);
    }
    assert(words_of(rest@) == words_of(s@));
    assert(Seq::<Seq<char>>::empty() + words_of(s@) =~= words_of(s@));
    while !is_empty(rest.as_str())
        invariant
            trim_start_of(rest@) == rest@,
            words_of(s@) == views(out@) + words_of(rest@),
        decreases rest@.len(),
    {
        let chars: Vec<char> = chars_of(rest.as_str());
        let n: usize = chars.len();
        let mut k: usize = 0;
        assert(rest@.skip(0) =~= rest@);
        while k < n && !chars[k].is_whitespace()
            invariant
                chars@ == rest@,
                n == chars@.len(),
                k <= n,
                first_space(rest@) == k + first_space(rest@.skip(k as int)),
            decreases n - k,
        {
            assert(rest@.skip(k as int).drop_first() =~= rest@.skip(k + 1));
            k = k + 1;
        }
        let word: String = text_of(&chars, 0, k);
        let tail: String = text_of(&chars, k, n);
        proof {
            lemma_first_space(rest@);
            assert(rest@[0] == rest@[0]);
            if is_space(rest@[0]) {
                lemma_trim_start_fixed(rest@);
                assert(trim_start_of(rest@) == trim_start_of(rest@.drop_first()));
                lemma_trim_start(rest@.drop_first());
            }
            assert(word@ =~= rest@.take(k as int));
            assert(tail@ =~= rest@.skip(k as int));
        }
        let ghost before = views(out@);
        out.push(word);
        let next: String = trim_start(tail.as_str());
        proof {
            lemma_trim_start(tail@);
            lemma_trim_start_fixed(tail@);
            assert(words_of(next@) == words_of(tail@));
            assert(words_of(rest@) == seq![word@] + words_of(tail@));
            assert(before + (seq![word@] + words_of(tail@)) =~= before.push(word@) + words_of(
                next@,
            ));
        }
        rest = next;
    }
    assert(views(out@) + words_of(rest@) =~= views(out@));
    out
}

/// A text that begins with no white space stays as it is.
pub proof fn lemma_trim_start_fixed(s: Seq<char>)
    ensures
        trim_start_of(trim_start_of(s)) == trim_start_of(s),
    decreases s.len(),
{
    if s.len() > 0 && is_space(s[0]) {
        lemma_trim_start_fixed(s.drop_first());
    }
}

proof fn lemma_digits_value_grows(s: Seq<char>, k: int)
    requires
        0 <= k <= s.len(),
        all_digits(s),
    ensures
        digits_value(s) >= digits_value(s.take(k)),
    decreases s.len(),
{
    if k == s.len() {
        assert(s.take(k) =~= s);
    } else {
        assert(is_digit(s[s.len() - 1]));
        assert(s.drop_last().take(k) =~= s.take(k));
        assert forall|i: int| 0 <= i < s.drop_last().len() implies is_digit(
            #[trigger] s.drop_last()[i],
        ) by {
            assert(is_digit(s[i]));
        }
        lemma_digits_value_grows(s.drop_last(), k);
    }
}

/// The number that a text stands for.
pub fn parse_number(s: &str) -> (found: Option<usize>)
    ensures
        match found {
            Some(n) => number_of(s@) == Some(n as nat),
            None => number_of(s@) is None,
        },
{
    let chars: Vec<char> = chars_of(s);
    let n: usize = chars.len();
    let start: usize = if n > 0 && chars[0] == '+' {
        1
    } else {
        0
    };
    let ghost digits = without_plus(s@);
    assert(s@.skip(start as int) =~= digits);
    if start == n {
        return None;
    }
    let mut all: bool = true;
    let mut i: usize = start;
    while i < n
        invariant
            start <= i <= n,
            n == chars@.len(),
            chars@ == s@,
            digits == s@.skip(start as int),
            all == all_digits(digits.take(i - start)),
        decreases n - i,
    {
        let ghost next = digits.take(i + 1 - start);
        assert(digits[i - start] == chars@[i as int]);
        assert(next.drop_last() =~= digits.take(i - start));
        assert(forall|j: int| 0 <= j < i - start ==> next[j] == digits.take(i - start)[j]);
        assert(next[i - start] == chars@[i as int]);
        proof {
            if all_digits(next) {
                assert forall|j: int| 0 <= j < digits.take(i - start).len() implies is_digit(
                    #[trigger] digits.take(i - start)[j],
                ) by {
                    assert(is_digit(next[j]));
                }
            }
        }
        if !('0' <= chars[i] && chars[i] <= '9') {
            all = false;
        }
        i = i + 1;
    }
    assert(digits.take(digits.len() as int) =~= digits);
    if !all {
        return None;
    }
    let mut value: usize = 0;
    let mut k: usize = start;
    assert(digits.take(0) =~= Seq::<char>::empty());
    while k < n
        invariant
            start <= k <= n,
            n == chars@.len(),
            chars@ == s@,
            digits == s@.skip(start as int),
            digits == without_plus(s@),
            all_digits(digits),
            value == digits_value(digits.take(k - start)),
        decreases n - k,
    {
        let ghost next = digits.take(k + 1 - start);
        assert(next.drop_last() =~= digits.take(k - start));
        assert(next.last() == chars@[k as int]);
        assert(is_digit(digits[k - start]));
        let d: usize = (chars[k] as u32 - '0' as u32) as usize;
        proof {
            lemma_digits_value_grows(digits, k + 1 - start);
        }
        match value.checked_mul(10) {
            None => {
                return None;
            },
            Some(tens) => {
                match tens.checked_add(d) {
                    None => {
                        return None;
                    },
                    Some(sum) => {
                        value = sum;
                    },
                }
            },
        }
        k = k + 1;
    }
    assert(digits.take(digits.len() as int) =~= digits);
    Some(value)
}

// -- Comparing ---------------------------------------------------------------------

/// Whether two texts are the same but for the case of ASCII letters.
pub fn same_ignoring_case(a: &str, b: &str) -> (same: bool)
    ensures
        same == (lower(a@) == lower(b@)),
{
    let low_a: String = to_lower(a);
    let low_b: String = to_lower(b);
    same_text(low_a.as_str(), low_b.as_str())
}

/// Whether two lists hold the same texts in the same order.
pub fn same_list(a: &Vec<String>, b: &Vec<String>) -> (same: bool)
    ensures
        same == (views(a@) == views(b@)),
{
    if a.len() != b.len() {
        assert(views(a@).len() != views(b@).len());
        return false;
    }
    let mut i: usize = 0;
    while i < a.len()
        invariant
            i <= a@.len(),
            a@.len() == b@.len(),
            forall|j: int| 0 <= j < i ==> views(a@)[j] == #[trigger] views(b@)[j],
        decreases a@.len() - i,
    {
        if !same_text(a[i].as_str(), b[i].as_str()) {
            assert(views(a@)[i as int] != views(b@)[i as int]);
            return false;
        }
        i = i + 1;
    }
    assert(views(a@) =~= views(b@));
    true
}

/// Whether a character occurs in a text.
pub fn contains_char(s: &str, c: char) -> (b: bool)
    ensures
        b == s@.contains(c),
{
    let chars: Vec<char> = chars_of(s);
    let mut i: usize = 0;
    while i < chars.len()
        invariant
            chars@ == s@,
            i <= chars@.len(),
            forall|j: int| 0 <= j < i ==> s@[j] != c,
        decreases chars@.len() - i,
    {
        if chars[i] == c {
            assert(s@[i as int] == c);
            return true;
        }
        i = i + 1;
    }
    false
}

/// Whether an option holds a given text.
pub fn option_is(o: &Option<String>, wanted: &str) -> (b: bool)
    ensures
        b == (opt_view(*o) == Some(wanted@)),
{
    match o {
        Some(found) => same_text(found.as_str(), wanted),
        None => false,
    }
}

// -- Putting texts together ------------------------------------------------------

/// Two texts, one after the other.
pub fn glue(a: &str, b: &str) -> (out: String)
    ensures
        out@ == a@ + b@,
{
    let mut out: String = a.to_owned();
    out.append(b);
    out
}

/// Three texts, one after the other.
pub fn glue3(a: &str, b: &str, c: &str) -> (out: String)
    ensures
        out@ == a@ + b@ + c@,
{
    let mut out: String = a.to_owned();
    out.append(b);
    out.append(c);
    out
}

/// Four texts, one after the other.
pub fn glue4(a: &str, b: &str, c: &str, d: &str) -> (out: String)
    ensures
        out@ == a@ + b@ + c@ + d@,
{
    let mut out: String = a.to_owned();
    out.append(b);
    out.append(c);
    out.append(d);
    out
}

/// Five texts, one after the other.
pub fn glue5(a: &str, b: &str, c: &str, d: &str, e: &str) -> (out: String)
    ensures
        out@ == a@ + b@ + c@ + d@ + e@,
{
    let mut out: String = a.to_owned();
    out.append(b);
    out.append(c);
    out.append(d);
    out.append(e);
    out
}

/// A text without its last character.
pub open spec fn without_last(s: Seq<char>) -> Seq<char> {
    if s.len() > 0 {
        s.drop_last()
    } else {
        s
    }
}

/// Takes the last character off.
pub fn drop_last_char(s: &mut String)
    ensures
        final(s)@ == without_last(old(s)@),
{
    let chars: Vec<char> = chars_of(s.as_str());
    let n: usize = chars.len();
    if n > 0 {
        *s = text_of(&chars, 0, n - 1);
        assert(s@ =~= without_last(old(s)@));
    }
}

// -- Texts inside texts ----------------------------------------------------------------------------

pub proof fn lemma_contains_inside(before: Seq<char>, p: Seq<char>, after: Seq<char>)
    ensures
        contains_text(before + p + after, p),
{
    let i = before.len() as int;
    assert((before + p + after).subrange(i, i + p.len()) =~= p);
}

pub proof fn lemma_contains_trans(a: Seq<char>, b: Seq<char>, c: Seq<char>)
    requires
        contains_text(a, b),
        contains_text(b, c),
    ensures
        contains_text(a, c),
{
    let i = choose|i: int| 0 <= i <= a.len() - b.len() && #[trigger] a.subrange(i, i + b.len()) == b;
    let j = choose|j: int| 0 <= j <= b.len() - c.len() && #[trigger] b.subrange(j, j + c.len()) == c;
    assert(a.subrange(i + j, i + j + c.len()) =~= b.subrange(j, j + c.len()));
}

/// A text that is put together from parts holds each of them.
pub proof fn lemma_join_contains(parts: Seq<Seq<char>>, sep: Seq<char>, i: int)
    requires
        0 <= i < parts.len(),
    ensures
        contains_text(join_of(parts, sep), parts[i]),
    decreases parts.len(),
{
    let none = Seq::<char>::empty();
    if parts.len() == 1 {
        assert(none + parts[0] + none =~= parts[0]);
        lemma_contains_inside(none, parts[0], none);
    } else if i == parts.len() - 1 {
        let head = join_of(parts.drop_last(), sep) + sep;
        assert(join_of(parts, sep) =~= head + parts[i] + none);
        lemma_contains_inside(head, parts[i], none);
    } else {
        let head = join_of(parts.drop_last(), sep);
        lemma_join_contains(parts.drop_last(), sep, i);
        assert(parts.drop_last()[i] == parts[i]);
        let tail = sep + parts.last();
        assert(join_of(parts, sep) =~= none + head + tail);
        lemma_contains_inside(none, head, tail);
        lemma_contains_trans(join_of(parts, sep), head, parts[i]);
    }
}

pub proof fn lemma_trim_is_inside(s: Seq<char>)
    ensures
        contains_text(s, trim_of(s)),
{
    let t = trim_start_of(s);
    lemma_trim_start_inside(s);
    lemma_trim_end_inside(t);
    lemma_contains_trans(s, t, trim_of(s));
}

proof fn lemma_trim_start_inside(s: Seq<char>)
    ensures
        contains_text(s, trim_start_of(s)),
    decreases s.len(),
{
    if s.len() > 0 && is_space(s[0]) {
        let rest = s.drop_first();
        lemma_trim_start_inside(rest);
        assert(s.subrange(1, 1int + rest.len()) =~= rest);
        assert(contains_text(s, rest));
        lemma_contains_trans(s, rest, trim_start_of(rest));
    } else {
        assert(s.subrange(0, 0int + s.len()) =~= s);
    }
}

proof fn lemma_trim_end_inside(s: Seq<char>)
    ensures
        contains_text(s, trim_end_of(s)),
    decreases s.len(),
{
    if s.len() > 0 && is_space(s.last()) {
        let rest = s.drop_last();
        lemma_trim_end_inside(rest);
        assert(s.subrange(0, 0int + rest.len()) =~= rest);
        assert(contains_text(s, rest));
        lemma_contains_trans(s, rest, trim_end_of(rest));
    } else {
        assert(s.subrange(0, 0int + s.len()) =~= s);
    }
}

/// A text is blank exactly where nothing is left of it without the white space around it.
pub proof fn lemma_trim_blank_iff(s: Seq<char>)
    ensures
        blank(s) <==> trim_of(s).len() == 0,
{
    lemma_start_blank(s);
    lemma_end_blank(trim_start_of(s));
}

proof fn lemma_start_blank(s: Seq<char>)
    ensures
        blank(s) <==> trim_start_of(s).len() == 0,
        trim_start_of(s).len() > 0 ==> !is_space(trim_start_of(s)[0]),
    decreases s.len(),
{
    if s.len() > 0 && is_space(s[0]) {
        let rest = s.drop_first();
        lemma_start_blank(rest);
        if blank(rest) {
            assert forall|i: int| 0 <= i < s.len() implies is_space(#[trigger] s[i]) by {
                if i > 0 {
                    assert(s[i] == rest[i - 1]);
                }
            }
        }
        if blank(s) {
            assert forall|i: int| 0 <= i < rest.len() implies is_space(#[trigger] rest[i]) by {
                assert(rest[i] == s[i + 1]);
            }
        }
    } else if s.len() > 0 {
        assert(!is_space(s[0]));
    }
}

proof fn lemma_end_blank(s: Seq<char>)
    ensures
        s.len() > 0 && !is_space(s[0]) ==> trim_end_of(s).len() > 0,
        s.len() == 0 ==> trim_end_of(s).len() == 0,
    decreases s.len(),
{
    if s.len() > 0 && is_space(s.last()) && !is_space(s[0]) {
        assert(s.drop_last()[0] == s[0]);
        lemma_end_blank(s.drop_last());
    }
}

/// A number in decimal notation is read back as the number that it is.
pub proof fn lemma_decimal_reads_back(n: nat)
    ensures
        n <= usize::MAX ==> number_of(decimal(n)) == Some(n),
        digits_value(decimal(n)) == n,
        all_digits(decimal(n)),
        decimal(n).len() > 0,
        trim_of(decimal(n)) == decimal(n),
    decreases n,
{
    let d = decimal(n);
    lemma_digits_read_back(n);
    assert(is_digit(d[0]));
    assert(is_digit(d[d.len() - 1]));
    assert(!is_space(d[0]));
    assert(!is_space(d.last()));
    assert(trim_start_of(d) == d);
    assert(trim_end_of(d) == d);
    assert(without_plus(d) == d);
}

proof fn lemma_digits_read_back(n: nat)
    ensures
        digits_value(decimal(n)) == n,
        all_digits(decimal(n)),
        decimal(n).len() > 0,
    decreases n,
{
    let low = n % 10;
    assert(low < 10);
    let c = digit_char(low);
    assert(c as u32 == '0' as u32 + low && is_digit(c));
    if n < 10 {
        assert(decimal(n).drop_last() =~= Seq::<char>::empty());
        assert(digits_value(decimal(n).drop_last()) == 0);
    } else {
        lemma_digits_read_back(n / 10);
        assert(decimal(n).drop_last() =~= decimal(n / 10));
        assert forall|i: int| 0 <= i < decimal(n).len() implies is_digit(#[trigger] decimal(n)[i]) by {
            if i < decimal(n / 10).len() {
                assert(decimal(n)[i] == decimal(n / 10)[i]);
            }
        }
    }
}

/// No line of a text holds a line feed.
pub proof fn lemma_lines_hold_no_feed(s: Seq<char>, k: int)
    requires
        0 <= k < lines_of(s).len(),
    ensures
        forall|i: int| 0 <= i < lines_of(s)[k].len() ==> #[trigger] lines_of(s)[k][i] != '\n',
    decreases s.len(),
{
    let at = first_index(s, '\n');
    lemma_first_index(s, '\n');
    if s.len() > 0 && at < s.len() {
        let rest = s.skip(at + 1);
        if k == 0 {
            assert forall|i: int| 0 <= i < lines_of(s)[0].len() implies #[trigger] lines_of(s)[0][i]
                != '\n' by {
                assert(lines_of(s)[0][i] == s[i]);
            }
        } else {
            lemma_lines_hold_no_feed(rest, k - 1);
            assert(lines_of(s)[k] == lines_of(rest)[k - 1]);
        }
    }
}

/// A text without white space around it has none around it.
pub proof fn lemma_trim_twice(s: Seq<char>)
    ensures
        trim_of(trim_of(s)) == trim_of(s),
{
    lemma_trim_start(s);
    let t = trim_start_of(s);
    lemma_trim_end(t);
    let u = trim_end_of(t);
    if u.len() > 0 {
        assert(u[0] == t[0]);
        assert(trim_start_of(u) == u);
        assert(trim_end_of(u) == u);
    }
}

// -- What the readings of a text mean ---------------------------------------------------------------------

/// Lower case changes the capitals from A to Z and no other character; doing it again changes nothing.
pub proof fn law_lower_case_changes_capitals(s: Seq<char>, i: int)
    requires
        0 <= i < s.len(),
    ensures
        lower(s).len() == s.len(),
        'A' <= s[i] <= 'Z' ==> lower(s)[i] as int == s[i] as int + 32,
        !('A' <= s[i] <= 'Z') ==> lower(s)[i] == s[i],
        !('A' <= lower(s)[i] <= 'Z'),
        lower(lower(s)) == lower(s),
{
    assert forall|k: int| 0 <= k < s.len() implies !('A' <= #[trigger] lower(s)[k] <= 'Z') && (
    'A' <= s[k] <= 'Z' ==> lower(s)[k] as int == s[k] as int + 32) by {
        let c = s[k];
        if 'A' <= c <= 'Z' {
            assert(((c as u8) + 32) as char as int == c as int + 32);
        }
    }
    assert(lower(lower(s)) =~= lower(s));
}

/// Blanks, tabulators and the ends of lines are white space; no character that shows is.
pub proof fn law_what_shows_is_no_white_space(c: char)
    ensures
        is_space(' ') && is_space('\t') && is_space('\n') && is_space('\r'),
        '!' <= c <= '~' ==> !is_space(c) && !is_control_char(c),
        is_control_char('\t') && is_control_char('\n') && is_control_char('\r'),
        !is_control_char(' '),
{
}

/// What was taken apart is what its pieces make with the sign between them; no piece holds the sign.
pub proof fn law_pieces_make_the_text(s: Seq<char>, c: char)
    ensures
        join_of(split_of(s, c), seq![c]) == s,
        split_of(s, c).len() >= 1,
        forall|i: int|
            0 <= i < split_of(s, c).len() ==> !(#[trigger] split_of(s, c)[i]).contains(c),
    decreases s.len(),
{
    lemma_first_index(s, c);
    let k = first_index(s, c);
    if 0 <= k < s.len() {
        let rest = s.skip(k + 1);
        law_pieces_make_the_text(rest, c);
        let after = split_of(rest, c);
        let pieces = split_of(s, c);
        lemma_join_first(s.take(k), after, seq![c]);
        assert(s.take(k) + seq![c] + rest =~= s);
        assert forall|i: int| 0 <= i < pieces.len() implies !(#[trigger] pieces[i]).contains(c) by {
            if i == 0 {
                assert forall|j: int| 0 <= j < k implies s.take(k)[j] != c by {
                    assert(s.take(k)[j] == s[j]);
                }
            } else {
                assert(pieces[i] == after[i - 1]);
            }
        }
    } else {
        assert forall|j: int| 0 <= j < s.len() implies s[j] != c by {}
    }
}

/// The first piece stands before the others.
proof fn lemma_join_first(first: Seq<char>, rest: Seq<Seq<char>>, sep: Seq<char>)
    requires
        rest.len() >= 1,
    ensures
        join_of(seq![first] + rest, sep) == first + sep + join_of(rest, sep),
    decreases rest.len(),
{
    let all = seq![first] + rest;
    reveal_with_fuel(join_of, 2);
    if rest.len() == 1 {
        assert(all.drop_last() =~= seq![first]);
        assert(all.last() == rest[0]);
    } else {
        assert(all.drop_last() =~= seq![first] + rest.drop_last());
        lemma_join_first(first, rest.drop_last(), sep);
        assert(join_of(all, sep) =~= first + sep + join_of(rest, sep));
    }
}

/// A line ends at the first line feed, without a carriage return before it, and the next begins behind
/// it.
pub proof fn law_a_feed_ends_a_line(line: Seq<char>, rest: Seq<char>)
    requires
        forall|i: int| 0 <= i < line.len() ==> #[trigger] line[i] != '\n',
    ensures
        ({
            let shown = if line.len() > 0 && line.last() == '\r' {
                line.drop_last()
            } else {
                line
            };
            &&& lines_of(line.push('\n') + rest) == seq![shown] + lines_of(rest)
            &&& line.len() > 0 ==> lines_of(line) == seq![line]
            &&& lines_of(Seq::empty()).len() == 0
        }),
{
    let s = line.push('\n') + rest;
    assert(s[line.len() as int] == '\n');
    assert forall|i: int| 0 <= i < line.len() implies #[trigger] s[i] != '\n' by {
        assert(s[i] == line[i]);
    }
    lemma_first_index_is(s, '\n', line.len() as int);
    assert(s.take(line.len() as int) =~= line);
    assert(s.skip(1int + line.len()) =~= rest);
    lemma_first_index(line, '\n');
}

/// Words are what stands between white space: none is empty, and none holds any.
pub proof fn law_words_hold_no_white_space(s: Seq<char>)
    ensures
        forall|i: int|
            0 <= i < words_of(s).len() ==> {
                let word = #[trigger] words_of(s)[i];
                word.len() > 0 && forall|j: int| 0 <= j < word.len() ==> !is_space(#[trigger] word[j])
            },
        words_of(s).len() == 0 <==> blank(s),
    decreases s.len(),
{
    lemma_trim_start(s);
    let t = trim_start_of(s);
    lemma_first_space(t);
    lemma_start_blank(s);
    if t.len() > 0 {
        let k = first_space(t);
        let rest = t.skip(k);
        law_words_hold_no_white_space(rest);
        assert forall|i: int| 0 <= i < words_of(s).len() implies {
            let word = #[trigger] words_of(s)[i];
            word.len() > 0 && forall|j: int| 0 <= j < word.len() ==> !is_space(#[trigger] word[j])
        } by {
            if i == 0 {
                assert forall|j: int| 0 <= j < k implies !is_space(#[trigger] t.take(k)[j]) by {
                    assert(t.take(k)[j] == t[j]);
                }
            } else {
                assert(words_of(s)[i] == words_of(rest)[i - 1]);
            }
        }
    }
}

/// A number is written in digits, without needless noughts, and reads back as itself.
pub proof fn law_a_number_reads_back(n: nat)
    requires
        n <= usize::MAX,
    ensures
        number_of(decimal(n)) == Some(n),
        decimal(n).len() > 0,
        n > 0 ==> decimal(n)[0] != '0',
{
    lemma_decimal_reads_back(n);
    lemma_no_needless_nought(n);
}

proof fn lemma_no_needless_nought(n: nat)
    ensures
        decimal(n).len() > 0,
        n > 0 ==> decimal(n)[0] != '0',
    decreases n,
{
    if n >= 10 {
        lemma_no_needless_nought(n / 10);
    }
}

} // verus!
