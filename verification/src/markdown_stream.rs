//! Markdown that arrives in pieces: lines are handed on once nothing that follows can change them.
use vstd::prelude::*;

use crate::styled;
use crate::styled::{StyledLine, StyledLineView};
use crate::text;

verus! {

broadcast use text::group_views;

// -- Where a text can be cut -----------------------------------------------------------------------

/// A mark around a block of code.
#[derive(Clone, Copy, Debug, PartialEq, Eq, Structural)]
pub enum Fence {
    Ticks,
    Tildes,
}

/// The mark that a line starts with, if it starts with one.
pub open spec fn fence_at(marker: Seq<char>) -> Option<Fence> {
    if text::begins(marker, "```"@) {
        Some(Fence::Ticks)
    } else if text::begins(marker, "~~~"@) {
        Some(Fence::Tildes)
    } else {
        None
    }
}

/// The mark that a line starts with, if it starts with one.
pub fn fenced_code_marker(line: &str) -> (fence: Option<Fence>)
    ensures
        fence == fence_at(line@),
{
    if text::starts_with(line, "```") {
        Some(Fence::Ticks)
    } else if text::starts_with(line, "~~~") {
        Some(Fence::Tildes)
    } else {
        None
    }
}

/// The number of digits at the start of a text.
pub open spec fn leading_digits(s: Seq<char>) -> int
    decreases s.len(),
{
    if s.len() > 0 && text::is_digit(s[0]) {
        1 + leading_digits(s.drop_first())
    } else {
        0
    }
}

/// Whether a character is white space of the first 128.
pub open spec fn is_ascii_space(c: char) -> bool {
    c == ' ' || c == '\t' || c == '\n' || c == '\u{c}' || c == '\r'
}

/// Whether a line starts a block: a quotation, a heading, an item of a list, with a mark or with a
/// number, or a block of code.
pub open spec fn starts_block(line: Seq<char>) -> bool {
    let s = text::trim_start_of(line);
    let d = leading_digits(s);
    &&& s.len() > 0
    &&& {
        ||| s[0] == '>' || s[0] == '#'
        ||| (s[0] == '-' || s[0] == '*' || s[0] == '+') && s.len() >= 2 && is_ascii_space(s[1])
        ||| fence_at(s) is Some
        ||| d > 0 && d + 1 < s.len() && (s[d] == '.' || s[d] == ')') && text::is_space(s[d + 1])
    }
}

proof fn lemma_leading_digits(s: Seq<char>, k: int)
    requires
        0 <= k <= s.len(),
        forall|i: int| 0 <= i < k ==> text::is_digit(#[trigger] s[i]),
        k < s.len() ==> !text::is_digit(s[k]),
    ensures
        leading_digits(s) == k,
    decreases s.len(),
{
    if k > 0 {
        let t = s.drop_first();
        assert forall|i: int| 0 <= i < k - 1 implies text::is_digit(#[trigger] t[i]) by {
            assert(text::is_digit(s[i + 1]));
        }
        assert(text::is_digit(s[0]));
        lemma_leading_digits(t, k - 1);
    }
}

/// Whether a line starts a block.
pub fn starts_new_markdown_block(line: &str) -> (b: bool)
    ensures
        b == starts_block(line@),
{
    let trimmed: String = text::trim_start(line);
    let chars: Vec<char> = text::chars_of(trimmed.as_str());
    let n: usize = chars.len();
    if n == 0 {
        return false;
    }
    let mut d: usize = 0;
    while d < n && '0' <= chars[d] && chars[d] <= '9'
        invariant
            d <= n,
            n == chars@.len(),
            forall|i: int| 0 <= i < d ==> text::is_digit(#[trigger] chars@[i]),
        decreases n - d,
    {
        d = d + 1;
    }
    proof {
        lemma_leading_digits(chars@, d as int);
    }
    let first: char = chars[0];
    if first == '>' || first == '#' {
        return true;
    }
    if (first == '-' || first == '*' || first == '+') && n >= 2 {
        let second: char = chars[1];
        if second == ' ' || second == '\t' || second == '\n' || second == '\u{c}' || second
            == '\r' {
            return true;
        }
    }
    if fenced_code_marker(trimmed.as_str()).is_some() {
        return true;
    }
    if d > 0 && d < n && (chars[d] == '.' || chars[d] == ')') {
        return d < n - 1 && chars[d + 1].is_whitespace();
    }
    false
}

/// How far a text was read: the block of code that is open, if one is, and the number of lines
/// after which the text can be cut, if there is such a place.
pub struct Reading {
    pub fence: Option<Fence>,
    pub safe: Option<int>,
}

/// So many of the first lines read. A text can be cut after a block of code, after a blank line,
/// and where the next line starts a block.
pub open spec fn read_lines(pieces: Seq<Seq<char>>, n: int) -> Reading
    decreases n,
{
    if n <= 0 {
        Reading { fence: None, safe: None }
    } else {
        let before = read_lines(pieces, n - 1);
        let line = pieces[n - 1];
        match fence_at(text::trim_start_of(line)) {
            Some(fence) => match before.fence {
                Some(open) => if fence == open {
                    Reading { fence: None, safe: Some(n) }
                } else {
                    before
                },
                None => Reading { fence: Some(fence), safe: before.safe },
            },
            None => if before.fence is None && (text::blank(line) || starts_block(pieces[n])) {
                Reading { fence: None, safe: Some(n) }
            } else {
                before
            },
        }
    }
}

/// The characters of so many of the first lines, with the line feed after each.
pub open spec fn lines_length(pieces: Seq<Seq<char>>, n: int) -> int
    decreases n,
{
    if n <= 0 {
        0
    } else {
        lines_length(pieces, n - 1) + pieces[n - 1].len() + 1
    }
}

/// The part of a text that can be handed on: up to the last place where it can be cut. A line that
/// has not ended yet is never part of it, but may start a block that ends the one before.
pub open spec fn committable(source: Seq<char>) -> Option<Seq<char>> {
    let pieces = text::split_of(source, '\n');
    match read_lines(pieces, pieces.len() - 1).safe {
        Some(n) => Some(source.take(lines_length(pieces, n))),
        None => None,
    }
}

proof fn lemma_reading(pieces: Seq<Seq<char>>, n: int)
    ensures
        read_lines(pieces, n).safe matches Some(k) ==> 0 < k <= n,
    decreases n,
{
    if n > 0 {
        lemma_reading(pieces, n - 1);
    }
}

proof fn lemma_pieces(source: Seq<char>, n: int)
    requires
        0 <= n < text::split_of(source, '\n').len(),
    ensures
        0 <= lines_length(text::split_of(source, '\n'), n) <= source.len(),
        n > 0 ==> source[lines_length(text::split_of(source, '\n'), n) - 1] == '\n',
        n > 0 ==> lines_length(text::split_of(source, '\n'), n) > 0,
    decreases source.len(),
{
    let pieces = text::split_of(source, '\n');
    let k = text::first_index(source, '\n');
    text::lemma_first_index(source, '\n');
    if n > 0 {
        let rest = source.skip(k + 1);
        let after = text::split_of(rest, '\n');
        assert(pieces == seq![source.take(k)] + after);
        assert(after =~= pieces.drop_first());
        lemma_pieces(rest, n - 1);
        lemma_lines_length(pieces, n);
    }
}

proof fn lemma_lines_length(pieces: Seq<Seq<char>>, n: int)
    requires
        0 < n <= pieces.len(),
    ensures
        lines_length(pieces, n) == pieces[0].len() + 1 + lines_length(pieces.drop_first(), n - 1),
    decreases n,
{
    if n > 1 {
        lemma_lines_length(pieces, n - 1);
        assert(pieces.drop_first()[n - 2] == pieces[n - 1]);
    } else {
        reveal_with_fuel(lines_length, 2);
    }
}

/// The part of a text that can be handed on.
pub fn committable_prefix(source: &str) -> (part: Option<String>)
    ensures
        text::opt_view(part) == committable(source@),
{
    let pieces: Vec<String> = text::split_on(source, '\n');
    let ghost all = text::split_of(source@, '\n');
    let lines: usize = pieces.len() - 1;
    let chars: Vec<char> = text::chars_of(source);
    let total: usize = chars.len();
    assert(source@.len() == total);
    let mut fence: Option<Fence> = None;
    let mut found: bool = false;
    let mut cut: usize = 0;
    let mut length: usize = 0;
    let mut i: usize = 0;
    while i < lines
        invariant
            i <= lines,
            lines == pieces@.len() - 1,
            all == text::views(pieces@),
            all == text::split_of(source@, '\n'),
            source@.len() <= usize::MAX,
            length == lines_length(all, i as int),
            fence == read_lines(all, i as int).fence,
            match read_lines(all, i as int).safe {
                Some(n) => found && cut == lines_length(all, n),
                None => !found,
            },
        decreases lines - i,
    {
        proof {
            lemma_pieces(source@, i + 1);
        }
        assert(all[i as int] == pieces@[i as int]@);
        assert(all[i + 1] == pieces@[i + 1]@);
        let ghost before = read_lines(all, i as int);
        let size: usize = text::chars_of(pieces[i].as_str()).len();
        length = length + size + 1;
        let marker: String = text::trim_start(pieces[i].as_str());
        match fenced_code_marker(marker.as_str()) {
            Some(mark) => {
                match fence {
                    Some(open) => {
                        if mark == open {
                            fence = None;
                            found = true;
                            cut = length;
                        }
                    },
                    None => {
                        fence = Some(mark);
                    },
                }
            },
            None => {
                if fence.is_none() && (text::is_blank(pieces[i].as_str())
                    || starts_new_markdown_block(pieces[i + 1].as_str())) {
                    found = true;
                    cut = length;
                }
            },
        }
        i = i + 1;
    }
    if !found {
        return None;
    }
    proof {
        lemma_reading(all, lines as int);
        lemma_pieces(source@, read_lines(all, lines as int).safe->0);
    }
    let part: String = text::text_of(&chars, 0, cut);
    assert(part@ =~= source@.take(cut as int));
    Some(part)
}

/// What can be handed on is the start of the text, and ends with a line.
pub proof fn law_commits_end_with_a_line(source: Seq<char>)
    ensures
        committable(source) matches Some(part) ==> text::begins(source, part) && part.len() > 0
            && part.last() == '\n',
{
    let pieces = text::split_of(source, '\n');
    let lines = pieces.len() - 1;
    lemma_reading(pieces, lines);
    if let Some(n) = read_lines(pieces, lines).safe {
        lemma_pieces(source, n);
    }
}

proof fn lemma_digits_stay(s: Seq<char>, more: Seq<char>)
    requires
        leading_digits(s) < s.len(),
    ensures
        leading_digits(s + more) == leading_digits(s),
        0 <= leading_digits(s),
    decreases s.len(),
{
    let all = s + more;
    assert(all[0] == s[0]);
    if text::is_digit(s[0]) {
        lemma_digits_stay(s.drop_first(), more);
        assert(all.drop_first() =~= s.drop_first() + more);
    }
}

proof fn lemma_fence_stays(s: Seq<char>, more: Seq<char>)
    requires
        fence_at(s) is Some,
    ensures
        fence_at(s + more) == fence_at(s),
{
    reveal_strlit("```");
    reveal_strlit("~~~");
    let all = s + more;
    assert(s.len() >= 3);
    assert(all.take(3) =~= s.take(3));
}

proof fn lemma_trim_of_longer(s: Seq<char>, more: Seq<char>)
    requires
        text::trim_start_of(s).len() > 0,
    ensures
        text::trim_start_of(s + more) == text::trim_start_of(s) + more,
    decreases s.len(),
{
    let all = s + more;
    assert(all[0] == s[0]);
    if text::is_space(s[0]) {
        lemma_trim_of_longer(s.drop_first(), more);
        assert(all.drop_first() =~= s.drop_first() + more);
    }
}

proof fn lemma_block_stays(s: Seq<char>, more: Seq<char>)
    requires
        starts_block(s),
    ensures
        starts_block(s + more),
{
    lemma_trim_of_longer(s, more);
    let t = text::trim_start_of(s);
    let all = t + more;
    assert(all[0] == t[0]);
    if fence_at(t) is Some {
        lemma_fence_stays(t, more);
    }
    let d = leading_digits(t);
    if d > 0 && d + 1 < t.len() {
        lemma_digits_stay(t, more);
        assert(all[d] == t[d] && all[d + 1] == t[d + 1]);
    }
}

proof fn lemma_split_of_longer(s: Seq<char>, more: Seq<char>)
    ensures
        ({
            let a = text::split_of(s, '\n');
            let b = text::split_of(s + more, '\n');
            &&& 0 < a.len() <= b.len()
            &&& forall|i: int| 0 <= i < a.len() - 1 ==> #[trigger] b[i] == a[i]
            &&& exists|rest: Seq<char>| b[a.len() - 1] == #[trigger] (a.last() + rest)
        }),
    decreases s.len(),
{
    let all = s + more;
    let a = text::split_of(s, '\n');
    let b = text::split_of(all, '\n');
    let k = text::first_index(s, '\n');
    text::lemma_first_index(s, '\n');
    text::lemma_first_index(all, '\n');
    if k < s.len() {
        assert forall|i: int| 0 <= i < k implies #[trigger] all[i] != '\n' by {
            assert(all[i] == s[i]);
        }
        assert(all[k] == s[k]);
        text::lemma_first_index_is(all, '\n', k);
        let rest = s.skip(k + 1);
        assert(all.skip(k + 1) =~= rest + more);
        assert(all.take(k) =~= s.take(k));
        lemma_split_of_longer(rest, more);
        let c = text::split_of(rest, '\n');
        let d = text::split_of(rest + more, '\n');
        assert(a == seq![s.take(k)] + c);
        assert(b == seq![s.take(k)] + d);
        assert(a.last() == c.last());
        assert(b[a.len() - 1] == d[c.len() - 1]);
        assert forall|i: int| 0 <= i < a.len() - 1 implies #[trigger] b[i] == a[i] by {
            if i > 0 {
                assert(d[i - 1] == c[i - 1]);
            }
        }
    } else {
        let m = text::first_index(all, '\n');
        assert forall|i: int| 0 <= i < s.len() implies #[trigger] all[i] != '\n' by {
            assert(all[i] == s[i]);
        }
        assert(m >= s.len());
        let first = if m < all.len() {
            all.take(m)
        } else {
            all
        };
        assert(b[0] == first);
        let rest = first.skip(s.len() as int);
        assert(first =~= s + rest);
        assert(a.last() + rest == b[0]);
    }
}

proof fn lemma_reading_of_longer(a: Seq<Seq<char>>, b: Seq<Seq<char>>, n: int)
    requires
        0 <= n < a.len() <= b.len(),
        forall|i: int| 0 <= i < a.len() - 1 ==> #[trigger] b[i] == a[i],
        exists|rest: Seq<char>| b[a.len() - 1] == #[trigger] (a.last() + rest),
    ensures
        read_lines(b, n).fence == read_lines(a, n).fence,
        read_lines(a, n).safe matches Some(k) ==> (read_lines(b, n).safe matches Some(m) && k <= m),
    decreases n,
{
    if n > 0 {
        lemma_reading_of_longer(a, b, n - 1);
        lemma_reading(a, n - 1);
        lemma_reading(b, n - 1);
        assert(b[n - 1] == a[n - 1]);
        if n < a.len() - 1 {
            assert(b[n] == a[n]);
        } else if starts_block(a[n]) {
            let rest = choose|rest: Seq<char>| b[a.len() - 1] == #[trigger] (a.last() + rest);
            lemma_block_stays(a[n], rest);
        }
    }
}

proof fn lemma_reading_goes_on(pieces: Seq<Seq<char>>, n: int, m: int)
    requires
        0 <= n <= m,
    ensures
        read_lines(pieces, n).safe matches Some(k) ==> (read_lines(pieces, m).safe matches Some(l)
            && k <= l),
    decreases m,
{
    if n < m {
        lemma_reading_goes_on(pieces, n, m - 1);
        lemma_reading(pieces, m - 1);
    }
}

proof fn lemma_lines_length_same(a: Seq<Seq<char>>, b: Seq<Seq<char>>, n: int)
    requires
        0 <= n < a.len(),
        forall|i: int| 0 <= i < a.len() - 1 ==> #[trigger] b[i] == a[i],
    ensures
        lines_length(a, n) == lines_length(b, n),
    decreases n,
{
    if n > 0 {
        lemma_lines_length_same(a, b, n - 1);
        assert(b[n - 1] == a[n - 1]);
    }
}

proof fn lemma_lines_length_grows(pieces: Seq<Seq<char>>, n: int, m: int)
    requires
        n <= m,
    ensures
        lines_length(pieces, n) <= lines_length(pieces, m),
    decreases m,
{
    if n < m && m > 0 {
        lemma_lines_length_grows(pieces, n, m - 1);
    }
}

/// What can be handed on is never taken back: when more of the text arrives, what could be handed on
/// before is the start of what can be handed on then.
pub proof fn law_commits_are_not_taken_back(source: Seq<char>, more: Seq<char>)
    ensures
        committable(source) matches Some(part) ==> (committable(source + more) matches Some(longer)
            && text::begins(longer, part)),
{
    let all = source + more;
    let a = text::split_of(source, '\n');
    let b = text::split_of(all, '\n');
    let n = a.len() - 1;
    lemma_split_of_longer(source, more);
    if let Some(k) = read_lines(a, n).safe {
        lemma_reading(a, n);
        lemma_reading_of_longer(a, b, n);
        lemma_reading_goes_on(b, n, b.len() - 1);
        lemma_reading(b, b.len() - 1);
        let m = read_lines(b, b.len() - 1).safe->0;
        lemma_lines_length_same(a, b, k);
        lemma_lines_length_grows(b, k, m);
        lemma_pieces(source, k);
        lemma_pieces(all, m);
        let short = lines_length(a, k);
        let long = lines_length(b, m);
        assert(all.take(long).take(short) =~= source.take(short));
    }
}

// -- The text as it arrives ------------------------------------------------------------------------

/// A text that arrives in pieces, with the number of lines that were handed on. `width` and `cwd`
/// are for whoever renders it.
#[derive(Debug, PartialEq)]
pub struct MarkdownStreamCollector {
    pub buffer: String,
    pub committed_line_count: usize,
    pub width: Option<usize>,
    pub cwd: String,
}

/// The model of `MarkdownStreamCollector`.
#[verifier::ext_equal]
pub struct MarkdownStreamCollectorView {
    pub buffer: Seq<char>,
    pub committed_line_count: usize,
    pub width: Option<usize>,
    pub cwd: Seq<char>,
}

impl View for MarkdownStreamCollector {
    type V = MarkdownStreamCollectorView;

    open spec fn view(&self) -> MarkdownStreamCollectorView {
        MarkdownStreamCollectorView {
            buffer: self.buffer@,
            committed_line_count: self.committed_line_count,
            width: self.width,
            cwd: self.cwd@,
        }
    }
}

impl Clone for MarkdownStreamCollector {
    fn clone(&self) -> (copy: Self)
        ensures
            copy@ == self@,
    {
        MarkdownStreamCollector {
            buffer: self.buffer.clone(),
            committed_line_count: self.committed_line_count,
            width: self.width,
            cwd: self.cwd.clone(),
        }
    }
}

/// Whether a line shows nothing but spaces.
pub open spec fn only_spaces(line: StyledLineView) -> bool {
    forall|i: int, j: int|
        0 <= i < line.spans.len() && 0 <= j < line.spans[i].text.len() ==> (
        #[trigger] line.spans[i].text[j]) == ' '
}

/// Whether a line shows nothing but spaces.
pub fn is_blank_line_spaces_only(line: &StyledLine) -> (b: bool)
    ensures
        b == only_spaces(line@),
{
    let mut i: usize = 0;
    while i < line.spans.len()
        invariant
            i <= line.spans@.len(),
            forall|k: int, j: int|
                0 <= k < i && 0 <= j < line@.spans[k].text.len() ==> (
                #[trigger] line@.spans[k].text[j]) == ' ',
        decreases line.spans@.len() - i,
    {
        let chars: Vec<char> = text::chars_of(line.spans[i].text.as_str());
        assert(line@.spans[i as int].text == chars@);
        let mut j: usize = 0;
        while j < chars.len()
            invariant
                i < line.spans@.len(),
                j <= chars@.len(),
                line@.spans[i as int].text == chars@,
                forall|k: int| 0 <= k < j ==> chars@[k] == ' ',
            decreases chars@.len() - j,
        {
            if chars[j] != ' ' {
                assert(line@.spans[i as int].text[j as int] != ' ');
                return false;
            }
            j = j + 1;
        }
        i = i + 1;
    }
    true
}

/// The lines that are complete: all but a last one that shows nothing but spaces.
pub open spec fn complete_lines(rendered: Seq<StyledLineView>) -> int {
    if rendered.len() > 0 && only_spaces(rendered.last()) {
        rendered.len() - 1
    } else {
        rendered.len() as int
    }
}

/// The lines from one to another, if there are any.
pub open spec fn lines_between(rendered: Seq<StyledLineView>, from: int, to: int) -> Seq<StyledLineView> {
    if from >= to {
        Seq::empty()
    } else {
        rendered.subrange(from, to)
    }
}

/// The text that is rendered at the end: with a line feed, where it has none.
pub open spec fn final_source_of(buffer: Seq<char>) -> Seq<char> {
    if buffer.len() > 0 && buffer.last() == '\n' {
        buffer
    } else {
        buffer.push('\n')
    }
}

fn copy_between(rendered: &Vec<StyledLine>, from: usize, to: usize) -> (out: Vec<StyledLine>)
    requires
        to <= rendered@.len(),
    ensures
        text::views(out@) == lines_between(text::views(rendered@), from as int, to as int),
{
    let mut out: Vec<StyledLine> = Vec::new();
    let ghost all = text::views(rendered@);
    let mut i: usize = from;
    proof {
        if from < to {
            assert(all.subrange(from as int, from as int) =~= Seq::<StyledLineView>::empty());
        }
    }
    while i < to
        invariant
            from <= i,
            from < to ==> i <= to,
            to <= rendered@.len(),
            all == text::views(rendered@),
            from < to ==> text::views(out@) == all.subrange(from as int, i as int),
            from >= to ==> out@.len() == 0,
        decreases to - i,
    {
        out.push(rendered[i].clone());
        assert(all.subrange(from as int, i + 1) =~= all.subrange(from as int, i as int).push(
            rendered@[i as int]@,
        ));
        i = i + 1;
    }
    assert(text::views(out@) =~= lines_between(all, from as int, to as int));
    out
}

impl MarkdownStreamCollector {
    /// Nothing yet.
    pub fn new(width: Option<usize>, cwd: &str) -> (made: Self)
        ensures
            made@ == (MarkdownStreamCollectorView {
                buffer: Seq::empty(),
                committed_line_count: 0,
                width,
                cwd: cwd@,
            }),
    {
        let buffer: String = String::new();
        assert(buffer@ =~= Seq::<char>::empty());
        MarkdownStreamCollector { buffer, committed_line_count: 0, width, cwd: cwd.to_owned() }
    }

    /// Forgets the text.
    pub fn clear(&mut self)
        ensures
            final(self)@ == (MarkdownStreamCollectorView {
                buffer: Seq::empty(),
                committed_line_count: 0,
                ..old(self)@
            }),
    {
        self.buffer = String::new();
        self.committed_line_count = 0;
        assert(self.buffer@ =~= Seq::<char>::empty());
    }

    /// Takes in another piece.
    pub fn push_delta(&mut self, delta: &str)
        ensures
            final(self)@ == (MarkdownStreamCollectorView {
                buffer: old(self)@.buffer + delta@,
                ..old(self)@
            }),
    {
        self.buffer.append(delta);
    }

    /// The text to render before `commit_complete_lines`, if there is anything to hand on.
    pub fn committable_source(&self) -> (source: Option<String>)
        ensures
            text::opt_view(source) == committable(self@.buffer),
    {
        committable_prefix(self.buffer.as_str())
    }

    /// Hands on the lines that were completed since the last time. `rendered` is what the text of
    /// `committable_source` looks like; where there is no such text, nothing is handed on.
    pub fn commit_complete_lines(&mut self, rendered: &Vec<StyledLine>) -> (out: Vec<StyledLine>)
        ensures
            ({
                let lines = text::views(rendered@);
                let from = old(self)@.committed_line_count as int;
                let to = if committable(old(self)@.buffer) is Some {
                    complete_lines(lines)
                } else {
                    0
                };
                &&& text::views(out@) == lines_between(lines, from, to)
                &&& final(self)@ == (MarkdownStreamCollectorView {
                    committed_line_count: (if from >= to {
                        from
                    } else {
                        to
                    }) as usize,
                    ..old(self)@
                })
            }),
    {
        if self.committable_source().is_none() {
            return Vec::new();
        }
        let mut complete: usize = rendered.len();
        if complete > 0 {
            assert(text::views(rendered@).last() == rendered@[complete - 1]@);
            if is_blank_line_spaces_only(&rendered[complete - 1]) {
                complete = complete - 1;
            }
        }
        let out: Vec<StyledLine> = copy_between(rendered, self.committed_line_count, complete);
        if self.committed_line_count < complete {
            self.committed_line_count = complete;
        }
        out
    }

    /// The text to render before `finalize_and_drain`.
    pub fn final_source(&self) -> (source: String)
        ensures
            source@ == final_source_of(self@.buffer),
    {
        let mut source: String = self.buffer.clone();
        let chars: Vec<char> = text::chars_of(source.as_str());
        let n: usize = chars.len();
        if n == 0 || chars[n - 1] != '\n' {
            source.push('\n');
        }
        source
    }

    /// Hands on all the lines that are left, and forgets the text. `rendered` is what the text of
    /// `final_source` looks like.
    pub fn finalize_and_drain(&mut self, rendered: &Vec<StyledLine>) -> (out: Vec<StyledLine>)
        ensures
            text::views(out@) == lines_between(
                text::views(rendered@),
                old(self)@.committed_line_count as int,
                rendered@.len() as int,
            ),
            final(self)@ == (MarkdownStreamCollectorView {
                buffer: Seq::empty(),
                committed_line_count: 0,
                ..old(self)@
            }),
    {
        let out: Vec<StyledLine> = copy_between(
            rendered,
            self.committed_line_count,
            rendered.len(),
        );
        self.clear();
        out
    }
}

/// Adds the lines of a rendered text to others.
pub fn append_markdown(rendered: &Vec<StyledLine>, lines: &mut Vec<StyledLine>)
    ensures
        text::views(final(lines)@) == text::views(old(lines)@) + text::views(rendered@),
{
    let mut more: Vec<StyledLine> = text::copy_all(rendered);
    lines.append(&mut more);
}

/// What is handed on adds up: as long as the lines that were handed on stay what they are when more
/// is rendered, those handed on so far and those handed on next are the first lines of what is
/// rendered, and at the end all of them.
pub proof fn law_commits_add_up(
    sent: Seq<StyledLineView>,
    rendered: Seq<StyledLineView>,
    to: int,
)
    requires
        sent.len() <= rendered.len(),
        rendered.take(sent.len() as int) == sent,
        0 <= to <= rendered.len(),
    ensures
        sent + lines_between(rendered, sent.len() as int, to) == rendered.take(
            if sent.len() >= to {
                sent.len() as int
            } else {
                to
            },
        ),
        sent + lines_between(rendered, sent.len() as int, rendered.len() as int) == rendered,
{
    let n = sent.len() as int;
    assert(sent + lines_between(rendered, n, to) =~= rendered.take(
        if n >= to {
            n
        } else {
            to
        },
    ));
    assert(sent + lines_between(rendered, n, rendered.len() as int) =~= rendered);
}

/// Three ticks or three tildes open or close a block of code, and nothing else does.
pub proof fn law_three_signs_are_a_fence(line: Seq<char>)
    ensures
        fence_at(line) == Some(Fence::Ticks) <==> line.len() >= 3 && line[0] == '`' && line[1] == '`'
            && line[2] == '`',
        fence_at(line) == Some(Fence::Tildes) <==> line.len() >= 3 && line[0] == '~' && line[1] == '~'
            && line[2] == '~',
{
    reveal_strlit("```");
    reveal_strlit("~~~");
    if line.len() >= 3 {
        let three = line.take(3);
        assert(three[0] == line[0] && three[1] == line[1] && three[2] == line[2]);
        if line[0] == '`' && line[1] == '`' && line[2] == '`' {
            assert(three =~= "```"@);
        }
        if line[0] == '~' && line[1] == '~' && line[2] == '~' {
            assert(three =~= "~~~"@);
        }
    }
}

/// A quotation, a heading, an entry of a list and a fence open a block; words do not.
pub proof fn law_signs_open_blocks(line: Seq<char>)
    requires
        line.len() > 0,
        !text::is_space(line[0]),
    ensures
        line[0] == '>' || line[0] == '#' ==> starts_block(line),
        (line[0] == '-' || line[0] == '*' || line[0] == '+') && line.len() >= 2 && line[1] == ' '
            ==> starts_block(line),
        text::is_digit(line[0]) && line.len() >= 3 && (line[1] == '.' || line[1] == ')') && line[2]
            == ' ' ==> starts_block(line),
        line.len() >= 3 && line[0] == '`' && line[1] == '`' && line[2] == '`' ==> starts_block(line),
        starts_block(line) ==> line[0] == '>' || line[0] == '#' || line[0] == '-' || line[0] == '*'
            || line[0] == '+' || line[0] == '`' || line[0] == '~' || text::is_digit(line[0]),
{
    law_three_signs_are_a_fence(line);
    assert(text::trim_start_of(line) == line);
    reveal_with_fuel(leading_digits, 2);
    if line.len() >= 2 {
        assert(line.drop_first()[0] == line[1]);
    }
}

/// Nothing inside a block of code that is open may be committed; what closes it may be, with all before.
pub proof fn law_open_code_is_held_back(pieces: Seq<Seq<char>>, n: int)
    requires
        0 < n < pieces.len(),
    ensures
        ({
            let before = read_lines(pieces, n - 1);
            let now = read_lines(pieces, n);
            let fence = fence_at(text::trim_start_of(pieces[n - 1]));
            &&& now.fence is Some ==> now.safe == before.safe
            &&& before.fence is Some && fence == before.fence ==> now.fence is None && now.safe
                == Some(n)
            &&& before.fence is Some && fence != before.fence ==> now == before
            &&& before.fence is None && fence is Some ==> now.fence == fence
            &&& before.fence is None && fence is None && text::blank(pieces[n - 1]) ==> now.safe
                == Some(n)
            &&& before.fence is None && fence is None ==> now.fence is None && (now.safe == Some(n)
                <==> text::blank(pieces[n - 1]) || starts_block(pieces[n]) || before.safe == Some(n))
        }),
{
}

/// What is rendered at the end is what was taken in, with a line feed at its end.
pub proof fn law_the_end_is_a_line_feed(buffer: Seq<char>)
    ensures
        final_source_of(buffer).len() > 0 && final_source_of(buffer).last() == '\n',
        text::begins(final_source_of(buffer), buffer),
        final_source_of(buffer).len() <= buffer.len() + 1,
        final_source_of(final_source_of(buffer)) == final_source_of(buffer),
{
    assert(final_source_of(buffer).take(buffer.len() as int) =~= buffer);
}

/// Only a last line of spaces is held back of what was rendered.
pub proof fn law_a_last_line_of_spaces_is_held_back(rendered: Seq<StyledLineView>)
    requires
        rendered.len() > 0,
    ensures
        ({
            let spaces = forall|i: int, j: int|
                0 <= i < rendered.last().spans.len() && 0 <= j < rendered.last().spans[i].text.len()
                    ==> (#[trigger] rendered.last().spans[i].text[j]) == ' ';
            &&& spaces ==> complete_lines(rendered) == rendered.len() - 1
            &&& !spaces ==> complete_lines(rendered) == rendered.len()
        }),
{
}

} // verus!
