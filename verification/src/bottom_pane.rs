//! The pane at the bottom of the inline client: the status, a pending approval, the popup, the
//! composer, and a hint.
use vstd::prelude::*;

use crate::completion;
use crate::completion::{Completion, CompletionView};
use crate::cursor;
use crate::draw;
use crate::draw::{Area, DrawItem, DrawItemView, Place, Rows};
use crate::labels;
use crate::styled;
use crate::styled::{SpanStyle, StyledLine, StyledLineView, StyledSpan, StyledSpanView, Tint};
use crate::text;
use crate::ui::{
    ApprovalKind, ApprovalPolicy, ConnectionState, PendingApproval, PendingApprovalView,
    SandboxMode,
};
use crate::width;

verus! {

broadcast use text::group_views;

/// What the pane shows. `task_seconds` is how long the turn has run.
pub struct BottomPaneProps<'a> {
    pub connection: ConnectionState,
    pub approval_policy: Option<ApprovalPolicy>,
    pub sandbox_mode: Option<SandboxMode>,
    pub selected_skill: Option<&'a str>,
    pub composer_buffer: &'a str,
    pub composer_cursor: usize,
    pub pending_approval: Option<&'a PendingApproval>,
    pub task_seconds: Option<u64>,
    pub queued_prompts: usize,
    pub toast: Option<&'a str>,
    pub hint: Option<&'a str>,
    pub completion: Option<&'a Completion>,
}

/// The model of `BottomPaneProps`.
#[verifier::ext_equal]
pub struct BottomPanePropsView {
    pub connection: ConnectionState,
    pub approval_policy: Option<ApprovalPolicy>,
    pub sandbox_mode: Option<SandboxMode>,
    pub selected_skill: Option<Seq<char>>,
    pub composer_buffer: Seq<char>,
    pub composer_cursor: usize,
    pub pending_approval: Option<PendingApprovalView>,
    pub task_seconds: Option<u64>,
    pub queued_prompts: usize,
    pub toast: Option<Seq<char>>,
    pub hint: Option<Seq<char>>,
    pub completion: Option<CompletionView>,
}

impl<'a> View for BottomPaneProps<'a> {
    type V = BottomPanePropsView;

    open spec fn view(&self) -> BottomPanePropsView {
        BottomPanePropsView {
            connection: self.connection,
            approval_policy: self.approval_policy,
            sandbox_mode: self.sandbox_mode,
            selected_skill: text::opt_view(self.selected_skill),
            composer_buffer: self.composer_buffer@,
            composer_cursor: self.composer_cursor,
            pending_approval: text::opt_view(self.pending_approval),
            task_seconds: self.task_seconds,
            queued_prompts: self.queued_prompts,
            toast: text::opt_view(self.toast),
            hint: text::opt_view(self.hint),
            completion: text::opt_view(self.completion),
        }
    }
}

/// Where the terminal's own cursor goes.
#[derive(Clone, Copy, Debug, PartialEq, Eq, Structural)]
pub struct BottomPaneLayout {
    pub cursor: Option<Place>,
}

// -- Rows ------------------------------------------------------------------------------------------

/// The rows that so many columns take, of which a row has so many.
pub open spec fn rows_for(columns: int, width: int) -> int {
    columns / width + (if columns % width > 0 {
        1int
    } else {
        0
    })
}

/// The rows of lines. A line without columns takes a row too.
pub open spec fn lines_height(lines: Seq<Seq<char>>, width: int) -> int
    decreases lines.len(),
{
    if lines.len() == 0 {
        0
    } else {
        let columns = width::columns_of(lines.last()) as int;
        lines_height(lines.drop_last(), width) + rows_for(
            if columns > 0 {
                columns
            } else {
                1
            },
            width,
        )
    }
}

/// The rows that the composer gives to what is typed: those that it needs, from one to eight.
pub open spec fn composer_height(buffer: Seq<char>, width: int) -> u16 {
    if buffer.len() == 0 {
        1
    } else {
        let rows = lines_height(
            text::split_of(buffer, '\n'),
            if width > 0 {
                width
            } else {
                1
            },
        ) as u16;
        draw::lesser(draw::greater(rows, 1), 8)
    }
}

/// The rows that the composer gives to what is typed.
pub fn composer_inner_rows(buffer: &str, width: usize) -> (rows: u16)
    ensures
        rows == composer_height(buffer@, width as int),
        1 <= rows <= 8,
{
    if text::is_empty(buffer) {
        return 1;
    }
    let width: usize = if width > 0 {
        width
    } else {
        1
    };
    let lines: Vec<String> = text::split_on(buffer, '\n');
    let ghost all = text::views(lines@);
    let mut rows: u128 = 0;
    let mut i: usize = 0;
    assert(all.take(0) =~= Seq::<Seq<char>>::empty());
    while i < lines.len()
        invariant
            i <= lines@.len(),
            width > 0,
            all == text::views(lines@),
            rows == lines_height(all.take(i as int), width as int),
            rows <= i * 0x1_0000_0000_0000_0000,
        decreases lines@.len() - i,
    {
        assert(all.take(i + 1).drop_last() =~= all.take(i as int));
        assert(all.take(i + 1).last() == lines@[i as int]@);
        let columns: usize = width::columns(lines[i].as_str());
        let columns: usize = if columns > 0 {
            columns
        } else {
            1
        };
        proof {
            vstd::arithmetic::div_mod::lemma_div_is_ordered_by_denominator(
                columns as int,
                1,
                width as int,
            );
            vstd::arithmetic::div_mod::lemma_div_basics(columns as int);
        }
        let whole: usize = columns / width;
        let part: u128 = if columns % width > 0 {
            1
        } else {
            0
        };
        rows = rows + whole as u128 + part;
        i = i + 1;
    }
    assert(all.take(all.len() as int) =~= all);
    draw::lesser(draw::greater(rows as u16, 1), 8)
}

/// Whether the pane has a row for the status.
pub open spec fn status_shown(props: BottomPanePropsView) -> bool {
    props.connection != ConnectionState::Ready || props.queued_prompts > 0
}

/// Whether the pane has a row for the status.
pub fn show_status_row(props: &BottomPaneProps) -> (b: bool)
    ensures
        b == status_shown(props@),
{
    props.connection != ConnectionState::Ready || props.queued_prompts > 0
}

/// The rows for the status.
pub open spec fn status_height(props: BottomPanePropsView) -> u16 {
    if status_shown(props) {
        1
    } else {
        0
    }
}

/// The rows for a pending approval.
pub open spec fn approval_height(props: BottomPanePropsView) -> u16 {
    if props.pending_approval is Some {
        2
    } else {
        0
    }
}

/// The rows for the popup.
pub open spec fn popup_height(props: BottomPanePropsView) -> u16 {
    match props.completion {
        Some(popup) => if popup.filtered.len() == 0 {
            0
        } else if popup.filtered.len() < 6 {
            (popup.filtered.len() + 2) as u16
        } else {
            8
        },
        None => 0,
    }
}

fn popup_rows(props: &BottomPaneProps) -> (rows: u16)
    ensures
        rows == popup_height(props@),
        rows <= 8,
{
    match props.completion {
        Some(popup) => completion::desired_height(popup),
        None => 0,
    }
}

/// The rows that the pane would like, which are at least five.
pub open spec fn wanted_height(props: BottomPanePropsView, width: u16) -> int {
    let columns = draw::less(draw::greater(width, 1), 4) as int;
    let total = popup_height(props) + status_height(props) + approval_height(props)
        + composer_height(props.composer_buffer, columns) + 3;
    if total > 5 {
        total
    } else {
        5
    }
}

/// The rows that the pane would like.
pub fn desired_height(props: &BottomPaneProps, width: u16) -> (rows: u16)
    ensures
        rows == wanted_height(props@, width),
        5 <= rows <= 22,
{
    let columns: usize = draw::less(draw::greater(width, 1), 4) as usize;
    let composer: u16 = composer_inner_rows(props.composer_buffer, columns);
    let status: u16 = if show_status_row(props) {
        1
    } else {
        0
    };
    let approval: u16 = if props.pending_approval.is_some() {
        2
    } else {
        0
    };
    let total: u16 = popup_rows(props) + status + approval + composer + 3;
    draw::greater(total, 5)
}

// -- What is typed, on rows ------------------------------------------------------------------------

/// A line that is being laid out: the rows that are full, the one that is not, and the columns of
/// that one.
pub struct LaidLine {
    pub full: Seq<Seq<char>>,
    pub current: Seq<char>,
    pub used: int,
}

/// A line laid out on rows of so many columns: a row is full where what comes next does not fit.
pub open spec fn laid_line(parts: Seq<Seq<char>>, width: int) -> LaidLine
    decreases parts.len(),
{
    if parts.len() == 0 {
        LaidLine { full: Seq::empty(), current: Seq::empty(), used: 0 }
    } else {
        let before = laid_line(parts.drop_last(), width);
        let part = parts.last();
        let columns = width::columns_of(part) as int;
        if before.used + columns > width && before.current.len() > 0 {
            LaidLine { full: before.full.push(before.current), current: part, used: columns }
        } else {
            LaidLine {
                full: before.full,
                current: before.current + part,
                used: before.used + columns,
            }
        }
    }
}

/// The bytes of so many of the first parts.
pub open spec fn bytes_before(parts: Seq<Seq<char>>, k: int) -> int
    decreases k,
{
    if k <= 0 {
        0
    } else {
        bytes_before(parts, k - 1) + cursor::byte_len(parts[k - 1])
    }
}

/// The row and the column of a byte of a line, where a part starts there or the line ends; the
/// search goes from some part on.
pub open spec fn place_from(parts: Seq<Seq<char>>, width: int, byte: int, k: int) -> Option<(int, int)>
    decreases parts.len() + 1 - k,
{
    if k < 0 || k > parts.len() {
        None
    } else if bytes_before(parts, k) == byte {
        let laid = laid_line(parts.take(k), width);
        Some(
            (
                laid.full.len() as int,
                cursor::least(width::columns_of(laid.current) as int, width),
            ),
        )
    } else {
        place_from(parts, width, byte, k + 1)
    }
}

/// Lines that are laid out: their rows, the bytes that they take with the line feed after each, and
/// the row and the column of the cursor.
pub struct LaidText {
    pub rows: Seq<Seq<char>>,
    pub bytes: int,
    pub cursor: (int, int),
}

/// So many of the first lines laid out.
pub open spec fn laid_text(lines: Seq<Seq<Seq<char>>>, width: int, byte: int, n: int) -> LaidText
    decreases n,
{
    if n <= 0 {
        LaidText { rows: Seq::empty(), bytes: 0, cursor: (0, 0) }
    } else {
        let before = laid_text(lines, width, byte, n - 1);
        let parts = lines[n - 1];
        let laid = laid_line(parts, width);
        LaidText {
            rows: before.rows + laid.full + seq![laid.current],
            bytes: before.bytes + bytes_before(parts, parts.len() as int) + 1,
            cursor: match place_from(parts, width, byte - before.bytes, 0) {
                Some(place) => (before.rows.len() + place.0, place.1),
                None => before.cursor,
            },
        }
    }
}

/// The views of the parts of lines.
pub open spec fn parts_of(lines: Seq<Vec<String>>) -> Seq<Seq<Seq<char>>> {
    Seq::new(lines.len(), |i: int| text::views(lines[i]@))
}

proof fn lemma_laid_line(parts: Seq<Seq<char>>, width: int)
    requires
        width >= 0,
        forall|i: int| 0 <= i < parts.len() ==> (#[trigger] parts[i]).len() > 0,
    ensures
        laid_line(parts, width).used >= 0,
        laid_line(parts, width).current.len() == 0 ==> parts.len() == 0,
        laid_line(parts, width).used <= width || laid_line(parts, width).used <= usize::MAX,
        width::joined(laid_line(parts, width).full.push(laid_line(parts, width).current))
            == width::joined(parts),
    decreases parts.len(),
{
    let laid = laid_line(parts, width);
    if parts.len() > 0 {
        let rest = parts.drop_last();
        assert forall|i: int| 0 <= i < rest.len() implies (#[trigger] rest[i]).len() > 0 by {
            assert(rest[i] == parts[i]);
        }
        lemma_laid_line(rest, width);
        let before = laid_line(rest, width);
        assert(parts[parts.len() - 1].len() > 0);
        let shut = before.full.push(before.current);
        assert(shut.drop_last() =~= before.full);
        assert(laid.full.push(laid.current).drop_last() =~= laid.full);
        assert(width::joined(laid.full.push(laid.current)) =~= width::joined(parts));
    } else {
        reveal_with_fuel(width::joined, 2);
        assert(laid.full.push(laid.current).drop_last() =~= laid.full);
        assert(width::joined(laid.full.push(laid.current)) =~= width::joined(parts));
    }
}

/// Laying a line out on rows loses nothing of it and adds nothing to it.
pub proof fn law_layout_keeps_the_line(parts: Seq<Seq<char>>, width: int)
    requires
        width >= 0,
        forall|i: int| 0 <= i < parts.len() ==> (#[trigger] parts[i]).len() > 0,
    ensures
        width::joined(laid_line(parts, width).full.push(laid_line(parts, width).current))
            == width::joined(parts),
{
    lemma_laid_line(parts, width);
}

/// What is left of a number of bytes after so many more; nothing once they are past.
pub open spec fn bytes_left(byte: int, gone: int) -> Option<int> {
    if gone <= byte {
        Some(byte - gone)
    } else {
        None
    }
}

/// Whether a count of bytes left, if there is one, is another.
pub open spec fn counts(left: Option<usize>, wanted: Option<int>) -> bool {
    match (left, wanted) {
        (Some(l), Some(w)) => l == w,
        (None, None) => true,
        _ => false,
    }
}

fn take_bytes(left: Option<usize>, n: usize) -> (after: Option<usize>)
    ensures
        match left {
            Some(l) => counts(after, bytes_left(l as int, n as int)),
            None => after is None,
        },
{
    match left {
        Some(l) => {
            if l >= n {
                Some(l - n)
            } else {
                None
            }
        },
        None => None,
    }
}

/// Lays a line out below other rows. `left` is the number of bytes up to the cursor, if it is not
/// before the line; what is left after the line comes back, with the place of the cursor in the
/// line, if it has one.
fn push_line(
    parts: &Vec<String>,
    width: usize,
    left: Option<usize>,
    Ghost(byte): Ghost<int>,
    rows: &mut Vec<String>,
) -> (after: (Option<usize>, Option<(usize, usize)>))
    requires
        width > 0,
        counts(left, bytes_left(byte, 0)),
        forall|i: int| 0 <= i < parts@.len() ==> (#[trigger] parts@[i])@.len() > 0,
    ensures
        text::views(final(rows)@) == text::views(old(rows)@) + laid_line(
            text::views(parts@),
            width as int,
        ).full + seq![laid_line(text::views(parts@), width as int).current],
        counts(
            after.0,
            bytes_left(byte, bytes_before(text::views(parts@), parts@.len() as int)),
        ),
        match (place_from(text::views(parts@), width as int, byte, 0), after.1) {
            (Some(place), Some(found)) => found.0 == old(rows)@.len() + place.0 && found.1
                == place.1,
            (None, None) => true,
            _ => false,
        },
{
    let ghost all = text::views(parts@);
    let ghost w = width as int;
    let ghost before = text::views(rows@);
    let mut left: Option<usize> = left;
    let mut found: Option<(usize, usize)> = None;
    let mut current: String = String::new();
    let mut used: usize = 0;
    let mut k: usize = 0;
    assert(all.take(0) =~= Seq::<Seq<char>>::empty());
    assert(current@ =~= Seq::<char>::empty());
    assert(before =~= before + laid_line(all.take(0), w).full);
    while k < parts.len()
        invariant
            k <= parts@.len(),
            width > 0,
            w == width,
            all == text::views(parts@),
            before.len() == old(rows)@.len(),
            forall|i: int| 0 <= i < parts@.len() ==> (#[trigger] parts@[i])@.len() > 0,
            text::views(rows@) == before + laid_line(all.take(k as int), w).full,
            current@ == laid_line(all.take(k as int), w).current,
            used == laid_line(all.take(k as int), w).used,
            current@.len() == 0 ==> used == 0,
            counts(left, bytes_left(byte, bytes_before(all, k as int))),
            match found {
                Some(place) => place_from(all, w, byte, 0) == Some(
                    (place.0 - before.len(), place.1 as int),
                ),
                None => place_from(all, w, byte, 0) == place_from(all, w, byte, k as int),
            },
        decreases parts@.len() - k,
    {
        let ghost laid = laid_line(all.take(k as int), w);
        assert(all.take(k + 1).drop_last() =~= all.take(k as int));
        assert(all.take(k + 1).last() == parts@[k as int]@);
        if found.is_none() && left == Some(0usize) {
            let columns: usize = width::columns(current.as_str());
            found = Some((rows.len(), cursor::min(columns, width)));
            assert(rows@.len() == text::views(rows@).len());
        }
        let columns: usize = width::columns(parts[k].as_str());
        let started: bool = !text::is_empty(current.as_str());
        if started && (columns > width || used > width - columns) {
            rows.push(current);
            current = parts[k].clone();
            used = columns;
            assert(text::views(rows@) =~= before + laid_line(all.take(k + 1), w).full);
        } else {
            assert(!started ==> used == 0);
            current.append(parts[k].as_str());
            used = used + columns;
        }
        assert(parts@[k as int]@.len() > 0);
        left = take_bytes(left, cursor::len_of(parts[k].as_str()));
        k = k + 1;
        proof {
            assert(all[k - 1] == parts@[k - 1]@);
            cursor::lemma_ends(all[k - 1]);
        }
    }
    assert(all.take(all.len() as int) =~= all);
    if found.is_none() && left == Some(0usize) {
        let columns: usize = width::columns(current.as_str());
        found = Some((rows.len(), cursor::min(columns, width)));
        assert(rows@.len() == text::views(rows@).len());
    }
    proof {
        if found is None {
            assert(place_from(all, w, byte, all.len() as int + 1) is None);
        }
    }
    rows.push(current);
    assert(text::views(rows@) =~= before + laid_line(all, w).full + seq![
        laid_line(all, w).current,
    ]);
    (left, found)
}

/// A text laid out on rows, with the row and the column of the cursor.
pub struct LaidRows {
    pub rows: Vec<String>,
    pub row: usize,
    pub column: usize,
}

/// Lays lines out on rows of so many columns, given their parts, and finds the row and the column
/// of a byte.
pub fn layout_parts(lines: &Vec<Vec<String>>, byte_cursor: usize, width: usize) -> (laid: LaidRows)
    requires
        forall|i: int, j: int|
            0 <= i < lines@.len() && 0 <= j < lines@[i]@.len() ==> (
            #[trigger] lines@[i]@[j])@.len() > 0,
    ensures
        ({
            let columns = if width > 0 {
                width as int
            } else {
                1
            };
            let text = laid_text(
                parts_of(lines@),
                columns,
                byte_cursor as int,
                lines@.len() as int,
            );
            &&& text::views(laid.rows@) == text.rows
            &&& (laid.row as int, laid.column as int) == text.cursor
        }),
{
    let width: usize = if width > 0 {
        width
    } else {
        1
    };
    let ghost all = parts_of(lines@);
    let ghost w = width as int;
    let ghost byte = byte_cursor as int;
    let mut rows: Vec<String> = Vec::new();
    let mut at: (usize, usize) = (0, 0);
    let mut left: Option<usize> = Some(byte_cursor);
    let mut i: usize = 0;
    while i < lines.len()
        invariant
            i <= lines@.len(),
            width > 0,
            w == width,
            byte == byte_cursor,
            all == parts_of(lines@),
            forall|i: int, j: int|
                0 <= i < lines@.len() && 0 <= j < lines@[i]@.len() ==> (
                #[trigger] lines@[i]@[j])@.len() > 0,
            text::views(rows@) == laid_text(all, w, byte, i as int).rows,
            (at.0 as int, at.1 as int) == laid_text(all, w, byte, i as int).cursor,
            counts(left, bytes_left(byte, laid_text(all, w, byte, i as int).bytes)),
        decreases lines@.len() - i,
    {
        let ghost before = laid_text(all, w, byte, i as int);
        assert(all[i as int] == text::views(lines@[i as int]@));
        assert(rows@.len() == text::views(rows@).len());
        assert forall|j: int| 0 <= j < lines@[i as int]@.len() implies (
        #[trigger] lines@[i as int]@[j])@.len() > 0 by {}
        let (after, found) = push_line(
            &lines[i],
            width,
            left,
            Ghost(byte - before.bytes),
            &mut rows,
        );
        if let Some(place) = found {
            at = place;
        }
        left = take_bytes(after, 1);
        i = i + 1;
        assert(text::views(rows@) =~= laid_text(all, w, byte, i as int).rows);
    }
    LaidRows { rows, row: at.0, column: at.1 }
}

/// The lines of a text, each cut into its parts.
pub open spec fn cut_lines(buffer: Seq<char>) -> Seq<Seq<Seq<char>>> {
    let lines = text::split_of(buffer, '\n');
    Seq::new(lines.len(), |i: int| width::graphemes_of(lines[i]))
}

/// A text without its line feeds.
pub open spec fn without_feeds(s: Seq<char>) -> Seq<char> {
    s.filter(|c: char| c != '\n')
}

/// Lays a text out on rows of so many columns, and finds the row and the column of the cursor. The
/// rows one after the other are the text without its line feeds.
pub fn layout_buffer(buffer: &str, byte_cursor: usize, width: usize) -> (laid: LaidRows)
    ensures
        ({
            let columns = if width > 0 {
                width as int
            } else {
                1
            };
            let lines = cut_lines(buffer@);
            let text = laid_text(
                lines,
                columns,
                cursor::least(byte_cursor as int, cursor::byte_len(buffer@)),
                lines.len() as int,
            );
            &&& text::views(laid.rows@) == text.rows
            &&& (laid.row as int, laid.column as int) == text.cursor
            &&& laid.row < laid.rows@.len()
        }),
        width::joined(text::views(laid.rows@)) == without_feeds(buffer@),
{
    let lines: Vec<String> = text::split_on(buffer, '\n');
    let mut cut: Vec<Vec<String>> = Vec::new();
    let mut i: usize = 0;
    while i < lines.len()
        invariant
            i <= lines@.len(),
            text::views(lines@) == text::split_of(buffer@, '\n'),
            cut@.len() == i,
            forall|j: int|
                0 <= j < i ==> text::views((#[trigger] cut@[j])@) == width::graphemes_of(
                    lines@[j]@,
                ),
            forall|j: int|
                0 <= j < i ==> width::joined(text::views((#[trigger] cut@[j])@)) == lines@[j]@,
            forall|j: int, k: int|
                0 <= j < i && 0 <= k < cut@[j]@.len() ==> (#[trigger] cut@[j]@[k])@.len() > 0,
        decreases lines@.len() - i,
    {
        cut.push(width::graphemes(lines[i].as_str()));
        i = i + 1;
    }
    assert(parts_of(cut@) =~= cut_lines(buffer@));
    let at: usize = cursor::min(byte_cursor, cursor::len_of(buffer));
    proof {
        lemma_cursor_row(
            cut_lines(buffer@),
            if width > 0 {
                width as int
            } else {
                1
            },
            at as int,
            lines@.len() as int,
        );
    }
    let laid: LaidRows = layout_parts(&cut, at, width);
    proof {
        let all = cut_lines(buffer@);
        assert forall|j: int| 0 <= j < all.len() implies width::joined(#[trigger] all[j])
            == text::views(lines@)[j] by {
            assert(all[j] == text::views(cut@[j]@));
        }
        assert forall|j: int, k: int| 0 <= j < all.len() && 0 <= k < all[j].len() implies (
        #[trigger] all[j][k]).len() > 0 by {
            assert(all[j] == text::views(cut@[j]@));
            assert(all[j][k] == cut@[j]@[k]@);
        }
        lemma_rows_joined(
            all,
            text::views(lines@),
            if width > 0 {
                width as int
            } else {
                1
            },
            at as int,
            all.len() as int,
        );
        assert(text::views(lines@).take(all.len() as int) =~= text::views(lines@));
        width::lemma_joined_split(buffer@, '\n');
    }
    laid
}

proof fn lemma_rows_joined(
    lines: Seq<Seq<Seq<char>>>,
    texts: Seq<Seq<char>>,
    width: int,
    byte: int,
    n: int,
)
    requires
        width >= 0,
        0 <= n <= lines.len(),
        lines.len() == texts.len(),
        forall|j: int| 0 <= j < lines.len() ==> width::joined(#[trigger] lines[j]) == texts[j],
        forall|j: int, k: int|
            0 <= j < lines.len() && 0 <= k < lines[j].len() ==> (#[trigger] lines[j][k]).len() > 0,
    ensures
        width::joined(laid_text(lines, width, byte, n).rows) == width::joined(texts.take(n)),
    decreases n,
{
    if n > 0 {
        lemma_rows_joined(lines, texts, width, byte, n - 1);
        let before = laid_text(lines, width, byte, n - 1);
        let parts = lines[n - 1];
        let laid = laid_line(parts, width);
        assert forall|k: int| 0 <= k < parts.len() implies (#[trigger] parts[k]).len() > 0 by {
            assert(lines[n - 1][k].len() > 0);
        }
        lemma_laid_line(parts, width);
        assert(before.rows + laid.full + seq![laid.current] =~= before.rows + laid.full.push(
            laid.current,
        ));
        width::lemma_joined_add(before.rows, laid.full.push(laid.current));
        assert(texts.take(n).drop_last() =~= texts.take(n - 1));
        assert(texts.take(n).last() == texts[n - 1]);
    } else {
        assert(texts.take(0) =~= Seq::<Seq<char>>::empty());
    }
}

proof fn lemma_place(parts: Seq<Seq<char>>, width: int, byte: int, k: int)
    requires
        0 <= k,
    ensures
        place_from(parts, width, byte, k) matches Some(place) ==> 0 <= place.0 <= laid_line(
            parts,
            width,
        ).full.len(),
    decreases parts.len() + 1 - k,
{
    if k <= parts.len() {
        lemma_place(parts, width, byte, k + 1);
        lemma_full_grows(parts, width, k);
    }
}

proof fn lemma_full_grows(parts: Seq<Seq<char>>, width: int, k: int)
    requires
        0 <= k <= parts.len(),
    ensures
        laid_line(parts.take(k), width).full.len() <= laid_line(parts, width).full.len(),
    decreases parts.len(),
{
    if k == parts.len() {
        assert(parts.take(k) =~= parts);
    } else {
        assert(parts.drop_last().take(k) =~= parts.take(k));
        lemma_full_grows(parts.drop_last(), width, k);
    }
}

proof fn lemma_cursor_row(lines: Seq<Seq<Seq<char>>>, width: int, byte: int, n: int)
    requires
        0 <= n <= lines.len(),
    ensures
        0 <= laid_text(lines, width, byte, n).cursor.0,
        n > 0 ==> laid_text(lines, width, byte, n).cursor.0 < laid_text(
            lines,
            width,
            byte,
            n,
        ).rows.len(),
        n == 0 ==> laid_text(lines, width, byte, n).cursor.0 == 0,
    decreases n,
{
    if n > 0 {
        lemma_cursor_row(lines, width, byte, n - 1);
        let before = laid_text(lines, width, byte, n - 1);
        lemma_place(lines[n - 1], width, byte - before.bytes, 0);
    }
}

// -- Lines -----------------------------------------------------------------------------------------

/// The word for the connection, and its colour.
#[verifier::allow_in_spec]
pub fn connection_look(connection: ConnectionState) -> (&'static str, Tint)
    returns
        (match connection {
            ConnectionState::Booting => ("connecting", Tint::Yellow),
            ConnectionState::Connecting => ("connecting", Tint::Yellow),
            ConnectionState::Initializing => ("connecting", Tint::Yellow),
            ConnectionState::Ready => ("ready", Tint::Green),
            ConnectionState::Streaming => ("working", Tint::Cyan),
            ConnectionState::WaitingApproval => ("waiting for approval", Tint::LightYellow),
            ConnectionState::Disconnected => ("disconnected", Tint::Red),
            ConnectionState::Reconnecting => ("reconnecting", Tint::Yellow),
        }),
{
    match connection {
        ConnectionState::Booting => ("connecting", Tint::Yellow),
        ConnectionState::Connecting => ("connecting", Tint::Yellow),
        ConnectionState::Initializing => ("connecting", Tint::Yellow),
        ConnectionState::Ready => ("ready", Tint::Green),
        ConnectionState::Streaming => ("working", Tint::Cyan),
        ConnectionState::WaitingApproval => ("waiting for approval", Tint::LightYellow),
        ConnectionState::Disconnected => ("disconnected", Tint::Red),
        ConnectionState::Reconnecting => ("reconnecting", Tint::Yellow),
    }
}

/// One more thing on the status line, where there is one.
pub open spec fn noted(words: Option<Seq<char>>) -> Seq<StyledSpanView> {
    match words {
        Some(words) => seq![
            styled::span_of("  "@, styled::plain()),
            styled::span_of(words, styled::tinted(Tint::DarkGray)),
        ],
        None => Seq::empty(),
    }
}

/// The status line.
pub open spec fn status_line_of(props: BottomPanePropsView) -> StyledLineView {
    let look = connection_look(props.connection);
    styled::line_of(
        seq![
            styled::span_of("● "@, styled::bold_tinted(look.1)),
            styled::span_of(look.0@, styled::bold_tinted(look.1)),
        ] + noted(
            match props.task_seconds {
                Some(seconds) => Some(text::decimal(seconds as nat) + "s"@),
                None => None,
            },
        ) + noted(
            if props.queued_prompts > 0 {
                Some(text::decimal(props.queued_prompts as nat) + " queued"@)
            } else {
                None
            },
        ) + noted(
            match props.approval_policy {
                Some(policy) => Some("approval: "@ + labels::policy_label_of(policy)),
                None => None,
            },
        ) + noted(
            match props.sandbox_mode {
                Some(mode) => Some("sandbox: "@ + labels::sandbox_label_of(mode)),
                None => None,
            },
        ),
    )
}

fn push_note(spans: &mut Vec<StyledSpan>, words: Option<String>)
    ensures
        text::views(final(spans)@) == text::views(old(spans)@) + noted(text::opt_view(words)),
{
    if let Some(words) = &words {
        spans.push(styled::span("  ", styled::plain()));
        spans.push(styled::span(words.as_str(), styled::tinted(Tint::DarkGray)));
    }
    assert(text::views(spans@) =~= text::views(old(spans)@) + noted(text::opt_view(words)));
}

/// The status line.
pub fn status_line(props: &BottomPaneProps) -> (line: StyledLine)
    ensures
        line@ == status_line_of(props@),
{
    let (word, tint) = connection_look(props.connection);
    let mut spans: Vec<StyledSpan> = Vec::new();
    spans.push(styled::span("● ", styled::bold_tinted(tint)));
    spans.push(styled::span(word, styled::bold_tinted(tint)));
    assert(text::views(spans@) =~= seq![
        styled::span_of("● "@, styled::bold_tinted(tint)),
        styled::span_of(word@, styled::bold_tinted(tint)),
    ]);
    let elapsed: Option<String> = match props.task_seconds {
        Some(seconds) => {
            let number: String = text::number(seconds);
            Some(text::glue(number.as_str(), "s"))
        },
        None => None,
    };
    push_note(&mut spans, elapsed);
    let queued: Option<String> = if props.queued_prompts > 0 {
        let number: String = text::number(props.queued_prompts as u64);
        Some(text::glue(number.as_str(), " queued"))
    } else {
        None
    };
    push_note(&mut spans, queued);
    let policy: Option<String> = match props.approval_policy {
        Some(policy) => Some(text::glue("approval: ", labels::approval_policy_label(policy))),
        None => None,
    };
    push_note(&mut spans, policy);
    let mode: Option<String> = match props.sandbox_mode {
        Some(mode) => Some(text::glue("sandbox: ", labels::sandbox_mode_label(mode))),
        None => None,
    };
    push_note(&mut spans, mode);
    StyledLine { spans, style: styled::plain() }
}

/// What a pending approval is for.
pub open spec fn pending_words(kind: ApprovalKind) -> Seq<char> {
    match kind {
        ApprovalKind::CommandExecution => "run command"@,
        ApprovalKind::FileChange => "apply patch"@,
        ApprovalKind::PermissionRequest => "grant permission"@,
        ApprovalKind::RequestUserInput => "answer prompt"@,
    }
}

/// The lines on a pending approval.
pub open spec fn pending_lines_of(approval: PendingApprovalView) -> Seq<StyledLineView> {
    seq![
        styled::line_of(
            seq![
                styled::span_of("? approval required — "@, styled::bold_tinted(Tint::LightYellow)),
                styled::span_of(pending_words(approval.kind), styled::tinted(Tint::LightYellow)),
            ],
        ),
        styled::line_of(
            seq![
                styled::span_of("  "@, styled::plain()),
                styled::span_of(approval.title, styled::bold()),
            ],
        ),
    ]
}

/// The lines on a pending approval.
pub fn pending_lines(approval: &PendingApproval) -> (lines: Vec<StyledLine>)
    ensures
        text::views(lines@) == pending_lines_of(approval@),
{
    let kind: &str = match approval.kind {
        ApprovalKind::CommandExecution => "run command",
        ApprovalKind::FileChange => "apply patch",
        ApprovalKind::PermissionRequest => "grant permission",
        ApprovalKind::RequestUserInput => "answer prompt",
    };
    let mut lines: Vec<StyledLine> = Vec::new();
    lines.push(
        styled::line2(
            styled::span("? approval required — ", styled::bold_tinted(Tint::LightYellow)),
            styled::span(kind, styled::tinted(Tint::LightYellow)),
        ),
    );
    lines.push(
        styled::line2(
            styled::span("  ", styled::plain()),
            styled::span(approval.title.as_str(), styled::bold()),
        ),
    );
    assert(text::views(lines@) =~= pending_lines_of(approval@));
    lines
}

/// The words of the last line: the notice, else the hint, else what the keys do.
pub open spec fn hint_words(props: BottomPanePropsView) -> Seq<char> {
    match (props.toast, props.hint) {
        (Some(toast), _) => toast,
        (None, Some(hint)) => hint,
        (None, None) => match props.connection {
            ConnectionState::WaitingApproval => "enter to confirm  ·  esc to deny  ·  /quit to exit"@,
            ConnectionState::Streaming => "ctrl+c interrupts  ·  /quit to exit"@,
            _ => "enter  send  ·  shift+enter  newline  ·  ctrl+u  clear  ·  ↑ history  ·  /help"@,
        },
    }
}

/// The last line.
pub open spec fn hint_line_of(props: BottomPanePropsView) -> StyledLineView {
    styled::line_of(seq![styled::span_of(hint_words(props), styled::tinted(Tint::DarkGray))])
}

/// The last line.
pub fn hint_line(props: &BottomPaneProps) -> (line: StyledLine)
    ensures
        line@ == hint_line_of(props@),
{
    let words: &str = match props.toast {
        Some(toast) => toast,
        None => {
            match props.hint {
                Some(hint) => hint,
                None => {
                    match props.connection {
                        ConnectionState::WaitingApproval => {
                            "enter to confirm  ·  esc to deny  ·  /quit to exit"
                        },
                        ConnectionState::Streaming => "ctrl+c interrupts  ·  /quit to exit",
                        _ => {
                            "enter  send  ·  shift+enter  newline  ·  ctrl+u  clear  ·  ↑ history  ·  /help"
                        },
                    }
                },
            }
        },
    };
    styled::line1(styled::span(words, styled::tinted(Tint::DarkGray)))
}

// -- The composer ----------------------------------------------------------------------------------

/// The colour of the frame of the composer.
#[verifier::allow_in_spec]
pub fn composer_tint(connection: ConnectionState) -> Tint
    returns
        (match connection {
            ConnectionState::Streaming => Tint::Cyan,
            ConnectionState::WaitingApproval => Tint::LightYellow,
            _ => Tint::DarkGray,
        }),
{
    match connection {
        ConnectionState::Streaming => Tint::Cyan,
        ConnectionState::WaitingApproval => Tint::LightYellow,
        _ => Tint::DarkGray,
    }
}

/// The frame of the composer, with the skill in use in its title.
pub open spec fn composer_frame(area: Area, props: BottomPanePropsView) -> DrawItemView {
    DrawItemView::Frame {
        area,
        title: styled::line_of(
            seq![styled::span_of(" compose "@, styled::bold_tinted(Tint::LightCyan))] + (
            match props.selected_skill {
                Some(skill) => seq![
                    styled::span_of(" "@, styled::plain()),
                    styled::span_of("["@ + skill + "]"@, styled::tinted(Tint::Magenta)),
                ],
                None => Seq::empty(),
            }),
        ),
        border: composer_tint(props.connection),
    }
}

/// What an empty composer says.
pub open spec fn placeholder_of(connection: ConnectionState) -> Seq<char> {
    match connection {
        ConnectionState::WaitingApproval => "approve or reject above before sending"@,
        ConnectionState::Streaming => "type to queue; Ctrl+C to interrupt"@,
        _ => "type a prompt, `$` for skills, `/` for commands, Enter to send"@,
    }
}

/// The two cells in front of a row of the composer.
pub open spec fn gutter_cells(inner: Area, row: int) -> Seq<DrawItemView> {
    let style = Some(
        if row == 0 {
            styled::bold_tinted(Tint::Cyan)
        } else {
            styled::tinted(Tint::DarkGray)
        },
    );
    let y = (inner.y + row) as u16;
    seq![
        DrawItemView::Glyph {
            at: Place { x: inner.x, y },
            symbol: if row == 0 {
                '›'
            } else {
                ' '
            },
            style,
        },
        DrawItemView::Glyph { at: Place { x: (inner.x + 1) as u16, y }, symbol: ' ', style },
    ]
}

/// The cells in front of so many rows of the composer.
pub open spec fn gutter_of(inner: Area, rows: int) -> Seq<DrawItemView>
    decreases rows,
{
    if rows <= 0 {
        Seq::empty()
    } else {
        gutter_of(inner, rows - 1) + gutter_cells(inner, rows - 1)
    }
}

/// The part of the composer that holds what is typed.
#[verifier::allow_in_spec]
pub fn text_area_of(inner: Area) -> Area
    returns
        (Area {
            x: if inner.x <= u16::MAX - 2 {
                (inner.x + 2) as u16
            } else {
                u16::MAX
            },
            y: inner.y,
            width: draw::less(inner.width, 2),
            height: inner.height,
        }),
{
    Area {
        x: if inner.x <= u16::MAX - 2 {
            inner.x + 2
        } else {
            u16::MAX
        },
        y: inner.y,
        width: draw::less(inner.width, 2),
        height: inner.height,
    }
}

/// The columns of a character, cut to what a screen can have.
pub open spec fn cell_columns(c: char) -> u16 {
    match width::glyph_columns_of(c) {
        Some(n) => n as u16,
        None => 0,
    }
}

/// A character in a cell, in the look that is there.
pub open spec fn cell_of(x: int, y: u16, symbol: char) -> DrawItemView {
    DrawItemView::Glyph { at: Place { x: x as u16, y }, symbol, style: None }
}

/// The cells of a row from some column on: a character without columns has no cell, and the row
/// ends before a character that does not fit.
pub open spec fn row_cells(row: Seq<char>, x: int, right: int, y: u16) -> Seq<DrawItemView>
    decreases row.len(),
{
    if row.len() == 0 || x >= right {
        Seq::empty()
    } else if cell_columns(row[0]) == 0 {
        row_cells(row.drop_first(), x, right, y)
    } else if x + cell_columns(row[0]) > right {
        Seq::empty()
    } else {
        seq![cell_of(x, y, row[0])] + row_cells(
            row.drop_first(),
            x + cell_columns(row[0]),
            right,
            y,
        )
    }
}

/// The cells of so many rows.
pub open spec fn rows_cells(rows: Seq<Seq<char>>, area: Area, n: int) -> Seq<DrawItemView>
    decreases n,
{
    if n <= 0 {
        Seq::empty()
    } else {
        rows_cells(rows, area, n - 1) + row_cells(
            rows[n - 1],
            area.x as int,
            area.x + area.width,
            (area.y + n - 1) as u16,
        )
    }
}

/// The rows of the composer that are in view: from the top as long as the cursor is among them,
/// else so that the cursor is on the last.
pub open spec fn composer_window(total: int, height: int, row: int) -> (int, int) {
    let first = if row >= height {
        row + 1 - height
    } else {
        0
    };
    (first, cursor::least(first + height, total))
}

/// What is typed, as it is drawn, and where the terminal's cursor goes. `rows` is what is typed on
/// rows, with the row and the column of the cursor.
pub open spec fn typed_cells(
    area: Area,
    rows: Seq<Seq<char>>,
    row: int,
    column: int,
) -> (Seq<DrawItemView>, Option<Place>) {
    let window = composer_window(rows.len() as int, area.height as int, row);
    (
        rows_cells(rows.subrange(window.0, window.1), area, window.1 - window.0),
        if window.0 <= row < window.1 {
            Some(
                Place {
                    x: (area.x + cursor::least(column, area.width - 1)) as u16,
                    y: (area.y + row - window.0) as u16,
                },
            )
        } else {
            None
        },
    )
}

/// The composer as it is drawn, and where the terminal's cursor goes. `rows` is what is typed on
/// rows of the text area, with the row and the column of the cursor.
pub open spec fn composer_items(
    area: Area,
    props: BottomPanePropsView,
    rows: Seq<Seq<char>>,
    row: int,
    column: int,
) -> (Seq<DrawItemView>, Option<Place>) {
    let inner = draw::inner_of(area);
    let text = text_area_of(inner);
    let frame = seq![composer_frame(area, props)];
    if draw::is_void(inner) || draw::is_void(text) {
        (frame, None)
    } else if props.composer_buffer.len() == 0 {
        (
            frame + gutter_of(inner, inner.height as int) + seq![
                DrawItemView::Lines {
                    area: text,
                    lines: seq![
                        styled::line_of(
                            seq![
                                styled::span_of(
                                    placeholder_of(props.connection),
                                    styled::italic_tinted(Tint::DarkGray),
                                ),
                            ],
                        ),
                    ],
                    wrap: false,
                },
            ],
            Some(Place { x: text.x, y: text.y }),
        )
    } else {
        let typed = typed_cells(text, rows, row, column);
        (frame + gutter_of(inner, inner.height as int) + typed.0, typed.1)
    }
}

fn push_gutter(items: &mut Vec<DrawItem>, inner: Area)
    requires
        draw::on_screen(inner),
        inner.width >= 2,
    ensures
        text::views(final(items)@) == text::views(old(items)@) + gutter_of(
            inner,
            inner.height as int,
        ),
{
    let ghost before = text::views(items@);
    let mut row: u16 = 0;
    assert(before =~= before + gutter_of(inner, 0));
    while row < inner.height
        invariant
            row <= inner.height,
            draw::on_screen(inner),
            inner.width >= 2,
            text::views(items@) == before + gutter_of(inner, row as int),
        decreases inner.height - row,
    {
        let style: SpanStyle = if row == 0 {
            styled::bold_tinted(Tint::Cyan)
        } else {
            styled::tinted(Tint::DarkGray)
        };
        let symbol: char = if row == 0 {
            '›'
        } else {
            ' '
        };
        let y: u16 = inner.y + row;
        items.push(
            DrawItem::Glyph { at: Place { x: inner.x, y }, symbol, style: Some(style) },
        );
        items.push(
            DrawItem::Glyph {
                at: Place { x: inner.x + 1, y },
                symbol: ' ',
                style: Some(style),
            },
        );
        assert(text::views(items@) =~= before + gutter_of(inner, row as int) + gutter_cells(
            inner,
            row as int,
        ));
        assert(text::views(items@) =~= before + gutter_of(inner, row + 1));
        row = row + 1;
    }
}

fn push_row(items: &mut Vec<DrawItem>, row: &str, area: Area, y: u16)
    requires
        draw::on_screen(area),
    ensures
        text::views(final(items)@) == text::views(old(items)@) + row_cells(
            row@,
            area.x as int,
            area.x + area.width,
            y,
        ),
{
    let chars: Vec<char> = text::chars_of(row);
    let right: u16 = area.x + area.width;
    let ghost before = text::views(items@);
    let ghost all = row_cells(row@, area.x as int, right as int, y);
    let mut x: u16 = area.x;
    let mut i: usize = 0;
    let mut full: bool = false;
    assert(row@.skip(0) =~= row@);
    while i < chars.len() && x < right && !full
        invariant
            i <= chars@.len(),
            area.x <= x <= right,
            chars@ == row@,
            full ==> row_cells(row@.skip(i as int), x as int, right as int, y) == Seq::<
                DrawItemView,
            >::empty(),
            before + all == text::views(items@) + row_cells(
                row@.skip(i as int),
                x as int,
                right as int,
                y,
            ),
        decreases chars@.len() - i, (if full { 0int } else { 1int }),
    {
        let ghost rest = row@.skip(i as int);
        assert(rest[0] == chars@[i as int]);
        assert(rest.drop_first() =~= row@.skip(i + 1));
        let columns: u16 = match width::glyph_columns(chars[i]) {
            Some(n) => n as u16,
            None => 0,
        };
        assert(columns == cell_columns(rest[0]));
        if columns == 0 {
            i = i + 1;
        } else if columns > right - x {
            full = true;
        } else {
            let ghost done = text::views(items@);
            let glyph: DrawItem = DrawItem::Glyph {
                at: Place { x, y },
                symbol: chars[i],
                style: None,
            };
            assert(glyph@ == cell_of(x as int, y, rest[0]));
            let ghost prev = items@;
            items.push(glyph);
            proof {
                text::lemma_views_push(prev, glyph);
                let cell = cell_of(x as int, y, rest[0]);
                let tail = row_cells(rest.drop_first(), x + columns, right as int, y);
                assert(row_cells(rest, x as int, right as int, y) == seq![cell] + tail);
                assert(text::views(items@) =~= done + seq![cell]);
                assert(done + (seq![cell] + tail) =~= text::views(items@) + tail);
            }
            x = x + columns;
            i = i + 1;
        }
    }
    assert(text::views(items@) + Seq::<DrawItemView>::empty() =~= text::views(items@));
}

fn push_typed(items: &mut Vec<DrawItem>, area: Area, laid: &LaidRows) -> (at: Option<Place>)
    requires
        draw::on_screen(area),
        area.width > 0,
        area.height > 0,
        laid.row < laid.rows@.len(),
    ensures
        ({
            let typed = typed_cells(
                area,
                text::views(laid.rows@),
                laid.row as int,
                laid.column as int,
            );
            &&& text::views(final(items)@) == text::views(old(items)@) + typed.0
            &&& at == typed.1
        }),
{
    let height: usize = area.height as usize;
    let first: usize = if laid.row >= height {
        laid.row - (height - 1)
    } else {
        0
    };
    let total: usize = laid.rows.len();
    let last: usize = if total - first > height {
        first + height
    } else {
        total
    };
    let ghost all = text::views(laid.rows@);
    let ghost shown = all.subrange(first as int, last as int);
    let ghost before = text::views(items@);
    let mut i: usize = first;
    assert(before =~= before + rows_cells(shown, area, 0));
    while i < last
        invariant
            first <= i <= last <= laid.rows@.len(),
            last - first <= area.height,
            draw::on_screen(area),
            all == text::views(laid.rows@),
            shown == all.subrange(first as int, last as int),
            text::views(items@) == before + rows_cells(shown, area, i - first),
        decreases last - i,
    {
        let y: u16 = area.y + (i - first) as u16;
        assert(shown[i - first] == laid.rows@[i as int]@);
        let ghost done = text::views(items@);
        push_row(items, laid.rows[i].as_str(), area, y);
        assert(text::views(items@) =~= before + rows_cells(shown, area, i + 1 - first));
        i = i + 1;
    }
    let x: usize = cursor::min(laid.column, (area.width - 1) as usize);
    Some(Place { x: area.x + x as u16, y: area.y + (laid.row - first) as u16 })
}

fn push_composer_frame(items: &mut Vec<DrawItem>, area: Area, props: &BottomPaneProps)
    ensures
        text::views(final(items)@) == text::views(old(items)@) + seq![composer_frame(area, props@)],
{
    let mut title: StyledLine = styled::line1(
        styled::span(" compose ", styled::bold_tinted(Tint::LightCyan)),
    );
    if let Some(skill) = props.selected_skill {
        let label: String = text::glue3("[", skill, "]");
        title.spans.push(styled::span(" ", styled::plain()));
        title.spans.push(styled::span(label.as_str(), styled::tinted(Tint::Magenta)));
    }
    items.push(DrawItem::Frame { area, title, border: composer_tint(props.connection) });
    assert(items@.last()@ =~= composer_frame(area, props@));
    assert(text::views(items@) =~= text::views(old(items)@) + seq![composer_frame(area, props@)]);
}

/// Draws the composer, given what is typed on rows of its text area.
pub fn draw_composer(items: &mut Vec<DrawItem>, area: Area, props: &BottomPaneProps, laid: &LaidRows) -> (at:
    Option<Place>)
    requires
        draw::on_screen(area),
        laid.row < laid.rows@.len(),
    ensures
        ({
            let drawn = composer_items(
                area,
                props@,
                text::views(laid.rows@),
                laid.row as int,
                laid.column as int,
            );
            &&& text::views(final(items)@) == text::views(old(items)@) + drawn.0
            &&& at == drawn.1
        }),
{
    let ghost before = text::views(items@);
    push_composer_frame(items, area, props);
    let inner: Area = draw::inner_of(area);
    let text: Area = text_area_of(inner);
    if draw::is_void(inner) || draw::is_void(text) {
        return None;
    }
    push_gutter(items, inner);
    if text::is_empty(props.composer_buffer) {
        let words: &str = match props.connection {
            ConnectionState::WaitingApproval => "approve or reject above before sending",
            ConnectionState::Streaming => "type to queue; Ctrl+C to interrupt",
            _ => "type a prompt, `$` for skills, `/` for commands, Enter to send",
        };
        let mut lines: Vec<StyledLine> = Vec::new();
        lines.push(
            styled::line1(styled::span(words, styled::italic_tinted(Tint::DarkGray))),
        );
        assert(text::views(lines@) =~= seq![
            styled::line_of(
                seq![
                    styled::span_of(
                        placeholder_of(props@.connection),
                        styled::italic_tinted(Tint::DarkGray),
                    ),
                ],
            ),
        ]);
        items.push(DrawItem::Lines { area: text, lines, wrap: false });
        assert(text::views(items@) =~= before + composer_items(
            area,
            props@,
            text::views(laid.rows@),
            laid.row as int,
            laid.column as int,
        ).0);
        return Some(Place { x: text.x, y: text.y });
    }
    let at: Option<Place> = push_typed(items, text, laid);
    assert(text::views(items@) =~= before + composer_items(
        area,
        props@,
        text::views(laid.rows@),
        laid.row as int,
        laid.column as int,
    ).0);
    at
}

/// The cursor is on the screen, and on a row of the composer that is in view, as long as the
/// composer has cells.
pub proof fn law_cursor_is_in_view(area: Area, rows: Seq<Seq<char>>, row: int, column: int)
    requires
        draw::on_screen(area),
        area.width > 0,
        area.height > 0,
        0 <= row < rows.len(),
        0 <= column,
    ensures
        typed_cells(area, rows, row, column).1 is Some,
        ({
            let at = typed_cells(area, rows, row, column).1->0;
            area.x <= at.x < area.x + area.width && area.y <= at.y < area.y + area.height
        }),
{
}

// -- The whole -------------------------------------------------------------------------------------

/// The rows for the composer in an area: those that it needs, as far as the rest leaves them, and
/// three at least.
pub open spec fn composer_rows_in(area: Area, props: BottomPanePropsView) -> u16 {
    let wanted = (composer_height(props.composer_buffer, draw::less(area.width, 4) as int)
        + 2) as u16;
    let reserved = (status_height(props) + approval_height(props) + 1 + popup_height(
        props,
    )) as u16;
    draw::lesser(wanted, draw::greater(draw::less(area.height, reserved), 3))
}

/// The rows that the parts of the pane before the composer ask for.
pub open spec fn rows_on_top(props: BottomPanePropsView) -> Seq<Rows> {
    (if status_shown(props) {
        seq![Rows::Exactly(1)]
    } else {
        Seq::empty()
    }) + (if props.pending_approval is Some {
        seq![Rows::Exactly(2)]
    } else {
        Seq::empty()
    }) + (if popup_height(props) > 0 {
        seq![Rows::Exactly(popup_height(props))]
    } else {
        Seq::empty()
    })
}

/// The rows that the parts of the pane ask for.
pub open spec fn pane_sections(area: Area, props: BottomPanePropsView) -> Seq<Rows> {
    rows_on_top(props) + seq![Rows::Exactly(composer_rows_in(area, props)), Rows::Exactly(1)]
}

/// What is typed on rows of the text area of a composer.
pub open spec fn typed_in(area: Area, props: BottomPanePropsView) -> LaidText {
    let columns = text_area_of(draw::inner_of(area)).width as int;
    let lines = cut_lines(props.composer_buffer);
    laid_text(
        lines,
        if columns > 0 {
            columns
        } else {
            1
        },
        cursor::least(
            props.composer_cursor as int,
            cursor::byte_len(props.composer_buffer),
        ),
        lines.len() as int,
    )
}

/// The parts of the pane before the composer.
pub open spec fn items_on_top(sections: Seq<Area>, props: BottomPanePropsView) -> Seq<DrawItemView> {
    let status: int = if status_shown(props) {
        1
    } else {
        0
    };
    let approval: int = if props.pending_approval is Some {
        1
    } else {
        0
    };
    (if status_shown(props) {
        seq![
            DrawItemView::Lines {
                area: sections[0],
                lines: seq![status_line_of(props)],
                wrap: false,
            },
        ]
    } else {
        Seq::empty()
    }) + (match props.pending_approval {
        Some(pending) => seq![
            DrawItemView::Lines {
                area: sections[status],
                lines: pending_lines_of(pending),
                wrap: true,
            },
        ],
        None => Seq::empty(),
    }) + (if popup_height(props) > 0 {
        completion::popup_items(sections[status + approval], props.completion->0)
    } else {
        Seq::empty()
    })
}

/// The pane as it is drawn, and where the terminal's cursor goes, given its sections.
pub open spec fn pane_items(sections: Seq<Area>, props: BottomPanePropsView) -> (
    Seq<DrawItemView>,
    Option<Place>,
) {
    let n = rows_on_top(props).len() as int;
    let typed = typed_in(sections[n], props);
    let composer = composer_items(
        sections[n],
        props,
        typed.rows,
        typed.cursor.0,
        typed.cursor.1,
    );
    (
        items_on_top(sections, props) + composer.0 + seq![
            DrawItemView::Lines {
                area: sections[n + 1],
                lines: seq![hint_line_of(props)],
                wrap: false,
            },
        ],
        composer.1,
    )
}

fn push_one_line(items: &mut Vec<DrawItem>, area: Area, line: StyledLine)
    ensures
        text::views(final(items)@) == text::views(old(items)@) + seq![
            DrawItemView::Lines { area, lines: seq![line@], wrap: false },
        ],
{
    let mut lines: Vec<StyledLine> = Vec::new();
    lines.push(line);
    assert(text::views(lines@) =~= seq![line@]);
    items.push(DrawItem::Lines { area, lines, wrap: false });
    assert(text::views(items@) =~= text::views(old(items)@) + seq![items@.last()@]);
}

/// Draws the pane, given its sections.
pub fn draw_pane(sections: &Vec<Area>, props: &BottomPaneProps) -> (drawn: (
    Vec<DrawItem>,
    BottomPaneLayout,
))
    requires
        sections@.len() == rows_on_top(props@).len() + 2,
        forall|i: int| 0 <= i < sections@.len() ==> draw::on_screen(#[trigger] sections@[i]),
    ensures
        text::views(drawn.0@) == pane_items(sections@, props@).0,
        drawn.1.cursor == pane_items(sections@, props@).1,
{
    let mut items: Vec<DrawItem> = Vec::new();
    let mut n: usize = 0;
    let ghost first = if status_shown(props@) {
        seq![
            DrawItemView::Lines {
                area: sections@[0],
                lines: seq![status_line_of(props@)],
                wrap: false,
            },
        ]
    } else {
        Seq::empty()
    };
    if show_status_row(props) {
        push_one_line(&mut items, sections[0], status_line(props));
        n = 1;
    }
    assert(text::views(items@) =~= first);
    if let Some(pending) = props.pending_approval {
        let lines: Vec<StyledLine> = pending_lines(pending);
        items.push(DrawItem::Lines { area: sections[n], lines, wrap: true });
        n = n + 1;
    }
    let ghost second = text::views(items@);
    let popup: u16 = popup_rows(props);
    if popup > 0 {
        if let Some(popup) = props.completion {
            let mut more: Vec<DrawItem> = completion::render(sections[n], popup);
            items.append(&mut more);
        }
        n = n + 1;
    }
    assert(n == rows_on_top(props@).len());
    assert(text::views(items@) =~= items_on_top(sections@, props@));
    let area: Area = sections[n];
    let text: Area = text_area_of(draw::inner_of(area));
    let laid: LaidRows = layout_buffer(
        props.composer_buffer,
        props.composer_cursor,
        text.width as usize,
    );
    let at: Option<Place> = draw_composer(&mut items, area, props, &laid);
    push_one_line(&mut items, sections[n + 1], hint_line(props));
    assert(text::views(items@) =~= pane_items(sections@, props@).0);
    (items, BottomPaneLayout { cursor: at })
}

fn wanted_sections(area: Area, props: &BottomPaneProps) -> (wanted: Vec<Rows>)
    ensures
        wanted@ == pane_sections(area, props@),
        forall|i: int|
            0 <= i < wanted@.len() ==> draw::rows_asked(#[trigger] wanted@[i]) <= i16::MAX,
{
    let status: u16 = if show_status_row(props) {
        1
    } else {
        0
    };
    let approval: u16 = if props.pending_approval.is_some() {
        2
    } else {
        0
    };
    let popup: u16 = popup_rows(props);
    let columns: usize = draw::less(area.width, 4) as usize;
    let inner: u16 = composer_inner_rows(props.composer_buffer, columns);
    let reserved: u16 = status + approval + 1 + popup;
    let composer: u16 = draw::lesser(
        inner + 2,
        draw::greater(draw::less(area.height, reserved), 3),
    );
    let mut wanted: Vec<Rows> = Vec::new();
    if status > 0 {
        wanted.push(Rows::Exactly(status));
    }
    if approval > 0 {
        wanted.push(Rows::Exactly(approval));
    }
    if popup > 0 {
        wanted.push(Rows::Exactly(popup));
    }
    wanted.push(Rows::Exactly(composer));
    wanted.push(Rows::Exactly(1));
    assert(wanted@ =~= pane_sections(area, props@));
    wanted
}

/// Draws the pane, its parts one below the other. Which of them give way where they have too few
/// rows is decided elsewhere; all else is fixed. Nothing is drawn where there are no cells.
pub fn render(area: Area, props: &BottomPaneProps) -> (drawn: (Vec<DrawItem>, BottomPaneLayout))
    requires
        draw::on_screen(area),
    ensures
        draw::is_void(area) ==> drawn.0@.len() == 0 && drawn.1.cursor is None,
        !draw::is_void(area) ==> exists|sections: Seq<Area>|
            #[trigger] draw::may_split(area, pane_sections(area, props@), sections) && text::views(
                drawn.0@,
            ) == pane_items(sections, props@).0 && drawn.1.cursor == pane_items(
                sections,
                props@,
            ).1,
{
    if draw::is_void(area) {
        return (Vec::new(), BottomPaneLayout { cursor: None });
    }
    let wanted: Vec<Rows> = wanted_sections(area, props);
    let sections: Vec<Area> = draw::split_rows(area, &wanted);
    assert forall|i: int| 0 <= i < sections@.len() implies draw::on_screen(
        #[trigger] sections@[i],
    ) by {
        assert(draw::lies_in(sections@[i], area));
    }
    let drawn = draw_pane(&sections, props);
    assert(draw::may_split(area, pane_sections(area, props@), sections@));
    drawn
}

/// A pane that is as high as it would like to be has the rows for all of its parts.
pub proof fn law_wanted_height_is_enough(area: Area, props: BottomPanePropsView)
    requires
        area.width > 0,
        area.height == wanted_height(props, area.width),
        props.completion is Some ==> props.completion->0.filtered.len() <= usize::MAX,
    ensures
        draw::rows_fit(area, pane_sections(area, props)),
{
    let top = rows_on_top(props);
    let all = pane_sections(area, props);
    let composer = Rows::Exactly(composer_rows_in(area, props));
    assert(all.drop_last() =~= top.push(composer));
    assert(top.push(composer).drop_last() =~= top);
    reveal_with_fuel(draw::all_asked, 4);
    let a: Seq<Rows> = if status_shown(props) {
        seq![Rows::Exactly(1)]
    } else {
        Seq::empty()
    };
    let b: Seq<Rows> = if props.pending_approval is Some {
        seq![Rows::Exactly(2)]
    } else {
        Seq::empty()
    };
    let c: Seq<Rows> = if popup_height(props) > 0 {
        seq![Rows::Exactly(popup_height(props))]
    } else {
        Seq::empty()
    };
    lemma_asked_add(a + b, c);
    lemma_asked_add(a, b);
    assert(draw::all_asked(top) == status_height(props) + approval_height(props) + popup_height(
        props,
    ));
}

proof fn lemma_asked_add(a: Seq<Rows>, b: Seq<Rows>)
    ensures
        draw::all_asked(a + b) == draw::all_asked(a) + draw::all_asked(b),
    decreases b.len(),
{
    if b.len() == 0 {
        assert(a + b =~= a);
    } else {
        lemma_asked_add(a, b.drop_last());
        assert((a + b).drop_last() =~= a + b.drop_last());
    }
}

// -- What the pane tells --------------------------------------------------------------------------------------

/// A line takes as many rows as it needs at the width, and not one more.
pub proof fn law_a_line_takes_the_rows_it_needs(columns: int, width: int)
    requires
        columns > 0,
        width > 0,
    ensures
        rows_for(columns, width) >= 1,
        rows_for(columns, width) * width >= columns,
        (rows_for(columns, width) - 1) * width < columns,
{
    let q = columns / width;
    let r = columns % width;
    assert(columns == q * width + r && 0 <= r < width && q >= 0) by (nonlinear_arith)
        requires
            columns > 0,
            width > 0,
            q == columns / width,
            r == columns % width,
    ;
    if r > 0 {
        assert((q + 1) * width == q * width + width) by (nonlinear_arith);
        assert((q + 1 - 1) * width == q * width);
    } else {
        assert((q - 1) * width == q * width - width) by (nonlinear_arith);
        assert(q >= 1) by (nonlinear_arith)
            requires
                columns == q * width + r,
                r == 0,
                columns > 0,
                width > 0,
                q >= 0,
        ;
    }
}

/// The heights of the parts of the pane: a row for the status where the client is not ready or prompts
/// wait, two for an approval that is pending, and for a popup a row for each offer, up to six, and its
/// frame. The line has one row at least and eight at most.
pub proof fn law_parts_have_their_heights(props: BottomPanePropsView, buffer: Seq<char>, width: int)
    ensures
        status_height(props) == (if props.connection == ConnectionState::Ready
            && props.queued_prompts == 0 {
            0int
        } else {
            1
        }),
        approval_height(props) == (if props.pending_approval is Some {
            2int
        } else {
            0
        }),
        props.completion is None ==> popup_height(props) == 0,
        props.completion matches Some(popup) ==> popup_height(props) == (if popup.filtered.len()
            == 0 {
            0int
        } else if popup.filtered.len() <= 6 {
            2int + popup.filtered.len()
        } else {
            8
        }),
        1 <= composer_height(buffer, width) <= 8,
        buffer.len() == 0 ==> composer_height(buffer, width) == 1,
{
}

/// The pane wants as many rows as its parts take, with three for frame and hint, and five at least.
pub proof fn law_the_pane_wants_room_for_its_parts(props: BottomPanePropsView, width: u16)
    requires
        width >= 5,
    ensures
        ({
            let parts = popup_height(props) + status_height(props) + approval_height(props)
                + composer_height(props.composer_buffer, width - 4) + 3;
            &&& parts >= 5 ==> wanted_height(props, width) == parts
            &&& parts < 5 ==> wanted_height(props, width) == 5
        }),
{
}

/// A part that still has room goes to the row that is being filled; one that has not opens a row.
pub proof fn law_a_row_is_filled_before_the_next(
    parts: Seq<Seq<char>>,
    part: Seq<char>,
    width: int,
)
    ensures
        ({
            let before = laid_line(parts, width);
            let after = laid_line(parts.push(part), width);
            let columns = width::columns_of(part) as int;
            &&& before.used + columns <= width ==> after.full == before.full && after.current
                == before.current + part
            &&& before.used + columns > width && before.current.len() > 0 ==> after.full
                == before.full.push(before.current) && after.current == part
            &&& before.current.len() == 0 ==> after.full == before.full
        }),
{
    assert(parts.push(part).drop_last() =~= parts);
}

/// The cursor stands where the text before it ends.
pub proof fn law_the_cursor_stands_behind_the_text(
    parts: Seq<Seq<char>>,
    width: int,
    byte: int,
    k: int,
)
    requires
        0 <= k <= parts.len(),
    ensures
        place_from(parts, width, byte, k) matches Some(place) ==> exists|n: int|
            k <= n <= parts.len() && #[trigger] bytes_before(parts, n) == byte && place.0
                == laid_line(parts.take(n), width).full.len() && place.1 <= width,
        place_from(parts, width, byte, k) is None ==> forall|n: int|
            k <= n <= parts.len() ==> #[trigger] bytes_before(parts, n) != byte,
    decreases parts.len() - k,
{
    if bytes_before(parts, k) == byte {
        assert(place_from(parts, width, byte, k) is Some);
    } else if k < parts.len() {
        law_the_cursor_stands_behind_the_text(parts, width, byte, k + 1);
    }
}

/// How the client is connected is told in words and in a colour.
pub proof fn law_the_connection_is_told(connection: ConnectionState)
    ensures
        ({
            let look = connection_look(connection);
            match connection {
                ConnectionState::Ready => look.0@ == "ready"@ && look.1 == Tint::Green,
                ConnectionState::Streaming => look.0@ == "working"@ && look.1 == Tint::Cyan,
                ConnectionState::WaitingApproval => look.0@ == "waiting for approval"@ && look.1
                    == Tint::LightYellow,
                ConnectionState::Disconnected => look.0@ == "disconnected"@ && look.1 == Tint::Red,
                ConnectionState::Reconnecting => look.0@ == "reconnecting"@ && look.1
                    == Tint::Yellow,
                _ => look.0@ == "connecting"@ && look.1 == Tint::Yellow,
            }
        }),
        composer_tint(connection) == (match connection {
            ConnectionState::Streaming => Tint::Cyan,
            ConnectionState::WaitingApproval => Tint::LightYellow,
            _ => Tint::DarkGray,
        }),
{
}

/// The status tells how the client is connected, for how long the task has run, how many prompts wait,
/// and in what mode the client is; what is not known is left out.
pub proof fn law_the_status_tells_the_state(props: BottomPanePropsView)
    ensures
        ({
            let spans = status_line_of(props).spans;
            let told = |words: Seq<char>|
                exists|i: int| 0 <= i < spans.len() && (#[trigger] spans[i]).text == words;
            let notes = (if props.task_seconds is Some {
                2int
            } else {
                0
            }) + (if props.queued_prompts > 0 {
                2int
            } else {
                0
            }) + (if props.approval_policy is Some {
                2int
            } else {
                0
            }) + (if props.sandbox_mode is Some {
                2int
            } else {
                0
            });
            &&& spans.len() == 2 + notes
            &&& spans[1].text == connection_look(props.connection).0@
            &&& props.task_seconds matches Some(n) ==> told(text::decimal(n as nat) + "s"@)
            &&& props.queued_prompts > 0 ==> told(
                text::decimal(props.queued_prompts as nat) + " queued"@,
            )
            &&& props.approval_policy matches Some(policy) ==> told(
                "approval: "@ + labels::policy_label_of(policy),
            )
            &&& props.sandbox_mode matches Some(mode) ==> told(
                "sandbox: "@ + labels::sandbox_label_of(mode),
            )
        }),
{
    let spans = status_line_of(props).spans;
    let a: int = if props.task_seconds is Some {
        2
    } else {
        0
    };
    let b: int = if props.queued_prompts > 0 {
        2
    } else {
        0
    };
    let c: int = if props.approval_policy is Some {
        2
    } else {
        0
    };
    if let Some(n) = props.task_seconds {
        assert(spans[3].text == text::decimal(n as nat) + "s"@);
    }
    if props.queued_prompts > 0 {
        assert(spans[3 + a].text == text::decimal(props.queued_prompts as nat) + " queued"@);
    }
    if let Some(policy) = props.approval_policy {
        assert(spans[3 + a + b].text == "approval: "@ + labels::policy_label_of(policy));
    }
    if let Some(mode) = props.sandbox_mode {
        assert(spans[3 + a + b + c].text == "sandbox: "@ + labels::sandbox_label_of(mode));
    }
}

/// An approval that is pending is told with what it would do and its title.
pub proof fn law_a_pending_approval_is_told(approval: PendingApprovalView)
    ensures
        ({
            let lines = pending_lines_of(approval);
            let what = match approval.kind {
                ApprovalKind::CommandExecution => "run command"@,
                ApprovalKind::FileChange => "apply patch"@,
                ApprovalKind::PermissionRequest => "grant permission"@,
                ApprovalKind::RequestUserInput => "answer prompt"@,
            };
            &&& lines.len() == 2
            &&& lines[0].spans[1].text == what
            &&& lines[1].spans[1].text == approval.title
        }),
{
}

/// A notice takes the place of a hint, and a hint that of the usual one, which fits the connection.
pub proof fn law_a_notice_comes_before_a_hint(props: BottomPanePropsView)
    ensures
        props.toast matches Some(toast) ==> hint_words(props) == toast,
        props.toast is None ==> (props.hint matches Some(hint) ==> hint_words(props) == hint),
        props.toast is None && props.hint is None ==> hint_words(props) == (match props.connection {
            ConnectionState::WaitingApproval => "enter to confirm  ·  esc to deny  ·  /quit to exit"@,
            ConnectionState::Streaming => "ctrl+c interrupts  ·  /quit to exit"@,
            _ => "enter  send  ·  shift+enter  newline  ·  ctrl+u  clear  ·  ↑ history  ·  /help"@,
        }),
        hint_line_of(props).spans.len() == 1 && hint_line_of(props).spans[0].text == hint_words(
            props,
        ),
{
}

/// The frame of the line names the selected skill.
pub proof fn law_the_line_names_the_skill(area: Area, props: BottomPanePropsView)
    ensures
        composer_frame(area, props) matches DrawItemView::Frame { area: place, title, border }
            && place == area && border == composer_tint(props.connection) && (props.selected_skill
            is None ==> title.spans.len() == 1) && (props.selected_skill matches Some(skill)
            ==> title.spans.len() == 3 && title.spans[2].text == "["@ + skill + "]"@),
{
}

/// What is typed is drawn inside its place, row by row, each character once and in its order.
pub proof fn law_characters_are_drawn_in_their_place(row: Seq<char>, x: int, right: int, y: u16)
    requires
        0 <= x <= right <= u16::MAX,
    ensures
        ({
            let cells = row_cells(row, x, right, y);
            &&& cells.len() <= row.len()
            &&& forall|i: int|
                0 <= i < cells.len() ==> (#[trigger] cells[i] matches DrawItemView::Glyph {
                    at,
                    symbol,
                    style,
                } && at.y == y && x <= at.x < right && style is None && row.contains(symbol))
            &&& row.len() > 0 && x < right && cell_columns(row[0]) > 0 && x + cell_columns(row[0])
                <= right ==> cells.len() > 0 && cells[0] == cell_of(x, y, row[0]) && cells.skip(1)
                == row_cells(row.drop_first(), x + cell_columns(row[0]), right, y)
        }),
    decreases row.len(),
{
    let cells = row_cells(row, x, right, y);
    if row.len() > 0 && x < right {
        let n = cell_columns(row[0]) as int;
        let rest = row.drop_first();
        if n == 0 {
            law_characters_are_drawn_in_their_place(rest, x, right, y);
            let after = row_cells(rest, x, right, y);
            assert forall|i: int| 0 <= i < cells.len() implies (#[trigger] cells[i]
                matches DrawItemView::Glyph { at, symbol, style } && at.y == y && x <= at.x < right
                && style is None && row.contains(symbol)) by {
                lemma_rest_holds(row, after[i]->symbol);
            }
        } else if x + n <= right {
            law_characters_are_drawn_in_their_place(rest, x + n, right, y);
            let after = row_cells(rest, x + n, right, y);
            assert(cells.skip(1) =~= after);
            assert forall|i: int| 0 <= i < cells.len() implies (#[trigger] cells[i]
                matches DrawItemView::Glyph { at, symbol, style } && at.y == y && x <= at.x < right
                && style is None && row.contains(symbol)) by {
                if i == 0 {
                    assert(row[0] == row.first());
                } else {
                    assert(cells[i] == after[i - 1]);
                    lemma_rest_holds(row, after[i - 1]->symbol);
                }
            }
        }
    }
}

/// What the rest of a row holds the row holds.
proof fn lemma_rest_holds(row: Seq<char>, c: char)
    requires
        row.len() > 0,
    ensures
        row.drop_first().contains(c) ==> row.contains(c),
{
    if row.drop_first().contains(c) {
        let i = choose|i: int| 0 <= i < row.drop_first().len() && row.drop_first()[i] == c;
        assert(row[i + 1] == c);
    }
}

/// The rows in view hold the row of the cursor, are as many as there is room for, and begin with the
/// first where all have room.
pub proof fn law_rows_in_view_hold_the_cursor(total: int, height: int, row: int)
    requires
        0 <= row < total,
        height > 0,
    ensures
        ({
            let window = composer_window(total, height, row);
            &&& 0 <= window.0 <= row < window.1 <= total
            &&& window.1 - window.0 <= height
            &&& total <= height ==> window == (0int, total)
            &&& row < height ==> window.0 == 0
        }),
{
}

/// The mark stands before the first row only.
pub proof fn law_the_mark_stands_before_the_first_row(inner: Area, row: int)
    ensures
        gutter_cells(inner, row).len() == 2,
        gutter_cells(inner, row)[0] matches DrawItemView::Glyph { symbol, .. } && (symbol == '›'
            <==> row == 0) && (row != 0 ==> symbol == ' '),
        gutter_cells(inner, row)[1] matches DrawItemView::Glyph { symbol, .. } && symbol == ' ',
{
}

/// The pane draws what it has from the top: the status, the approval that is pending, the popup, then
/// the line, and the hint below it.
pub proof fn law_the_pane_is_drawn_from_the_top(sections: Seq<Area>, props: BottomPanePropsView)
    ensures
        ({
            let items = pane_items(sections, props).0;
            let status = props.connection != ConnectionState::Ready || props.queued_prompts > 0;
            let n: int = (if status {
                1int
            } else {
                0
            }) + (if props.pending_approval is Some {
                1int
            } else {
                0
            }) + (if popup_height(props) > 0 {
                1int
            } else {
                0
            });
            &&& rows_on_top(props).len() == n
            &&& status ==> items[0] == (DrawItemView::Lines {
                area: sections[0],
                lines: seq![status_line_of(props)],
                wrap: false,
            })
            &&& props.pending_approval matches Some(pending) ==> items[if status {
                1int
            } else {
                0
            }] == (DrawItemView::Lines {
                area: sections[if status {
                    1int
                } else {
                    0
                }],
                lines: pending_lines_of(pending),
                wrap: true,
            })
            &&& items.last() == (DrawItemView::Lines {
                area: sections[n + 1],
                lines: seq![hint_line_of(props)],
                wrap: false,
            })
        }),
{
}

/// An empty line says what may be typed, and the cursor stands at its start; otherwise what was typed is
/// drawn, in a frame either way.
pub proof fn law_an_empty_line_says_what_may_be_typed(
    area: Area,
    props: BottomPanePropsView,
    rows: Seq<Seq<char>>,
    row: int,
    column: int,
)
    ensures
        ({
            let drawn = composer_items(area, props, rows, row, column);
            let inner = draw::inner_of(area);
            let text = text_area_of(inner);
            let room = !draw::is_void(inner) && !draw::is_void(text);
            let words = match props.connection {
                ConnectionState::WaitingApproval => "approve or reject above before sending"@,
                ConnectionState::Streaming => "type to queue; Ctrl+C to interrupt"@,
                _ => "type a prompt, `$` for skills, `/` for commands, Enter to send"@,
            };
            &&& drawn.0[0] == composer_frame(area, props)
            &&& !room ==> drawn.0.len() == 1 && drawn.1 is None
            &&& room && props.composer_buffer.len() == 0 ==> drawn.1 == Some(
                Place { x: text.x, y: text.y },
            ) && (drawn.0.last() matches DrawItemView::Lines { area: place, lines, .. } && place
                == text && lines[0].spans[0].text == words)
            &&& room && props.composer_buffer.len() > 0 ==> drawn.1 == typed_cells(
                text,
                rows,
                row,
                column,
            ).1
        }),
{
}

/// The words stand two columns in, beside the mark.
pub proof fn law_words_stand_beside_the_mark(inner: Area)
    requires
        draw::on_screen(inner),
        inner.width >= 2,
    ensures
        text_area_of(inner).x == inner.x + 2,
        text_area_of(inner).y == inner.y,
        text_area_of(inner).width == inner.width - 2,
        text_area_of(inner).height == inner.height,
{
}

} // verus!
