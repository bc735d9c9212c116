//! What is drawn, and where.
use vstd::prelude::*;

use crate::styled::{SpanStyle, StyledLine, StyledLineView, Tint};
use crate::text;

verus! {

broadcast use text::group_views;

/// A part of the screen.
#[derive(Clone, Copy, Debug, PartialEq, Eq, Structural)]
pub struct Area {
    pub x: u16,
    pub y: u16,
    pub width: u16,
    pub height: u16,
}

/// A place on the screen.
#[derive(Clone, Copy, Debug, PartialEq, Eq, Structural)]
pub struct Place {
    pub x: u16,
    pub y: u16,
}

/// Whether all of an area has coordinates.
pub open spec fn on_screen(area: Area) -> bool {
    area.x + area.width <= u16::MAX && area.y + area.height <= u16::MAX
}

/// Whether an area lies in another.
pub open spec fn lies_in(part: Area, whole: Area) -> bool {
    &&& whole.x <= part.x
    &&& part.x + part.width <= whole.x + whole.width
    &&& whole.y <= part.y
    &&& part.y + part.height <= whole.y + whole.height
}

/// The smaller of two numbers.
#[verifier::allow_in_spec]
pub fn lesser(a: u16, b: u16) -> u16
    returns
        (if a <= b {
            a
        } else {
            b
        }),
{
    if a <= b {
        a
    } else {
        b
    }
}

/// The larger of two numbers.
#[verifier::allow_in_spec]
pub fn greater(a: u16, b: u16) -> u16
    returns
        (if a >= b {
            a
        } else {
            b
        }),
{
    if a >= b {
        a
    } else {
        b
    }
}

/// A number less another, and not below zero.
#[verifier::allow_in_spec]
pub fn less(a: u16, b: u16) -> u16
    returns
        (if a >= b {
            (a - b) as u16
        } else {
            0u16
        }),
{
    if a >= b {
        a - b
    } else {
        0
    }
}

/// What a frame leaves of an area.
#[verifier::allow_in_spec]
pub fn inner_of(area: Area) -> Area
    returns
        (Area {
            x: if area.x < u16::MAX && area.width > 0 {
                (area.x + 1) as u16
            } else {
                area.x
            },
            y: if area.y < u16::MAX && area.height > 0 {
                (area.y + 1) as u16
            } else {
                area.y
            },
            width: less(area.width, 2),
            height: less(area.height, 2),
        }),
{
    Area {
        x: if area.x < u16::MAX && area.width > 0 {
            area.x + 1
        } else {
            area.x
        },
        y: if area.y < u16::MAX && area.height > 0 {
            area.y + 1
        } else {
            area.y
        },
        width: less(area.width, 2),
        height: less(area.height, 2),
    }
}

/// Whether an area has no cells.
#[verifier::allow_in_spec]
pub fn is_void(area: Area) -> bool
    returns
        (area.width == 0 || area.height == 0),
{
    area.width == 0 || area.height == 0
}

/// The middle of an area: of the size asked for where there is room for it beside a margin of one
/// cell, else as large as the margin allows, and of at least one cell.
pub open spec fn middle_of(area: Area, width: u16, height: u16) -> Area {
    let w = middle_size(area.width, width, 20);
    let h = middle_size(area.height, height, 6);
    Area {
        x: (area.x + less(area.width, w) / 2) as u16,
        y: (area.y + less(area.height, h) / 2) as u16,
        width: w,
        height: h,
    }
}

/// A size out of those asked for, there and least.
#[verifier::allow_in_spec]
pub fn middle_size(room: u16, wanted: u16, least: u16) -> u16
    returns
        (greater(
            lesser(wanted, greater(less(room, 2), 1)),
            lesser(greater(less(room, 2), 1), least),
        )),
{
    let most: u16 = greater(less(room, 2), 1);
    greater(lesser(wanted, most), lesser(most, least))
}

/// The middle of an area.
pub fn centered_rect(area: Area, width: u16, height: u16) -> (middle: Area)
    requires
        on_screen(area),
    ensures
        middle == middle_of(area, width, height),
{
    let w: u16 = middle_size(area.width, width, 20);
    let h: u16 = middle_size(area.height, height, 6);
    Area {
        x: area.x + less(area.width, w) / 2,
        y: area.y + less(area.height, h) / 2,
        width: w,
        height: h,
    }
}

// -- Sections --------------------------------------------------------------------------------------

/// How many rows a section asks for.
#[derive(Clone, Copy, Debug, PartialEq, Eq, Structural)]
pub enum Rows {
    Exactly(u16),
    AtLeast(u16),
}

/// The number in a request for rows.
pub open spec fn rows_asked(rows: Rows) -> u16 {
    match rows {
        Rows::Exactly(n) => n,
        Rows::AtLeast(n) => n,
    }
}

/// The rows that sections ask for together.
pub open spec fn all_asked(wanted: Seq<Rows>) -> int
    decreases wanted.len(),
{
    if wanted.len() == 0 {
        0
    } else {
        all_asked(wanted.drop_last()) + rows_asked(wanted.last())
    }
}

/// Whether an area has the rows that sections ask for, with one section at most that takes more.
pub open spec fn rows_fit(area: Area, wanted: Seq<Rows>) -> bool {
    &&& all_asked(wanted) <= area.height
    &&& forall|i: int, j: int|
        0 <= i < j < wanted.len() ==> !((#[trigger] wanted[i]) is AtLeast && (
        #[trigger] wanted[j]) is AtLeast)
}

/// The rows that a section gets in an area where all fit: what it asks for, and what is left over
/// where it takes more.
pub open spec fn rows_given(area: Area, wanted: Seq<Rows>, i: int) -> int {
    match wanted[i] {
        Rows::Exactly(n) => n as int,
        Rows::AtLeast(n) => n + area.height - all_asked(wanted),
    }
}

/// The rows above a section.
pub open spec fn rows_above(area: Area, wanted: Seq<Rows>, i: int) -> int
    decreases i,
{
    if i <= 0 {
        0
    } else {
        rows_above(area, wanted, i - 1) + rows_given(area, wanted, i - 1)
    }
}

/// The sections of an area where all fit, from the top down.
pub open spec fn stacked(area: Area, wanted: Seq<Rows>) -> Seq<Area> {
    Seq::new(
        wanted.len(),
        |i: int|
            Area {
                x: area.x,
                y: (area.y + rows_above(area, wanted, i)) as u16,
                width: area.width,
                height: rows_given(area, wanted, i) as u16,
            },
    )
}

/// The most sections that an area is split into.
pub const MOST_SECTIONS: usize = 100;

/// The rows of so many of the first sections together.
pub open spec fn heights_above(sections: Seq<Area>, i: int) -> int
    decreases i,
{
    if i <= 0 {
        0
    } else {
        heights_above(sections, i - 1) + sections[i - 1].height
    }
}

/// The rows that the sections that may take more ask for together.
pub open spec fn least_asked(wanted: Seq<Rows>) -> int
    decreases wanted.len(),
{
    if wanted.len() == 0 {
        0
    } else {
        least_asked(wanted.drop_last()) + match wanted.last() {
            Rows::Exactly(_) => 0,
            Rows::AtLeast(n) => n as int,
        }
    }
}

/// How sections give way where more rows are asked for than there are: together they fill the area,
/// none has more than it asks for, and those that ask for rows exactly give way first.
pub open spec fn gives_way(area: Area, wanted: Seq<Rows>, sections: Seq<Area>) -> bool {
    &&& heights_above(sections, sections.len() as int) == area.height
    &&& forall|i: int|
        0 <= i < sections.len() ==> (#[trigger] sections[i]).height <= rows_asked(wanted[i])
    &&& least_asked(wanted) <= area.height ==> forall|i: int|
        0 <= i < sections.len() && wanted[i] is AtLeast ==> (#[trigger] sections[i]).height
            == rows_asked(wanted[i])
    &&& least_asked(wanted) >= area.height ==> forall|i: int|
        0 <= i < sections.len() && wanted[i] is Exactly ==> (#[trigger] sections[i]).height == 0
}

/// What a split of an area into sections may come to: one section for each request, over the whole
/// width of the area and inside it, one below the other from the top without gaps; those of
/// `stacked` where all fit, and those of `gives_way` where there are too few rows.
pub open spec fn may_split(area: Area, wanted: Seq<Rows>, sections: Seq<Area>) -> bool {
    &&& sections.len() == wanted.len()
    &&& forall|i: int|
        0 <= i < sections.len() ==> lies_in(#[trigger] sections[i], area) && sections[i].x == area.x
            && sections[i].width == area.width
    &&& forall|i: int|
        0 <= i < sections.len() ==> (#[trigger] sections[i]).y == area.y + heights_above(sections, i)
    &&& all_asked(wanted) > area.height ==> gives_way(area, wanted, sections)
    &&& rows_fit(area, wanted) ==> sections == stacked(area, wanted)
}

/// `ratatui::layout::Layout::split` of an area from the top down, with no space between the
/// sections. The solver behind it is bound to keep every section inside the area, and no section
/// ends before it begins. All else it weighs. Heaviest is that the first section begins at the top
/// and that nothing lies between two sections; then that sections with a least number of rows have
/// it; with a tenth of that weight, that sections with an exact number have it; and with far less,
/// that the area is filled. So the sections stand one below the other from the top without gaps.
/// Where the rows asked for are there, and one section at most takes more, every section has
/// exactly the rows that it asks for, and the one that takes more has what is left over. Where they
/// are not, the sections fill the area, none has more than it asks for, and those with an exact
/// number give way before those with a least number. Which of two with an exact number gives way to
/// the other, or of two with a least number, and how two that take more share what is left over, is
/// a matter of how the solver goes about it, and is not stated. The weights of up to a hundred
/// sections never add up to a heavier one.
#[verifier::external_body]
pub(crate) fn split_rows(area: Area, wanted: &Vec<Rows>) -> (sections: Vec<Area>)
    requires
        on_screen(area),
        wanted@.len() <= MOST_SECTIONS,
        forall|i: int| 0 <= i < wanted@.len() ==> rows_asked(#[trigger] wanted@[i]) <= i16::MAX,
    ensures
        may_split(area, wanted@, sections@),
{
    let constraints = wanted.iter().map(|rows| match rows {
        Rows::Exactly(n) => ratatui::layout::Constraint::Length(*n),
        Rows::AtLeast(n) => ratatui::layout::Constraint::Min(*n),
    });
    let (x, y, width, height) = (area.x, area.y, area.width, area.height);
    let whole = ratatui::layout::Rect { x, y, width, height };
    let split = ratatui::layout::Layout::vertical(constraints).split(whole);
    split.iter().map(|r| Area { x: r.x, y: r.y, width: r.width, height: r.height }).collect()
}

// -- What is drawn ---------------------------------------------------------------------------------

/// Something that is drawn. `Prose` is text that is broken where it does not fit; `Glyph` is one
/// character in one cell, in the look that is given or the one that is there.
#[derive(Debug, PartialEq)]
pub enum DrawItem {
    Clear { area: Area },
    Frame { area: Area, title: StyledLine, border: Tint },
    Lines { area: Area, lines: Vec<StyledLine>, wrap: bool },
    Prose { area: Area, words: String },
    Glyph { at: Place, symbol: char, style: Option<SpanStyle> },
}

/// The model of `DrawItem`.
#[verifier::ext_equal]
pub enum DrawItemView {
    Clear { area: Area },
    Frame { area: Area, title: StyledLineView, border: Tint },
    Lines { area: Area, lines: Seq<StyledLineView>, wrap: bool },
    Prose { area: Area, words: Seq<char> },
    Glyph { at: Place, symbol: char, style: Option<SpanStyle> },
}

impl View for DrawItem {
    type V = DrawItemView;

    open spec fn view(&self) -> DrawItemView {
        match *self {
            DrawItem::Clear { area } => DrawItemView::Clear { area },
            DrawItem::Frame { area, title, border } => DrawItemView::Frame {
                area,
                title: title@,
                border,
            },
            DrawItem::Lines { area, lines, wrap } => DrawItemView::Lines {
                area,
                lines: text::views(lines@),
                wrap,
            },
            DrawItem::Prose { area, words } => DrawItemView::Prose { area, words: words@ },
            DrawItem::Glyph { at, symbol, style } => DrawItemView::Glyph { at, symbol, style },
        }
    }
}

impl Clone for DrawItem {
    fn clone(&self) -> (copy: Self)
        ensures
            copy@ == self@,
    {
        match self {
            DrawItem::Clear { area } => DrawItem::Clear { area: *area },
            DrawItem::Frame { area, title, border } => DrawItem::Frame {
                area: *area,
                title: title.clone(),
                border: *border,
            },
            DrawItem::Lines { area, lines, wrap } => DrawItem::Lines {
                area: *area,
                lines: text::copy_all(lines),
                wrap: *wrap,
            },
            DrawItem::Prose { area, words } => DrawItem::Prose {
                area: *area,
                words: words.clone(),
            },
            DrawItem::Glyph { at, symbol, style } => DrawItem::Glyph {
                at: *at,
                symbol: *symbol,
                style: *style,
            },
        }
    }
}

/// However an area is split, its sections lie in it one below the other.
pub proof fn law_sections_do_not_overlap(
    area: Area,
    wanted: Seq<Rows>,
    sections: Seq<Area>,
    i: int,
    j: int,
)
    requires
        may_split(area, wanted, sections),
        0 <= i < j < sections.len(),
    ensures
        sections[i].y + sections[i].height <= sections[j].y,
        lies_in(sections[i], area),
        lies_in(sections[j], area),
{
    lemma_heights_above(sections, i + 1, j);
}

proof fn lemma_heights_above(sections: Seq<Area>, i: int, j: int)
    requires
        0 <= i <= j,
    ensures
        heights_above(sections, i) <= heights_above(sections, j),
    decreases j,
{
    if i < j {
        lemma_heights_above(sections, i, j - 1);
    }
}

/// The two sections of an area of which the first asks for rows exactly and the second takes all
/// others: where there are too few, the first gives way.
pub open spec fn pair_of(area: Area, exact: u16, least: u16) -> Seq<Area> {
    let second: int = if exact + least <= area.height {
        area.height - exact
    } else if least <= area.height {
        least as int
    } else {
        area.height as int
    };
    let first = area.height - second;
    seq![
        Area { height: first as u16, ..area },
        Area { y: (area.y + first) as u16, height: second as u16, ..area },
    ]
}

/// An area is split in only one way into a section that asks for rows exactly and one below it that
/// takes all others.
pub proof fn law_a_pair_is_split_in_one_way(
    area: Area,
    exact: u16,
    least: u16,
    sections: Seq<Area>,
)
    requires
        on_screen(area),
        may_split(area, seq![Rows::Exactly(exact), Rows::AtLeast(least)], sections),
    ensures
        sections == pair_of(area, exact, least),
{
    let wanted = seq![Rows::Exactly(exact), Rows::AtLeast(least)];
    assert(wanted.drop_last() =~= seq![Rows::Exactly(exact)]);
    assert(seq![Rows::Exactly(exact)].drop_last() =~= Seq::<Rows>::empty());
    reveal_with_fuel(all_asked, 3);
    reveal_with_fuel(least_asked, 3);
    reveal_with_fuel(heights_above, 3);
    reveal_with_fuel(rows_above, 3);
    assert(all_asked(wanted) == exact + least);
    assert(least_asked(wanted) == least);
    assert(lies_in(sections[0], area) && lies_in(sections[1], area));
    assert(wanted[0] is Exactly && wanted[1] is AtLeast);
    if exact + least <= area.height {
        assert(rows_fit(area, wanted));
        assert(sections =~= pair_of(area, exact, least));
    } else {
        assert(heights_above(sections, 2) == sections[0].height + sections[1].height);
        assert(sections =~= pair_of(area, exact, least));
    }
}

/// Where all fit, the sections of `stacked` are what an area may be split into.
pub proof fn law_stacked_sections_are_a_split(area: Area, wanted: Seq<Rows>)
    requires
        on_screen(area),
        rows_fit(area, wanted),
    ensures
        may_split(area, wanted, stacked(area, wanted)),
{
    let sections = stacked(area, wanted);
    assert forall|i: int| 0 <= i < sections.len() implies lies_in(#[trigger] sections[i], area)
        && sections[i].x == area.x && sections[i].width == area.width && sections[i].y == area.y
        + heights_above(sections, i) by {
        lemma_rows_above(area, wanted, wanted.len() as int);
        lemma_rows_above(area, wanted, i);
        lemma_rows_above(area, wanted, i + 1);
        lemma_rows_above_grow(area, wanted, i + 1, wanted.len() as int);
        lemma_stacked_heights(area, wanted, i);
    }
}

proof fn lemma_stacked_heights(area: Area, wanted: Seq<Rows>, i: int)
    requires
        rows_fit(area, wanted),
        0 <= i <= wanted.len(),
    ensures
        heights_above(stacked(area, wanted), i) == rows_above(area, wanted, i),
    decreases i,
{
    if i > 0 {
        lemma_stacked_heights(area, wanted, i - 1);
        lemma_rows_above(area, wanted, i - 1);
        lemma_rows_above(area, wanted, i);
    }
}

proof fn lemma_rows_above_grow(area: Area, wanted: Seq<Rows>, i: int, j: int)
    requires
        all_asked(wanted) <= area.height,
        0 <= i <= j <= wanted.len(),
    ensures
        rows_above(area, wanted, i) <= rows_above(area, wanted, j),
    decreases j,
{
    if i < j {
        lemma_rows_above_grow(area, wanted, i, j - 1);
    }
}

proof fn lemma_rows_above(area: Area, wanted: Seq<Rows>, i: int)
    requires
        rows_fit(area, wanted),
        0 <= i <= wanted.len(),
    ensures
        0 <= rows_above(area, wanted, i) <= area.height,
        rows_above(area, wanted, i) == all_asked(wanted.take(i)) || rows_above(area, wanted, i)
            == all_asked(wanted.take(i)) + area.height - all_asked(wanted),
        (forall|k: int| 0 <= k < i ==> (#[trigger] wanted[k]) is Exactly) ==> rows_above(
            area,
            wanted,
            i,
        ) == all_asked(wanted.take(i)),
    decreases i,
{
    lemma_asked_part(wanted, i);
    if i > 0 {
        lemma_rows_above(area, wanted, i - 1);
        assert(wanted.take(i).drop_last() =~= wanted.take(i - 1));
        assert(wanted.take(i).last() == wanted[i - 1]);
        if wanted[i - 1] is AtLeast {
            assert forall|k: int| 0 <= k < i - 1 implies (#[trigger] wanted[k]) is Exactly by {
                assert(!(wanted[k] is AtLeast && wanted[i - 1] is AtLeast));
            }
        }
    }
}

proof fn lemma_asked_part(wanted: Seq<Rows>, i: int)
    requires
        0 <= i <= wanted.len(),
    ensures
        0 <= all_asked(wanted.take(i)) <= all_asked(wanted),
    decreases wanted.len(),
{
    if i == wanted.len() {
        assert(wanted.take(i) =~= wanted);
        if i > 0 {
            lemma_asked_part(wanted.drop_last(), i - 1);
        }
    } else {
        lemma_asked_part(wanted.drop_last(), i);
        assert(wanted.drop_last().take(i) =~= wanted.take(i));
    }
}

/// What lies in the middle lies on the area, leaves a margin where there is room for one, and is as
/// large as was wanted where that has room.
pub proof fn law_the_middle_lies_on_the_area(area: Area, width: u16, height: u16)
    requires
        area.width >= 1 && area.height >= 1,
        on_screen(area),
    ensures
        ({
            let middle = middle_of(area, width, height);
            let left = middle.x - area.x;
            let right = area.x + area.width - (middle.x + middle.width);
            let above = middle.y - area.y;
            let below = area.y + area.height - (middle.y + middle.height);
            &&& lies_in(middle, area)
            &&& 20 <= width <= area.width - 2 ==> middle.width == width
            &&& 6 <= height <= area.height - 2 ==> middle.height == height
            &&& left <= right <= left + 1
            &&& above <= below <= above + 1
            &&& area.width > 2 ==> middle.width <= area.width - 2
            &&& area.height > 2 ==> middle.height <= area.height - 2
        }),
{
}

/// The inside of a frame is what one column and one row on each side leave.
pub proof fn law_a_frame_takes_one_on_each_side(area: Area)
    requires
        on_screen(area),
        area.width >= 2,
        area.height >= 2,
    ensures
        ({
            let inner = inner_of(area);
            &&& inner.x == area.x + 1 && inner.y == area.y + 1
            &&& inner.width == area.width - 2 && inner.height == area.height - 2
            &&& lies_in(inner, area)
        }),
{
}

/// An area is void exactly where it holds no cell.
pub proof fn law_a_void_area_holds_no_cell(area: Area)
    ensures
        is_void(area) <==> area.width == 0 || area.height == 0,
{
}

/// Where all have room, a section that asks for so many rows gets them, and one that asks for at least
/// so many gets all that is left; the sections fill the area.
pub proof fn law_what_is_left_goes_to_the_one_that_takes_it(
    area: Area,
    top: u16,
    least: u16,
    foot: u16,
)
    requires
        on_screen(area),
        top + least + foot <= area.height,
    ensures
        ({
            let wanted = seq![Rows::Exactly(top), Rows::AtLeast(least), Rows::Exactly(foot)];
            let parts = stacked(area, wanted);
            &&& parts.len() == 3
            &&& parts[0].height == top && parts[0].y == area.y
            &&& parts[1].height == area.height - top - foot && parts[1].y == area.y + top
            &&& parts[2].height == foot && parts[2].y + foot == area.y + area.height
            &&& parts[0].width == area.width && parts[1].width == area.width && parts[2].width
                == area.width
        }),
{
    let a = Rows::Exactly(top);
    let b = Rows::AtLeast(least);
    let c = Rows::Exactly(foot);
    let wanted = seq![a, b, c];
    assert(wanted.drop_last() =~= seq![a, b]);
    assert(seq![a, b].drop_last() =~= seq![a]);
    assert(seq![a].drop_last() =~= Seq::<Rows>::empty());
    reveal_with_fuel(all_asked, 4);
    reveal_with_fuel(rows_above, 4);
    assert(all_asked(wanted) == top + least + foot);
}

} // verus!
