//! What is drawn on the full screen.
use vstd::prelude::*;

use crate::artifacts::{ArtifactFilePayload, ArtifactFilePayloadView};
use crate::cursor;
use crate::draw;
use crate::draw::{Area, DrawItem, DrawItemView, Rows};
use crate::fullscreen::content;
use crate::fullscreen::pickers;
use crate::fullscreen::state::{
    ApprovalOverlayState, ArtifactViewerState, ArtifactViewerStateView, FullscreenUiState,
    FullscreenUiStateView, OverlayState, OverlayStateView, StatusToast, StatusToastView,
    ToastLevel,
};
use crate::skills::{SkillDescriptor, SkillDescriptorView};
use crate::styled;
use crate::styled::{StyledLine, StyledLineView, Tint};
use crate::text;
use crate::ui::{AppState, AppStateView};
use crate::wrapping;

verus! {

broadcast use text::group_views;

// -- Frames ----------------------------------------------------------------------------------------

/// The title of a frame.
pub open spec fn frame_title(title: Seq<char>, tint: Tint) -> StyledLineView {
    StyledLineView { style: styled::bold_tinted(tint), ..styled::raw_line_of(title) }
}

/// A frame.
pub open spec fn frame_of(area: Area, title: Seq<char>, tint: Tint) -> DrawItemView {
    DrawItemView::Frame { area, title: frame_title(title, tint), border: tint }
}

/// Lines in an area that has cells.
pub open spec fn lines_in(area: Area, lines: Seq<Seq<char>>) -> Seq<DrawItemView> {
    if draw::is_void(area) {
        Seq::empty()
    } else {
        seq![DrawItemView::Prose { area, words: text::join_of(lines, "\n"@) }]
    }
}

/// A frame with lines in it.
pub open spec fn panel_of(area: Area, title: Seq<char>, lines: Seq<Seq<char>>, tint: Tint) -> Seq<
    DrawItemView,
> {
    seq![frame_of(area, title, tint)] + lines_in(draw::inner_of(area), lines)
}

/// A frame over what was there.
pub open spec fn popup_frame(area: Area, title: Seq<char>, tint: Tint) -> Seq<DrawItemView> {
    seq![DrawItemView::Clear { area }, frame_of(area, title, tint)]
}

/// A frame with lines in it, over what was there.
pub open spec fn popup_of(area: Area, title: Seq<char>, lines: Seq<Seq<char>>, tint: Tint) -> Seq<
    DrawItemView,
> {
    popup_frame(area, title, tint) + lines_in(draw::inner_of(area), lines)
}

fn push_frame(items: &mut Vec<DrawItem>, area: Area, title: &str, tint: Tint)
    ensures
        text::views(final(items)@) == text::views(old(items)@) + seq![frame_of(area, title@, tint)],
{
    let raw: StyledLine = styled::raw_line(title);
    let title: StyledLine = StyledLine { spans: raw.spans, style: styled::bold_tinted(tint) };
    items.push(DrawItem::Frame { area, title, border: tint });
    assert(text::views(items@) =~= text::views(old(items)@) + seq![items@.last()@]);
}

/// Draws lines in an area, where it has cells.
pub fn render_lines(items: &mut Vec<DrawItem>, area: Area, lines: &Vec<String>)
    ensures
        text::views(final(items)@) == text::views(old(items)@) + lines_in(
            area,
            text::views(lines@),
        ),
{
    if draw::is_void(area) {
        assert(text::views(items@) =~= text::views(old(items)@) + Seq::<DrawItemView>::empty());
        return ;
    }
    items.push(DrawItem::Prose { area, words: text::join(lines, "\n") });
    assert(text::views(items@) =~= text::views(old(items)@) + lines_in(area, text::views(lines@)));
}

/// Draws a frame with lines in it.
pub fn render_panel(items: &mut Vec<DrawItem>, area: Area, title: &str, lines: &Vec<String>, tint: Tint)
    ensures
        text::views(final(items)@) == text::views(old(items)@) + panel_of(
            area,
            title@,
            text::views(lines@),
            tint,
        ),
{
    push_frame(items, area, title, tint);
    render_lines(items, draw::inner_of(area), lines);
    assert(text::views(items@) =~= text::views(old(items)@) + panel_of(
        area,
        title@,
        text::views(lines@),
        tint,
    ));
}

/// Draws a frame over what was there.
pub fn popup_inner(items: &mut Vec<DrawItem>, area: Area, title: &str, tint: Tint) -> (inner: Area)
    ensures
        inner == draw::inner_of(area),
        text::views(final(items)@) == text::views(old(items)@) + popup_frame(area, title@, tint),
{
    items.push(DrawItem::Clear { area });
    push_frame(items, area, title, tint);
    assert(text::views(items@) =~= text::views(old(items)@) + popup_frame(area, title@, tint));
    draw::inner_of(area)
}

/// Draws a frame with lines in it, over what was there.
pub fn render_popup(items: &mut Vec<DrawItem>, area: Area, title: &str, lines: &Vec<String>, tint: Tint)
    ensures
        text::views(final(items)@) == text::views(old(items)@) + popup_of(
            area,
            title@,
            text::views(lines@),
            tint,
        ),
{
    let inner: Area = popup_inner(items, area, title, tint);
    render_lines(items, inner, lines);
    assert(text::views(items@) =~= text::views(old(items)@) + popup_of(
        area,
        title@,
        text::views(lines@),
        tint,
    ));
}

// -- The notice in the corner ----------------------------------------------------------------------

/// The length of the longest line.
pub open spec fn longest(lines: Seq<Seq<char>>) -> int
    decreases lines.len(),
{
    if lines.len() == 0 {
        0
    } else {
        let rest = longest(lines.drop_last());
        let last = lines.last().len() as int;
        if rest > last {
            rest
        } else {
            last
        }
    }
}

fn longest_line(lines: &Vec<String>) -> (n: usize)
    ensures
        n == longest(text::views(lines@)),
{
    let ghost all = text::views(lines@);
    let mut n: usize = 0;
    let mut i: usize = 0;
    assert(all.take(0) =~= Seq::<Seq<char>>::empty());
    while i < lines.len()
        invariant
            i <= lines@.len(),
            all == text::views(lines@),
            n == longest(all.take(i as int)),
        decreases lines@.len() - i,
    {
        assert(all.take(i + 1).drop_last() =~= all.take(i as int));
        assert(all.take(i + 1).last() == lines@[i as int]@);
        let count: usize = text::chars_of(lines[i].as_str()).len();
        if count >= n {
            n = count;
        }
        i = i + 1;
    }
    assert(all.take(all.len() as int) =~= all);
    n
}

/// The columns that a notice may take.
pub open spec fn toast_room(area: Area) -> int {
    let room = if area.width - 4 < 40 {
        area.width - 4
    } else {
        40
    };
    if room > 12 {
        room
    } else {
        12
    }
}

/// The lines of a notice.
pub open spec fn toast_lines(area: Area, words: Seq<char>) -> Seq<Seq<char>> {
    wrapping::wrapped(words, toast_room(area) - 2)
}

/// Where a notice stands: at the bottom on the right, one cell from the edges.
pub open spec fn toast_area(area: Area, lines: Seq<Seq<char>>) -> Area {
    let content = cursor::least(longest(lines), toast_room(area));
    let width = cursor::least(content + 2, area.width - 2);
    let height = cursor::least(lines.len() as int + 2, area.height - 2);
    Area {
        x: (area.width - (width + 1)) as u16,
        y: (area.height - (height + 1)) as u16,
        width: width as u16,
        height: height as u16,
    }
}

/// The title and the colour of a notice.
#[verifier::allow_in_spec]
pub fn toast_look(level: ToastLevel) -> (&'static str, Tint)
    returns
        (match level {
            ToastLevel::Info => ("Status", Tint::Cyan),
            ToastLevel::Warning => ("Warning", Tint::Yellow),
            ToastLevel::Error => ("Error", Tint::Red),
        }),
{
    match level {
        ToastLevel::Info => ("Status", Tint::Cyan),
        ToastLevel::Warning => ("Warning", Tint::Yellow),
        ToastLevel::Error => ("Error", Tint::Red),
    }
}

/// A notice, where there is one and the screen has room for it.
pub open spec fn toast_items(area: Area, toast: Option<StatusToastView>) -> Seq<DrawItemView> {
    match toast {
        Some(toast) => if area.width <= 4 || area.height <= 4 {
            Seq::empty()
        } else {
            let lines = toast_lines(area, toast.text);
            let look = toast_look(toast.level);
            popup_of(toast_area(area, lines), look.0@, lines, look.1)
        },
        None => Seq::empty(),
    }
}

fn place_toast(area: Area, lines: &Vec<String>) -> (place: Area)
    requires
        area.width > 4,
        area.height > 4,
    ensures
        place == toast_area(area, text::views(lines@)),
{
    let room: usize = toast_columns(area);
    let content: usize = cursor::min(longest_line(lines), room);
    let w: usize = cursor::min(content + 2, (area.width - 2) as usize);
    let n: usize = lines.len();
    let most: usize = (area.height - 2) as usize;
    let h: usize = if n >= most {
        most
    } else {
        cursor::min(n + 2, most)
    };
    let width: u16 = w as u16;
    let height: u16 = h as u16;
    Area { x: area.width - (width + 1), y: area.height - (height + 1), width, height }
}

fn toast_columns(area: Area) -> (n: usize)
    requires
        area.width > 4,
    ensures
        n == toast_room(area),
        12 <= n <= 40,
{
    let room: u16 = area.width - 4;
    if room >= 40 {
        40
    } else if room > 12 {
        room as usize
    } else {
        12
    }
}

/// Draws a notice.
pub fn render_status_toast(items: &mut Vec<DrawItem>, area: Area, toast: &Option<StatusToast>)
    ensures
        text::views(final(items)@) == text::views(old(items)@) + toast_items(
            area,
            text::opt_view(*toast),
        ),
{
    if let Some(toast) = toast {
        if area.width > 4 && area.height > 4 {
            let room: usize = toast_columns(area);
            let lines: Vec<String> = wrapping::wrap_text(toast.text.as_str(), room - 2);
            let place: Area = place_toast(area, &lines);
            let (title, tint) = toast_look(toast.level);
            render_popup(items, place, title, &lines, tint);
            return ;
        }
    }
    assert(text::views(items@) =~= text::views(old(items)@) + Seq::<DrawItemView>::empty());
}

/// A notice lies on the screen.
pub proof fn law_toast_lies_on_the_screen(area: Area, words: Seq<char>)
    requires
        area.width > 4,
        area.height > 4,
    ensures
        draw::lies_in(
            toast_area(area, toast_lines(area, words)),
            (Area { x: 0, y: 0, ..area }),
        ),
        toast_area(area, toast_lines(area, words)).width >= 2,
        toast_area(area, toast_lines(area, words)).height >= 2,
{
    lemma_longest(toast_lines(area, words));
}

proof fn lemma_longest(lines: Seq<Seq<char>>)
    ensures
        longest(lines) >= 0,
    decreases lines.len(),
{
    if lines.len() > 0 {
        lemma_longest(lines.drop_last());
    }
}

// -- What lies over the transcript -----------------------------------------------------------------

/// At most so many of the first lines.
pub open spec fn firsts(lines: Seq<Seq<char>>, n: int) -> Seq<Seq<char>> {
    lines.take(cursor::least(n, lines.len() as int))
}

/// So many lines from some line on, or the last ones.
pub open spec fn lines_from(lines: Seq<Seq<char>>, scroll: int, height: int) -> Seq<Seq<char>> {
    let most = if lines.len() > height {
        lines.len() - height
    } else {
        0
    };
    firsts(lines.skip(cursor::least(scroll, most)), height)
}

/// The rows that a list asks for: two above it, and three below.
pub open spec fn list_sections() -> Seq<Rows> {
    seq![Rows::Exactly(2), Rows::AtLeast(1), Rows::Exactly(3)]
}

/// The rows that an artifact asks for: three above its file.
pub open spec fn viewer_sections() -> Seq<Rows> {
    seq![Rows::Exactly(3), Rows::AtLeast(1)]
}

/// A list with what stands above and below it.
pub open spec fn list_items(
    sections: Seq<Area>,
    filter: Seq<char>,
    hint: Seq<char>,
    rows: Seq<Seq<char>>,
    selected: int,
    detail: Seq<Seq<char>>,
) -> Seq<DrawItemView> {
    lines_in(sections[0], content::list_head_of(filter, rows.len() as int, hint)) + lines_in(
        sections[1],
        content::list_rows_of(rows, sections[1].height as int, selected),
    ) + lines_in(
        sections[2],
        firsts(
            wrapping::all_wrapped(detail, sections[2].width as int),
            sections[2].height as int,
        ),
    )
}

/// The file that an artifact shows: the selected one, or the first.
pub open spec fn shown_file(viewer: ArtifactViewerStateView) -> ArtifactFilePayloadView {
    if viewer.selected_file < viewer.payload.files.len() {
        viewer.payload.files[viewer.selected_file as int]
    } else {
        viewer.payload.files[0]
    }
}

/// The file of an artifact with what stands above it.
pub open spec fn viewer_items(sections: Seq<Area>, viewer: ArtifactViewerStateView) -> Seq<
    DrawItemView,
> {
    let file = shown_file(viewer);
    lines_in(sections[0], content::viewer_head_of(viewer)) + lines_in(
        sections[1],
        lines_from(
            wrapping::all_wrapped(
                content::file_lines_of(file, content::pretty_of(file)),
                sections[1].width as int,
            ),
            viewer.scroll as int,
            sections[1].height as int,
        ),
    )
}

/// The lines of an artifact without files.
pub open spec fn no_files() -> Seq<Seq<char>> {
    seq![
        "No readable files | Esc close"@,
        Seq::<char>::empty(),
        "Selected artifact has no readable files."@,
    ]
}

/// Where something that lies over the transcript stands.
pub open spec fn overlay_area(area: Area, overlay: OverlayStateView) -> Area {
    match overlay {
        OverlayStateView::Help => draw::middle_of(area, 72, 12),
        OverlayStateView::Skills(_) => draw::middle_of(area, 88, 16),
        OverlayStateView::Threads(_) => draw::middle_of(area, 88, 16),
        OverlayStateView::Artifacts(_) => draw::middle_of(area, 88, 16),
        OverlayStateView::ArtifactViewer(_) => draw::middle_of(area, 92, 20),
        OverlayStateView::Approval(asked) => draw::middle_of(
            area,
            84,
            if asked is Decision {
                12
            } else {
                14
            },
        ),
    }
}

/// The rows that something that lies over the transcript asks for inside its frame.
pub open spec fn overlay_sections(overlay: OverlayStateView) -> Seq<Rows> {
    match overlay {
        OverlayStateView::Skills(_) => list_sections(),
        OverlayStateView::Threads(_) => list_sections(),
        OverlayStateView::Artifacts(_) => list_sections(),
        OverlayStateView::ArtifactViewer(viewer) => if viewer.payload.files.len() > 0 {
            viewer_sections()
        } else {
            Seq::empty()
        },
        _ => Seq::empty(),
    }
}

/// The frame of something that lies over the transcript.
pub open spec fn overlay_frame(area: Area, overlay: OverlayStateView) -> Seq<DrawItemView> {
    let place = overlay_area(area, overlay);
    match overlay {
        OverlayStateView::Help => popup_frame(place, "Help"@, Tint::Magenta),
        OverlayStateView::Skills(_) => popup_frame(place, "Skills"@, Tint::Yellow),
        OverlayStateView::Threads(_) => popup_frame(place, "Threads"@, Tint::Cyan),
        OverlayStateView::Artifacts(_) => popup_frame(place, "Artifacts"@, Tint::Green),
        OverlayStateView::ArtifactViewer(viewer) => popup_frame(
            place,
            viewer.payload.manifest.title,
            Tint::LightCyan,
        ),
        OverlayStateView::Approval(_) => popup_frame(place, "Approval"@, Tint::Red),
    }
}

/// What stands inside the frame.
pub open spec fn overlay_body(inner: Area, sections: Seq<Area>, overlay: OverlayStateView) -> Seq<
    DrawItemView,
> {
    if draw::is_void(inner) {
        Seq::empty()
    } else {
        match overlay {
            OverlayStateView::Help => lines_in(inner, content::help_of()),
            OverlayStateView::Skills(list) => list_items(
                sections,
                list.filter,
                "Esc close, Enter select"@,
                content::skill_rows(pickers::shown_skills(list)),
                list.selected as int,
                content::skill_detail_of(pickers::shown_skills(list), list.selected as int),
            ),
            OverlayStateView::Threads(list) => list_items(
                sections,
                list.filter,
                "Esc close, Enter resume"@,
                content::thread_rows(pickers::shown_threads(list)),
                list.selected as int,
                content::thread_detail_of(
                    pickers::shown_threads(list),
                    list.selected as int,
                    content::updated_of(pickers::shown_threads(list), list.selected as int),
                ),
            ),
            OverlayStateView::Artifacts(list) => list_items(
                sections,
                list.filter,
                "Esc close, Enter open viewer"@,
                content::artifact_rows(pickers::shown_artifacts(list)),
                list.selected as int,
                content::artifact_detail_of(pickers::shown_artifacts(list), list.selected as int),
            ),
            OverlayStateView::ArtifactViewer(viewer) => if viewer.payload.files.len() == 0 {
                lines_in(inner, no_files())
            } else {
                viewer_items(sections, viewer)
            },
            OverlayStateView::Approval(asked) => lines_in(
                inner,
                firsts(content::approval_rows(asked, inner.width as int), inner.height as int),
            ),
        }
    }
}

/// Something that lies over the transcript.
pub open spec fn overlay_items(area: Area, sections: Seq<Area>, overlay: OverlayStateView) -> Seq<
    DrawItemView,
> {
    overlay_frame(area, overlay) + overlay_body(
        draw::inner_of(overlay_area(area, overlay)),
        sections,
        overlay,
    )
}

/// Whether what lies over the transcript can be drawn: the number of the file that an artifact
/// shows, counted from one, has to be one.
pub open spec fn drawable(overlay: OverlayStateView) -> bool {
    overlay matches OverlayStateView::ArtifactViewer(viewer) ==> viewer.selected_file < usize::MAX
}

fn first_lines(lines: &Vec<String>, n: usize) -> (out: Vec<String>)
    ensures
        text::views(out@) == firsts(text::views(lines@), n as int),
{
    let end: usize = cursor::min(n, lines.len());
    assert(text::views(lines@).len() == lines@.len());
    let out: Vec<String> = content::copy_lines(lines, 0, end);
    assert(text::views(lines@).subrange(0, end as int) =~= text::views(lines@).take(end as int));
    out
}

fn scrolled_lines(lines: &Vec<String>, scroll: usize, height: usize) -> (out: Vec<String>)
    ensures
        text::views(out@) == lines_from(text::views(lines@), scroll as int, height as int),
{
    let n: usize = lines.len();
    let ghost all = text::views(lines@);
    assert(all.len() == n);
    let most: usize = if n > height {
        n - height
    } else {
        0
    };
    let start: usize = cursor::min(scroll, most);
    let left: usize = cursor::min(height, n - start);
    let out: Vec<String> = content::copy_lines(lines, start, start + left);
    assert(all.subrange(start as int, start + left) =~= all.skip(start as int).take(left as int));
    out
}

/// Draws a list with what stands above and below it.
pub fn render_picker_overlay(
    items: &mut Vec<DrawItem>,
    sections: &Vec<Area>,
    filter: &str,
    hint: &str,
    rows: &Vec<String>,
    selected: usize,
    detail: &Vec<String>,
)
    requires
        sections@.len() == 3,
    ensures
        text::views(final(items)@) == text::views(old(items)@) + list_items(
            sections@,
            filter@,
            hint@,
            text::views(rows@),
            selected as int,
            text::views(detail@),
        ),
{
    let head: Vec<String> = content::list_head(filter, rows.len(), hint);
    render_lines(items, sections[0], &head);
    let shown: Vec<String> = content::list_rows(rows, sections[1].height as usize, selected);
    render_lines(items, sections[1], &shown);
    let wrapped: Vec<String> = wrapping::wrap_lines(detail, sections[2].width as usize);
    let kept: Vec<String> = first_lines(&wrapped, sections[2].height as usize);
    render_lines(items, sections[2], &kept);
    assert(text::views(items@) =~= text::views(old(items)@) + list_items(
        sections@,
        filter@,
        hint@,
        text::views(rows@),
        selected as int,
        text::views(detail@),
    ));
}

/// Draws the file of an artifact with what stands above it.
pub fn render_artifact_viewer(items: &mut Vec<DrawItem>, sections: &Vec<Area>, viewer: &ArtifactViewerState)
    requires
        sections@.len() == 2,
        viewer@.payload.files.len() > 0,
        viewer@.selected_file < usize::MAX,
    ensures
        text::views(final(items)@) == text::views(old(items)@) + viewer_items(sections@, viewer@),
{
    let head: Vec<String> = content::viewer_head(viewer);
    render_lines(items, sections[0], &head);
    assert(viewer@.payload.files.len() == viewer.payload.files@.len());
    let at: usize = if viewer.selected_file < viewer.payload.files.len() {
        viewer.selected_file
    } else {
        0
    };
    let file: &ArtifactFilePayload = &viewer.payload.files[at];
    assert(viewer@.payload.files[at as int] == file@);
    let lines: Vec<String> = content::render_artifact_file_content_wrapped(
        file,
        sections[1].width as usize,
    );
    let kept: Vec<String> = scrolled_lines(&lines, viewer.scroll, sections[1].height as usize);
    render_lines(items, sections[1], &kept);
    assert(text::views(items@) =~= text::views(old(items)@) + viewer_items(sections@, viewer@));
}

fn no_files_lines() -> (lines: Vec<String>)
    ensures
        text::views(lines@) == no_files(),
{
    let mut lines: Vec<String> = Vec::new();
    lines.push("No readable files | Esc close".to_owned());
    lines.push(String::new());
    lines.push("Selected artifact has no readable files.".to_owned());
    assert(text::views(lines@) =~= no_files());
    lines
}

/// Draws the frame of something that lies over the transcript.
fn render_overlay_frame(items: &mut Vec<DrawItem>, area: Area, overlay: &OverlayState) -> (inner: Area)
    requires
        draw::on_screen(area),
    ensures
        inner == draw::inner_of(overlay_area(area, overlay@)),
        text::views(final(items)@) == text::views(old(items)@) + overlay_frame(area, overlay@),
{
    match overlay {
        OverlayState::Help => {
            let place: Area = draw::centered_rect(area, 72, 12);
            popup_inner(items, place, "Help", Tint::Magenta)
        },
        OverlayState::Skills(_) => {
            let place: Area = draw::centered_rect(area, 88, 16);
            popup_inner(items, place, "Skills", Tint::Yellow)
        },
        OverlayState::Threads(_) => {
            let place: Area = draw::centered_rect(area, 88, 16);
            popup_inner(items, place, "Threads", Tint::Cyan)
        },
        OverlayState::Artifacts(_) => {
            let place: Area = draw::centered_rect(area, 88, 16);
            popup_inner(items, place, "Artifacts", Tint::Green)
        },
        OverlayState::ArtifactViewer(viewer) => {
            let place: Area = draw::centered_rect(area, 92, 20);
            popup_inner(items, place, viewer.payload.manifest.title.as_str(), Tint::LightCyan)
        },
        OverlayState::Approval(asked) => {
            let height: u16 = match asked {
                ApprovalOverlayState::Decision { .. } => 12,
                ApprovalOverlayState::Questionnaire { .. } => 14,
            };
            let place: Area = draw::centered_rect(area, 84, height);
            popup_inner(items, place, "Approval", Tint::Red)
        },
    }
}

/// Draws something that lies over the transcript, given the sections inside its frame.
pub fn render_overlay(items: &mut Vec<DrawItem>, area: Area, sections: &Vec<Area>, overlay: &OverlayState)
    requires
        draw::on_screen(area),
        sections@.len() == overlay_sections(overlay@).len(),
        drawable(overlay@),
    ensures
        text::views(final(items)@) == text::views(old(items)@) + overlay_items(
            area,
            sections@,
            overlay@,
        ),
{
    let ghost start = text::views(items@);
    let inner: Area = render_overlay_frame(items, area, overlay);
    let ghost framed = text::views(items@);
    if draw::is_void(inner) {
        assert(framed =~= start + overlay_items(area, sections@, overlay@));
        return ;
    }
    match overlay {
        OverlayState::Help => {
            render_lines(items, inner, &content::help_lines());
        },
        OverlayState::Skills(list) => {
            let shown = pickers::filtered_skills(list);
            let rows: Vec<String> = content::skill_items(&shown);
            let detail: Vec<String> = content::skill_detail(&shown, list.selected);
            render_picker_overlay(
                items,
                sections,
                list.filter.as_str(),
                "Esc close, Enter select",
                &rows,
                list.selected,
                &detail,
            );
        },
        OverlayState::Threads(list) => {
            let shown = pickers::filtered_threads_for_overlay(list);
            let rows: Vec<String> = content::thread_items(&shown);
            let updated: String = content::updated_text(&shown, list.selected);
            let detail: Vec<String> = content::thread_detail(
                &shown,
                list.selected,
                updated.as_str(),
            );
            render_picker_overlay(
                items,
                sections,
                list.filter.as_str(),
                "Esc close, Enter resume",
                &rows,
                list.selected,
                &detail,
            );
        },
        OverlayState::Artifacts(list) => {
            let shown = pickers::filtered_artifacts_for_overlay(list);
            let rows: Vec<String> = content::artifact_items(&shown);
            let detail: Vec<String> = content::artifact_detail(&shown, list.selected);
            render_picker_overlay(
                items,
                sections,
                list.filter.as_str(),
                "Esc close, Enter open viewer",
                &rows,
                list.selected,
                &detail,
            );
        },
        OverlayState::ArtifactViewer(viewer) => {
            if viewer.payload.files.len() == 0 {
                render_lines(items, inner, &no_files_lines());
            } else {
                render_artifact_viewer(items, sections, viewer);
            }
        },
        OverlayState::Approval(asked) => {
            let lines: Vec<String> = content::approval_overlay_lines(asked, inner.width as usize);
            let kept: Vec<String> = first_lines(&lines, inner.height as usize);
            render_lines(items, inner, &kept);
        },
    }
    assert(text::views(items@) =~= start + overlay_items(area, sections@, overlay@));
}

// -- The whole -------------------------------------------------------------------------------------

/// The rows that the screen is divided into.
pub open spec fn screen_sections() -> Seq<Rows> {
    seq![Rows::Exactly(4), Rows::AtLeast(5), Rows::Exactly(5)]
}

/// What lies on top of the transcript, if anything does.
pub open spec fn topmost(ui: FullscreenUiStateView) -> Option<OverlayStateView> {
    if ui.overlay_stack.len() > 0 {
        Some(ui.overlay_stack.last())
    } else {
        None
    }
}

/// The rows that what lies on top asks for.
pub open spec fn topmost_sections(ui: FullscreenUiStateView) -> Seq<Rows> {
    match topmost(ui) {
        Some(overlay) => overlay_sections(overlay),
        None => Seq::empty(),
    }
}

/// The part of the screen inside the frame of what lies on top.
pub open spec fn topmost_inner(area: Area, ui: FullscreenUiStateView) -> Area {
    match topmost(ui) {
        Some(overlay) => draw::inner_of(overlay_area(area, overlay)),
        None => area,
    }
}

/// All that is drawn, given the sections of the screen and those of what lies on top: the session,
/// the transcript and the composer, what lies on top of them, and the notice on top of all.
pub open spec fn screen_items(
    area: Area,
    sections: Seq<Area>,
    inside: Seq<Area>,
    s: AppStateView,
    skill: Option<SkillDescriptorView>,
    ui: FullscreenUiStateView,
) -> Seq<DrawItemView> {
    let view = draw::inner_of(sections[1]);
    panel_of(sections[0], "Session"@, content::header_of(s, skill), Tint::Cyan) + panel_of(
        sections[1],
        "Transcript"@,
        content::transcript_view(
            s.transcript.history,
            view.width as int,
            view.height as int,
            ui.transcript_scroll as int,
        ),
        Tint::Blue,
    ) + panel_of(sections[2], "Composer"@, content::composer_of(s, skill), Tint::Green) + (
    match topmost(ui) {
        Some(overlay) => overlay_items(area, inside, overlay),
        None => Seq::empty(),
    }) + toast_items(area, ui.status_toast)
}

/// Draws the screen, given its sections and those of what lies on top.
pub fn draw_screen(
    area: Area,
    sections: &Vec<Area>,
    inside: &Vec<Area>,
    state: &AppState,
    selected_skill: &Option<SkillDescriptor>,
    ui: &FullscreenUiState,
) -> (items: Vec<DrawItem>)
    requires
        draw::on_screen(area),
        sections@.len() == 3,
        inside@.len() == topmost_sections(ui@).len(),
        topmost(ui@) matches Some(overlay) ==> drawable(overlay),
    ensures
        text::views(items@) == screen_items(
            area,
            sections@,
            inside@,
            state@,
            text::opt_view(*selected_skill),
            ui@,
        ),
{
    let mut items: Vec<DrawItem> = Vec::new();
    let header: Vec<String> = content::header_lines(state, selected_skill);
    render_panel(&mut items, sections[0], "Session", &header, Tint::Cyan);
    let view: Area = draw::inner_of(sections[1]);
    let rows: Vec<String> = content::visible_transcript_lines(
        state,
        view.width as usize,
        view.height as usize,
        ui.transcript_scroll,
    );
    render_panel(&mut items, sections[1], "Transcript", &rows, Tint::Blue);
    let typed: Vec<String> = content::composer_lines(state, selected_skill);
    render_panel(&mut items, sections[2], "Composer", &typed, Tint::Green);
    let ghost below = text::views(items@);
    let n: usize = ui.overlay_stack.len();
    if n > 0 {
        assert(ui@.overlay_stack.last() == ui.overlay_stack@[n - 1]@);
        render_overlay(&mut items, area, inside, &ui.overlay_stack[n - 1]);
    } else {
        assert(below =~= below + Seq::<DrawItemView>::empty());
    }
    render_status_toast(&mut items, area, &ui.status_toast);
    assert(text::views(items@) =~= screen_items(
        area,
        sections@,
        inside@,
        state@,
        text::opt_view(*selected_skill),
        ui@,
    ));
    items
}

proof fn lemma_inner_on_screen(area: Area, width: u16, height: u16)
    requires
        draw::on_screen(area),
        width > 0,
        height > 0,
    ensures
        draw::on_screen(draw::inner_of(draw::middle_of(area, width, height))),
{
}

fn inside_wanted(ui: &FullscreenUiState) -> (wanted: Vec<Rows>)
    ensures
        wanted@ == topmost_sections(ui@),
{
    let mut wanted: Vec<Rows> = Vec::new();
    let n: usize = ui.overlay_stack.len();
    if n > 0 {
        assert(ui@.overlay_stack.last() == ui.overlay_stack@[n - 1]@);
        match &ui.overlay_stack[n - 1] {
            OverlayState::Skills(_) | OverlayState::Threads(_) | OverlayState::Artifacts(_) => {
                wanted.push(Rows::Exactly(2));
                wanted.push(Rows::AtLeast(1));
                wanted.push(Rows::Exactly(3));
            },
            OverlayState::ArtifactViewer(viewer) => {
                if viewer.payload.files.len() > 0 {
                    wanted.push(Rows::Exactly(3));
                    wanted.push(Rows::AtLeast(1));
                }
            },
            _ => {},
        }
    }
    assert(wanted@ =~= topmost_sections(ui@));
    wanted
}

fn inside_area(area: Area, ui: &FullscreenUiState) -> (inner: Area)
    requires
        draw::on_screen(area),
    ensures
        inner == topmost_inner(area, ui@),
        draw::on_screen(inner),
{
    let n: usize = ui.overlay_stack.len();
    if n == 0 {
        return area;
    }
    assert(ui@.overlay_stack.last() == ui.overlay_stack@[n - 1]@);
    let (width, height): (u16, u16) = match &ui.overlay_stack[n - 1] {
        OverlayState::Help => (72, 12),
        OverlayState::Skills(_) | OverlayState::Threads(_) | OverlayState::Artifacts(_) => (88, 16),
        OverlayState::ArtifactViewer(_) => (92, 20),
        OverlayState::Approval(asked) => {
            match asked {
                ApprovalOverlayState::Decision { .. } => (84, 12),
                ApprovalOverlayState::Questionnaire { .. } => (84, 14),
            }
        },
    };
    proof {
        lemma_inner_on_screen(area, width, height);
    }
    draw::inner_of(draw::centered_rect(area, width, height))
}

/// Draws the screen. Which sections of the screen, and of what lies on top of it, give way where
/// they have too few rows is decided elsewhere, but that those that take more give way last; all
/// else is fixed.
pub fn render_screen(
    area: Area,
    state: &AppState,
    selected_skill: &Option<SkillDescriptor>,
    ui: &FullscreenUiState,
) -> (items: Vec<DrawItem>)
    requires
        draw::on_screen(area),
        topmost(ui@) matches Some(overlay) ==> drawable(overlay),
    ensures
        exists|sections: Seq<Area>, inside: Seq<Area>|
            #![trigger draw::may_split(area, screen_sections(), sections), draw::may_split(topmost_inner(area, ui@), topmost_sections(ui@), inside)]
            draw::may_split(area, screen_sections(), sections) && draw::may_split(
                topmost_inner(area, ui@),
                topmost_sections(ui@),
                inside,
            ) && text::views(items@) == screen_items(
                area,
                sections,
                inside,
                state@,
                text::opt_view(*selected_skill),
                ui@,
            ),
{
    let mut wanted: Vec<Rows> = Vec::new();
    wanted.push(Rows::Exactly(4));
    wanted.push(Rows::AtLeast(5));
    wanted.push(Rows::Exactly(5));
    assert(wanted@ =~= screen_sections());
    let sections: Vec<Area> = draw::split_rows(area, &wanted);
    let within: Vec<Rows> = inside_wanted(ui);
    let inner: Area = inside_area(area, ui);
    let inside: Vec<Area> = draw::split_rows(inner, &within);
    let items: Vec<DrawItem> = draw_screen(area, &sections, &inside, state, selected_skill, ui);
    assert(draw::may_split(area, screen_sections(), sections@));
    assert(draw::may_split(topmost_inner(area, ui@), topmost_sections(ui@), inside@));
    items
}

/// What lies over the screen has the frame of its sort, in its colour and under its name, and clears what
/// is below it.
pub proof fn law_popups_are_framed_by_their_sort(area: Area, overlay: OverlayStateView)
    ensures
        ({
            let place = overlay_area(area, overlay);
            let frame = overlay_frame(area, overlay);
            let look = match overlay {
                OverlayStateView::Help => ("Help"@, Tint::Magenta),
                OverlayStateView::Skills(_) => ("Skills"@, Tint::Yellow),
                OverlayStateView::Threads(_) => ("Threads"@, Tint::Cyan),
                OverlayStateView::Artifacts(_) => ("Artifacts"@, Tint::Green),
                OverlayStateView::ArtifactViewer(viewer) => (
                    viewer.payload.manifest.title,
                    Tint::LightCyan,
                ),
                OverlayStateView::Approval(_) => ("Approval"@, Tint::Red),
            };
            &&& frame.len() == 2
            &&& frame[0] == (DrawItemView::Clear { area: place })
            &&& frame[1] == frame_of(place, look.0, look.1)
        }),
{
}

/// Lines are drawn one below the other, wherever there is room.
pub proof fn law_lines_are_drawn_below_each_other(area: Area, lines: Seq<Seq<char>>, i: int)
    requires
        area.width > 0 && area.height > 0,
        0 <= i < lines.len(),
    ensures
        lines_in(area, lines).len() == 1,
        lines_in(area, lines)[0] matches DrawItemView::Prose { area: place, words } && place == area
            && words == text::join_of(lines, "\n"@) && text::contains_text(words, lines[i]),
{
    text::lemma_join_contains(lines, "\n"@, i);
}

/// A notice is drawn where there is one and room for it, under the name and in the colour of how grave
/// it is.
pub proof fn law_a_notice_is_drawn_as_grave_as_it_is(area: Area, toast: StatusToastView)
    ensures
        toast_items(area, None).len() == 0,
        area.width <= 4 || area.height <= 4 ==> toast_items(area, Some(toast)).len() == 0,
        area.width > 4 && area.height > 4 ==> {
            let items = toast_items(area, Some(toast));
            let lines = toast_lines(area, toast.text);
            let place = toast_area(area, lines);
            &&& items.len() >= 2
            &&& items[0] == (DrawItemView::Clear { area: place })
            &&& items[1] == (match toast.level {
                ToastLevel::Info => frame_of(place, "Status"@, Tint::Cyan),
                ToastLevel::Warning => frame_of(place, "Warning"@, Tint::Yellow),
                ToastLevel::Error => frame_of(place, "Error"@, Tint::Red),
            })
        },
{
}

/// Only the topmost of what lies over the screen is drawn: after the three panels, and before the notice.
pub proof fn law_only_the_topmost_is_drawn(
    area: Area,
    sections: Seq<Area>,
    inside: Seq<Area>,
    s: AppStateView,
    skill: Option<SkillDescriptorView>,
    ui: FullscreenUiStateView,
    below: Seq<OverlayStateView>,
    top: OverlayStateView,
)
    ensures
        ({
            let none = screen_items(
                area,
                sections,
                inside,
                s,
                skill,
                FullscreenUiStateView {
                    overlay_stack: Seq::empty(),
                    status_toast: None,
                    ..ui
                },
            );
            let shown = screen_items(
                area,
                sections,
                inside,
                s,
                skill,
                FullscreenUiStateView { overlay_stack: below.push(top), ..ui },
            );
            &&& shown == none + overlay_items(area, inside, top) + toast_items(
                area,
                ui.status_toast,
            )
            &&& none[0] == frame_of(sections[0], "Session"@, Tint::Cyan)
        }),
{
    let none = screen_items(
        area,
        sections,
        inside,
        s,
        skill,
        FullscreenUiStateView { overlay_stack: Seq::empty(), status_toast: None, ..ui },
    );
    let shown = screen_items(
        area,
        sections,
        inside,
        s,
        skill,
        FullscreenUiStateView { overlay_stack: below.push(top), ..ui },
    );
    assert(shown =~= none + overlay_items(area, inside, top) + toast_items(area, ui.status_toast));
}

/// The panels show the state of the client, the part of the transcript that is in view, and the line.
pub proof fn law_the_panels_show_the_client(
    area: Area,
    sections: Seq<Area>,
    inside: Seq<Area>,
    s: AppStateView,
    skill: Option<SkillDescriptorView>,
    ui: FullscreenUiStateView,
)
    requires
        ui.overlay_stack.len() == 0,
        ui.status_toast is None,
    ensures
        ({
            let view = draw::inner_of(sections[1]);
            let items = screen_items(area, sections, inside, s, skill, ui);
            items == panel_of(sections[0], "Session"@, content::header_of(s, skill), Tint::Cyan)
                + panel_of(
                sections[1],
                "Transcript"@,
                content::transcript_view(
                    s.transcript.history,
                    view.width as int,
                    view.height as int,
                    ui.transcript_scroll as int,
                ),
                Tint::Blue,
            ) + panel_of(sections[2], "Composer"@, content::composer_of(s, skill), Tint::Green)
        }),
{
    let view = draw::inner_of(sections[1]);
    let items = screen_items(area, sections, inside, s, skill, ui);
    assert(items =~= panel_of(sections[0], "Session"@, content::header_of(s, skill), Tint::Cyan)
        + panel_of(
        sections[1],
        "Transcript"@,
        content::transcript_view(
            s.transcript.history,
            view.width as int,
            view.height as int,
            ui.transcript_scroll as int,
        ),
        Tint::Blue,
    ) + panel_of(sections[2], "Composer"@, content::composer_of(s, skill), Tint::Green));
}

/// Lines that are scrolled begin so many lines further down, as long as lines are left to fill the room.
pub proof fn law_lines_are_scrolled_down(lines: Seq<Seq<char>>, scroll: int, height: int)
    requires
        0 <= scroll,
        0 < height,
    ensures
        lines.len() <= height ==> lines_from(lines, scroll, height) == lines,
        lines.len() > height && scroll <= lines.len() - height ==> lines_from(lines, scroll, height)
            == lines.subrange(scroll, scroll + height),
        lines.len() > height && scroll > lines.len() - height ==> lines_from(lines, scroll, height)
            == lines.subrange(lines.len() - height, lines.len() as int),
{
    let most = if lines.len() > height {
        lines.len() - height
    } else {
        0
    };
    let at = cursor::least(scroll, most);
    let shown = lines_from(lines, scroll, height);
    if lines.len() <= height {
        assert(shown =~= lines);
    } else {
        assert(shown =~= lines.subrange(at, at + height));
    }
}

/// The file that is shown is the selected one.
pub proof fn law_the_selected_file_is_shown(viewer: ArtifactViewerStateView)
    ensures
        viewer.selected_file < viewer.payload.files.len() ==> shown_file(viewer)
            == viewer.payload.files[viewer.selected_file as int],
        viewer.selected_file >= viewer.payload.files.len() ==> shown_file(viewer)
            == viewer.payload.files[0],
{
}

/// What is drawn inside a popup is what it is about.
pub proof fn law_popups_show_what_they_are_about(
    inner: Area,
    sections: Seq<Area>,
    overlay: OverlayStateView,
)
    requires
        inner.width > 0 && inner.height > 0,
    ensures
        ({
            let body = overlay_body(inner, sections, overlay);
            match overlay {
                OverlayStateView::Help => body == lines_in(inner, content::help_of()),
                OverlayStateView::Skills(list) => body == list_items(
                    sections,
                    list.filter,
                    "Esc close, Enter select"@,
                    content::skill_rows(pickers::shown_skills(list)),
                    list.selected as int,
                    content::skill_detail_of(pickers::shown_skills(list), list.selected as int),
                ),
                OverlayStateView::Threads(list) => body == list_items(
                    sections,
                    list.filter,
                    "Esc close, Enter resume"@,
                    content::thread_rows(pickers::shown_threads(list)),
                    list.selected as int,
                    content::thread_detail_of(
                        pickers::shown_threads(list),
                        list.selected as int,
                        content::updated_of(pickers::shown_threads(list), list.selected as int),
                    ),
                ),
                OverlayStateView::Artifacts(list) => body == list_items(
                    sections,
                    list.filter,
                    "Esc close, Enter open viewer"@,
                    content::artifact_rows(pickers::shown_artifacts(list)),
                    list.selected as int,
                    content::artifact_detail_of(
                        pickers::shown_artifacts(list),
                        list.selected as int,
                    ),
                ),
                OverlayStateView::ArtifactViewer(viewer) => viewer.payload.files.len() > 0 ==> body
                    == viewer_items(sections, viewer),
                OverlayStateView::Approval(asked) => body == lines_in(
                    inner,
                    firsts(content::approval_rows(asked, inner.width as int), inner.height as int),
                ),
            }
        }),
{
}

/// A list is drawn in three parts, from the top: its head, its rows and what is known of the marked one.
pub proof fn law_a_list_is_drawn_in_three_parts(
    sections: Seq<Area>,
    filter: Seq<char>,
    hint: Seq<char>,
    rows: Seq<Seq<char>>,
    selected: int,
    detail: Seq<Seq<char>>,
)
    requires
        sections.len() == 3,
        forall|i: int| 0 <= i < 3 ==> !draw::is_void(#[trigger] sections[i]),
    ensures
        ({
            let items = list_items(sections, filter, hint, rows, selected, detail);
            &&& items.len() == 3
            &&& items[0] == lines_in(
                sections[0],
                content::list_head_of(filter, rows.len() as int, hint),
            )[0]
            &&& items[1] == lines_in(
                sections[1],
                content::list_rows_of(rows, sections[1].height as int, selected),
            )[0]
            &&& items[2] matches DrawItemView::Prose { area, .. } && area == sections[2]
        }),
{
    assert(!draw::is_void(sections[0]) && !draw::is_void(sections[1]) && !draw::is_void(sections[2]));
}

} // verus!
