//! The banner that the client opens with: a logo in one of two sizes, and a line on the session.
use vstd::prelude::*;

use crate::styled;
use crate::styled::{StyledLine, StyledLineView, StyledSpan, StyledSpanView, Tint};
use crate::text;
use crate::width;

verus! {

broadcast use text::group_views;

/// The width from which on the large logo is used.
pub const FULL_BANNER_MIN_WIDTH: u16 = 72;

// -- The logo ---------------------------------------------------------------------------------

/// The large logo.
pub open spec fn large_logo() -> Seq<Seq<char>> {
    seq![
        "███╗   ███╗██╗      ██╗███╗   ██╗████████╗███████╗██████╗ ███╗   ██╗"@,
        "████╗ ████║██║      ██║████╗  ██║╚══██╔══╝██╔════╝██╔══██╗████╗  ██║"@,
        "██╔████╔██║██║█████╗██║██╔██╗ ██║   ██║   █████╗  ██████╔╝██╔██╗ ██║"@,
        "██║╚██╔╝██║██║╚════╝██║██║╚██╗██║   ██║   ██╔══╝  ██╔══██╗██║╚██╗██║"@,
        "██║ ╚═╝ ██║███████╗ ██║██║ ╚████║   ██║   ███████╗██║  ██║██║ ╚████║"@,
        "╚═╝     ╚═╝╚══════╝ ╚═╝╚═╝  ╚═══╝   ╚═╝   ╚══════╝╚═╝  ╚═╝╚═╝  ╚═══╝"@,
    ]
}

/// The small logo.
pub open spec fn small_logo() -> Seq<Seq<char>> {
    seq![
        "░█▄█░█░░░░░░░▀█▀░█▀█░▀█▀░█▀▀░█▀▄░█▀█"@,
        "░█░█░█░░░▄▄▄░░█░░█░█░░█░░█▀▀░█▀▄░█░█"@,
        "░▀░▀░▀▀▀░░░░░▀▀▀░▀░▀░░▀░░▀▀▀░▀░▀░▀░▀"@,
    ]
}

/// The rows of the large logo.
pub fn large_logo_rows() -> (rows: Vec<String>)
    ensures
        text::views(rows@) == large_logo(),
{
    let mut rows: Vec<String> = Vec::new();
    rows.push("███╗   ███╗██╗      ██╗███╗   ██╗████████╗███████╗██████╗ ███╗   ██╗".to_owned());
    rows.push("████╗ ████║██║      ██║████╗  ██║╚══██╔══╝██╔════╝██╔══██╗████╗  ██║".to_owned());
    rows.push("██╔████╔██║██║█████╗██║██╔██╗ ██║   ██║   █████╗  ██████╔╝██╔██╗ ██║".to_owned());
    rows.push("██║╚██╔╝██║██║╚════╝██║██║╚██╗██║   ██║   ██╔══╝  ██╔══██╗██║╚██╗██║".to_owned());
    rows.push("██║ ╚═╝ ██║███████╗ ██║██║ ╚████║   ██║   ███████╗██║  ██║██║ ╚████║".to_owned());
    rows.push("╚═╝     ╚═╝╚══════╝ ╚═╝╚═╝  ╚═══╝   ╚═╝   ╚══════╝╚═╝  ╚═╝╚═╝  ╚═══╝".to_owned());
    assert(text::views(rows@) =~= large_logo());
    rows
}

/// The rows of the small logo.
pub fn small_logo_rows() -> (rows: Vec<String>)
    ensures
        text::views(rows@) == small_logo(),
{
    let mut rows: Vec<String> = Vec::new();
    rows.push("░█▄█░█░░░░░░░▀█▀░█▀█░▀█▀░█▀▀░█▀▄░█▀█".to_owned());
    rows.push("░█░█░█░░░▄▄▄░░█░░█░█░░█░░█▀▀░█▀▄░█░█".to_owned());
    rows.push("░▀░▀░▀▀▀░░░░░▀▀▀░▀░▀░░▀░░▀▀▀░▀░▀░▀░▀".to_owned());
    assert(text::views(rows@) =~= small_logo());
    rows
}

/// The width of the widest row.
pub open spec fn widest(rows: Seq<Seq<char>>) -> usize
    decreases rows.len(),
{
    if rows.len() == 0 {
        0
    } else {
        let rest = widest(rows.drop_last());
        if width::columns_of(rows.last()) > rest {
            width::columns_of(rows.last())
        } else {
            rest
        }
    }
}

fn widest_of(rows: &Vec<String>) -> (most: usize)
    ensures
        most == widest(text::views(rows@)),
{
    let ghost all = text::views(rows@);
    let mut most: usize = 0;
    let mut i: usize = 0;
    assert(all.take(0) =~= Seq::<Seq<char>>::empty());
    while i < rows.len()
        invariant
            i <= rows@.len(),
            all == text::views(rows@),
            most == widest(all.take(i as int)),
        decreases rows@.len() - i,
    {
        assert(all.take(i + 1).drop_last() =~= all.take(i as int));
        assert(all.take(i + 1).last() == rows@[i as int]@);
        let w: usize = width::columns(rows[i].as_str());
        if w > most {
            most = w;
        }
        i = i + 1;
    }
    assert(all.take(all.len() as int) =~= all);
    most
}

/// The logo for a terminal on which the two logos take the given room.
pub open spec fn logo_for(width: u16, large: u16, small: u16) -> Seq<Seq<char>> {
    if width >= FULL_BANNER_MIN_WIDTH && width >= large {
        large_logo()
    } else if width >= small {
        small_logo()
    } else {
        Seq::empty()
    }
}

/// The logo for a terminal on which the two logos take the given room: the largest that fits.
pub fn choose_logo(width: u16, large: u16, small: u16) -> (rows: Vec<String>)
    ensures
        text::views(rows@) == logo_for(width, large, small),
{
    if width >= FULL_BANNER_MIN_WIDTH && width >= large {
        large_logo_rows()
    } else if width >= small {
        small_logo_rows()
    } else {
        let rows: Vec<String> = Vec::new();
        assert(text::views(rows@) =~= Seq::<Seq<char>>::empty());
        rows
    }
}

/// The logo for a terminal.
pub fn pick_art(width: u16) -> (rows: Vec<String>)
    ensures
        text::views(rows@) == logo_for(
            width,
            widest(large_logo()) as u16,
            widest(small_logo()) as u16,
        ),
{
    let large: usize = widest_of(&large_logo_rows());
    let small: usize = widest_of(&small_logo_rows());
    choose_logo(width, large as u16, small as u16)
}

// -- The line on the session --------------------------------------------------------------------

/// A directory with `~` for the home directory.
pub open spec fn from_home(cwd: Seq<char>, home: Option<Seq<char>>) -> Seq<char> {
    match home {
        Some(home) => if cwd == home {
            "~"@
        } else if text::begins(cwd, home + "/"@) {
            "~/"@ + cwd.skip((home.len() + "/"@.len()) as int)
        } else {
            cwd
        },
        None => cwd,
    }
}

/// The room that a directory has.
pub open spec fn cwd_room(term_width: int) -> int {
    if term_width - 32 < 20 {
        20
    } else {
        term_width - 32
    }
}

/// A directory cut to fit: its end, after a mark.
pub open spec fn cut_to_fit(path: Seq<char>, room: int) -> Seq<char> {
    if path.len() > room - 1 {
        "…"@ + path.skip(path.len() - (room - 1))
    } else {
        "…"@ + path
    }
}

/// A directory as the banner shows it, `taken` being the room that it takes in full.
pub open spec fn cwd_shown(path: Seq<char>, taken: usize, room: int) -> Seq<char> {
    if taken <= room {
        path
    } else {
        cut_to_fit(path, room)
    }
}

/// A directory with `~` for the home directory.
pub fn shorten_home(cwd: &str, home: Option<&str>) -> (out: String)
    ensures
        out@ == from_home(cwd@, text::opt_view(home)),
{
    match home {
        Some(home) => {
            if text::same_text(cwd, home) {
                return "~".to_owned();
            }
            let inside: String = text::glue(home, "/");
            match text::strip_prefix(cwd, inside.as_str()) {
                Some(rest) => text::glue("~/", rest.as_str()),
                None => cwd.to_owned(),
            }
        },
        None => cwd.to_owned(),
    }
}

/// A directory cut to fit where it takes more room than there is.
pub fn fit_cwd(path: &str, taken: usize, room: usize) -> (out: String)
    requires
        room >= 1,
    ensures
        out@ == cwd_shown(path@, taken, room as int),
{
    if taken <= room {
        return path.to_owned();
    }
    let chars: Vec<char> = text::chars_of(path);
    let total: usize = chars.len();
    let from: usize = if total > room - 1 {
        total - (room - 1)
    } else {
        0
    };
    let tail: String = text::text_of(&chars, from, total);
    assert(tail@ =~= path@.skip(from as int));
    assert(path@.skip(0) =~= path@);
    text::glue("…", tail.as_str())
}

/// A directory as the banner shows it: with `~` for the home directory, and cut where it is too
/// wide.
pub fn format_cwd(cwd: &str, home: Option<&str>, term_width: usize) -> (out: String)
    ensures
        ({
            let path = from_home(cwd@, text::opt_view(home));
            out@ == cwd_shown(path, width::columns_of(path), cwd_room(term_width as int))
        }),
{
    let path: String = shorten_home(cwd, home);
    let room: usize = if term_width < 52 {
        20
    } else {
        term_width - 32
    };
    let taken: usize = width::columns(path.as_str());
    fit_cwd(path.as_str(), taken, room)
}

// -- The colours of the logo ------------------------------------------------------------------

/// The columns that each character of a row takes.
pub fn char_widths(row: &str) -> (widths: Vec<usize>)
    ensures
        widths@.len() == row@.len(),
        forall|i: int|
            0 <= i < row@.len() ==> #[trigger] widths@[i] == width::char_columns(row@[i]),
{
    let chars: Vec<char> = text::chars_of(row);
    let mut widths: Vec<usize> = Vec::new();
    let mut i: usize = 0;
    while i < chars.len()
        invariant
            chars@ == row@,
            i <= chars@.len(),
            widths@.len() == i,
            forall|j: int| 0 <= j < i ==> #[trigger] widths@[j] == width::char_columns(row@[j]),
        decreases chars@.len() - i,
    {
        widths.push(width::columns_of_char(chars[i]));
        i = i + 1;
    }
    widths
}

/// The columns that a row takes.
pub fn row_columns(row: &str) -> (n: usize)
    ensures
        n == width::columns_of(row@),
{
    width::columns(row)
}

/// The colour of a band: the bands grow brighter, and there are three.
#[verifier::allow_in_spec]
pub fn band_tint(band: usize) -> Tint
    returns
        (match band {
            0usize => Tint::Cyan,
            1usize => Tint::LightCyan,
            _ => Tint::White,
        }),
{
    match band {
        0usize => Tint::Cyan,
        1usize => Tint::LightCyan,
        _ => Tint::White,
    }
}

/// A row cut into spans: characters next to each other in bands of the same colour share one.
pub open spec fn banded(row: Seq<char>, bands: Seq<usize>) -> Seq<StyledSpanView>
    decreases row.len(),
{
    if row.len() == 0 {
        Seq::empty()
    } else {
        let before = banded(row.drop_last(), bands);
        let tint = band_tint(bands[row.len() - 1]);
        if row.len() > 1 && band_tint(bands[row.len() - 2]) == tint {
            before.update(
                before.len() - 1,
                StyledSpanView { text: before.last().text.push(row.last()), ..before.last() },
            )
        } else {
            before.push(styled::span_of(seq![row.last()], styled::bold_tinted(tint)))
        }
    }
}

/// A row of the logo in colours. A row that takes no columns has none.
pub open spec fn gradient_of(row: Seq<char>, bands: Seq<usize>) -> Seq<StyledSpanView> {
    if width::columns_of(row) == 0 {
        seq![styled::span_of(row, styled::plain())]
    } else {
        banded(row, bands)
    }
}

proof fn lemma_banded(row: Seq<char>, bands: Seq<usize>)
    requires
        row.len() > 0,
    ensures
        banded(row, bands).len() > 0,
        banded(row, bands).last().style == styled::bold_tinted(band_tint(bands[row.len() - 1])),
        styled::spans_text(banded(row, bands)) == row,
    decreases row.len(),
{
    let before = banded(row.drop_last(), bands);
    let tint = band_tint(bands[row.len() - 1]);
    let all = banded(row, bands);
    if row.len() > 1 {
        lemma_banded(row.drop_last(), bands);
    } else {
        assert(row.drop_last() =~= Seq::empty());
        assert(styled::spans_text(before) =~= row.drop_last());
    }
    if row.len() > 1 && band_tint(bands[row.len() - 2]) == tint {
        assert(all.drop_last() =~= before.drop_last());
        assert(all.last().text =~= before.last().text + seq![row.last()]);
        assert(styled::spans_text(all) =~= styled::spans_text(before) + seq![row.last()]);
    } else {
        assert(all.drop_last() =~= before);
    }
    assert(styled::spans_text(all) =~= row);
}

/// A row of the logo in colours. `bands` tells the band of each character.
pub fn gradient_spans(row: &str, bands: &Vec<usize>) -> (spans: Vec<StyledSpan>)
    requires
        bands@.len() == row@.len(),
    ensures
        text::views(spans@) == gradient_of(row@, bands@),
{
    let mut spans: Vec<StyledSpan> = Vec::new();
    if width::columns(row) == 0 {
        spans.push(styled::span(row, styled::plain()));
        assert(text::views(spans@) =~= gradient_of(row@, bands@));
        return spans;
    }
    let chars: Vec<char> = text::chars_of(row);
    let mut i: usize = 0;
    assert(row@.take(0) =~= Seq::empty());
    assert(text::views(spans@) =~= banded(row@.take(0), bands@));
    while i < chars.len()
        invariant
            chars@ == row@,
            bands@.len() == row@.len(),
            i <= chars@.len(),
            text::views(spans@) == banded(row@.take(i as int), bands@),
        decreases chars@.len() - i,
    {
        let ghost before = text::views(spans@);
        assert(row@.take(i + 1).drop_last() =~= row@.take(i as int));
        proof {
            if i > 0 {
                lemma_banded(row@.take(i as int), bands@);
            }
        }
        let tint: Tint = band_tint(bands[i]);
        if i > 0 && band_tint(bands[i - 1]) == tint {
            let last: usize = spans.len() - 1;
            let mut grown: StyledSpan = spans[last].clone();
            grown.text.push(chars[i]);
            assert(before[last as int] == spans@[last as int]@);
            spans.set(last, grown);
        } else {
            let mut one: String = String::new();
            one.push(chars[i]);
            assert(one@ =~= seq![chars@[i as int]]);
            let ghost held = spans@;
            let fresh: StyledSpan = styled::span(one.as_str(), styled::bold_tinted(tint));
            spans.push(fresh);
            proof {
                text::lemma_views_push(held, fresh);
            }
        }
        i = i + 1;
        assert(text::views(spans@) =~= banded(row@.take(i as int), bands@));
    }
    assert(row@.take(row@.len() as int) =~= row@);
    spans
}

/// The colours change nothing of a row: its spans one after the other are the row.
pub proof fn law_colours_keep_the_row(row: Seq<char>, bands: Seq<usize>)
    ensures
        styled::spans_text(gradient_of(row, bands)) == row,
{
    if width::columns_of(row) == 0 {
        let spans = gradient_of(row, bands);
        assert(spans.drop_last() =~= Seq::empty());
        assert(styled::spans_text(spans.drop_last()) =~= Seq::empty());
        assert(styled::spans_text(spans) =~= row);
    } else if row.len() == 0 {
        assert(styled::spans_text(banded(row, bands)) =~= row);
    } else {
        lemma_banded(row, bands);
    }
}

// -- The banner -------------------------------------------------------------------------------

/// The line on the session: the version, the directory, and the model where it is known.
pub open spec fn info_spans(
    version: Seq<char>,
    cwd: Seq<char>,
    model: Option<Seq<char>>,
) -> Seq<StyledSpanView> {
    let head = seq![
        styled::span_of("v"@ + version, styled::bold_tinted(Tint::LightCyan)),
        styled::span_of("  ·  "@, styled::tinted(Tint::DarkGray)),
        styled::span_of("cwd "@, styled::tinted(Tint::DarkGray)),
        styled::span_of(cwd, styled::tinted(Tint::Gray)),
    ];
    match model {
        Some(model) => head + seq![
            styled::span_of("  ·  "@, styled::tinted(Tint::DarkGray)),
            styled::span_of(model, styled::bold_tinted(Tint::Magenta)),
        ],
        None => head,
    }
}

/// The whole banner, below the rows of the logo.
pub open spec fn banner_of(
    art: Seq<StyledLineView>,
    version: Seq<char>,
    cwd: Seq<char>,
    model: Option<Seq<char>>,
) -> Seq<StyledLineView> {
    (if art.len() == 0 {
        art
    } else {
        art.push(styled::blank_line_of())
    }) + seq![styled::line_of(info_spans(version, cwd, model)), styled::blank_line_of()]
}

/// The line on the session below the rows of a logo in colours.
fn with_info(
    art: Vec<StyledLine>,
    width: u16,
    version: &str,
    cwd: &str,
    home: Option<&str>,
    model_label: Option<&str>,
) -> (lines: Vec<StyledLine>)
    ensures
        ({
            let path = from_home(cwd@, text::opt_view(home));
            text::views(lines@) == banner_of(
                text::views(art@),
                version@,
                cwd_shown(path, width::columns_of(path), cwd_room(width as int)),
                text::opt_view(model_label),
            )
        }),
{
    let mut lines: Vec<StyledLine> = art;
    if lines.len() > 0 {
        lines.push(styled::blank_line());
    }
    let label: String = text::glue("v", version);
    let place: String = format_cwd(cwd, home, width as usize);
    let mut info: StyledLine = styled::line3(
        styled::span(label.as_str(), styled::bold_tinted(Tint::LightCyan)),
        styled::span("  ·  ", styled::tinted(Tint::DarkGray)),
        styled::span("cwd ", styled::tinted(Tint::DarkGray)),
    );
    info.spans.push(styled::span(place.as_str(), styled::tinted(Tint::Gray)));
    if let Some(model) = model_label {
        info.spans.push(styled::span("  ·  ", styled::tinted(Tint::DarkGray)));
        info.spans.push(styled::span(model, styled::bold_tinted(Tint::Magenta)));
    }
    assert(info@.spans =~= info_spans(version@, place@, text::opt_view(model_label)));
    lines.push(info);
    lines.push(styled::blank_line());
    assert(text::views(lines@) =~= banner_of(
        text::views(art@),
        version@,
        place@,
        text::opt_view(model_label),
    ));
    lines
}

/// The band of every character of the two logos, row by row.
pub struct LogoBands {
    pub large: Vec<Vec<usize>>,
    pub small: Vec<Vec<usize>>,
}

/// Whether every character of a logo has a band.
pub open spec fn bands_fit(bands: Seq<Vec<usize>>, rows: Seq<Seq<char>>) -> bool {
    &&& bands.len() == rows.len()
    &&& forall|i: int| 0 <= i < rows.len() ==> (#[trigger] bands[i])@.len() == rows[i].len()
}

/// A logo in colours.
pub open spec fn coloured(rows: Seq<Seq<char>>, bands: Seq<Vec<usize>>) -> Seq<StyledLineView> {
    Seq::new(rows.len(), |i: int| styled::line_of(gradient_of(rows[i], bands[i]@)))
}

fn colour_rows(rows: &Vec<String>, bands: &Vec<Vec<usize>>) -> (lines: Vec<StyledLine>)
    requires
        bands_fit(bands@, text::views(rows@)),
    ensures
        text::views(lines@) == coloured(text::views(rows@), bands@),
{
    let ghost all = coloured(text::views(rows@), bands@);
    let mut lines: Vec<StyledLine> = Vec::new();
    let mut i: usize = 0;
    assert(text::views(lines@) =~= all.take(0));
    while i < rows.len()
        invariant
            i <= rows@.len(),
            bands_fit(bands@, text::views(rows@)),
            all == coloured(text::views(rows@), bands@),
            text::views(lines@) == all.take(i as int),
        decreases rows@.len() - i,
    {
        assert(text::views(rows@)[i as int] == rows@[i as int]@);
        assert(bands@[i as int]@.len() == rows@[i as int]@.len());
        let spans: Vec<StyledSpan> = gradient_spans(rows[i].as_str(), &bands[i]);
        let line: StyledLine = StyledLine { spans, style: styled::plain() };
        assert(line@ =~= all[i as int]);
        lines.push(line);
        i = i + 1;
        assert(text::views(lines@) =~= all.take(i as int));
    }
    assert(all.take(all.len() as int) =~= all);
    lines
}

/// The logo for a terminal in colours: the largest that fits.
pub open spec fn art_for(width: u16, large: u16, small: u16, bands: LogoBands) -> Seq<StyledLineView> {
    if width >= FULL_BANNER_MIN_WIDTH && width >= large {
        coloured(large_logo(), bands.large@)
    } else if width >= small {
        coloured(small_logo(), bands.small@)
    } else {
        Seq::empty()
    }
}

/// The whole banner for a terminal. `bands` tells how the logos are coloured.
pub fn build_startup_banner_lines(
    bands: &LogoBands,
    width: u16,
    version: &str,
    cwd: &str,
    home: Option<&str>,
    model_label: Option<&str>,
) -> (lines: Vec<StyledLine>)
    requires
        bands_fit(bands.large@, large_logo()),
        bands_fit(bands.small@, small_logo()),
    ensures
        ({
            let path = from_home(cwd@, text::opt_view(home));
            text::views(lines@) == banner_of(
                art_for(
                    width,
                    widest(large_logo()) as u16,
                    widest(small_logo()) as u16,
                    *bands,
                ),
                version@,
                cwd_shown(path, width::columns_of(path), cwd_room(width as int)),
                text::opt_view(model_label),
            )
        }),
{
    let rows: Vec<String> = pick_art(width);
    // The logos differ in their number of rows.
    let art: Vec<StyledLine> = if rows.len() == 0 {
        Vec::new()
    } else if rows.len() == bands.large.len() {
        colour_rows(&rows, &bands.large)
    } else {
        colour_rows(&rows, &bands.small)
    };
    assert(text::views(rows@).len() == rows@.len());
    assert(text::views(art@) =~= art_for(
        width,
        widest(large_logo()) as u16,
        widest(small_logo()) as u16,
        *bands,
    ));
    with_info(art, width, version, cwd, home, model_label)
}

/// A directory that is cut keeps its end, and takes no more characters than there is room for.
pub proof fn law_cut_directory_keeps_its_end(path: Seq<char>, room: int)
    requires
        room >= 1,
    ensures
        cut_to_fit(path, room).len() <= room,
        forall|k: int|
            1 <= k < cut_to_fit(path, room).len() ==> #[trigger] cut_to_fit(path, room)[cut_to_fit(
                path,
                room,
            ).len() - k] == path[path.len() - k],
{
    reveal_strlit("…");
    assert("…"@.len() == 1);
}

/// The large logo needs room for itself and a wide screen, the small one room for itself; without room
/// for either there is none.
pub proof fn law_the_logo_has_room(width: u16, large: u16, small: u16)
    ensures
        width >= 72 && width >= large ==> logo_for(width, large, small).len() == 6,
        !(width >= 72 && width >= large) && width >= small ==> logo_for(width, large, small).len()
            == 3,
        !(width >= 72 && width >= large) && width < small ==> logo_for(width, large, small).len()
            == 0,
{
}

/// No row is wider than the widest.
pub proof fn law_no_row_is_wider(rows: Seq<Seq<char>>, i: int)
    requires
        0 <= i < rows.len(),
    ensures
        width::columns_of(rows[i]) <= widest(rows),
        exists|k: int| 0 <= k < rows.len() && width::columns_of(#[trigger] rows[k]) == widest(rows),
    decreases rows.len(),
{
    reveal_with_fuel(widest, 2);
    let rest = rows.drop_last();
    let last = rows.len() - 1;
    if rest.len() > 0 {
        let k = if i < last {
            i
        } else {
            0
        };
        law_no_row_is_wider(rest, k);
        assert(rest[k] == rows[k]);
        let w = choose|w: int|
            0 <= w < rest.len() && width::columns_of(#[trigger] rest[w]) == widest(rest);
        assert(rest[w] == rows[w]);
    }
    assert(width::columns_of(rows[last]) == width::columns_of(rows.last()));
}

/// A directory below the home directory is told from there; any other as it is.
pub proof fn law_home_is_told_by_a_sign(home: Seq<char>, below: Seq<char>, cwd: Seq<char>)
    ensures
        from_home(home, Some(home)) == "~"@,
        from_home(home + "/"@ + below, Some(home)) == "~/"@ + below,
        cwd != home && !text::begins(cwd, home + "/"@) ==> from_home(cwd, Some(home)) == cwd,
        from_home(cwd, None) == cwd,
{
    reveal_strlit("/");
    let at = home + "/"@;
    let path = at + below;
    assert(path.take(at.len() as int) =~= at);
    assert(path.skip((home.len() + "/"@.len()) as int) =~= below);
    assert(path.len() > home.len());
}

/// A directory that has room is shown whole, and there is room for at least twenty columns.
pub proof fn law_a_directory_with_room_is_shown_whole(
    path: Seq<char>,
    taken: usize,
    room: int,
    screen: int,
)
    ensures
        taken <= room ==> cwd_shown(path, taken, room) == path,
        taken > room ==> cwd_shown(path, taken, room) == cut_to_fit(path, room),
        cwd_room(screen) >= 20,
        screen >= 52 ==> cwd_room(screen) == screen - 32,
{
}

/// The banner tells the version, the directory and the model, if there is one, below the logo.
pub proof fn law_the_banner_tells_what_runs(
    art: Seq<StyledLineView>,
    version: Seq<char>,
    cwd: Seq<char>,
    model: Option<Seq<char>>,
    i: int,
)
    ensures
        ({
            let lines = banner_of(art, version, cwd, model);
            let info = lines[lines.len() - 2];
            &&& lines.len() == (if art.len() == 0 {
                2
            } else {
                art.len() + 3
            })
            &&& 0 <= i < art.len() ==> lines[i] == art[i]
            &&& info.spans[0].text == "v"@ + version
            &&& info.spans[3].text == cwd
            &&& model matches Some(model) ==> info.spans.len() == 6 && info.spans[5].text == model
            &&& model is None ==> info.spans.len() == 4
            &&& lines.last().spans.len() == 0
        }),
{
}

} // verus!
