//! Bringing the scrollback up to date: entries that will not change any more go into it whole, and
//! a message that still grows goes into it line by line.
use vstd::prelude::*;

use crate::cursor;
use crate::inline_tui::state::{InlineApp, InlineAppView, StreamingCtx, StreamingCtxView};
use crate::markdown_stream;
use crate::markdown_stream::{MarkdownStreamCollector, MarkdownStreamCollectorView};
use crate::styled;
use crate::styled::{StyledLine, StyledLineView, StyledSpan, StyledSpanView, Tint};
use crate::text;
use crate::ui::{HistoryCellModel, HistoryCellModelView};

verus! {

broadcast use text::group_views;

/// What comes next: nothing; an entry that goes into the scrollback whole; the end of a message
/// that grew, given the text that is left; or a message that grows or has just finished, given the
/// text to render, if any.
#[derive(Debug, PartialEq)]
pub enum FlushStep {
    Done,
    Cell { index: usize },
    EndStream { rest: String },
    Stream { source: Option<String>, finished: bool },
}

/// The model of `FlushStep`.
#[verifier::ext_equal]
pub enum FlushStepView {
    Done,
    Cell { index: usize },
    EndStream { rest: Seq<char> },
    Stream { source: Option<Seq<char>>, finished: bool },
}

impl View for FlushStep {
    type V = FlushStepView;

    open spec fn view(&self) -> FlushStepView {
        match *self {
            FlushStep::Done => FlushStepView::Done,
            FlushStep::Cell { index } => FlushStepView::Cell { index },
            FlushStep::EndStream { rest } => FlushStepView::EndStream { rest: rest@ },
            FlushStep::Stream { source, finished } => FlushStepView::Stream {
                source: text::opt_view(source),
                finished,
            },
        }
    }
}

impl Clone for FlushStep {
    fn clone(&self) -> (copy: Self)
        ensures
            copy@ == self@,
    {
        match self {
            FlushStep::Done => FlushStep::Done,
            FlushStep::Cell { index } => FlushStep::Cell { index: *index },
            FlushStep::EndStream { rest } => FlushStep::EndStream { rest: rest.clone() },
            FlushStep::Stream { source, finished } => FlushStep::Stream {
                source: text::copy_maybe(source),
                finished: *finished,
            },
        }
    }
}

/// The columns for the text of a message.
pub open spec fn message_columns(width: u16) -> usize {
    if width >= 10 {
        (width - 2) as usize
    } else {
        8
    }
}

/// A message of which nothing was shown yet.
pub open spec fn fresh_stream(app: InlineAppView, width: u16, index: int) -> StreamingCtxView {
    StreamingCtxView {
        collector: MarkdownStreamCollectorView {
            buffer: Seq::empty(),
            committed_line_count: 0,
            width: Some(message_columns(width)),
            cwd: match app.core.state.runtime.cwd {
                Some(cwd) => cwd,
                None => "."@,
            },
        },
        cell_index: index as usize,
        text_len_seen: 0,
        first_line_emitted: false,
    }
}

/// A message with what is new of its text taken in.
pub open spec fn fed(ctx: StreamingCtxView, words: Seq<char>) -> StreamingCtxView {
    let seen = ctx.text_len_seen as int;
    if cursor::byte_len(words) > seen {
        StreamingCtxView {
            collector: MarkdownStreamCollectorView {
                buffer: ctx.collector.buffer + words.skip(cursor::chars_before(words, seen)),
                ..ctx.collector
            },
            text_len_seen: cursor::byte_len(words) as usize,
            ..ctx
        }
    } else {
        ctx
    }
}

/// Whether what was taken in of a text ends where a character of it does.
pub open spec fn can_feed(ctx: StreamingCtxView, words: Seq<char>) -> bool {
    cursor::byte_len(words) > ctx.text_len_seen ==> cursor::boundary(
        words,
        ctx.text_len_seen as int,
    )
}

/// The message that the last entry is shown as: the one that is there, or a new one.
pub open spec fn stream_of(app: InlineAppView, width: u16) -> StreamingCtxView {
    match app.streaming {
        Some(ctx) => ctx,
        None => fresh_stream(app, width, app.core.state.transcript.history.len() - 1),
    }
}

/// What comes next, and the client after it was found.
pub open spec fn flush_step(app: InlineAppView, width: u16) -> (InlineAppView, FlushStepView) {
    let history = app.core.state.transcript.history;
    let at = app.rendered_cells as int;
    if width == 0 || at >= history.len() {
        (app, FlushStepView::Done)
    } else if at + 1 < history.len() {
        if app.streaming is Some && app.streaming->0.cell_index == at {
            (
                app,
                FlushStepView::EndStream {
                    rest: markdown_stream::final_source_of(app.streaming->0.collector.buffer),
                },
            )
        } else {
            (
                InlineAppView { streaming: None, ..app },
                FlushStepView::Cell { index: app.rendered_cells },
            )
        }
    } else {
        match history.last() {
            HistoryCellModelView::AssistantMessage(cell) => if app.streaming is Some
                && app.streaming->0.cell_index != at {
                (
                    app,
                    FlushStepView::EndStream {
                        rest: markdown_stream::final_source_of(
                            app.streaming->0.collector.buffer,
                        ),
                    },
                )
            } else {
                let ctx = fed(stream_of(app, width), cell.text);
                (
                    InlineAppView { streaming: Some(ctx), ..app },
                    FlushStepView::Stream {
                        source: if cell.streaming {
                            markdown_stream::committable(ctx.collector.buffer)
                        } else {
                            Some(markdown_stream::final_source_of(ctx.collector.buffer))
                        },
                        finished: !cell.streaming,
                    },
                )
            },
            _ => (app, FlushStepView::Cell { index: app.rendered_cells }),
        }
    }
}

/// Whether the text of the last entry, where it is a message that is being shown, goes on from what
/// was taken in of it.
pub open spec fn can_flush(app: InlineAppView) -> bool {
    let history = app.core.state.transcript.history;
    app.rendered_cells + 1 == history.len() ==> match (history.last(), app.streaming) {
        (HistoryCellModelView::AssistantMessage(cell), Some(ctx)) => ctx.cell_index
            == app.rendered_cells ==> can_feed(ctx, cell.text),
        _ => true,
    }
}

/// What is put in front of the first line of a message.
pub open spec fn bullet_of(first: bool) -> StyledSpanView {
    if first {
        styled::span_of("• "@, styled::bold_tinted(Tint::Magenta))
    } else {
        styled::span_of("  "@, styled::plain())
    }
}

/// The lines of a message as they go into the scrollback: the first line of all has a bullet in
/// front, the others are indented.
pub open spec fn message_lines(lines: Seq<StyledLineView>, first: bool) -> Seq<StyledLineView> {
    styled::all_prefixed(lines, bullet_of(first), styled::span_of("  "@, styled::plain()))
}

/// The lines of a message that are handed on now.
pub open spec fn drained_lines(ctx: StreamingCtxView, rendered: Seq<StyledLineView>, finished: bool) -> Seq<
    StyledLineView,
> {
    let from = ctx.collector.committed_line_count as int;
    if finished {
        markdown_stream::lines_between(rendered, from, rendered.len() as int)
    } else if markdown_stream::committable(ctx.collector.buffer) is Some {
        markdown_stream::lines_between(rendered, from, markdown_stream::complete_lines(rendered))
    } else {
        Seq::empty()
    }
}

/// A message after its lines were handed on.
pub open spec fn drained(ctx: StreamingCtxView, rendered: Seq<StyledLineView>, finished: bool) -> StreamingCtxView {
    let lines = drained_lines(ctx, rendered, finished);
    StreamingCtxView {
        collector: if finished {
            MarkdownStreamCollectorView {
                buffer: Seq::empty(),
                committed_line_count: 0,
                ..ctx.collector
            }
        } else {
            MarkdownStreamCollectorView {
                committed_line_count: (ctx.collector.committed_line_count + lines.len()) as usize,
                ..ctx.collector
            }
        },
        first_line_emitted: ctx.first_line_emitted || lines.len() > 0,
        ..ctx
    }
}

fn drain_streaming_ctx(ctx: &mut StreamingCtx, rendered: &Vec<StyledLine>, finished: bool) -> (lines: Vec<
    StyledLine,
>)
    ensures
        final(ctx)@ == drained(old(ctx)@, text::views(rendered@), finished),
        text::views(lines@) == message_lines(
            drained_lines(old(ctx)@, text::views(rendered@), finished),
            !old(ctx)@.first_line_emitted,
        ),
{
    let lines: Vec<StyledLine> = if finished {
        ctx.collector.finalize_and_drain(rendered)
    } else {
        ctx.collector.commit_complete_lines(rendered)
    };
    assert(text::views(lines@) =~= drained_lines(old(ctx)@, text::views(rendered@), finished));
    assert(lines@.len() == text::views(lines@).len());
    let first: bool = !ctx.first_line_emitted;
    if lines.len() > 0 {
        ctx.first_line_emitted = true;
    }
    let bullet: StyledSpan = if first {
        styled::span("• ", styled::bold_tinted(Tint::Magenta))
    } else {
        styled::span("  ", styled::plain())
    };
    let rest: StyledSpan = styled::span("  ", styled::plain());
    assert(ctx@ =~= drained(old(ctx)@, text::views(rendered@), finished));
    styled::prefix_lines(&lines, &bullet, &rest)
}

fn feed(ctx: &mut StreamingCtx, words: &str)
    requires
        can_feed(old(ctx)@, words@),
    ensures
        final(ctx)@ == fed(old(ctx)@, words@),
{
    let n: usize = cursor::len_of(words);
    if n > ctx.text_len_seen {
        let (_seen, delta) = cursor::split_at_byte(words, ctx.text_len_seen);
        ctx.collector.push_delta(delta.as_str());
        ctx.text_len_seen = n;
    }
}

/// A client whose stream has ended.
pub open spec fn stream_closed(app: InlineAppView) -> InlineAppView {
    InlineAppView {
        streaming: None,
        rendered_cells: if app.streaming is Some && app.streaming->0.cell_index
            == app.rendered_cells {
            (app.rendered_cells + 1) as usize
        } else {
            app.rendered_cells
        },
        ..app
    }
}

impl InlineApp {
    fn open_stream(&self, width: u16) -> (ctx: StreamingCtx)
        requires
            self@.core.state.transcript.history.len() > 0,
        ensures
            ctx@ == stream_of(self@, width),
    {
        match &self.streaming {
            Some(ctx) => ctx.clone(),
            None => {
                let columns: usize = if width >= 10 {
                    (width - 2) as usize
                } else {
                    8
                };
                let cwd: &str = match &self.core.state.runtime.cwd {
                    Some(cwd) => cwd.as_str(),
                    None => ".",
                };
                let n: usize = self.core.state.transcript.history.len();
                assert(self@.core.state.transcript.history.len() == n);
                StreamingCtx {
                    collector: MarkdownStreamCollector::new(Some(columns), cwd),
                    cell_index: n - 1,
                    text_len_seen: 0,
                    first_line_emitted: false,
                }
            },
        }
    }

    /// Finds what comes next. `width` is that of the screen.
    pub fn next_flush(&mut self, width: u16) -> (step: FlushStep)
        requires
            can_flush(old(self)@),
        ensures
            (final(self)@, step@) == flush_step(old(self)@, width),
    {
        let n: usize = self.core.state.transcript.history.len();
        let ghost history = self@.core.state.transcript.history;
        assert(history.len() == n);
        let at: usize = self.rendered_cells;
        if width == 0 || at >= n {
            return FlushStep::Done;
        }
        if at < n - 1 {
            if let Some(ctx) = &self.streaming {
                if ctx.cell_index == at {
                    return FlushStep::EndStream { rest: ctx.collector.final_source() };
                }
            }
            self.streaming = None;
            return FlushStep::Cell { index: at };
        }
        assert(history.last() == self.core.state.transcript.history@[n - 1]@);
        if let HistoryCellModel::AssistantMessage(cell) = &self.core.state.transcript.history[n - 1] {
            if let Some(ctx) = &self.streaming {
                if ctx.cell_index != at {
                    return FlushStep::EndStream { rest: ctx.collector.final_source() };
                }
            }
            let mut ctx: StreamingCtx = self.open_stream(width);
            proof {
                cursor::lemma_ends(cell.text@);
            }
            feed(&mut ctx, cell.text.as_str());
            let finished: bool = !cell.streaming;
            let source: Option<String> = if finished {
                Some(ctx.collector.final_source())
            } else {
                ctx.collector.committable_source()
            };
            self.streaming = Some(ctx);
            return FlushStep::Stream { source, finished };
        }
        FlushStep::Cell { index: at }
    }

    /// Takes in that an entry went into the scrollback.
    pub fn cell_flushed(&mut self)
        requires
            old(self)@.rendered_cells < usize::MAX,
        ensures
            final(self)@ == (InlineAppView {
                rendered_cells: (old(self)@.rendered_cells + 1) as usize,
                ..old(self)@
            }),
    {
        self.rendered_cells = self.rendered_cells + 1;
    }

    /// Ends a message that grew: the lines that are left of it come back. `rendered` is what its
    /// text looks like.
    pub fn end_stream(&mut self, rendered: &Vec<StyledLine>) -> (lines: Vec<StyledLine>)
        requires
            old(self)@.rendered_cells < usize::MAX,
        ensures
            match old(self)@.streaming {
                Some(ctx) => text::views(lines@) == message_lines(
                    drained_lines(ctx, text::views(rendered@), true),
                    !ctx.first_line_emitted,
                ) && final(self)@ == stream_closed(old(self)@),
                None => lines@.len() == 0 && final(self)@ == old(self)@,
            },
    {
        let mut ctx: StreamingCtx = match &self.streaming {
            Some(ctx) => ctx.clone(),
            None => {
                return Vec::new();
            },
        };
        let lines: Vec<StyledLine> = drain_streaming_ctx(&mut ctx, rendered, true);
        self.streaming = None;
        if ctx.cell_index == self.rendered_cells {
            self.rendered_cells = self.rendered_cells + 1;
        }
        lines
    }

    /// Hands on what is new of a message. `rendered` is what the text of the step looks like. The
    /// flush is over unless the message has finished.
    pub fn drain_stream(&mut self, rendered: &Vec<StyledLine>, finished: bool) -> (lines: Vec<StyledLine>)
        requires
            old(self)@.rendered_cells < usize::MAX,
        ensures
            match old(self)@.streaming {
                Some(ctx) => text::views(lines@) == message_lines(
                    drained_lines(ctx, text::views(rendered@), finished),
                    !ctx.first_line_emitted,
                ) && final(self)@ == if finished {
                    InlineAppView {
                        streaming: None,
                        rendered_cells: (old(self)@.rendered_cells + 1) as usize,
                        ..old(self)@
                    }
                } else {
                    InlineAppView {
                        streaming: Some(drained(ctx, text::views(rendered@), finished)),
                        ..old(self)@
                    }
                },
                None => lines@.len() == 0 && final(self)@ == old(self)@,
            },
    {
        let mut ctx: StreamingCtx = match &self.streaming {
            Some(ctx) => ctx.clone(),
            None => {
                return Vec::new();
            },
        };
        let lines: Vec<StyledLine> = drain_streaming_ctx(&mut ctx, rendered, finished);
        if finished {
            self.streaming = None;
            self.rendered_cells = self.rendered_cells + 1;
        } else {
            self.streaming = Some(ctx);
        }
        lines
    }
}

/// What is taken in of a message that only grows is its text: no piece is missed and none comes
/// twice.
pub proof fn law_a_growing_message_is_taken_in_whole(
    ctx: StreamingCtxView,
    before: Seq<char>,
    more: Seq<char>,
)
    requires
        ctx.collector.buffer == before,
        ctx.text_len_seen == cursor::byte_len(before),
        cursor::byte_len(before + more) <= usize::MAX,
    ensures
        can_feed(ctx, before + more),
        fed(ctx, before + more).collector.buffer == before + more,
        fed(ctx, before + more).text_len_seen == cursor::byte_len(before + more),
{
    let words = before + more;
    let k = before.len() as int;
    assert(words.take(k) =~= before);
    cursor::lemma_chars_before_byte_at(words, k);
    cursor::lemma_encode_concat(before, more);
    assert(cursor::byte_at(words, k) == cursor::byte_len(before));
    assert(before + words.skip(k) =~= words);
    cursor::lemma_ends(more);
    if cursor::byte_len(more) == 0 {
        assert(more.len() == 0);
        assert(words =~= before);
    }
}

/// A message has one bullet: it stands in front of the first line that is ever shown of it, and no
/// other line has one.
pub proof fn law_a_message_has_one_bullet(
    ctx: StreamingCtxView,
    rendered: Seq<StyledLineView>,
    finished: bool,
    i: int,
)
    requires
        0 <= i < drained_lines(ctx, rendered, finished).len(),
    ensures
        drained(ctx, rendered, finished).first_line_emitted,
        message_lines(
            drained_lines(ctx, rendered, finished),
            !ctx.first_line_emitted,
        )[i].spans[0] == bullet_of(i == 0 && !ctx.first_line_emitted),
{
}

/// Entries go into the scrollback in their order: what comes next is always the first that is not in it
/// yet, and nothing comes exactly where all are in it or there is no room.
pub proof fn law_entries_go_in_order(app: InlineAppView, width: u16)
    ensures
        ({
            let history = app.core.state.transcript.history;
            let step = flush_step(app, width);
            let last = app.rendered_cells + 1 == history.len();
            let message = last && history.last() is AssistantMessage;
            &&& step.1 is Done <==> width == 0 || app.rendered_cells >= history.len()
            &&& step.1 matches FlushStepView::Cell { index } ==> index == app.rendered_cells && index
                < history.len() && !message
            &&& step.1 is Stream ==> message
            &&& step.1 matches FlushStepView::Stream { finished, .. } ==> (finished
                <==> !history.last()->AssistantMessage_0.streaming)
            &&& step.1 is EndStream ==> app.streaming is Some
            &&& step.0.rendered_cells == app.rendered_cells
            &&& step.0.core == app.core
        }),
{
}

/// What is shown of a message that grows goes on where it left off: the lines that come out now, behind
/// those that came out before, are the first lines of the message; and once it is finished, all of them.
pub proof fn law_a_message_comes_out_in_pieces(
    ctx: StreamingCtxView,
    rendered: Seq<StyledLineView>,
    finished: bool,
)
    requires
        ctx.collector.committed_line_count <= rendered.len() <= usize::MAX,
    ensures
        ({
            let from = ctx.collector.committed_line_count as int;
            let lines = drained_lines(ctx, rendered, finished);
            let after = drained(ctx, rendered, finished);
            &&& from + lines.len() <= rendered.len()
            &&& rendered.take(from) + lines == rendered.take(from + lines.len())
            &&& finished ==> from + lines.len() == rendered.len()
            &&& !finished ==> after.collector.committed_line_count == from + lines.len()
                && after.collector.buffer == ctx.collector.buffer
            &&& finished ==> after.collector.committed_line_count == 0
                && after.collector.buffer.len() == 0
        }),
{
    let from = ctx.collector.committed_line_count as int;
    let lines = drained_lines(ctx, rendered, finished);
    let to = from + lines.len();
    if to <= rendered.len() {
        assert(rendered.take(from) + lines =~= rendered.take(to));
    }
}

/// A message stands behind a bullet, and its further lines are set in as far.
pub proof fn law_lines_of_a_message_are_set_in(lines: Seq<StyledLineView>, first: bool, i: int)
    requires
        0 <= i < lines.len(),
    ensures
        ({
            let shown = message_lines(lines, first);
            &&& shown.len() == lines.len()
            &&& shown[i].spans.len() == lines[i].spans.len() + 1
            &&& shown[i].spans.skip(1) == lines[i].spans
            &&& shown[i].spans[0].text == (if first && i == 0 {
                "• "@
            } else {
                "  "@
            })
        }),
{
    assert(message_lines(lines, first)[i].spans.skip(1) =~= lines[i].spans);
}

/// A stream that ends leaves none open, and its entry is done if it is the one that comes next.
pub proof fn law_an_ended_stream_is_done(app: InlineAppView)
    requires
        app.rendered_cells < usize::MAX,
        app.streaming is Some,
    ensures
        stream_closed(app).streaming is None,
        app.streaming->0.cell_index == app.rendered_cells ==> stream_closed(app).rendered_cells
            == app.rendered_cells + 1,
        app.streaming->0.cell_index != app.rendered_cells ==> stream_closed(app).rendered_cells
            == app.rendered_cells,
        stream_closed(app).core == app.core,
{
}

/// A message that begins to be shown has shown nothing yet; it has the width of the screen beside its
/// bullet, and is read from the directory of the client.
pub proof fn law_a_message_begins_with_nothing_shown(app: InlineAppView, width: u16, index: int)
    requires
        0 <= index <= usize::MAX,
    ensures
        ({
            let ctx = fresh_stream(app, width, index);
            &&& ctx.collector.buffer.len() == 0 && ctx.collector.committed_line_count == 0
            &&& ctx.text_len_seen == 0 && !ctx.first_line_emitted
            &&& ctx.cell_index == index
            &&& width >= 10 ==> ctx.collector.width == Some((width - 2) as usize)
            &&& width < 10 ==> ctx.collector.width == Some(8usize)
            &&& app.core.state.runtime.cwd matches Some(cwd) ==> ctx.collector.cwd == cwd
            &&& app.core.state.runtime.cwd is None ==> ctx.collector.cwd == "."@
        }),
{
}

/// A message that grows is taken in whole before anything of it is shown; while it grows what can be
/// committed of it is rendered, and once it is finished all of it.
pub proof fn law_a_growing_message_is_rendered(app: InlineAppView, width: u16)
    requires
        width > 0,
        app.rendered_cells + 1 == app.core.state.transcript.history.len(),
        app.core.state.transcript.history.last() is AssistantMessage,
        app.streaming matches Some(ctx) ==> ctx.cell_index == app.rendered_cells,
    ensures
        ({
            let cell = app.core.state.transcript.history.last()->AssistantMessage_0;
            let step = flush_step(app, width);
            let ctx = step.0.streaming->0;
            &&& step.0.streaming is Some
            &&& step.1 matches FlushStepView::Stream { source, finished } && finished
                == !cell.streaming && (cell.streaming ==> source == markdown_stream::committable(
                ctx.collector.buffer,
            )) && (!cell.streaming ==> source == Some(
                markdown_stream::final_source_of(ctx.collector.buffer),
            ))
            &&& app.streaming is None ==> ctx.cell_index == app.rendered_cells
        }),
{
}

} // verus!
