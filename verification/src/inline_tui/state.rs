//! What the inline client holds beside the client itself.
use vstd::prelude::*;

use crate::app;
use crate::app::{TranscriptApp, TranscriptAppView};
use crate::bottom_pane;
use crate::bottom_pane::{BottomPaneProps, BottomPanePropsView};
use crate::composer;
use crate::cursor;
use crate::draw::Area;
use crate::markdown_stream::{MarkdownStreamCollector, MarkdownStreamCollectorView};
use crate::overlay;
use crate::overlay::{Overlay, OverlayView};
use crate::picker;
use crate::protocol::{ApprovalQuestion, ApprovalQuestionView};
use crate::text;
use crate::ui::{AppStateView, ComposerStateView, ConnectionState, PendingApproval};

verus! {

broadcast use text::group_views;

/// A message of the assistant that is shown while it grows: what was handed on of it, the entry
/// that it is, how many bytes of it were taken in, and whether anything was shown.
#[derive(Debug, PartialEq)]
pub struct StreamingCtx {
    pub collector: MarkdownStreamCollector,
    pub cell_index: usize,
    pub text_len_seen: usize,
    pub first_line_emitted: bool,
}

/// The model of `StreamingCtx`.
#[verifier::ext_equal]
pub struct StreamingCtxView {
    pub collector: MarkdownStreamCollectorView,
    pub cell_index: usize,
    pub text_len_seen: usize,
    pub first_line_emitted: bool,
}

impl View for StreamingCtx {
    type V = StreamingCtxView;

    open spec fn view(&self) -> StreamingCtxView {
        StreamingCtxView {
            collector: self.collector@,
            cell_index: self.cell_index,
            text_len_seen: self.text_len_seen,
            first_line_emitted: self.first_line_emitted,
        }
    }
}

impl Clone for StreamingCtx {
    fn clone(&self) -> (copy: Self)
        ensures
            copy@ == self@,
    {
        StreamingCtx {
            collector: self.collector.clone(),
            cell_index: self.cell_index,
            text_len_seen: self.text_len_seen,
            first_line_emitted: self.first_line_emitted,
        }
    }
}

/// The inline client: how many entries are in the scrollback, since when the turn runs, in seconds,
/// and the connection that this goes by, the notice, whether to quit, the label of the skill in
/// use, what takes the place of the composer, the approval that was last asked for, the message
/// that grows, and the prompts that were sent, with the place in them and the line that was left
/// for them.
#[derive(Debug, PartialEq)]
pub struct InlineApp {
    pub core: TranscriptApp,
    pub rendered_cells: usize,
    pub task_started_at: Option<u64>,
    pub last_connection: ConnectionState,
    pub toast: Option<String>,
    pub should_quit: bool,
    pub selected_skill_label: Option<String>,
    pub overlay: Option<Overlay>,
    pub last_approval_id: Option<String>,
    pub streaming: Option<StreamingCtx>,
    pub prompt_history: Vec<String>,
    pub history_cursor: Option<usize>,
    pub history_draft: Option<String>,
}

/// The model of `InlineApp`.
#[verifier::ext_equal]
pub struct InlineAppView {
    pub core: TranscriptAppView,
    pub rendered_cells: usize,
    pub task_started_at: Option<u64>,
    pub last_connection: ConnectionState,
    pub toast: Option<Seq<char>>,
    pub should_quit: bool,
    pub selected_skill_label: Option<Seq<char>>,
    pub overlay: Option<OverlayView>,
    pub last_approval_id: Option<Seq<char>>,
    pub streaming: Option<StreamingCtxView>,
    pub prompt_history: Seq<Seq<char>>,
    pub history_cursor: Option<usize>,
    pub history_draft: Option<Seq<char>>,
}

impl View for InlineApp {
    type V = InlineAppView;

    open spec fn view(&self) -> InlineAppView {
        InlineAppView {
            core: self.core@,
            rendered_cells: self.rendered_cells,
            task_started_at: self.task_started_at,
            last_connection: self.last_connection,
            toast: text::opt_view(self.toast),
            should_quit: self.should_quit,
            selected_skill_label: text::opt_view(self.selected_skill_label),
            overlay: text::opt_view(self.overlay),
            last_approval_id: text::opt_view(self.last_approval_id),
            streaming: text::opt_view(self.streaming),
            prompt_history: text::views(self.prompt_history@),
            history_cursor: self.history_cursor,
            history_draft: text::opt_view(self.history_draft),
        }
    }
}

impl Clone for InlineApp {
    fn clone(&self) -> (copy: Self)
        ensures
            copy@ == self@,
    {
        InlineApp {
            core: self.core.clone(),
            rendered_cells: self.rendered_cells,
            task_started_at: self.task_started_at,
            last_connection: self.last_connection,
            toast: text::copy_maybe(&self.toast),
            should_quit: self.should_quit,
            selected_skill_label: text::copy_maybe(&self.selected_skill_label),
            overlay: text::copy_maybe(&self.overlay),
            last_approval_id: text::copy_maybe(&self.last_approval_id),
            streaming: text::copy_maybe(&self.streaming),
            prompt_history: text::copy_all(&self.prompt_history),
            history_cursor: self.history_cursor,
            history_draft: text::copy_maybe(&self.history_draft),
        }
    }
}

/// The client with its line changed.
pub open spec fn with_composer(app: InlineAppView, c: ComposerStateView) -> InlineAppView {
    InlineAppView {
        core: app::with_state(app.core, AppStateView { composer: c, ..app.core.state }),
        ..app
    }
}

/// Whether the cursor of the line, and that of what takes its place, are on boundaries.
pub open spec fn in_order(app: InlineAppView) -> bool {
    &&& composer::on_boundary(app.core.state.composer)
    &&& app.overlay matches Some(shown) ==> overlay::well_formed(shown)
}

/// The client away from the prompts that were sent.
pub open spec fn nav_reset(app: InlineAppView) -> InlineAppView {
    InlineAppView { history_cursor: None, history_draft: None, ..app }
}

/// The client with a notice.
pub open spec fn with_toast(app: InlineAppView, words: Seq<char>) -> InlineAppView {
    InlineAppView { toast: Some(words), ..app }
}

/// The label of the skill in use.
pub open spec fn label_of(core: TranscriptAppView) -> Option<Seq<char>> {
    match core.selected_skill {
        Some(skill) => Some(picker::skill_label(skill)),
        None => None,
    }
}

// -- Prompts that were sent ------------------------------------------------------------------------

/// The most prompts that are kept.
pub const MAX_PROMPTS: usize = 200;

/// The prompts with one more: without the space around it, not when it is blank or the last one
/// again, and with the oldest left out where there are too many.
pub open spec fn prompt_kept(history: Seq<Seq<char>>, words: Seq<char>) -> Seq<Seq<char>> {
    let trimmed = text::trim_of(words);
    if trimmed.len() == 0 || (history.len() > 0 && history.last() == trimmed) {
        history
    } else {
        let more = history.push(trimmed);
        if more.len() > MAX_PROMPTS {
            more.skip(more.len() - MAX_PROMPTS)
        } else {
            more
        }
    }
}

/// The line that holds a prompt, with the cursor at its end.
pub open spec fn line_with(c: ComposerStateView, words: Seq<char>) -> ComposerStateView {
    ComposerStateView { buffer: words, cursor: cursor::byte_len(words) as usize, ..c }
}

/// The client at one of the prompts that were sent.
pub open spec fn at_prompt(app: InlineAppView, i: int) -> InlineAppView {
    if 0 <= i < app.prompt_history.len() {
        with_composer(
            InlineAppView { history_cursor: Some(i as usize), ..app },
            line_with(app.core.state.composer, app.prompt_history[i]),
        )
    } else {
        app
    }
}

/// The client one prompt back: the line that was there is kept for the way forth.
pub open spec fn prompt_before(app: InlineAppView) -> InlineAppView {
    if app.prompt_history.len() == 0 {
        app
    } else {
        match app.history_cursor {
            Some(i) => at_prompt(
                app,
                if i == 0 {
                    0
                } else {
                    i - 1
                },
            ),
            None => at_prompt(
                InlineAppView { history_draft: Some(app.core.state.composer.buffer), ..app },
                app.prompt_history.len() - 1,
            ),
        }
    }
}

/// The client one prompt forth; after the last one the line that was kept comes back.
pub open spec fn prompt_after(app: InlineAppView) -> InlineAppView {
    match app.history_cursor {
        Some(i) => if i + 1 >= app.prompt_history.len() {
            let draft = match app.history_draft {
                Some(draft) => draft,
                None => Seq::empty(),
            };
            with_composer(
                InlineAppView { history_cursor: None, history_draft: None, ..app },
                line_with(app.core.state.composer, draft),
            )
        } else {
            at_prompt(app, i + 1)
        },
        None => app,
    }
}

/// A client whose clock was brought up to date.
pub open spec fn clocked(app: InlineAppView, now: u64) -> InlineAppView {
    let connection = app.core.state.connection;
    if connection == app.last_connection {
        app
    } else {
        InlineAppView {
            task_started_at: if connection == ConnectionState::Streaming || connection
                == ConnectionState::WaitingApproval {
                if app.task_started_at is Some {
                    app.task_started_at
                } else {
                    Some(now)
                }
            } else {
                None
            },
            last_connection: connection,
            ..app
        }
    }
}

impl InlineApp {
    /// The client as it comes to the screen.
    pub fn new(core: TranscriptApp) -> (app: Self)
        ensures
            app@ == (InlineAppView {
                core: core@,
                rendered_cells: 0,
                task_started_at: None,
                last_connection: core@.state.connection,
                toast: None,
                should_quit: false,
                selected_skill_label: label_of(core@),
                overlay: None,
                last_approval_id: None,
                streaming: None,
                prompt_history: Seq::empty(),
                history_cursor: None,
                history_draft: None,
            }),
    {
        let last_connection: ConnectionState = core.state.connection;
        let mut app = InlineApp {
            core,
            rendered_cells: 0,
            task_started_at: None,
            last_connection,
            toast: None,
            should_quit: false,
            selected_skill_label: None,
            overlay: None,
            last_approval_id: None,
            streaming: None,
            prompt_history: Vec::new(),
            history_cursor: None,
            history_draft: None,
        };
        app.refresh_selected_skill_label();
        app
    }

    /// Brings the label of the skill in use up to date.
    pub fn refresh_selected_skill_label(&mut self)
        ensures
            final(self)@ == (InlineAppView {
                selected_skill_label: label_of(old(self)@.core),
                ..old(self)@
            }),
    {
        self.selected_skill_label = match &self.core.selected_skill {
            Some(skill) => Some(picker::selected_skill_label(skill)),
            None => None,
        };
    }

    /// Goes away from the prompts that were sent.
    pub fn reset_history_nav(&mut self)
        ensures
            final(self)@ == nav_reset(old(self)@),
    {
        self.history_cursor = None;
        self.history_draft = None;
    }

    /// Keeps a prompt that was sent.
    pub fn push_history_entry(&mut self, words: &str)
        ensures
            final(self)@ == (InlineAppView {
                prompt_history: prompt_kept(old(self)@.prompt_history, words@),
                ..old(self)@
            }),
    {
        let trimmed: String = text::trim(words);
        if text::is_empty(trimmed.as_str()) {
            return ;
        }
        let n: usize = self.prompt_history.len();
        if n > 0 {
            assert(self@.prompt_history.last() == self.prompt_history@[n - 1]@);
            if text::same_text(self.prompt_history[n - 1].as_str(), trimmed.as_str()) {
                return ;
            }
        }
        self.prompt_history.push(trimmed);
        let count: usize = self.prompt_history.len();
        if count > MAX_PROMPTS {
            let ghost more = self.prompt_history@;
            let mut kept: Vec<String> = Vec::new();
            let mut i: usize = count - MAX_PROMPTS;
            let ghost from = i as int;
            while i < count
                invariant
                    from <= i <= count,
                    more == self.prompt_history@,
                    count == more.len(),
                    kept@.len() == i - from,
                    forall|j: int| 0 <= j < i - from ==> (#[trigger] kept@[j])@ == more[from + j]@,
                    self@ == (InlineAppView {
                        prompt_history: text::views(more),
                        ..old(self)@
                    }),
                decreases count - i,
            {
                kept.push(self.prompt_history[i].clone());
                i = i + 1;
            }
            assert(text::views(kept@) =~= text::views(more).skip(from));
            self.prompt_history = kept;
        }
    }

    fn set_composer_from_history(&mut self, i: usize)
        ensures
            final(self)@ == at_prompt(old(self)@, i as int),
            in_order(old(self)@) ==> in_order(final(self)@),
    {
        if i < self.prompt_history.len() {
            let entry: String = self.prompt_history[i].clone();
            proof {
                assert(self@.prompt_history[i as int] == self.prompt_history@[i as int]@);
                cursor::lemma_ends(entry@);
            }
            self.history_cursor = Some(i);
            self.core.state.composer.cursor = cursor::len_of(entry.as_str());
            self.core.state.composer.buffer = entry;
        }
    }

    /// Goes one prompt back.
    pub fn history_prev(&mut self)
        ensures
            final(self)@ == prompt_before(old(self)@),
            in_order(old(self)@) ==> in_order(final(self)@),
    {
        let n: usize = self.prompt_history.len();
        assert(self@.prompt_history.len() == n);
        if n == 0 {
            return ;
        }
        let i: usize = match self.history_cursor {
            Some(i) => {
                if i == 0 {
                    0
                } else {
                    i - 1
                }
            },
            None => {
                self.history_draft = Some(self.core.state.composer.buffer.clone());
                n - 1
            },
        };
        self.set_composer_from_history(i);
    }

    /// Goes one prompt forth.
    pub fn history_next(&mut self)
        ensures
            final(self)@ == prompt_after(old(self)@),
            in_order(old(self)@) ==> in_order(final(self)@),
    {
        if let Some(i) = self.history_cursor {
            let n: usize = self.prompt_history.len();
            assert(self@.prompt_history.len() == n);
            if n == 0 || i >= n - 1 {
                let draft: String = match &self.history_draft {
                    Some(draft) => draft.clone(),
                    None => {
                        let none: String = String::new();
                        assert(none@ =~= Seq::<char>::empty());
                        none
                    },
                };
                proof {
                    cursor::lemma_ends(draft@);
                }
                self.history_draft = None;
                self.core.state.composer.cursor = cursor::len_of(draft.as_str());
                self.core.state.composer.buffer = draft;
                self.history_cursor = None;
            } else {
                self.set_composer_from_history(i + 1);
            }
        }
    }

    // -- The pane ----------------------------------------------------------------------------------

    /// Takes in the time: a turn runs from when it starts to stream, or to wait for an approval,
    /// until it does neither.
    pub fn update_task_clock(&mut self, now: u64)
        ensures
            final(self)@ == clocked(old(self)@, now),
    {
        let connection: ConnectionState = self.core.state.connection;
        if connection != self.last_connection {
            match connection {
                ConnectionState::Streaming | ConnectionState::WaitingApproval => {
                    if self.task_started_at.is_none() {
                        self.task_started_at = Some(now);
                    }
                },
                _ => {
                    self.task_started_at = None;
                },
            }
            self.last_connection = connection;
        }
    }

    /// What the pane shows.
    pub fn bottom_pane_props(&self, now: u64) -> (props: BottomPaneProps<'_>)
        ensures
            props@ == pane_of(self@, now),
    {
        let task_seconds: Option<u64> = match self.task_started_at {
            Some(started) => {
                if now >= started {
                    Some(now - started)
                } else {
                    Some(0)
                }
            },
            None => None,
        };
        let selected_skill: Option<&str> = match &self.selected_skill_label {
            Some(label) => Some(label.as_str()),
            None => None,
        };
        let toast: Option<&str> = match &self.toast {
            Some(toast) => Some(toast.as_str()),
            None => None,
        };
        let pending_approval: Option<&PendingApproval> = match &self.core.state.approvals.pending {
            Some(pending) => Some(pending),
            None => None,
        };
        BottomPaneProps {
            connection: self.core.state.connection,
            approval_policy: self.core.state.runtime.approval_policy,
            sandbox_mode: self.core.state.runtime.sandbox_mode,
            selected_skill,
            composer_buffer: self.core.state.composer.buffer.as_str(),
            composer_cursor: self.core.state.composer.cursor,
            pending_approval,
            task_seconds,
            queued_prompts: 0,
            toast,
            hint: None,
            completion: None,
        }
    }

    /// The part of a screen that the client takes at its bottom: from ten to twenty-four rows for
    /// what takes the place of the composer, else the rows that the pane would like, as long as one
    /// row is left above. None on a screen without cells.
    pub fn viewport(&self, now: u64, width: u16, height: u16) -> (area: Option<Area>)
        ensures
            area == viewport_of(self@, now, width, height),
    {
        if width == 0 || height == 0 {
            return None;
        }
        let rows: u16 = if self.overlay.is_some() {
            crate::draw::greater(crate::draw::lesser(height, 24), 10)
        } else {
            let props = self.bottom_pane_props(now);
            let needed: u16 = bottom_pane::desired_height(&props, width);
            crate::draw::lesser(needed, crate::draw::greater(crate::draw::less(height, 1), 1))
        };
        Some(Area { x: 0, y: crate::draw::less(height, rows), width, height: rows })
    }

    /// Asks for a pending approval that was not asked for yet, where nothing takes the place of the
    /// composer. `questions` is what it asks, if that could be read.
    pub fn auto_open_approval_overlay(&mut self, questions: Option<Vec<ApprovalQuestion>>)
        ensures
            final(self)@ == approval_opened(old(self)@, text::opt_views(questions)),
            in_order(old(self)@) ==> in_order(final(self)@),
    {
        let pending: PendingApproval = match &self.core.state.approvals.pending {
            Some(pending) => pending.clone(),
            None => {
                self.last_approval_id = None;
                return ;
            },
        };
        if self.overlay.is_none() && !text::option_is(&self.last_approval_id, pending.id.as_str()) {
            self.last_approval_id = Some(pending.id.clone());
            self.overlay = Some(Overlay::for_pending_approval(pending, questions));
        }
    }
}

/// What the pane shows.
pub open spec fn pane_of(app: InlineAppView, now: u64) -> BottomPanePropsView {
    let s = app.core.state;
    BottomPanePropsView {
        connection: s.connection,
        approval_policy: s.runtime.approval_policy,
        sandbox_mode: s.runtime.sandbox_mode,
        selected_skill: app.selected_skill_label,
        composer_buffer: s.composer.buffer,
        composer_cursor: s.composer.cursor,
        pending_approval: s.approvals.pending,
        task_seconds: match app.task_started_at {
            Some(started) => if now >= started {
                Some((now - started) as u64)
            } else {
                Some(0)
            },
            None => None,
        },
        queued_prompts: 0,
        toast: app.toast,
        hint: None,
        completion: None,
    }
}

/// The part of a screen that the client takes.
pub open spec fn viewport_of(app: InlineAppView, now: u64, width: u16, height: u16) -> Option<Area> {
    if width == 0 || height == 0 {
        None
    } else {
        let rows = if app.overlay is Some {
            crate::draw::greater(crate::draw::lesser(height, 24), 10)
        } else {
            crate::draw::lesser(
                bottom_pane::wanted_height(pane_of(app, now), width) as u16,
                crate::draw::greater(crate::draw::less(height, 1), 1),
            )
        };
        Some(Area { x: 0, y: crate::draw::less(height, rows), width, height: rows })
    }
}

/// The client with a pending approval asked for, where it was not yet.
pub open spec fn approval_opened(app: InlineAppView, questions: Option<Seq<ApprovalQuestionView>>) -> InlineAppView {
    match app.core.state.approvals.pending {
        Some(pending) => if app.overlay is None && app.last_approval_id != Some(pending.id) {
            InlineAppView {
                last_approval_id: Some(pending.id),
                overlay: Some(overlay::asked_as(pending, questions)),
                ..app
            }
        } else {
            app
        },
        None => InlineAppView { last_approval_id: None, ..app },
    }
}

/// An approval is asked for once: what was put off does not come back on its own.
pub proof fn law_approval_is_asked_for_once(
    app: InlineAppView,
    questions: Option<Seq<ApprovalQuestionView>>,
)
    ensures
        ({
            let asked = approval_opened(app, questions);
            let closed = InlineAppView { overlay: None, ..asked };
            app.core.state.approvals.pending is Some && app.overlay is None ==> approval_opened(
                closed,
                questions,
            ) == closed
        }),
{
}

/// The client after a number of steps back among the prompts.
pub open spec fn prompts_back(app: InlineAppView, steps: nat) -> InlineAppView
    decreases steps,
{
    if steps == 0 {
        app
    } else {
        prompt_before(prompts_back(app, (steps - 1) as nat))
    }
}

/// The client after a number of steps forth among the prompts.
pub open spec fn prompts_forth(app: InlineAppView, steps: nat) -> InlineAppView
    decreases steps,
{
    if steps == 0 {
        app
    } else {
        prompts_forth(prompt_after(app), (steps - 1) as nat)
    }
}

/// The client back at the line that was left for the prompts, with the cursor at its end.
pub open spec fn back_at_draft(app: InlineAppView) -> InlineAppView {
    with_composer(
        InlineAppView { history_cursor: None, history_draft: None, ..app },
        line_with(app.core.state.composer, app.core.state.composer.buffer),
    )
}

/// However far one goes back among the prompts, as many steps forth bring back the line that was
/// left for them, with the cursor at its end, and leave the prompts and all else as they were. Steps
/// back past the first prompt need no step forth, and steps forth past the line change nothing.
/// Without a step back, or without prompts, the cursor stays too.
pub proof fn law_draft_comes_back(app: InlineAppView, steps: nat, forth: nat)
    requires
        app.prompt_history.len() <= usize::MAX,
        cursor::byte_len(app.core.state.composer.buffer) <= usize::MAX,
        app.history_cursor is None,
        forth >= steps || forth >= app.prompt_history.len(),
    ensures
        ({
            let there = prompts_forth(prompts_back(app, steps), forth);
            let went = steps > 0 && app.prompt_history.len() > 0;
            &&& there == if went {
                back_at_draft(app)
            } else {
                app
            }
            &&& there.core.state.composer.buffer == app.core.state.composer.buffer
            &&& went ==> there.core.state.composer.cursor == cursor::byte_len(
                app.core.state.composer.buffer,
            )
            &&& there.history_cursor is None
            &&& there.prompt_history == app.prompt_history
        }),
{
    let n = app.prompt_history.len();
    if steps == 0 || n == 0 {
        lemma_no_prompts(app, steps);
        lemma_no_step_forth(app, forth);
    } else {
        lemma_back_and_forth(app, steps, forth);
    }
}

proof fn lemma_no_prompts(app: InlineAppView, steps: nat)
    requires
        steps == 0 || app.prompt_history.len() == 0,
    ensures
        prompts_back(app, steps) == app,
    decreases steps,
{
    if steps > 0 {
        lemma_no_prompts(app, (steps - 1) as nat);
    }
}

proof fn lemma_back_and_forth(app: InlineAppView, steps: nat, forth: nat)
    requires
        0 < app.prompt_history.len() <= usize::MAX,
        app.history_cursor is None,
        steps > 0,
        forth >= steps || forth >= app.prompt_history.len(),
    ensures
        prompts_forth(prompts_back(app, steps), forth) == back_at_draft(app),
{
    let n = app.prompt_history.len();
    let taken = if steps <= n {
        steps
    } else {
        n
    };
    lemma_prompts_back(app, steps);
    lemma_prompts_forth(app, prompts_back(app, steps), taken, forth);
}

/// The client at one of the prompts, come to from its line.
spec fn gone_back(app: InlineAppView, i: int) -> InlineAppView {
    at_prompt(
        InlineAppView { history_draft: Some(app.core.state.composer.buffer), ..app },
        i,
    )
}

proof fn lemma_prompts_back(app: InlineAppView, steps: nat)
    requires
        0 < app.prompt_history.len() <= usize::MAX,
        app.history_cursor is None,
        steps > 0,
    ensures
        prompts_back(app, steps) == gone_back(
            app,
            if steps <= app.prompt_history.len() {
                app.prompt_history.len() - steps
            } else {
                0
            },
        ),
    decreases steps,
{
    if steps > 1 {
        lemma_prompts_back(app, (steps - 1) as nat);
    } else {
        assert(prompts_back(app, 0) == app);
    }
}

proof fn lemma_prompts_forth(app: InlineAppView, at: InlineAppView, left: nat, forth: nat)
    requires
        0 < left <= app.prompt_history.len() <= usize::MAX,
        at == gone_back(app, app.prompt_history.len() - left),
        forth >= left,
    ensures
        prompts_forth(at, forth) == back_at_draft(app),
    decreases left,
{
    if left > 1 {
        lemma_prompts_forth(app, prompt_after(at), (left - 1) as nat, (forth - 1) as nat);
    } else {
        assert(prompt_after(at) == back_at_draft(app));
        lemma_no_step_forth(back_at_draft(app), (forth - 1) as nat);
    }
}

proof fn lemma_no_step_forth(app: InlineAppView, steps: nat)
    requires
        app.history_cursor is None,
    ensures
        prompts_forth(app, steps) == app,
    decreases steps,
{
    if steps > 0 {
        lemma_no_step_forth(app, (steps - 1) as nat);
    }
}

/// The prompts that are kept are never more than the most, and no two that follow each other are
/// the same.
pub proof fn law_prompts_are_bounded_and_differ(history: Seq<Seq<char>>, words: Seq<char>)
    requires
        history.len() <= MAX_PROMPTS,
        forall|i: int| 0 <= i < history.len() - 1 ==> #[trigger] history[i] != history[i + 1],
    ensures
        prompt_kept(history, words).len() <= MAX_PROMPTS,
        forall|i: int|
            0 <= i < prompt_kept(history, words).len() - 1 ==> #[trigger] prompt_kept(
                history,
                words,
            )[i] != prompt_kept(history, words)[i + 1],
{
    let kept = prompt_kept(history, words);
    let trimmed = text::trim_of(words);
    let more = history.push(trimmed);
    if kept != history {
        assert forall|i: int| 0 <= i < kept.len() - 1 implies #[trigger] kept[i] != kept[i
            + 1] by {
            let off = more.len() - kept.len();
            assert(kept[i] == more[off + i]);
            assert(kept[i + 1] == more[off + i + 1]);
            if off + i + 1 < history.len() {
                assert(history[off + i] != history[off + i + 1]);
            } else {
                assert(more[off + i] == history.last());
            }
        }
    }
}

/// A prompt that is kept is the last one, without white space around it; those before it stay as they
/// are and in their order, the oldest giving way where there are too many. Nothing blank is kept.
pub proof fn law_a_kept_prompt_is_the_last(history: Seq<Seq<char>>, words: Seq<char>)
    requires
        history.len() <= 200,
    ensures
        ({
            let now = prompt_kept(history, words);
            let trimmed = text::trim_of(words);
            &&& text::blank(words) <==> trimmed.len() == 0
            &&& text::blank(words) ==> now == history
            &&& !text::blank(words) ==> now.len() > 0 && now.last() == trimmed
            &&& history.len() < 200 ==> forall|i: int|
                0 <= i < history.len() ==> i < now.len() && #[trigger] now[i] == history[i]
            &&& now == history || (history.len() == 200 && now == history.skip(1).push(trimmed))
                || now == history.push(trimmed)
            &&& now.len() <= 200
        }),
{
    text::lemma_trim_blank_iff(words);
    let trimmed = text::trim_of(words);
    if history.len() == 200 {
        assert(history.push(trimmed).skip(1) =~= history.skip(1).push(trimmed));
    }
}

/// Going back shows the prompt before the one that is shown, the last one first and the oldest at the
/// end; going forth shows the one behind it, and behind the last the draft. The cursor goes behind it.
pub proof fn law_prompts_are_gone_through_in_order(app: InlineAppView)
    requires
        app.prompt_history.len() <= usize::MAX,
        app.history_cursor matches Some(i) ==> i < app.prompt_history.len(),
    ensures
        ({
            let back = prompt_before(app);
            let forth = prompt_after(app);
            let count = app.prompt_history.len();
            let line = app.core.state.composer.buffer;
            &&& count == 0 ==> back == app
            &&& count > 0 && app.history_cursor is None ==> back.history_cursor == Some(
                (count - 1) as usize,
            ) && back.core.state.composer.buffer == app.prompt_history[count - 1]
                && back.history_draft == Some(line)
            &&& app.history_cursor matches Some(i) ==> (i > 0 ==> back.history_cursor == Some(
                (i - 1) as usize,
            ) && back.core.state.composer.buffer == app.prompt_history[i - 1])
            &&& app.history_cursor == Some(0usize) ==> back.history_cursor == Some(0usize)
                && back.core.state.composer.buffer == app.prompt_history[0]
            &&& app.history_cursor is None ==> forth == app
            &&& app.history_cursor matches Some(i) ==> (i + 1 < count ==> forth.history_cursor
                == Some((i + 1) as usize) && forth.core.state.composer.buffer
                == app.prompt_history[i + 1])
            &&& app.history_cursor matches Some(i) ==> (i + 1 == count ==> forth.history_cursor
                is None && (app.history_draft matches Some(draft)
                ==> forth.core.state.composer.buffer == draft))
            &&& back.history_cursor is Some ==> back.core.state.composer.cursor
                == cursor::byte_len(back.core.state.composer.buffer) as usize
            &&& back.prompt_history == app.prompt_history && forth.prompt_history
                == app.prompt_history
        }),
{
}

/// The clock of a task runs from the moment at which the client began to stream or to wait, through
/// both, and stops once it does neither.
pub proof fn law_the_clock_runs_with_the_task(app: InlineAppView, now: u64)
    ensures
        ({
            let after = clocked(app, now);
            let connection = app.core.state.connection;
            let busy = connection == ConnectionState::Streaming || connection
                == ConnectionState::WaitingApproval;
            let changed = connection != app.last_connection;
            &&& after.last_connection == connection
            &&& !changed ==> after == app
            &&& changed && busy && app.task_started_at is None ==> after.task_started_at == Some(now)
            &&& changed && busy && app.task_started_at is Some ==> after.task_started_at
                == app.task_started_at
            &&& changed && !busy ==> after.task_started_at is None
            &&& after.core == app.core
        }),
{
}

/// The pane shows the state of the client: how it is connected, in what mode, which skill is selected,
/// what is typed and where the cursor is, what is pending, and how long the task has run.
pub proof fn law_the_pane_shows_the_client(app: InlineAppView, now: u64)
    ensures
        ({
            let pane = pane_of(app, now);
            let s = app.core.state;
            &&& pane.connection == s.connection
            &&& pane.approval_policy == s.runtime.approval_policy
            &&& pane.sandbox_mode == s.runtime.sandbox_mode
            &&& pane.selected_skill == app.selected_skill_label
            &&& pane.composer_buffer == s.composer.buffer
            &&& pane.composer_cursor == s.composer.cursor
            &&& pane.pending_approval == s.approvals.pending
            &&& pane.toast == app.toast
            &&& pane.task_seconds is Some <==> app.task_started_at is Some
            &&& app.task_started_at matches Some(started) ==> (now >= started ==> pane.task_seconds
                == Some((now - started) as u64)) && (now < started ==> pane.task_seconds == Some(
                0u64,
            ))
        }),
{
}

/// The viewport is as wide as the screen and lies at its foot; there is none on a screen without room.
pub proof fn law_the_viewport_lies_at_the_foot(app: InlineAppView, now: u64, width: u16, height: u16)
    ensures
        ({
            let area = viewport_of(app, now, width, height);
            &&& area is None <==> width == 0 || height == 0
            &&& area matches Some(area) ==> area.x == 0 && area.width == width && (area.height
                <= height ==> area.y + area.height == height) && (area.height > height ==> area.y
                == 0)
            &&& area matches Some(area) ==> (app.overlay is Some ==> 10 <= area.height <= 24) && (
            app.overlay is None ==> (height > 1 ==> area.height < height))
        }),
{
}

/// An approval that is pending is shown where nothing else is shown over the client, unless it was shown
/// before; once none is pending any may be shown again.
pub proof fn law_a_new_approval_is_shown(
    app: InlineAppView,
    questions: Option<Seq<ApprovalQuestionView>>,
)
    ensures
        ({
            let now = approval_opened(app, questions);
            &&& app.core.state.approvals.pending matches Some(pending) ==> {
                &&& app.overlay is None && app.last_approval_id != Some(pending.id) ==> now.overlay
                    == Some(overlay::asked_as(pending, questions)) && now.last_approval_id == Some(
                    pending.id,
                )
                &&& app.overlay is Some || app.last_approval_id == Some(pending.id) ==> now == app
            }
            &&& app.core.state.approvals.pending is None ==> now.last_approval_id is None
                && now.overlay == app.overlay
            &&& now.core == app.core
        }),
{
}

/// The label of the selected skill is there exactly where one is selected, and is that skill's.
pub proof fn law_the_label_is_the_selected_skills(core: TranscriptAppView)
    ensures
        label_of(core) is Some <==> core.selected_skill is Some,
        core.selected_skill matches Some(skill) ==> label_of(core) == Some(
            picker::skill_label(skill),
        ),
{
}

} // verus!
