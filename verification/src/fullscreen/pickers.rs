//! The lists that lie over the transcript: moving in them and narrowing them.
use vstd::prelude::*;

use crate::artifacts::{ArtifactManifest, ArtifactManifestView, ArtifactReadBundleView};
use crate::fullscreen::keys::KeyEvent;
use crate::fullscreen::state;
use crate::fullscreen::state::{
    ArtifactPickerState, ArtifactPickerStateView, ArtifactViewerState, ArtifactViewerStateView,
    SkillPickerState, SkillPickerStateView, ThreadPickerState, ThreadPickerStateView,
};
use crate::picker;
use crate::skills::{SkillDescriptor, SkillDescriptorView};
use crate::text;
use crate::ui::{ThreadListItem, ThreadListItemView};

verus! {

broadcast use text::group_views;

/// What a list does with a key.
#[derive(Clone, Copy, Debug, PartialEq, Eq, Structural)]
pub enum PickerStep {
    Keep,
    Close,
    Confirm,
}

/// What a list does with a key: escape and control-c close it, and enter confirms what is selected,
/// where something is.
pub open spec fn picker_step(key: KeyEvent, selected: int, count: int) -> PickerStep {
    match key {
        KeyEvent::Esc | KeyEvent::CtrlC => PickerStep::Close,
        KeyEvent::Enter => if selected < count {
            PickerStep::Confirm
        } else {
            PickerStep::Keep
        },
        _ => PickerStep::Keep,
    }
}

/// A selection further down, on the last row at most.
pub open spec fn stepped_down(selected: usize, by: int, count: int) -> usize {
    if count == 0 {
        selected
    } else if selected + by <= count - 1 {
        (selected + by) as usize
    } else {
        (count - 1) as usize
    }
}

/// A selection further up, on the first row at most.
pub open spec fn stepped_up(selected: usize, by: int) -> usize {
    if selected >= by {
        (selected - by) as usize
    } else {
        0
    }
}

/// The selection after a key that moves in a list.
pub open spec fn selection_moved(selected: usize, key: KeyEvent, count: int) -> usize {
    match key {
        KeyEvent::Up => stepped_up(selected, 1),
        KeyEvent::Down => stepped_down(selected, 1, count),
        KeyEvent::PageUp => stepped_up(selected, 10),
        KeyEvent::PageDown => stepped_down(selected, 10, count),
        _ => selected,
    }
}

/// A selection that lies in a list, where it has rows.
pub open spec fn clamped_selection(selected: usize, count: int) -> usize {
    if count == 0 {
        0
    } else if selected <= count - 1 {
        selected
    } else {
        (count - 1) as usize
    }
}

/// Whether a key changes the filter of a list.
#[verifier::allow_in_spec]
pub fn edits_filter(key: KeyEvent) -> bool
    returns
        (match key {
            KeyEvent::Backspace => true,
            KeyEvent::Char(ch) => !text::is_control_char(ch),
            _ => false,
        }),
{
    match key {
        KeyEvent::Backspace => true,
        KeyEvent::Char(ch) => !ch.is_control(),
        _ => false,
    }
}

/// A filter after a key that changes it.
pub open spec fn filter_edited(filter: Seq<char>, key: KeyEvent) -> Seq<char> {
    match key {
        KeyEvent::Backspace => text::without_last(filter),
        KeyEvent::Char(ch) => filter.push(ch),
        _ => filter,
    }
}

/// The query that a filter makes: none where it is blank.
pub open spec fn query_of(filter: Seq<char>) -> Option<Seq<char>> {
    if text::blank(filter) {
        None
    } else {
        Some(filter)
    }
}

fn query(filter: &str) -> (found: Option<&str>)
    ensures
        text::opt_view(found) == query_of(filter@),
{
    if text::is_blank(filter) {
        None
    } else {
        Some(filter)
    }
}

pub(crate) fn step_up(selected: usize, by: usize) -> (moved: usize)
    ensures
        moved == stepped_up(selected, by as int),
{
    if selected >= by {
        selected - by
    } else {
        0
    }
}

pub(crate) fn step_down(selected: usize, by: usize, count: usize) -> (moved: usize)
    ensures
        moved == stepped_down(selected, by as int, count as int),
{
    if count == 0 {
        return selected;
    }
    let last: usize = count - 1;
    if selected <= last && by <= last - selected {
        selected + by
    } else {
        last
    }
}

fn move_selection(selected: usize, key: KeyEvent, count: usize) -> (moved: usize)
    ensures
        moved == selection_moved(selected, key, count as int),
{
    match key {
        KeyEvent::Up => step_up(selected, 1),
        KeyEvent::Down => step_down(selected, 1, count),
        KeyEvent::PageUp => step_up(selected, 10),
        KeyEvent::PageDown => step_down(selected, 10, count),
        _ => selected,
    }
}

/// A selection that lies in a list, where it has rows.
pub fn clamp_picker_selection(selected: usize, count: usize) -> (kept: usize)
    ensures
        kept == clamped_selection(selected, count as int),
        count > 0 ==> kept < count,
{
    if count == 0 {
        0
    } else if selected <= count - 1 {
        selected
    } else {
        count - 1
    }
}

pub(crate) fn edit_filter(filter: &mut String, key: KeyEvent)
    ensures
        final(filter)@ == filter_edited(old(filter)@, key),
{
    match key {
        KeyEvent::Backspace => {
            text::drop_last_char(filter);
        },
        KeyEvent::Char(ch) => {
            filter.push(ch);
        },
        _ => {},
    }
}

fn step_of(key: KeyEvent, selected: usize, count: usize) -> (step: PickerStep)
    ensures
        step == picker_step(key, selected as int, count as int),
{
    match key {
        KeyEvent::Esc | KeyEvent::CtrlC => PickerStep::Close,
        KeyEvent::Enter => {
            if selected < count {
                PickerStep::Confirm
            } else {
                PickerStep::Keep
            }
        },
        _ => PickerStep::Keep,
    }
}

// -- Skills ----------------------------------------------------------------------------------------

/// The skills that a list shows.
pub open spec fn shown_skills(state: SkillPickerStateView) -> Seq<SkillDescriptorView> {
    picker::skills_kept(state.skills, query_of(state.filter))
}

/// The skills that a list shows.
pub fn filtered_skills(state: &SkillPickerState) -> (shown: Vec<SkillDescriptor>)
    ensures
        text::views(shown@) == shown_skills(state@),
        shown@.len() == shown_skills(state@).len(),
{
    let kept: Vec<&SkillDescriptor> = picker::filter_skills(
        state.skills.as_slice(),
        query(state.filter.as_str()),
    );
    let mut shown: Vec<SkillDescriptor> = Vec::new();
    let mut i: usize = 0;
    while i < kept.len()
        invariant
            i <= kept@.len(),
            shown@.len() == i,
            forall|j: int| 0 <= j < i ==> (#[trigger] shown@[j])@ == kept@[j]@,
        decreases kept@.len() - i,
    {
        shown.push(kept[i].clone());
        i = i + 1;
    }
    assert(text::views(shown@) =~= text::views(kept@));
    shown
}

/// A list of skills after a key.
pub open spec fn skill_picker_after(state: SkillPickerStateView, key: KeyEvent) -> SkillPickerStateView {
    if edits_filter(key) {
        let narrowed = SkillPickerStateView { filter: filter_edited(state.filter, key), ..state };
        SkillPickerStateView {
            selected: clamped_selection(state.selected, shown_skills(narrowed).len() as int),
            ..narrowed
        }
    } else {
        SkillPickerStateView {
            selected: selection_moved(state.selected, key, shown_skills(state).len() as int),
            ..state
        }
    }
}

/// Gives a key to a list of skills. Where the key confirms a selection, the skill comes back.
pub fn handle_skill_picker_key(state: &mut SkillPickerState, key: KeyEvent) -> (step: (
    PickerStep,
    Option<SkillDescriptor>,
))
    ensures
        final(state)@ == skill_picker_after(old(state)@, key),
        step.0 == picker_step(
            key,
            old(state)@.selected as int,
            shown_skills(old(state)@).len() as int,
        ),
        text::opt_view(step.1) == if step.0 == PickerStep::Confirm {
            Some(shown_skills(old(state)@)[old(state)@.selected as int])
        } else {
            None
        },
{
    let shown: Vec<SkillDescriptor> = filtered_skills(state);
    let step: PickerStep = step_of(key, state.selected, shown.len());
    if step == PickerStep::Confirm {
        assert(text::views(shown@)[state.selected as int] == shown@[state.selected as int]@);
        return (step, Some(shown[state.selected].clone()));
    }
    if edits_filter(key) {
        edit_filter(&mut state.filter, key);
        let narrowed: Vec<SkillDescriptor> = filtered_skills(state);
        state.selected = clamp_picker_selection(state.selected, narrowed.len());
    } else {
        state.selected = move_selection(state.selected, key, shown.len());
    }
    (step, None)
}

// -- Conversations ---------------------------------------------------------------------------------

/// The conversations that a list shows.
pub open spec fn shown_threads(state: ThreadPickerStateView) -> Seq<ThreadListItemView> {
    picker::threads_kept(state.threads, query_of(state.filter))
}

/// The conversations that a list shows.
pub fn filtered_threads_for_overlay(state: &ThreadPickerState) -> (shown: Vec<ThreadListItem>)
    ensures
        text::views(shown@) == shown_threads(state@),
        shown@.len() == shown_threads(state@).len(),
{
    let kept: Vec<&ThreadListItem> = picker::filter_threads(
        state.threads.as_slice(),
        query(state.filter.as_str()),
    );
    let mut shown: Vec<ThreadListItem> = Vec::new();
    let mut i: usize = 0;
    while i < kept.len()
        invariant
            i <= kept@.len(),
            shown@.len() == i,
            forall|j: int| 0 <= j < i ==> (#[trigger] shown@[j])@ == kept@[j]@,
        decreases kept@.len() - i,
    {
        shown.push(kept[i].clone());
        i = i + 1;
    }
    assert(text::views(shown@) =~= text::views(kept@));
    shown
}

/// A list of conversations after a key.
pub open spec fn thread_picker_after(state: ThreadPickerStateView, key: KeyEvent) -> ThreadPickerStateView {
    if edits_filter(key) {
        let narrowed = ThreadPickerStateView { filter: filter_edited(state.filter, key), ..state };
        ThreadPickerStateView {
            selected: clamped_selection(state.selected, shown_threads(narrowed).len() as int),
            ..narrowed
        }
    } else {
        ThreadPickerStateView {
            selected: selection_moved(state.selected, key, shown_threads(state).len() as int),
            ..state
        }
    }
}

/// Gives a key to a list of conversations. Where the key confirms a selection, it comes back.
pub fn handle_thread_picker_key(state: &mut ThreadPickerState, key: KeyEvent) -> (step: (
    PickerStep,
    Option<ThreadListItem>,
))
    ensures
        final(state)@ == thread_picker_after(old(state)@, key),
        step.0 == picker_step(
            key,
            old(state)@.selected as int,
            shown_threads(old(state)@).len() as int,
        ),
        text::opt_view(step.1) == if step.0 == PickerStep::Confirm {
            Some(shown_threads(old(state)@)[old(state)@.selected as int])
        } else {
            None
        },
{
    let shown: Vec<ThreadListItem> = filtered_threads_for_overlay(state);
    let step: PickerStep = step_of(key, state.selected, shown.len());
    if step == PickerStep::Confirm {
        assert(text::views(shown@)[state.selected as int] == shown@[state.selected as int]@);
        return (step, Some(shown[state.selected].clone()));
    }
    if edits_filter(key) {
        edit_filter(&mut state.filter, key);
        let narrowed: Vec<ThreadListItem> = filtered_threads_for_overlay(state);
        state.selected = clamp_picker_selection(state.selected, narrowed.len());
    } else {
        state.selected = move_selection(state.selected, key, shown.len());
    }
    (step, None)
}

// -- Artifacts -------------------------------------------------------------------------------------

/// The artifacts that a list shows.
pub open spec fn shown_artifacts(state: ArtifactPickerStateView) -> Seq<ArtifactManifestView> {
    picker::artifacts_kept(state.artifacts, query_of(state.filter))
}

/// The artifacts that a list shows.
pub fn filtered_artifacts_for_overlay(state: &ArtifactPickerState) -> (shown: Vec<ArtifactManifest>)
    ensures
        text::views(shown@) == shown_artifacts(state@),
        shown@.len() == shown_artifacts(state@).len(),
{
    let kept: Vec<&ArtifactManifest> = picker::filter_artifacts(
        state.artifacts.as_slice(),
        query(state.filter.as_str()),
    );
    let mut shown: Vec<ArtifactManifest> = Vec::new();
    let mut i: usize = 0;
    while i < kept.len()
        invariant
            i <= kept@.len(),
            shown@.len() == i,
            forall|j: int| 0 <= j < i ==> (#[trigger] shown@[j])@ == kept@[j]@,
        decreases kept@.len() - i,
    {
        shown.push(kept[i].clone());
        i = i + 1;
    }
    assert(text::views(shown@) =~= text::views(kept@));
    shown
}

/// A list of artifacts after a key.
pub open spec fn artifact_picker_after(
    state: ArtifactPickerStateView,
    key: KeyEvent,
) -> ArtifactPickerStateView {
    if edits_filter(key) {
        let narrowed = ArtifactPickerStateView {
            filter: filter_edited(state.filter, key),
            ..state
        };
        ArtifactPickerStateView {
            selected: clamped_selection(state.selected, shown_artifacts(narrowed).len() as int),
            ..narrowed
        }
    } else {
        ArtifactPickerStateView {
            selected: selection_moved(state.selected, key, shown_artifacts(state).len() as int),
            ..state
        }
    }
}

/// Gives a key to a list of artifacts. Where the key confirms a selection, it comes back.
pub fn handle_artifact_picker_key(state: &mut ArtifactPickerState, key: KeyEvent) -> (step: (
    PickerStep,
    Option<ArtifactManifest>,
))
    ensures
        final(state)@ == artifact_picker_after(old(state)@, key),
        step.0 == picker_step(
            key,
            old(state)@.selected as int,
            shown_artifacts(old(state)@).len() as int,
        ),
        text::opt_view(step.1) == if step.0 == PickerStep::Confirm {
            Some(shown_artifacts(old(state)@)[old(state)@.selected as int])
        } else {
            None
        },
{
    let shown: Vec<ArtifactManifest> = filtered_artifacts_for_overlay(state);
    let step: PickerStep = step_of(key, state.selected, shown.len());
    if step == PickerStep::Confirm {
        assert(text::views(shown@)[state.selected as int] == shown@[state.selected as int]@);
        return (step, Some(shown[state.selected].clone()));
    }
    if edits_filter(key) {
        edit_filter(&mut state.filter, key);
        let narrowed: Vec<ArtifactManifest> = filtered_artifacts_for_overlay(state);
        state.selected = clamp_picker_selection(state.selected, narrowed.len());
    } else {
        state.selected = move_selection(state.selected, key, shown.len());
    }
    (step, None)
}

/// A number with another added, as far as numbers go.
pub open spec fn raised(n: usize, by: int) -> usize {
    if n + by <= usize::MAX {
        (n + by) as usize
    } else {
        usize::MAX
    }
}

/// An artifact that is shown, after a key: left and right go to another file and to its top.
pub open spec fn viewer_after(state: ArtifactViewerStateView, key: KeyEvent) -> ArtifactViewerStateView {
    match key {
        KeyEvent::Left => ArtifactViewerStateView {
            selected_file: stepped_up(state.selected_file, 1),
            scroll: 0,
            ..state
        },
        KeyEvent::Right => if state.selected_file + 1 < state.payload.files.len() {
            ArtifactViewerStateView {
                selected_file: (state.selected_file + 1) as usize,
                scroll: 0,
                ..state
            }
        } else {
            state
        },
        KeyEvent::Up => ArtifactViewerStateView { scroll: stepped_up(state.scroll, 1), ..state },
        KeyEvent::Down => ArtifactViewerStateView { scroll: raised(state.scroll, 1), ..state },
        KeyEvent::PageUp => ArtifactViewerStateView {
            scroll: stepped_up(state.scroll, 10),
            ..state
        },
        KeyEvent::PageDown => ArtifactViewerStateView { scroll: raised(state.scroll, 10), ..state },
        _ => state,
    }
}

/// Gives a key to an artifact that is shown. It stays open but for escape and control-c.
pub fn handle_artifact_viewer_key(state: &mut ArtifactViewerState, key: KeyEvent) -> (stays: bool)
    ensures
        stays == (key != KeyEvent::Esc && key != KeyEvent::CtrlC),
        final(state)@ == viewer_after(old(state)@, key),
{
    match key {
        KeyEvent::Esc | KeyEvent::CtrlC => {
            return false;
        },
        KeyEvent::Left => {
            state.selected_file = step_up(state.selected_file, 1);
            state.scroll = 0;
        },
        KeyEvent::Right => {
            let n: usize = state.payload.files.len();
            if n > 0 && state.selected_file < n - 1 {
                state.selected_file = state.selected_file + 1;
                state.scroll = 0;
            }
        },
        KeyEvent::Up => {
            state.scroll = step_up(state.scroll, 1);
        },
        KeyEvent::Down => {
            state.scroll = state.scroll.saturating_add(1);
        },
        KeyEvent::PageUp => {
            state.scroll = step_up(state.scroll, 10);
        },
        KeyEvent::PageDown => {
            state.scroll = state.scroll.saturating_add(10);
        },
        _ => {},
    }
    true
}

/// The selection of a list of skills lies in it after every key, where it did before and the list
/// has rows.
pub proof fn law_selection_stays_among_the_skills(state: SkillPickerStateView, key: KeyEvent)
    requires
        shown_skills(state).len() == 0 || state.selected < shown_skills(state).len(),
        shown_skills(skill_picker_after(state, key)).len() > 0,
    ensures
        skill_picker_after(state, key).selected < shown_skills(skill_picker_after(state, key)).len(),
{
    let after = skill_picker_after(state, key);
    if edits_filter(key) {
        let narrowed = SkillPickerStateView { filter: filter_edited(state.filter, key), ..state };
        assert(shown_skills(after) == shown_skills(narrowed));
    } else {
        assert(shown_skills(after) == shown_skills(state));
    }
}

/// The selection of a list of conversations lies in it after every key, where it did before and the
/// list has rows.
pub proof fn law_selection_stays_among_the_threads(state: ThreadPickerStateView, key: KeyEvent)
    requires
        shown_threads(state).len() == 0 || state.selected < shown_threads(state).len(),
        shown_threads(thread_picker_after(state, key)).len() > 0,
    ensures
        thread_picker_after(state, key).selected < shown_threads(thread_picker_after(state, key)).len(),
{
    let after = thread_picker_after(state, key);
    if edits_filter(key) {
        let narrowed = ThreadPickerStateView { filter: filter_edited(state.filter, key), ..state };
        assert(shown_threads(after) == shown_threads(narrowed));
    } else {
        assert(shown_threads(after) == shown_threads(state));
    }
}

/// The selection of a list of artifacts lies in it after every key, where it did before and the
/// list has rows.
pub proof fn law_selection_stays_among_the_artifacts(state: ArtifactPickerStateView, key: KeyEvent)
    requires
        shown_artifacts(state).len() == 0 || state.selected < shown_artifacts(state).len(),
        shown_artifacts(artifact_picker_after(state, key)).len() > 0,
    ensures
        artifact_picker_after(state, key).selected < shown_artifacts(artifact_picker_after(state, key)).len(),
{
    let after = artifact_picker_after(state, key);
    if edits_filter(key) {
        let narrowed = ArtifactPickerStateView { filter: filter_edited(state.filter, key), ..state };
        assert(shown_artifacts(after) == shown_artifacts(narrowed));
    } else {
        assert(shown_artifacts(after) == shown_artifacts(state));
    }
}

/// An artifact that is shown shows one of its files from the first, and after every key.
pub proof fn law_viewer_shows_a_file(payload: ArtifactReadBundleView, viewer: ArtifactViewerStateView, key: KeyEvent)
    requires
        payload.files.len() <= usize::MAX,
    ensures
        state::shows_a_file(state::viewer_of(payload)),
        state::shows_a_file(viewer) ==> state::shows_a_file(viewer_after(viewer, key)),
{
    let paths = Seq::new(payload.files.len(), |i: int| payload.files[i].path);
    lemma_preferred_file(paths, payload.manifest.primary_path, 0);
}

proof fn lemma_preferred_file(paths: Seq<Seq<char>>, primary: Seq<char>, from: int)
    requires
        0 <= from <= paths.len(),
    ensures
        0 <= picker::preferred_file(paths, primary, from),
        paths.len() > 0 ==> picker::preferred_file(paths, primary, from) < paths.len(),
    decreases paths.len() - from,
{
    if from < paths.len() {
        lemma_preferred_file(paths, primary, from + 1);
    }
}

/// Escape and control-c close a list; enter takes what is selected where there is anything; nothing else
/// does either.
pub proof fn law_enter_takes_and_escape_closes(key: KeyEvent, selected: int, count: int)
    ensures
        picker_step(key, selected, count) == PickerStep::Close <==> key == KeyEvent::Esc || key
            == KeyEvent::CtrlC,
        picker_step(key, selected, count) == PickerStep::Confirm <==> key == KeyEvent::Enter
            && selected < count,
        picker_step(key, selected, count) == PickerStep::Keep <==> key != KeyEvent::Esc && key
            != KeyEvent::CtrlC && !(key == KeyEvent::Enter && selected < count),
{
}

/// The arrows go by one and the page keys by ten, as far as the list goes.
pub proof fn law_arrows_go_by_one(selected: usize, count: int)
    requires
        selected < count <= usize::MAX,
    ensures
        selected > 0 ==> selection_moved(selected, KeyEvent::Up, count) == selected - 1,
        selected == 0 ==> selection_moved(selected, KeyEvent::Up, count) == 0,
        selected + 1 < count ==> selection_moved(selected, KeyEvent::Down, count) == selected + 1,
        selected + 1 == count ==> selection_moved(selected, KeyEvent::Down, count) == selected,
        selected >= 10 ==> selection_moved(selected, KeyEvent::PageUp, count) == selected - 10,
        selected < 10 ==> selection_moved(selected, KeyEvent::PageUp, count) == 0,
        selected + 10 < count ==> selection_moved(selected, KeyEvent::PageDown, count) == selected
            + 10,
        selected + 10 >= count ==> selection_moved(selected, KeyEvent::PageDown, count) == count - 1,
        forall|key: KeyEvent|
            key != KeyEvent::Up && key != KeyEvent::Down && key != KeyEvent::PageUp && key
                != KeyEvent::PageDown ==> #[trigger] selection_moved(selected, key, count)
                == selected,
        clamped_selection(selected, count) == selected,
{
}

/// A character goes to the end of what a list is narrowed by, and backspace takes the last one; no other
/// key changes it. The things themselves stay, and what is shown is what the words leave of them.
pub proof fn law_typing_narrows_the_list(state: SkillPickerStateView, key: KeyEvent)
    ensures
        ({
            let now = skill_picker_after(state, key);
            &&& now.skills == state.skills
            &&& key matches KeyEvent::Char(ch) ==> (!text::is_control_char(ch) ==> now.filter
                == state.filter.push(ch))
            &&& key == KeyEvent::Backspace && state.filter.len() > 0 ==> now.filter
                == state.filter.drop_last()
            &&& key != KeyEvent::Backspace && !(key is Char) ==> now.filter == state.filter
                && now.selected == selection_moved(
                state.selected,
                key,
                shown_skills(state).len() as int,
            )
            &&& text::blank(state.filter) ==> shown_skills(state) == picker::skills_kept(
                state.skills,
                None,
            )
            &&& !text::blank(state.filter) ==> shown_skills(state) == picker::skills_kept(
                state.skills,
                Some(state.filter),
            )
        }),
{
}

/// Lists of conversations and of artifacts are narrowed in the same way.
pub proof fn law_typing_narrows_every_list(
    threads: ThreadPickerStateView,
    artifacts: ArtifactPickerStateView,
    key: KeyEvent,
)
    ensures
        ({
            let now = thread_picker_after(threads, key);
            &&& now.threads == threads.threads
            &&& key matches KeyEvent::Char(ch) ==> (!text::is_control_char(ch) ==> now.filter
                == threads.filter.push(ch))
            &&& key == KeyEvent::Backspace && threads.filter.len() > 0 ==> now.filter
                == threads.filter.drop_last()
            &&& key != KeyEvent::Backspace && !(key is Char) ==> now.filter == threads.filter
                && now.selected == selection_moved(
                threads.selected,
                key,
                shown_threads(threads).len() as int,
            )
            &&& text::blank(threads.filter) ==> shown_threads(threads) == picker::threads_kept(
                threads.threads,
                None,
            )
            &&& !text::blank(threads.filter) ==> shown_threads(threads) == picker::threads_kept(
                threads.threads,
                Some(threads.filter),
            )
        }),
        ({
            let now = artifact_picker_after(artifacts, key);
            &&& now.artifacts == artifacts.artifacts
            &&& key matches KeyEvent::Char(ch) ==> (!text::is_control_char(ch) ==> now.filter
                == artifacts.filter.push(ch))
            &&& key == KeyEvent::Backspace && artifacts.filter.len() > 0 ==> now.filter
                == artifacts.filter.drop_last()
            &&& key != KeyEvent::Backspace && !(key is Char) ==> now.filter == artifacts.filter
                && now.selected == selection_moved(
                artifacts.selected,
                key,
                shown_artifacts(artifacts).len() as int,
            )
            &&& text::blank(artifacts.filter) ==> shown_artifacts(artifacts)
                == picker::artifacts_kept(artifacts.artifacts, None)
            &&& !text::blank(artifacts.filter) ==> shown_artifacts(artifacts)
                == picker::artifacts_kept(artifacts.artifacts, Some(artifacts.filter))
        }),
{
}

/// In the viewer the arrows to the sides go to the neighbouring file, from its top, and the others go
/// through the file; the payload stays.
pub proof fn law_arrows_turn_the_files(viewer: ArtifactViewerStateView, key: KeyEvent)
    requires
        viewer.payload.files.len() <= usize::MAX,
    ensures
        ({
            let now = viewer_after(viewer, key);
            let file = viewer.selected_file;
            &&& now.payload == viewer.payload
            &&& key == KeyEvent::Right && file + 1 < viewer.payload.files.len() ==> now.selected_file
                == file + 1 && now.scroll == 0
            &&& key == KeyEvent::Right && file + 1 >= viewer.payload.files.len() ==> now == viewer
            &&& key == KeyEvent::Left && file > 0 ==> now.selected_file == file - 1 && now.scroll
                == 0
            &&& key == KeyEvent::Left && file == 0 ==> now.selected_file == 0
            &&& key != KeyEvent::Left && key != KeyEvent::Right ==> now.selected_file == file
            &&& key == KeyEvent::Up ==> now.scroll == (if viewer.scroll > 0 {
                viewer.scroll - 1
            } else {
                0
            })
            &&& key == KeyEvent::Down && viewer.scroll < usize::MAX ==> now.scroll == viewer.scroll
                + 1
            &&& key == KeyEvent::PageUp ==> now.scroll == (if viewer.scroll > 10 {
                viewer.scroll - 10
            } else {
                0
            })
            &&& key == KeyEvent::PageDown && viewer.scroll + 10 <= usize::MAX ==> now.scroll
                == viewer.scroll + 10
        }),
{
}

} // verus!
