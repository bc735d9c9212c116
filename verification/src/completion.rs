//! The popup that completes skills and commands while the user types.
//!
//! It opens at the start of the line only: after `$` it offers skills, after `/` commands.
use vstd::prelude::*;

use crate::cursor;
use crate::draw;
use crate::draw::{Area, DrawItem, DrawItemView};
use crate::picker;
use crate::skills::{SkillDescriptor, SkillDescriptorView};
use crate::styled;
use crate::styled::{SpanStyle, StyledLine, StyledLineView, Tint};
use crate::text;

verus! {

broadcast use text::group_views;

/// The most rows that the popup shows.
pub const POPUP_MAX_ROWS: u16 = 6;

// -- What can be completed ------------------------------------------------------------------

/// A command.
#[derive(Clone, Copy, Debug)]
pub struct SlashCommand {
    pub name: &'static str,
    pub description: &'static str,
}

/// The model of `SlashCommand`.
#[verifier::ext_equal]
pub struct SlashCommandView {
    pub name: Seq<char>,
    pub description: Seq<char>,
}

impl View for SlashCommand {
    type V = SlashCommandView;

    open spec fn view(&self) -> SlashCommandView {
        SlashCommandView { name: self.name@, description: self.description@ }
    }
}

pub open spec fn command(name: Seq<char>, description: Seq<char>) -> SlashCommandView {
    SlashCommandView { name, description }
}

/// The commands there are.
pub open spec fn all_commands() -> Seq<SlashCommandView> {
    seq![
        command("/help"@, "show keybindings and commands"@),
        command("/skills"@, "pick a skill to apply to the next prompt"@),
        command("/threads"@, "resume a previous thread"@),
        command("/artifacts"@, "browse generated artifacts"@),
        command("/approval"@, "reopen the last approval request"@),
        command("/clear"@, "clear the in-memory transcript view"@),
        command("/quit"@, "exit ml-intern"@),
    ]
}

/// The commands there are.
pub fn slash_commands() -> (commands: Vec<SlashCommand>)
    ensures
        text::views(commands@) == all_commands(),
{
    let mut commands: Vec<SlashCommand> = Vec::new();
    commands.push(
        SlashCommand { name: "/help", description: "show keybindings and commands" },
    );
    commands.push(
        SlashCommand {
            name: "/skills",
            description: "pick a skill to apply to the next prompt",
        },
    );
    commands.push(SlashCommand { name: "/threads", description: "resume a previous thread" });
    commands.push(SlashCommand { name: "/artifacts", description: "browse generated artifacts" });
    commands.push(
        SlashCommand { name: "/approval", description: "reopen the last approval request" },
    );
    commands.push(
        SlashCommand { name: "/clear", description: "clear the in-memory transcript view" },
    );
    commands.push(SlashCommand { name: "/quit", description: "exit ml-intern" });
    assert(text::views(commands@) =~= all_commands());
    commands
}

/// What a popup offers.
#[derive(Debug)]
pub enum CompletionKind {
    Skills(Vec<SkillDescriptor>),
    Commands(Vec<SlashCommand>),
}

/// The model of `CompletionKind`.
#[verifier::ext_equal]
pub enum CompletionKindView {
    Skills(Seq<SkillDescriptorView>),
    Commands(Seq<SlashCommandView>),
}

impl View for CompletionKind {
    type V = CompletionKindView;

    open spec fn view(&self) -> CompletionKindView {
        match *self {
            CompletionKind::Skills(items) => CompletionKindView::Skills(text::views(items@)),
            CompletionKind::Commands(items) => CompletionKindView::Commands(text::views(items@)),
        }
    }
}

impl Clone for CompletionKind {
    fn clone(&self) -> (copy: Self)
        ensures
            copy@ == self@,
    {
        match self {
            CompletionKind::Skills(items) => CompletionKind::Skills(text::copy_all(items)),
            CompletionKind::Commands(items) => CompletionKind::Commands(text::copy_all(items)),
        }
    }
}

/// A popup.
#[derive(Debug)]
pub struct Completion {
    pub kind: CompletionKind,
    /// The byte at which the sign that opened the popup stands.
    pub anchor_byte: usize,
    /// The byte at which the word ends.
    pub token_end_byte: usize,
    /// What is typed after the sign, up to the cursor.
    pub query: String,
    /// The row that is selected, among those that match.
    pub cursor: usize,
    /// What matches, as indices of what is offered.
    pub filtered: Vec<usize>,
}

/// The model of `Completion`.
#[verifier::ext_equal]
pub struct CompletionView {
    pub kind: CompletionKindView,
    pub anchor_byte: usize,
    pub token_end_byte: usize,
    pub query: Seq<char>,
    pub cursor: usize,
    pub filtered: Seq<usize>,
}

impl View for Completion {
    type V = CompletionView;

    open spec fn view(&self) -> CompletionView {
        CompletionView {
            kind: self.kind@,
            anchor_byte: self.anchor_byte,
            token_end_byte: self.token_end_byte,
            query: self.query@,
            cursor: self.cursor,
            filtered: self.filtered@,
        }
    }
}

impl Clone for Completion {
    fn clone(&self) -> (copy: Self)
        ensures
            copy@ == self@,
    {
        Completion {
            kind: self.kind.clone(),
            anchor_byte: self.anchor_byte,
            token_end_byte: self.token_end_byte,
            query: self.query.clone(),
            cursor: self.cursor,
            filtered: self.filtered.clone(),
        }
    }
}

/// What to do with the row that is selected.
#[derive(Debug, PartialEq)]
pub enum AcceptOutcome {
    /// Put a text in place of the word, and the cursor so many bytes after its start.
    Replace { replacement: String, cursor_offset: usize },
    /// Run a command at once.
    Submit(String),
}

// -- Matching -----------------------------------------------------------------------------------

/// How well a name and a description match: 0 where the name begins with what is looked for, 1
/// where it is found elsewhere in the name or in the description, else 2.
pub open spec fn rank(name: Seq<char>, description: Seq<char>, query: Seq<char>) -> int {
    if text::begins(text::lower(name), query) {
        0
    } else if text::contains_text(text::lower(name), query) || text::contains_text(
        text::lower(description),
        query,
    ) {
        1
    } else {
        2
    }
}

/// The indices below `count` that have a given rank, in order.
pub open spec fn ranked(ranks: Seq<int>, wanted: int, count: int) -> Seq<usize>
    decreases count,
{
    if count <= 0 {
        Seq::empty()
    } else if ranks[count - 1] == wanted {
        ranked(ranks, wanted, count - 1).push((count - 1) as usize)
    } else {
        ranked(ranks, wanted, count - 1)
    }
}

/// What matches: first what has the rank 0, then what has the rank 1, each in order.
pub open spec fn matches_of(ranks: Seq<int>) -> Seq<usize> {
    ranked(ranks, 0, ranks.len() as int) + ranked(ranks, 1, ranks.len() as int)
}

/// A name without slashes in front.
pub open spec fn without_slashes(name: Seq<char>) -> Seq<char>
    decreases name.len(),
{
    if name.len() > 0 && name[0] == '/' {
        without_slashes(name.drop_first())
    } else {
        name
    }
}

pub open spec fn skill_ranks(skills: Seq<SkillDescriptorView>, query: Seq<char>) -> Seq<int> {
    Seq::new(
        skills.len(),
        |i: int| rank(skills[i].name, skills[i].description, text::lower(query)),
    )
}

pub open spec fn command_ranks(commands: Seq<SlashCommandView>, query: Seq<char>) -> Seq<int> {
    Seq::new(
        commands.len(),
        |i: int|
            rank(
                without_slashes(commands[i].name),
                commands[i].description,
                text::lower(query),
            ),
    )
}

fn rank_of(name: &str, description: &str, query: &str) -> (r: u8)
    ensures
        r == rank(name@, description@, query@),
{
    let low_name: String = text::to_lower(name);
    if text::starts_with(low_name.as_str(), query) {
        return 0;
    }
    let low_description: String = text::to_lower(description);
    if text::contains(low_name.as_str(), query) || text::contains(low_description.as_str(), query) {
        1
    } else {
        2
    }
}

fn order_by_rank(ranks: &Vec<u8>) -> (out: Vec<usize>)
    ensures
        out@ == matches_of(Seq::new(ranks@.len(), |i: int| ranks@[i] as int)),
{
    let ghost all = Seq::new(ranks@.len(), |i: int| ranks@[i] as int);
    let mut out: Vec<usize> = Vec::new();
    let total: usize = ranks.len();
    let mut i: usize = 0;
    while i < total
        invariant
            i <= total,
            total == ranks@.len(),
            all == Seq::new(ranks@.len(), |k: int| ranks@[k] as int),
            out@ == ranked(all, 0, i as int),
        decreases total - i,
    {
        if ranks[i] == 0 {
            out.push(i);
        }
        i = i + 1;
    }
    let ghost first = out@;
    let mut j: usize = 0;
    assert(first + ranked(all, 1, 0) =~= first);
    while j < total
        invariant
            j <= total,
            total == ranks@.len(),
            all == Seq::new(ranks@.len(), |k: int| ranks@[k] as int),
            out@ == first + ranked(all, 1, j as int),
        decreases total - j,
    {
        if ranks[j] == 1 {
            out.push(j);
            assert(out@ =~= first + ranked(all, 1, j + 1));
        }
        j = j + 1;
    }
    out
}

/// The skills that match, best first.
pub fn filter_skills(skills: &Vec<SkillDescriptor>, query: &str) -> (out: Vec<usize>)
    ensures
        out@ == matches_of(skill_ranks(text::views(skills@), query@)),
{
    let low: String = text::to_lower(query);
    let mut ranks: Vec<u8> = Vec::new();
    let mut i: usize = 0;
    while i < skills.len()
        invariant
            i <= skills@.len(),
            low@ == text::lower(query@),
            ranks@.len() == i,
            forall|j: int|
                0 <= j < i ==> #[trigger] ranks@[j] == rank(
                    skills@[j]@.name,
                    skills@[j]@.description,
                    low@,
                ),
        decreases skills@.len() - i,
    {
        ranks.push(
            rank_of(skills[i].name.as_str(), skills[i].description.as_str(), low.as_str()),
        );
        i = i + 1;
    }
    assert(Seq::new(ranks@.len(), |k: int| ranks@[k] as int) =~= skill_ranks(
        text::views(skills@),
        query@,
    ));
    order_by_rank(&ranks)
}

fn strip_slashes(name: &str) -> (out: String)
    ensures
        out@ == without_slashes(name@),
{
    let chars: Vec<char> = text::chars_of(name);
    let mut i: usize = 0;
    assert(name@.skip(0) =~= name@);
    while i < chars.len() && chars[i] == '/'
        invariant
            chars@ == name@,
            i <= chars@.len(),
            without_slashes(name@) == without_slashes(name@.skip(i as int)),
        decreases chars@.len() - i,
    {
        assert(name@.skip(i as int).drop_first() =~= name@.skip(i + 1));
        i = i + 1;
    }
    let out: String = text::text_of(&chars, i, chars.len());
    assert(out@ =~= name@.skip(i as int));
    out
}

/// The commands that match, best first.
pub fn filter_commands(commands: &Vec<SlashCommand>, query: &str) -> (out: Vec<usize>)
    ensures
        out@ == matches_of(command_ranks(text::views(commands@), query@)),
{
    let low: String = text::to_lower(query);
    let mut ranks: Vec<u8> = Vec::new();
    let mut i: usize = 0;
    while i < commands.len()
        invariant
            i <= commands@.len(),
            low@ == text::lower(query@),
            ranks@.len() == i,
            forall|j: int|
                0 <= j < i ==> #[trigger] ranks@[j] == rank(
                    without_slashes(commands@[j]@.name),
                    commands@[j]@.description,
                    low@,
                ),
        decreases commands@.len() - i,
    {
        let name: String = strip_slashes(commands[i].name);
        ranks.push(rank_of(name.as_str(), commands[i].description, low.as_str()));
        i = i + 1;
    }
    assert(Seq::new(ranks@.len(), |k: int| ranks@[k] as int) =~= command_ranks(
        text::views(commands@),
        query@,
    ));
    order_by_rank(&ranks)
}

// -- Opening ---------------------------------------------------------------------------------------

/// The byte at which the first word ends.
pub open spec fn first_word_end(buffer: Seq<char>) -> int {
    cursor::byte_at(buffer, text::first_space(buffer))
}

/// Whether the popup is open: the line begins with one of the signs, and the cursor is in or right
/// after its first word, past the sign.
pub open spec fn is_open(buffer: Seq<char>, at: int) -> bool {
    &&& at > 0
    &&& buffer.len() > 0
    &&& (buffer[0] == '$' || buffer[0] == '/')
    &&& at <= first_word_end(buffer)
}

/// What is typed between the sign and the cursor.
pub open spec fn query_of(buffer: Seq<char>, at: int) -> Seq<char> {
    buffer.subrange(1, cursor::chars_before(buffer, at))
}

/// The row that stays selected where another list takes the place of one of the same kind.
pub open spec fn kept_cursor(previous: usize, total: nat) -> usize {
    if total == 0 {
        0
    } else if previous < total {
        previous
    } else {
        (total - 1) as usize
    }
}

/// The popup that is open.
pub open spec fn popup_of(
    buffer: Seq<char>,
    at: int,
    skills: Option<Seq<SkillDescriptorView>>,
    previous: Option<CompletionView>,
) -> Option<CompletionView> {
    if !is_open(buffer, at) {
        None
    } else {
        let query = query_of(buffer, at);
        if buffer[0] == '$' {
            match skills {
                None => None,
                Some(skills) => {
                    let filtered = matches_of(skill_ranks(skills, query));
                    Some(
                        CompletionView {
                            kind: CompletionKindView::Skills(skills),
                            anchor_byte: 0,
                            token_end_byte: first_word_end(buffer) as usize,
                            query,
                            cursor: if previous is Some && previous->0.kind is Skills {
                                kept_cursor(previous->0.cursor, filtered.len())
                            } else {
                                0
                            },
                            filtered,
                        },
                    )
                },
            }
        } else {
            let filtered = matches_of(command_ranks(all_commands(), query));
            Some(
                CompletionView {
                    kind: CompletionKindView::Commands(all_commands()),
                    anchor_byte: 0,
                    token_end_byte: first_word_end(buffer) as usize,
                    query,
                    cursor: if previous is Some && previous->0.kind is Commands {
                        kept_cursor(previous->0.cursor, filtered.len())
                    } else {
                        0
                    },
                    filtered,
                },
            )
        }
    }
}

pub open spec fn cache_view(cache: Option<&[SkillDescriptor]>) -> Option<Seq<SkillDescriptorView>> {
    match cache {
        Some(skills) => Some(text::views(skills@)),
        None => None,
    }
}

fn keep_cursor(previous: usize, total: usize) -> (kept: usize)
    ensures
        kept == kept_cursor(previous, total as nat),
{
    if total == 0 {
        0
    } else if previous < total {
        previous
    } else {
        total - 1
    }
}

fn word_end(buffer: &str) -> (end: usize)
    ensures
        end == first_word_end(buffer@),
        end <= cursor::byte_len(buffer@),
{
    let chars: Vec<char> = text::chars_of(buffer);
    let n: usize = chars.len();
    let mut k: usize = 0;
    assert(buffer@.skip(0) =~= buffer@);
    while k < n && !chars[k].is_whitespace()
        invariant
            chars@ == buffer@,
            n == chars@.len(),
            k <= n,
            text::first_space(buffer@) == k + text::first_space(buffer@.skip(k as int)),
        decreases n - k,
    {
        assert(buffer@.skip(k as int).drop_first() =~= buffer@.skip(k + 1));
        k = k + 1;
    }
    let word: String = text::text_of(&chars, 0, k);
    assert(word@ =~= buffer@.take(k as int));
    proof {
        cursor::lemma_split_at(buffer@, k as int);
    }
    cursor::len_of(word.as_str())
}

/// The popup for a line and a cursor in it. `skill_cache` holds the skills, where they are known;
/// `previous` is the popup that was open before.
pub fn evaluate(
    buffer: &str,
    cursor: usize,
    skill_cache: Option<&[SkillDescriptor]>,
    previous: Option<&Completion>,
) -> (popup: Option<Completion>)
    requires
        is_open(buffer@, cursor::least(cursor as int, cursor::byte_len(buffer@)))
            ==> cursor::boundary(buffer@, cursor::least(cursor as int, cursor::byte_len(buffer@))),
    ensures
        text::opt_view(popup) == popup_of(
            buffer@,
            cursor::least(cursor as int, cursor::byte_len(buffer@)),
            cache_view(skill_cache),
            text::opt_view(previous),
        ),
{
    let at: usize = cursor::min(cursor, cursor::len_of(buffer));
    if at == 0 {
        return None;
    }
    let chars: Vec<char> = text::chars_of(buffer);
    if chars.len() == 0 || !(chars[0] == '$' || chars[0] == '/') {
        return None;
    }
    let token_end_byte: usize = word_end(buffer);
    if at > token_end_byte {
        return None;
    }
    let (typed, _rest) = cursor::split_at_byte(buffer, at);
    let typed_chars: Vec<char> = text::chars_of(typed.as_str());
    proof {
        cursor::lemma_boundary(buffer@, at as int);
        if typed@.len() == 0 {
            cursor::lemma_ends(buffer@);
        }
    }
    let query: String = text::text_of(&typed_chars, 1, typed_chars.len());
    assert(query@ =~= query_of(buffer@, at as int));
    if chars[0] == '$' {
        match skill_cache {
            None => None,
            Some(skills) => {
                let items: Vec<SkillDescriptor> = copy_slice(skills);
                let filtered: Vec<usize> = filter_skills(&items, query.as_str());
                let kept: usize = match previous {
                    Some(old_popup) => match &old_popup.kind {
                        CompletionKind::Skills(_) => keep_cursor(old_popup.cursor, filtered.len()),
                        CompletionKind::Commands(_) => 0,
                    },
                    None => 0,
                };
                Some(
                    Completion {
                        kind: CompletionKind::Skills(items),
                        anchor_byte: 0,
                        token_end_byte,
                        query,
                        cursor: kept,
                        filtered,
                    },
                )
            },
        }
    } else {
        let items: Vec<SlashCommand> = slash_commands();
        let filtered: Vec<usize> = filter_commands(&items, query.as_str());
        let kept: usize = match previous {
            Some(old_popup) => match &old_popup.kind {
                CompletionKind::Commands(_) => keep_cursor(old_popup.cursor, filtered.len()),
                CompletionKind::Skills(_) => 0,
            },
            None => 0,
        };
        Some(
            Completion {
                kind: CompletionKind::Commands(items),
                anchor_byte: 0,
                token_end_byte,
                query,
                cursor: kept,
                filtered,
            },
        )
    }
}

fn copy_slice(skills: &[SkillDescriptor]) -> (out: Vec<SkillDescriptor>)
    ensures
        text::views(out@) == text::views(skills@),
{
    let mut out: Vec<SkillDescriptor> = Vec::new();
    let mut i: usize = 0;
    while i < skills.len()
        invariant
            i <= skills@.len(),
            out@.len() == i,
            forall|j: int| 0 <= j < i ==> (#[trigger] out@[j])@ == skills@[j]@,
        decreases skills@.len() - i,
    {
        let copy: SkillDescriptor = skills[i].clone();
        out.push(copy);
        i = i + 1;
    }
    assert(text::views(out@) =~= text::views(skills@));
    out
}

// -- Using the popup ---------------------------------------------------------------------------------

/// What a popup offers, and how many there are.
pub open spec fn offered(kind: CompletionKindView) -> nat {
    match kind {
        CompletionKindView::Skills(items) => items.len(),
        CompletionKindView::Commands(items) => items.len(),
    }
}

/// How a skill is mentioned at the start of a line, ready for the words that follow.
pub open spec fn mention_of(name: Seq<char>) -> Seq<char> {
    "$"@ + name + " "@
}

/// A popup with its selection moved, from the last row on to the first and back.
pub open spec fn selection_moved(popup: CompletionView, delta: int) -> CompletionView {
    if popup.filtered.len() == 0 {
        popup
    } else {
        CompletionView {
            cursor: ((popup.cursor + delta) % popup.filtered.len() as int) as usize,
            ..popup
        }
    }
}

/// The item that is selected, by its index.
pub open spec fn selected(popup: CompletionView) -> Option<int> {
    if popup.cursor < popup.filtered.len() && popup.filtered[popup.cursor as int] < offered(popup.kind) {
        Some(popup.filtered[popup.cursor as int] as int)
    } else {
        None
    }
}

impl Completion {
    /// The title of the popup.
    pub fn title(&self) -> (title: &'static str)
        ensures
            title@ == if self@.kind is Skills {
                "skills"@
            } else {
                "commands"@
            },
    {
        match self.kind {
            CompletionKind::Skills(_) => "skills",
            CompletionKind::Commands(_) => "commands",
        }
    }

    /// Whether nothing matches.
    pub fn is_empty(&self) -> (b: bool)
        ensures
            b == (self@.filtered.len() == 0),
    {
        self.filtered.len() == 0
    }

    /// Moves the selection by some rows, round and round.
    pub fn move_cursor(&mut self, delta: i32)
        ensures
            final(self)@ == selection_moved(old(self)@, delta as int),
    {
        if self.filtered.len() == 0 {
            return ;
        }
        self.cursor = wrap(self.cursor, delta, self.filtered.len());
    }

    /// What to do with the row that is selected.
    pub fn accept(&self) -> (outcome: Option<AcceptOutcome>)
        ensures
            match (selected(self@), outcome) {
                (None, None) => true,
                (Some(i), Some(AcceptOutcome::Replace { replacement, cursor_offset })) => self@.kind
                    matches CompletionKindView::Skills(items) && replacement@ == mention_of(
                    items[i].name,
                ) && cursor_offset == cursor::byte_len(replacement@),
                (Some(i), Some(AcceptOutcome::Submit(name))) => self@.kind
                    matches CompletionKindView::Commands(items) && name@ == items[i].name,
                _ => false,
            },
    {
        if self.cursor >= self.filtered.len() {
            return None;
        }
        let index: usize = self.filtered[self.cursor];
        match &self.kind {
            CompletionKind::Skills(items) => {
                if index >= items.len() {
                    return None;
                }
                let replacement: String = text::glue3("$", items[index].name.as_str(), " ");
                let cursor_offset: usize = cursor::len_of(replacement.as_str());
                Some(AcceptOutcome::Replace { replacement, cursor_offset })
            },
            CompletionKind::Commands(items) => {
                if index >= items.len() {
                    return None;
                }
                Some(AcceptOutcome::Submit(items[index].name.to_owned()))
            },
        }
    }
}

/// An index moved by some steps, round and round.
pub fn wrap(at: usize, delta: i32, total: usize) -> (next: usize)
    requires
        total > 0,
    ensures
        next == (at + delta) % total as int,
        next < total,
{
    let base: usize = at % total;
    let steps: u64 = if delta >= 0 {
        delta as u64
    } else {
        (-(delta as i64)) as u64
    };
    let shift: u64 = steps % (total as u64);
    let shift: usize = shift as usize;
    let ghost n = total as int;
    let ghost q0 = at as int / n;
    let ghost q1 = steps as int / n;
    proof {
        vstd::arithmetic::div_mod::lemma_fundamental_div_mod(at as int, n);
        vstd::arithmetic::div_mod::lemma_fundamental_div_mod(steps as int, n);
    }
    if delta >= 0 {
        if base < total - shift {
            proof {
                assert(at + delta == (q0 + q1) * n + (base + shift)) by (nonlinear_arith)
                    requires
                        at == n * q0 + base,
                        delta == n * q1 + shift,
                ;
                vstd::arithmetic::div_mod::lemma_fundamental_div_mod_converse(
                    at + delta,
                    n,
                    q0 + q1,
                    base + shift,
                );
            }
            base + shift
        } else {
            proof {
                assert(at + delta == (q0 + q1 + 1) * n + (base + shift - n)) by (nonlinear_arith)
                    requires
                        at == n * q0 + base,
                        delta == n * q1 + shift,
                ;
                vstd::arithmetic::div_mod::lemma_fundamental_div_mod_converse(
                    at + delta,
                    n,
                    q0 + q1 + 1,
                    base + shift - n,
                );
            }
            base - (total - shift)
        }
    } else if base >= shift {
        proof {
            assert(at + delta == (q0 - q1) * n + (base - shift)) by (nonlinear_arith)
                requires
                    at == n * q0 + base,
                    -delta == n * q1 + shift,
            ;
            vstd::arithmetic::div_mod::lemma_fundamental_div_mod_converse(
                at + delta,
                n,
                q0 - q1,
                base - shift,
            );
        }
        base - shift
    } else {
        proof {
            assert(at + delta == (q0 - q1 - 1) * n + (base + n - shift)) by (nonlinear_arith)
                requires
                    at == n * q0 + base,
                    -delta == n * q1 + shift,
            ;
            vstd::arithmetic::div_mod::lemma_fundamental_div_mod_converse(
                at + delta,
                n,
                q0 - q1 - 1,
                base + n - shift,
            );
        }
        base + (total - shift)
    }
}

// -- Showing the popup --------------------------------------------------------------------------------

/// The rows that the popup takes, with its border; none where nothing matches.
pub fn desired_height(popup: &Completion) -> (rows: u16)
    ensures
        rows == if popup@.filtered.len() == 0 {
            0int
        } else if popup@.filtered.len() < POPUP_MAX_ROWS {
            popup@.filtered.len() as int + 2
        } else {
            POPUP_MAX_ROWS + 2
        },
{
    if popup.filtered.len() == 0 {
        return 0;
    }
    let rows: u16 = if popup.filtered.len() < POPUP_MAX_ROWS as usize {
        popup.filtered.len() as u16
    } else {
        POPUP_MAX_ROWS
    };
    rows + 2
}

/// The rows of a list that are in view: as many as there is room for, around the one selected.
pub open spec fn window_of(total: int, capacity: int, at: int) -> (int, int) {
    if capacity <= 0 || total <= 0 {
        (0, 0)
    } else {
        let shown = cursor::least(capacity, total);
        let wanted = if at < shown / 2 {
            0
        } else {
            at - shown / 2
        };
        let start = cursor::least(wanted, total - shown);
        (start, start + shown)
    }
}

/// The rows of a list that are in view.
pub fn visible_window(total: usize, capacity: usize, cursor: usize) -> (range: (usize, usize))
    ensures
        (range.0 as int, range.1 as int) == window_of(total as int, capacity as int, cursor as int),
        range.0 <= range.1 <= total,
{
    if capacity == 0 || total == 0 {
        return (0, 0);
    }
    let shown: usize = cursor::min(capacity, total);
    let half: usize = shown / 2;
    let wanted: usize = if cursor < half {
        0
    } else {
        cursor - half
    };
    let start: usize = cursor::min(wanted, total - shown);
    (start, start + shown)
}

/// The row that is selected is in view, and the view is as large as the room and the list allow.
pub proof fn law_selected_row_is_in_view(total: int, capacity: int, at: int)
    requires
        0 <= at < total,
        capacity > 0,
    ensures
        window_of(total, capacity, at).0 <= at < window_of(total, capacity, at).1,
        0 <= window_of(total, capacity, at).0,
        window_of(total, capacity, at).1 <= total,
        window_of(total, capacity, at).1 - window_of(total, capacity, at).0 == cursor::least(
            capacity,
            total,
        ),
{
}

/// The title line of the popup.
pub open spec fn popup_title_of(popup: CompletionView) -> StyledLineView {
    styled::line_of(
        seq![
            styled::span_of(
                " "@ + (if popup.kind is Skills {
                    "skills"@
                } else {
                    "commands"@
                }) + " "@,
                styled::bold_tinted(Tint::LightCyan),
            ),
            styled::span_of(
                "("@ + text::decimal(popup.filtered.len()) + " match"@ + (if popup.filtered.len() == 1 {
                    ""@
                } else {
                    "es"@
                }) + ")"@,
                styled::tinted(Tint::DarkGray),
            ),
        ],
    )
}

/// The title line of the popup.
pub fn popup_title(popup: &Completion) -> (line: StyledLine)
    ensures
        line@ == popup_title_of(popup@),
{
    let name: String = text::glue3(" ", popup.title(), " ");
    let total: String = text::number(popup.filtered.len() as u64);
    let ending: &str = if popup.filtered.len() == 1 {
        ""
    } else {
        "es"
    };
    let count: String = text::glue5("(", total.as_str(), " match", ending, ")");
    styled::line2(
        styled::span(name.as_str(), styled::bold_tinted(Tint::LightCyan)),
        styled::span(count.as_str(), styled::tinted(Tint::DarkGray)),
    )
}

/// The look of a row.
#[verifier::allow_in_spec]
pub fn row_style(is_selected: bool) -> SpanStyle
    returns
        (if is_selected {
            SpanStyle { bg: Some(Tint::DarkGray), ..styled::bold_tinted(Tint::White) }
        } else {
            styled::plain()
        }),
{
    if is_selected {
        styled::on(styled::bold_tinted(Tint::White), Some(Tint::DarkGray))
    } else {
        styled::plain()
    }
}

/// A row of the popup.
pub open spec fn popup_row_of(
    name: Seq<char>,
    name_style: SpanStyle,
    description: Seq<char>,
    is_selected: bool,
) -> StyledLineView {
    let over = row_style(is_selected);
    styled::line_of(
        seq![
            styled::span_of(
                if is_selected {
                    "› "@
                } else {
                    "  "@
                },
                over,
            ),
            styled::span_of(name, styled::patched(name_style, over)),
            styled::span_of("  "@, over),
            styled::span_of(description, styled::patched(styled::tinted(Tint::DarkGray), over)),
        ],
    )
}

fn popup_row(name: &str, name_style: SpanStyle, description: &str, is_selected: bool) -> (line: StyledLine)
    ensures
        line@ == popup_row_of(name@, name_style, description@, is_selected),
{
    let over: SpanStyle = row_style(is_selected);
    let mark: &str = if is_selected {
        "› "
    } else {
        "  "
    };
    let mut line: StyledLine = styled::line3(
        styled::span(mark, over),
        styled::span(name, styled::patched(name_style, over)),
        styled::span("  ", over),
    );
    line.spans.push(
        styled::span(description, styled::patched(styled::tinted(Tint::DarkGray), over)),
    );
    assert(line@.spans =~= popup_row_of(name@, name_style, description@, is_selected).spans);
    line
}

/// The row for one of the matches.
pub open spec fn match_row(popup: CompletionView, at: int) -> StyledLineView {
    let index = popup.filtered[at] as int;
    match popup.kind {
        CompletionKindView::Skills(items) => popup_row_of(
            "$"@ + items[index].name,
            styled::bold_tinted(Tint::Magenta),
            items[index].description,
            at == popup.cursor,
        ),
        CompletionKindView::Commands(items) => popup_row_of(
            items[index].name,
            styled::bold_tinted(Tint::LightCyan),
            items[index].description,
            at == popup.cursor,
        ),
    }
}

/// The rows for the matches from one to another; an index of nothing that is offered has no row.
pub open spec fn match_rows(popup: CompletionView, from: int, to: int) -> Seq<StyledLineView>
    decreases to - from,
{
    if to <= from {
        Seq::empty()
    } else if popup.filtered[to - 1] < offered(popup.kind) {
        match_rows(popup, from, to - 1).push(match_row(popup, to - 1))
    } else {
        match_rows(popup, from, to - 1)
    }
}

/// The popup as it is drawn: a frame with the rows that are in view; nothing where nothing matches
/// or there is no room.
pub open spec fn popup_items(area: Area, popup: CompletionView) -> Seq<DrawItemView> {
    let inner = draw::inner_of(area);
    let frame = DrawItemView::Frame {
        area,
        title: popup_title_of(popup),
        border: Tint::DarkGray,
    };
    if popup.filtered.len() == 0 || draw::is_void(area) {
        Seq::empty()
    } else if inner.height == 0 {
        seq![frame]
    } else {
        let range = window_of(
            popup.filtered.len() as int,
            inner.height as int,
            popup.cursor as int,
        );
        seq![
            frame,
            DrawItemView::Lines {
                area: inner,
                lines: match_rows(popup, range.0, range.1),
                wrap: false,
            },
        ]
    }
}

/// Draws the popup.
pub fn render(area: Area, popup: &Completion) -> (items: Vec<DrawItem>)
    ensures
        text::views(items@) == popup_items(area, popup@),
{
    let mut items: Vec<DrawItem> = Vec::new();
    if popup.filtered.len() == 0 || draw::is_void(area) {
        return items;
    }
    items.push(
        DrawItem::Frame { area, title: popup_title(popup), border: Tint::DarkGray },
    );
    let inner: Area = draw::inner_of(area);
    if inner.height > 0 {
        let lines: Vec<StyledLine> = popup_lines(popup, inner.height as usize);
        items.push(DrawItem::Lines { area: inner, lines, wrap: false });
    }
    assert(text::views(items@) =~= popup_items(area, popup@));
    items
}

/// The rows of the popup that are in view.
pub fn popup_lines(popup: &Completion, capacity: usize) -> (lines: Vec<StyledLine>)
    ensures
        ({
            let range = window_of(
                popup@.filtered.len() as int,
                capacity as int,
                popup@.cursor as int,
            );
            text::views(lines@) == match_rows(popup@, range.0, range.1)
        }),
{
    let (start, end) = visible_window(popup.filtered.len(), capacity, popup.cursor);
    let mut lines: Vec<StyledLine> = Vec::new();
    let mut at: usize = start;
    while at < end
        invariant
            start <= at <= end,
            end <= popup.filtered@.len(),
            text::views(lines@) == match_rows(popup@, start as int, at as int),
        decreases end - at,
    {
        let index: usize = popup.filtered[at];
        let is_selected: bool = at == popup.cursor;
        match &popup.kind {
            CompletionKind::Skills(items) => {
                if index < items.len() {
                    let name: String = text::glue("$", items[index].name.as_str());
                    lines.push(
                        popup_row(
                            name.as_str(),
                            styled::bold_tinted(Tint::Magenta),
                            items[index].description.as_str(),
                            is_selected,
                        ),
                    );
                }
            },
            CompletionKind::Commands(items) => {
                if index < items.len() {
                    lines.push(
                        popup_row(
                            items[index].name,
                            styled::bold_tinted(Tint::LightCyan),
                            items[index].description,
                            is_selected,
                        ),
                    );
                }
            },
        }
        at = at + 1;
    }
    lines
}

// -- What holds of popups -----------------------------------------------------------------------------

proof fn lemma_ranked(ranks: Seq<int>, wanted: int, count: int)
    requires
        0 <= count <= ranks.len(),
        ranks.len() <= usize::MAX,
    ensures
        forall|k: int|
            0 <= k < ranked(ranks, wanted, count).len() ==> (#[trigger] ranked(
                ranks,
                wanted,
                count,
            )[k]) < count && ranks[ranked(ranks, wanted, count)[k] as int] == wanted,
        forall|i: int|
            0 <= i < count && #[trigger] ranks[i] == wanted ==> ranked(ranks, wanted, count).contains(
                i as usize,
            ),
        forall|j: int, k: int|
            0 <= j < k < ranked(ranks, wanted, count).len() ==> (#[trigger] ranked(
                ranks,
                wanted,
                count,
            )[j]) < (#[trigger] ranked(ranks, wanted, count)[k]),
    decreases count,
{
    if count > 0 {
        lemma_ranked(ranks, wanted, count - 1);
        let before = ranked(ranks, wanted, count - 1);
        let now = ranked(ranks, wanted, count);
        assert forall|i: int| 0 <= i < count && #[trigger] ranks[i] == wanted implies now.contains(
            i as usize,
        ) by {
            if i == count - 1 {
                assert(now[before.len() as int] == i as usize);
            } else {
                assert(before.contains(i as usize));
                let k = choose|k: int| 0 <= k < before.len() && before[k] == i as usize;
                assert(now[k] == i as usize);
            }
        }
    }
}

/// Every row of a popup is one of what is offered, and matches.
pub proof fn law_every_row_matches(ranks: Seq<int>, k: int)
    requires
        ranks.len() <= usize::MAX,
        0 <= k < matches_of(ranks).len(),
    ensures
        matches_of(ranks)[k] < ranks.len(),
        ranks[matches_of(ranks)[k] as int] == 0 || ranks[matches_of(ranks)[k] as int] == 1,
{
    let n = ranks.len() as int;
    lemma_ranked(ranks, 0, n);
    lemma_ranked(ranks, 1, n);
    let first = ranked(ranks, 0, n);
    if k < first.len() {
        assert(matches_of(ranks)[k] == first[k]);
    } else {
        assert(matches_of(ranks)[k] == ranked(ranks, 1, n)[k - first.len()]);
    }
}

/// What begins with the query comes before everything else; and within each of the two groups the
/// order of what is offered is kept.
pub proof fn law_best_matches_come_first(ranks: Seq<int>, j: int, k: int)
    requires
        ranks.len() <= usize::MAX,
        0 <= j < k < matches_of(ranks).len(),
    ensures
        ranks[matches_of(ranks)[j] as int] <= ranks[matches_of(ranks)[k] as int],
        ranks[matches_of(ranks)[j] as int] == ranks[matches_of(ranks)[k] as int] ==> matches_of(ranks)[j]
            < matches_of(ranks)[k],
{
    let n = ranks.len() as int;
    lemma_ranked(ranks, 0, n);
    lemma_ranked(ranks, 1, n);
    let first = ranked(ranks, 0, n);
    let second = ranked(ranks, 1, n);
    if j < first.len() {
        assert(matches_of(ranks)[j] == first[j]);
    } else {
        assert(matches_of(ranks)[j] == second[j - first.len()]);
    }
    if k < first.len() {
        assert(matches_of(ranks)[k] == first[k]);
    } else {
        assert(matches_of(ranks)[k] == second[k - first.len()]);
    }
}

/// Everything that matches is listed.
pub proof fn law_every_match_is_listed(ranks: Seq<int>, i: int)
    requires
        ranks.len() <= usize::MAX,
        0 <= i < ranks.len(),
    ensures
        ranks[i] == 0 || ranks[i] == 1 ==> matches_of(ranks).contains(i as usize),
{
    let n = ranks.len() as int;
    lemma_ranked(ranks, 0, n);
    lemma_ranked(ranks, 1, n);
    let first = ranked(ranks, 0, n);
    let second = ranked(ranks, 1, n);
    if ranks[i] == 0 {
        let k = choose|k: int| 0 <= k < first.len() && first[k] == i as usize;
        assert(matches_of(ranks)[k] == i as usize);
    } else if ranks[i] == 1 {
        let k = choose|k: int| 0 <= k < second.len() && second[k] == i as usize;
        assert(matches_of(ranks)[first.len() + k] == i as usize);
    }
}

proof fn lemma_all_ranked(ranks: Seq<int>, wanted: int, count: int)
    requires
        0 <= count <= ranks.len(),
        forall|i: int| 0 <= i < ranks.len() ==> #[trigger] ranks[i] == wanted,
    ensures
        ranked(ranks, wanted, count) == Seq::new(count as nat, |i: int| i as usize),
    decreases count,
{
    if count > 0 {
        lemma_all_ranked(ranks, wanted, count - 1);
        assert(ranks[count - 1] == wanted);
    }
    assert(ranked(ranks, wanted, count) =~= Seq::new(count as nat, |i: int| i as usize));
}

proof fn lemma_none_ranked(ranks: Seq<int>, wanted: int, count: int)
    requires
        0 <= count <= ranks.len(),
        forall|i: int| 0 <= i < ranks.len() ==> #[trigger] ranks[i] != wanted,
    ensures
        ranked(ranks, wanted, count) == Seq::<usize>::empty(),
    decreases count,
{
    if count > 0 {
        lemma_none_ranked(ranks, wanted, count - 1);
        assert(ranks[count - 1] != wanted);
    }
}

/// A sign with nothing after it lists everything, skills or commands, in order.
pub proof fn law_empty_query_lists_everything(
    skills: Seq<SkillDescriptorView>,
    commands: Seq<SlashCommandView>,
)
    ensures
        matches_of(skill_ranks(skills, Seq::empty())) == Seq::new(skills.len(), |i: int| i as usize),
        matches_of(command_ranks(commands, Seq::empty())) == Seq::new(
            commands.len(),
            |i: int| i as usize,
        ),
{
    let nothing = text::lower(Seq::<char>::empty());
    let of_skills = skill_ranks(skills, Seq::empty());
    assert forall|i: int| 0 <= i < of_skills.len() implies #[trigger] of_skills[i] == 0 by {
        assert(text::lower(skills[i].name).take(0) =~= nothing);
    }
    lemma_every_rank_is_best(of_skills);
    let of_commands = command_ranks(commands, Seq::empty());
    assert forall|i: int| 0 <= i < of_commands.len() implies #[trigger] of_commands[i] == 0 by {
        assert(text::lower(without_slashes(commands[i].name)).take(0) =~= nothing);
    }
    lemma_every_rank_is_best(of_commands);
}

proof fn lemma_every_rank_is_best(ranks: Seq<int>)
    requires
        forall|i: int| 0 <= i < ranks.len() ==> #[trigger] ranks[i] == 0,
    ensures
        matches_of(ranks) == Seq::new(ranks.len(), |i: int| i as usize),
{
    lemma_all_ranked(ranks, 0, ranks.len() as int);
    lemma_none_ranked(ranks, 1, ranks.len() as int);
    assert(matches_of(ranks) =~= Seq::new(ranks.len(), |i: int| i as usize));
}

/// While anything matches, moving the selection keeps it on a row, and moving it back undoes the
/// move.
pub proof fn law_selection_goes_round(popup: CompletionView, delta: int)
    requires
        popup.cursor < popup.filtered.len() <= usize::MAX,
    ensures
        selection_moved(popup, delta).cursor < popup.filtered.len(),
        selection_moved(selection_moved(popup, delta), -delta) == popup,
{
    let at = popup.cursor as int;
    let total = popup.filtered.len() as int;
    vstd::arithmetic::div_mod::lemma_fundamental_div_mod(at + delta, total);
    let q = (at + delta) / total;
    let r = (at + delta) % total;
    assert(r - delta == (0 - q) * total + at) by (nonlinear_arith)
        requires
            at + delta == total * q + r,
    ;
    vstd::arithmetic::div_mod::lemma_fundamental_div_mod_converse(r - delta, total, 0 - q, at);
}

// -- What a popup offers -----------------------------------------------------------------------------

/// Whether what is looked for is found in a name or in a description, whatever the case of the
/// letters.
pub open spec fn is_found(name: Seq<char>, description: Seq<char>, query: Seq<char>) -> bool {
    ||| text::contains_text(text::lower(name), text::lower(query))
    ||| text::contains_text(text::lower(description), text::lower(query))
}

/// Whether a name begins with what is looked for, whatever the case of the letters.
pub open spec fn leads(name: Seq<char>, query: Seq<char>) -> bool {
    text::begins(text::lower(name), text::lower(query))
}

proof fn lemma_rank(name: Seq<char>, description: Seq<char>, query: Seq<char>)
    ensures
        rank(name, description, text::lower(query)) == 0 <==> leads(name, query),
        rank(name, description, text::lower(query)) <= 1 <==> is_found(name, description, query),
        0 <= rank(name, description, text::lower(query)) <= 2,
{
    let q = text::lower(query);
    let low = text::lower(name);
    if text::begins(low, q) {
        assert(low.subrange(0, 0int + q.len()) =~= q);
    }
}

/// While the first word of the line begins with the sign for skills and the cursor is in it, every
/// skill is offered in whose name or description what is typed after the sign is found, and no other;
/// those whose name begins with it come first, and otherwise they keep their order.
pub proof fn law_skills_are_offered_by_what_is_typed(
    buffer: Seq<char>,
    at: int,
    skills: Seq<SkillDescriptorView>,
    previous: Option<CompletionView>,
    i: int,
    j: int,
    k: int,
)
    requires
        is_open(buffer, at),
        buffer[0] == '$',
        0 <= i < skills.len() <= usize::MAX,
    ensures
        popup_of(buffer, at, Some(skills), previous) is Some,
        ({
            let popup = popup_of(buffer, at, Some(skills), previous)->0;
            let query = buffer.subrange(1, cursor::chars_before(buffer, at));
            &&& popup.kind == CompletionKindView::Skills(skills)
            &&& popup.query == query
            &&& popup.filtered.contains(i as usize) <==> is_found(
                skills[i].name,
                skills[i].description,
                query,
            )
            &&& 0 <= j < popup.filtered.len() ==> popup.filtered[j] < skills.len()
            &&& 0 <= j < k < popup.filtered.len() ==> {
                let first = popup.filtered[j] as int;
                let second = popup.filtered[k] as int;
                &&& leads(skills[second].name, query) ==> leads(skills[first].name, query)
                &&& leads(skills[second].name, query) == leads(skills[first].name, query) ==> first
                    < second
            }
            &&& popup.filtered.len() > 0 ==> popup.cursor < popup.filtered.len()
        }),
{
    let query = query_of(buffer, at);
    let ranks = skill_ranks(skills, query);
    let filtered = matches_of(ranks);
    lemma_rank(skills[i].name, skills[i].description, query);
    assert(ranks[i] == rank(skills[i].name, skills[i].description, text::lower(query)));
    law_every_match_is_listed(ranks, i);
    if filtered.contains(i as usize) {
        let m = choose|m: int| 0 <= m < filtered.len() && filtered[m] == i as usize;
        law_every_row_matches(ranks, m);
    }
    if 0 <= j < filtered.len() {
        law_every_row_matches(ranks, j);
    }
    if 0 <= j < k < filtered.len() {
        law_every_row_matches(ranks, k);
        law_best_matches_come_first(ranks, j, k);
        let first = skills[filtered[j] as int];
        let second = skills[filtered[k] as int];
        lemma_rank(first.name, first.description, query);
        lemma_rank(second.name, second.description, query);
    }
    lemma_matches_fit(ranks);
}

/// While the first word of the line begins with a slash and the cursor is in it, every command is
/// offered in whose name or description what is typed after the slash is found, and no other; those
/// whose name begins with it come first, and otherwise they keep their order.
pub proof fn law_commands_are_offered_by_what_is_typed(
    buffer: Seq<char>,
    at: int,
    skills: Option<Seq<SkillDescriptorView>>,
    previous: Option<CompletionView>,
    i: int,
    j: int,
    k: int,
)
    requires
        is_open(buffer, at),
        buffer[0] == '/',
        0 <= i < all_commands().len(),
    ensures
        popup_of(buffer, at, skills, previous) is Some,
        ({
            let all = all_commands();
            let popup = popup_of(buffer, at, skills, previous)->0;
            let query = buffer.subrange(1, cursor::chars_before(buffer, at));
            &&& popup.kind == CompletionKindView::Commands(all)
            &&& popup.query == query
            &&& popup.filtered.contains(i as usize) <==> is_found(
                all[i].name.skip(1),
                all[i].description,
                query,
            )
            &&& 0 <= j < popup.filtered.len() ==> popup.filtered[j] < all.len()
            &&& 0 <= j < k < popup.filtered.len() ==> {
                let first = popup.filtered[j] as int;
                let second = popup.filtered[k] as int;
                &&& leads(all[second].name.skip(1), query) ==> leads(all[first].name.skip(1), query)
                &&& leads(all[second].name.skip(1), query) == leads(all[first].name.skip(1), query)
                    ==> first < second
            }
            &&& popup.filtered.len() > 0 ==> popup.cursor < popup.filtered.len()
        }),
{
    let all = all_commands();
    let query = query_of(buffer, at);
    let ranks = command_ranks(all, query);
    let filtered = matches_of(ranks);
    law_commands_are_words_after_a_slash(i);
    lemma_rank(without_slashes(all[i].name), all[i].description, query);
    law_every_match_is_listed(ranks, i);
    if filtered.contains(i as usize) {
        let m = choose|m: int| 0 <= m < filtered.len() && filtered[m] == i as usize;
        law_every_row_matches(ranks, m);
    }
    if 0 <= j < filtered.len() {
        law_every_row_matches(ranks, j);
    }
    if 0 <= j < k < filtered.len() {
        law_every_row_matches(ranks, k);
        law_best_matches_come_first(ranks, j, k);
        let first = filtered[j] as int;
        let second = filtered[k] as int;
        law_commands_are_words_after_a_slash(first);
        law_commands_are_words_after_a_slash(second);
        lemma_rank(without_slashes(all[first].name), all[first].description, query);
        lemma_rank(without_slashes(all[second].name), all[second].description, query);
    }
    lemma_matches_fit(ranks);
}

proof fn lemma_matches_fit(ranks: Seq<int>)
    requires
        ranks.len() <= usize::MAX,
    ensures
        matches_of(ranks).len() <= ranks.len(),
{
    lemma_both_ranked(ranks, ranks.len() as int);
}

proof fn lemma_both_ranked(ranks: Seq<int>, count: int)
    requires
        0 <= count <= ranks.len(),
    ensures
        ranked(ranks, 0, count).len() + ranked(ranks, 1, count).len() <= count,
    decreases count,
{
    if count > 0 {
        lemma_both_ranked(ranks, count - 1);
    }
}

/// The name of every command is one slash and a word, and no two are the same.
pub proof fn law_commands_are_words_after_a_slash(i: int)
    requires
        0 <= i < all_commands().len(),
    ensures
        all_commands()[i].name.len() > 1,
        all_commands()[i].name[0] == '/',
        without_slashes(all_commands()[i].name) == all_commands()[i].name.skip(1),
        forall|k: int|
            0 <= k < all_commands()[i].name.len() ==> !text::is_space(
                #[trigger] all_commands()[i].name[k],
            ),
        forall|j: int|
            0 <= j < all_commands().len() && j != i ==> (#[trigger] all_commands()[j]).name
                != all_commands()[i].name,
{
    reveal_strlit("/help");
    reveal_strlit("/skills");
    reveal_strlit("/threads");
    reveal_strlit("/artifacts");
    reveal_strlit("/approval");
    reveal_strlit("/clear");
    reveal_strlit("/quit");
    let name = all_commands()[i].name;
    assert(name[0] == '/' && name[1] != '/' && name.len() > 1);
    assert(name.drop_first() =~= name.skip(1));
    assert(name.drop_first()[0] == name[1]);
    reveal_with_fuel(without_slashes, 2);
    assert("/help"@.len() == 5 && "/quit"@.len() == 5 && "/help"@[1] == 'h' && "/quit"@[1] == 'q');
    assert("/skills"@.len() == 7 && "/threads"@.len() == 8 && "/artifacts"@.len() == 10
        && "/approval"@.len() == 9 && "/clear"@.len() == 6);
}

/// A popup is open exactly while the line begins with one of the two signs, the cursor is behind it,
/// and no white space lies between the start of the line and the cursor.
pub proof fn law_a_popup_opens_in_the_first_word(buffer: Seq<char>, at: int)
    requires
        cursor::boundary(buffer, at),
    ensures
        is_open(buffer, at) <==> {
            &&& at > 0
            &&& buffer.len() > 0
            &&& buffer[0] == '$' || buffer[0] == '/'
            &&& forall|i: int|
                0 <= i < cursor::chars_before(buffer, at) ==> !text::is_space(#[trigger] buffer[i])
        },
{
    cursor::lemma_boundary(buffer, at);
    let k = cursor::chars_before(buffer, at);
    let end = text::first_space(buffer);
    text::lemma_first_space(buffer);
    if k <= end {
        cursor::lemma_byte_at_monotone(buffer, k, end);
    } else {
        cursor::lemma_byte_at_monotone(buffer, end, k);
    }
}

/// Without the list of skills nothing is offered for the sign of skills; outside the first word nothing
/// is offered at all.
pub proof fn law_nothing_is_offered_elsewhere(
    buffer: Seq<char>,
    at: int,
    skills: Option<Seq<SkillDescriptorView>>,
    previous: Option<CompletionView>,
)
    ensures
        !is_open(buffer, at) ==> popup_of(buffer, at, skills, previous) is None,
        buffer.len() > 0 && buffer[0] == '$' && skills is None ==> popup_of(
            buffer,
            at,
            skills,
            previous,
        ) is None,
        is_open(buffer, at) && buffer[0] == '/' ==> popup_of(buffer, at, skills, previous) is Some,
        popup_of(buffer, at, skills, previous) matches Some(popup) ==> popup.anchor_byte == 0,
{
}

/// While more is typed the selection stays on the row that it was on, as long as there is one, and else
/// goes to the last; in a popup of another kind it begins at the top.
pub proof fn law_the_selection_is_kept(
    buffer: Seq<char>,
    at: int,
    skills: Option<Seq<SkillDescriptorView>>,
    previous: Option<CompletionView>,
)
    requires
        popup_of(buffer, at, skills, previous) is Some,
    ensures
        ({
            let popup = popup_of(buffer, at, skills, previous)->0;
            let same = previous is Some && ((previous->0.kind is Skills) == (popup.kind is Skills));
            &&& !same ==> popup.cursor == 0
            &&& same && previous->0.cursor < popup.filtered.len() ==> popup.cursor
                == previous->0.cursor
            &&& same && previous->0.cursor >= popup.filtered.len() && 0 < popup.filtered.len()
                <= usize::MAX ==> popup.cursor == popup.filtered.len() - 1
        }),
{
}

/// What is selected is the row on which the selection stands, and moving it by one goes to the next
/// row, from the last on to the first.
pub proof fn law_moving_goes_to_the_next_row(popup: CompletionView)
    requires
        popup.cursor < popup.filtered.len() <= usize::MAX,
        popup.filtered[popup.cursor as int] < offered(popup.kind),
    ensures
        selected(popup) == Some(popup.filtered[popup.cursor as int] as int),
        popup.cursor + 1 < popup.filtered.len() ==> selection_moved(popup, 1).cursor == popup.cursor
            + 1,
        popup.cursor + 1 == popup.filtered.len() ==> selection_moved(popup, 1).cursor == 0,
        popup.cursor > 0 ==> selection_moved(popup, -1).cursor == popup.cursor - 1,
        popup.cursor == 0 ==> selection_moved(popup, -1).cursor == popup.filtered.len() - 1,
        selection_moved(popup, 1).filtered == popup.filtered,
        selection_moved(popup, 1).kind == popup.kind,
{
    let n = popup.filtered.len() as int;
    let at = popup.cursor as int;
    if at + 1 < n {
        vstd::arithmetic::div_mod::lemma_small_mod((at + 1) as nat, n as nat);
    } else {
        vstd::arithmetic::div_mod::lemma_mod_self_0(n);
    }
    if at > 0 {
        vstd::arithmetic::div_mod::lemma_small_mod((at - 1) as nat, n as nat);
    } else {
        vstd::arithmetic::div_mod::lemma_fundamental_div_mod_converse(-1, n, -1, n - 1);
    }
}

/// The row that is selected is marked, and shows the name and the description of what is offered; no
/// other row is marked.
pub proof fn law_rows_show_what_they_offer(popup: CompletionView, at: int)
    requires
        0 <= at < popup.filtered.len(),
        popup.filtered[at] < offered(popup.kind),
    ensures
        ({
            let row = match_row(popup, at);
            let index = popup.filtered[at] as int;
            &&& row.spans.len() == 4
            &&& row.spans[0].text == "› "@ <==> at == popup.cursor
            &&& popup.kind matches CompletionKindView::Skills(items) ==> row.spans[1].text == "$"@
                + items[index].name && row.spans[3].text == items[index].description
            &&& popup.kind matches CompletionKindView::Commands(items) ==> row.spans[1].text
                == items[index].name && row.spans[3].text == items[index].description
        }),
{
    reveal_strlit("› ");
    reveal_strlit("  ");
    assert("› "@[0] == '›' && "  "@[0] == ' ');
}

/// A skill that is taken from a popup is named by the line: what is put in, and whatever is typed
/// behind it, is read as that skill and those words.
pub proof fn law_a_taken_skill_is_named(name: Seq<char>, words: Seq<char>)
    requires
        name.len() > 0,
        forall|i: int| 0 <= i < name.len() ==> !text::is_space(#[trigger] name[i]),
        words.len() == 0 || !text::is_space(words[0]),
    ensures
        picker::skill_named(mention_of(name) + words) == Some(name),
        picker::after_skill(mention_of(name) + words) == words,
        mention_of(name).len() == name.len() + 2,
{
    reveal_strlit("$");
    reveal_strlit(" ");
    assert("$"@ =~= seq!['$'] && " "@ =~= seq![' ']);
    let rest = seq![' '] + words;
    assert(mention_of(name) + words =~= seq!['$'] + name + rest);
    picker::law_skill_mention_is_taken_apart(name, rest);
    assert(rest.drop_first() =~= words);
    reveal_with_fuel(text::trim_start_of, 2);
}

/// The title of a popup tells what is offered and how much of it.
pub proof fn law_the_title_counts_the_offers(popup: CompletionView)
    ensures
        ({
            let title = popup_title_of(popup);
            &&& popup.kind is Skills ==> title.spans[0].text == " "@ + "skills"@ + " "@
            &&& !(popup.kind is Skills) ==> title.spans[0].text == " "@ + "commands"@ + " "@
            &&& popup.filtered.len() == 1 ==> title.spans[1].text == "(1 match)"@
            &&& popup.filtered.len() != 1 ==> title.spans[1].text == "("@ + text::decimal(
                popup.filtered.len(),
            ) + " matches)"@
        }),
{
    reveal_strlit(" match");
    reveal_strlit("es");
    reveal_strlit("");
    reveal_strlit(")");
    reveal_strlit(" matches)");
    reveal_strlit("(");
    reveal_strlit("(1 match)");
    let n = text::decimal(popup.filtered.len());
    if popup.filtered.len() == 1 {
        assert(n =~= seq!['1']);
        assert("("@ + n + " match"@ + ""@ + ")"@ =~= "(1 match)"@);
    } else {
        assert("("@ + n + " match"@ + "es"@ + ")"@ =~= "("@ + n + " matches)"@);
    }
}

/// The rows of a popup are those of its offers in view, in their order, inside a frame; without offers
/// or room there is nothing.
pub proof fn law_a_popup_shows_its_offers(popup: CompletionView, from: int, to: int, i: int)
    requires
        0 <= from <= to <= popup.filtered.len(),
        forall|k: int|
            0 <= k < popup.filtered.len() ==> #[trigger] popup.filtered[k] < offered(popup.kind),
    ensures
        match_rows(popup, from, to).len() == to - from,
        from <= i < to ==> match_rows(popup, from, to)[i - from] == match_row(popup, i),
    decreases to - from,
{
    if from < to {
        law_a_popup_shows_its_offers(popup, from, to - 1, i);
        assert(popup.filtered[to - 1] < offered(popup.kind));
    }
}

} // verus!
