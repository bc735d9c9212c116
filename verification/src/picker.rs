//! Picking from lists: filters, numbered choices, and skills named in a prompt.
use vstd::prelude::*;

use crate::artifacts::{ArtifactManifest, ArtifactManifestView, ArtifactReadBundle};
use crate::cursor;
use crate::labels;
use crate::paths;
use crate::skills::{SkillDescriptor, SkillDescriptorView};
use crate::text;
use crate::ui::{ThreadListItem, ThreadListItemView};

verus! {

broadcast use text::group_views;

// -- Skills named in a prompt ---------------------------------------------------------

/// What follows the sign that opens a mention of a skill, where a prompt begins with one.
pub open spec fn after_sign(raw: Seq<char>) -> Option<Seq<char>> {
    let t = text::trim_start_of(raw);
    if t.len() > 0 && t[0] == '$' {
        Some(t.skip(1))
    } else {
        None
    }
}

/// The skill that a prompt names at its beginning.
pub open spec fn skill_named(raw: Seq<char>) -> Option<Seq<char>> {
    match after_sign(raw) {
        Some(rest) => {
            if text::words_of(rest).len() > 0 {
                Some(text::words_of(rest)[0])
            } else {
                None
            }
        },
        None => None,
    }
}

/// Whether as many bytes as the name takes can be cut off after the sign.
pub open spec fn can_cut_skill(raw: Seq<char>) -> bool {
    skill_named(raw) is Some ==> cursor::boundary(
        after_sign(raw)->0,
        cursor::byte_len(skill_named(raw)->0),
    )
}

/// The rest of a prompt that names a skill: what is left after as many bytes as the name takes.
pub open spec fn after_skill(raw: Seq<char>) -> Seq<char> {
    let rest = after_sign(raw)->0;
    text::trim_start_of(
        rest.skip(cursor::chars_before(rest, cursor::byte_len(skill_named(raw)->0))),
    )
}

/// What follows the sign that opens a mention of a skill.
fn strip_sign(raw_text: &str) -> (rest: Option<String>)
    ensures
        text::opt_view(rest) == after_sign(raw_text@),
{
    let trimmed: String = text::trim_start(raw_text);
    let chars: Vec<char> = text::chars_of(trimmed.as_str());
    if chars.len() > 0 && chars[0] == '$' {
        let rest: String = text::text_of(&chars, 1, chars.len());
        assert(rest@ =~= trimmed@.skip(1));
        Some(rest)
    } else {
        None
    }
}

/// Whether the mention of a skill can be cut off a prompt.
pub fn is_skill_token_cuttable(raw_text: &str) -> (b: bool)
    ensures
        b == can_cut_skill(raw_text@),
{
    match strip_sign(raw_text) {
        Some(rest) => {
            let words: Vec<String> = text::words(rest.as_str());
            if words.len() == 0 {
                true
            } else {
                assert(text::words_of(rest@)[0] == words@[0]@);
                cursor::at_boundary(rest.as_str(), cursor::len_of(words[0].as_str()))
            }
        },
        None => true,
    }
}

/// The skill that a prompt names at its beginning, and the rest of the prompt.
pub fn parse_leading_skill_token(raw_text: &str) -> (found: Option<(String, String)>)
    requires
        can_cut_skill(raw_text@),
    ensures
        match found {
            Some((token, rest)) => skill_named(raw_text@) == Some(token@) && rest@ == after_skill(
                raw_text@,
            ),
            None => skill_named(raw_text@) is None,
        },
{
    match strip_sign(raw_text) {
        Some(rest) => {
            let words: Vec<String> = text::words(rest.as_str());
            if words.len() == 0 {
                return None;
            }
            assert(text::words_of(rest@)[0] == words@[0]@);
            let token: String = words[0].clone();
            let (_head, tail) = cursor::split_at_byte(
                rest.as_str(),
                cursor::len_of(token.as_str()),
            );
            Some((token, text::trim_start(tail.as_str())))
        },
        None => None,
    }
}

/// A prompt that opens with the sign, the name of a skill and then nothing or white space is taken
/// apart into just that name and what follows it.
pub proof fn law_skill_mention_is_taken_apart(token: Seq<char>, rest: Seq<char>)
    requires
        token.len() > 0,
        forall|i: int| 0 <= i < token.len() ==> !text::is_space(#[trigger] token[i]),
        rest.len() == 0 || text::is_space(rest[0]),
    ensures
        can_cut_skill(seq!['$'] + token + rest),
        skill_named(seq!['$'] + token + rest) == Some(token),
        after_skill(seq!['$'] + token + rest) == text::trim_start_of(rest),
{
    let raw = seq!['$'] + token + rest;
    let after = token + rest;
    assert(raw[0] == '$');
    assert(!text::is_space('$'));
    assert(text::trim_start_of(raw) == raw);
    assert(raw.skip(1) =~= after);
    assert(after[0] == token[0]);
    assert(text::trim_start_of(after) == after);
    lemma_first_space_at(after, token.len() as int);
    assert(after.take(token.len() as int) =~= token);
    assert(text::words_of(after)[0] == token);
    assert(cursor::byte_at(after, token.len() as int) == cursor::byte_len(token));
    cursor::lemma_chars_before_byte_at(after, token.len() as int);
    assert(after.skip(token.len() as int) =~= rest);
}

proof fn lemma_first_space_at(s: Seq<char>, k: int)
    requires
        0 <= k <= s.len(),
        forall|i: int| 0 <= i < k ==> !text::is_space(#[trigger] s[i]),
        k < s.len() ==> text::is_space(s[k]),
    ensures
        text::first_space(s) == k,
    decreases k,
{
    if k > 0 {
        assert(!text::is_space(s[0]));
        let t = s.drop_first();
        assert forall|i: int| 0 <= i < k - 1 implies !text::is_space(#[trigger] t[i]) by {
            assert(t[i] == s[i + 1]);
        }
        lemma_first_space_at(t, k - 1);
    }
}

/// The skills with a given name.
pub open spec fn skills_named(skills: Seq<SkillDescriptorView>, name: Seq<char>) -> Seq<
    SkillDescriptorView,
> {
    skills.filter(|skill: SkillDescriptorView| skill.name == name)
}

/// What a name stands for among the skills there are.
#[derive(Debug, PartialEq)]
pub enum SkillTokenMatch {
    Missing,
    Unique(SkillDescriptor),
    Ambiguous(Vec<SkillDescriptor>),
}

/// What a name stands for among the skills there are.
pub fn match_skill_token(token: &str, skills: &[SkillDescriptor]) -> (found: SkillTokenMatch)
    ensures
        match found {
            SkillTokenMatch::Missing => skills_named(text::views(skills@), token@).len() == 0,
            SkillTokenMatch::Unique(skill) => skills_named(text::views(skills@), token@) == seq![
                skill@,
            ],
            SkillTokenMatch::Ambiguous(matches) => matches@.len() > 1 && text::views(matches@)
                == skills_named(text::views(skills@), token@),
        },
{
    let ghost all = text::views(skills@);
    let ghost wanted = |skill: SkillDescriptorView| skill.name == token@;
    let mut matches: Vec<SkillDescriptor> = Vec::new();
    let mut i: usize = 0;
    proof {
        reveal(Seq::filter);
        assert(all.take(0).filter(wanted) =~= Seq::empty());
    }
    while i < skills.len()
        invariant
            i <= skills@.len(),
            all == text::views(skills@),
            wanted == (|skill: SkillDescriptorView| skill.name == token@),
            text::views(matches@) == all.take(i as int).filter(wanted),
        decreases skills@.len() - i,
    {
        proof {
            reveal(Seq::filter);
            assert(all.take(i + 1).drop_last() =~= all.take(i as int));
            assert(all.take(i + 1).last() == skills@[i as int]@);
        }
        if text::same_text(skills[i].name.as_str(), token) {
            let copy: SkillDescriptor = skills[i].clone();
            matches.push(copy);
        }
        i = i + 1;
    }
    assert(all.take(all.len() as int) =~= all);
    if matches.len() == 0 {
        assert(text::views(matches@).len() == 0);
        SkillTokenMatch::Missing
    } else if matches.len() == 1 {
        let skill: SkillDescriptor = matches[0].clone();
        assert(text::views(matches@) =~= seq![skill@]);
        SkillTokenMatch::Unique(skill)
    } else {
        SkillTokenMatch::Ambiguous(matches)
    }
}

pub open spec fn skill_description(skill: SkillDescriptorView) -> Seq<char> {
    skill.name + " ["@ + labels::scope_label_of(skill.scope) + "] ("@ + skill.path + ")"@
}

/// A skill with where it comes from and where it lies.
pub fn describe_skill(skill: &SkillDescriptor) -> (out: String)
    ensures
        out@ == skill_description(skill@),
{
    let head: String = selected_skill_label(skill);
    proof {
        reveal_strlit("]");
        reveal_strlit("] (");
        reveal_strlit(" (");
        assert("] ("@ =~= "]"@ + " ("@);
    }
    let out: String = text::glue4(head.as_str(), " (", skill.path.as_str(), ")");
    assert(out@ =~= skill_description(skill@));
    out
}

pub open spec fn skill_label(skill: SkillDescriptorView) -> Seq<char> {
    skill.name + " ["@ + labels::scope_label_of(skill.scope) + "]"@
}

/// A skill with where it comes from.
pub fn selected_skill_label(skill: &SkillDescriptor) -> (out: String)
    ensures
        out@ == skill_label(skill@),
{
    text::glue4(skill.name.as_str(), " [", labels::skill_scope_label(skill.scope), "]")
}

pub open spec fn skill_place(skill: SkillDescriptorView) -> Seq<char> {
    labels::scope_label_of(skill.scope) + ":"@ + skill.path
}

pub open spec fn skill_places(skills: Seq<SkillDescriptorView>) -> Seq<char> {
    text::join_of(Seq::new(skills.len(), |i: int| skill_place(skills[i])), ", "@)
}

/// Where skills come from and lie, in one line.
pub fn summarize_skill_paths(skills: &Vec<SkillDescriptor>) -> (out: String)
    ensures
        out@ == skill_places(text::views(skills@)),
{
    let mut parts: Vec<String> = Vec::new();
    let mut i: usize = 0;
    while i < skills.len()
        invariant
            i <= skills@.len(),
            parts@.len() == i,
            forall|j: int| 0 <= j < i ==> (#[trigger] parts@[j])@ == skill_place(skills@[j]@),
        decreases skills@.len() - i,
    {
        parts.push(
            text::glue3(labels::skill_scope_label(skills[i].scope), ":", skills[i].path.as_str()),
        );
        i = i + 1;
    }
    let ghost all = text::views(skills@);
    assert(text::views(parts@) =~= Seq::new(all.len(), |k: int| skill_place(all[k])));
    text::join(&parts, ", ")
}

// -- Filters -----------------------------------------------------------------------------

/// What to look for: the query without white space around it and in lower case, or nothing where
/// no query is given or it is blank.
pub open spec fn normalized(query: Option<Seq<char>>) -> Option<Seq<char>> {
    if query is Some && !text::blank(query->0) {
        Some(text::lower(text::trim_of(query->0)))
    } else {
        None
    }
}

/// What to look for.
pub fn normalize_picker_query(query: Option<&str>) -> (out: Option<String>)
    ensures
        text::opt_view(out) == normalized(text::opt_view(query)),
{
    match query {
        Some(query) => {
            if text::is_blank(query) {
                None
            } else {
                let trimmed: String = text::trim(query);
                Some(text::to_lower(trimmed.as_str()))
            }
        },
        None => None,
    }
}

/// Whether a field holds what is looked for, whatever the case of its letters.
pub open spec fn field_matches(field: Seq<char>, query: Seq<char>) -> bool {
    text::contains_text(text::lower(field), query)
}

/// Whether a field holds what is looked for.
pub fn picker_field_matches(query: &str, field: &str) -> (b: bool)
    ensures
        b == field_matches(field@, query@),
{
    let low: String = text::to_lower(field);
    text::contains(low.as_str(), query)
}

/// Whether a list of conversations shows one of them.
pub open spec fn thread_matches(item: ThreadListItemView, query: Seq<char>) -> bool {
    ||| field_matches(
        match item.thread.title {
            Some(title) => title,
            None => ""@,
        },
        query,
    )
    ||| field_matches(item.thread.id, query)
    ||| field_matches(labels::thread_status_name_of(item.thread.status), query)
}

fn does_thread_match(item: &ThreadListItem, query: &str) -> (b: bool)
    ensures
        b == thread_matches(item@, query@),
{
    let title: &str = match &item.thread.title {
        Some(title) => title.as_str(),
        None => "",
    };
    picker_field_matches(query, title) || picker_field_matches(query, item.thread.id.text.as_str())
        || picker_field_matches(query, labels::thread_status_name(item.thread.status))
}

/// The conversations that a query leaves, in order.
pub open spec fn threads_kept(threads: Seq<ThreadListItemView>, query: Option<Seq<char>>) -> Seq<
    ThreadListItemView,
> {
    match normalized(query) {
        Some(q) => threads.filter(|item: ThreadListItemView| thread_matches(item, q)),
        None => threads,
    }
}

/// The conversations that a query leaves.
pub fn filter_threads<'a>(threads: &'a [ThreadListItem], query: Option<&str>) -> (out: Vec<
    &'a ThreadListItem,
>)
    ensures
        text::views(out@) == threads_kept(text::views(threads@), text::opt_view(query)),
{
    let wanted: Option<String> = normalize_picker_query(query);
    let ghost all = text::views(threads@);
    let ghost keep = |item: ThreadListItemView|
        wanted is None || thread_matches(item, wanted->0@);
    let mut out: Vec<&'a ThreadListItem> = Vec::new();
    let mut i: usize = 0;
    proof {
        reveal(Seq::filter);
        assert(all.take(0).filter(keep) =~= Seq::empty());
    }
    while i < threads.len()
        invariant
            i <= threads@.len(),
            all == text::views(threads@),
            keep == (|item: ThreadListItemView| wanted is None || thread_matches(item, wanted->0@)),
            text::views(out@) == all.take(i as int).filter(keep),
        decreases threads@.len() - i,
    {
        proof {
            reveal(Seq::filter);
            assert(all.take(i + 1).drop_last() =~= all.take(i as int));
            assert(all.take(i + 1).last() == threads@[i as int]@);
        }
        let hit: bool = match &wanted {
            Some(query) => does_thread_match(&threads[i], query.as_str()),
            None => true,
        };
        if hit {
            out.push(&threads[i]);
        }
        i = i + 1;
    }
    assert(all.take(all.len() as int) =~= all);
    proof {
        match normalized(text::opt_view(query)) {
            Some(q) => {
                assert(keep =~= |item: ThreadListItemView| thread_matches(item, q));
            },
            None => {
                lemma_filter_all(all, keep);
            },
        }
    }
    out
}

proof fn lemma_filter_all<T>(items: Seq<T>, keep: spec_fn(T) -> bool)
    requires
        forall|x: T| #[trigger] keep(x),
    ensures
        items.filter(keep) == items,
    decreases items.len(),
{
    reveal(Seq::filter);
    if items.len() > 0 {
        lemma_filter_all(items.drop_last(), keep);
        assert(items.drop_last().push(items.last()) =~= items);
    } else {
        assert(items.filter(keep) =~= items);
    }
}

/// Whether a list of skills shows one of them.
pub open spec fn skill_matches(skill: SkillDescriptorView, query: Seq<char>) -> bool {
    ||| field_matches(skill.name, query)
    ||| field_matches(skill.description, query)
    ||| field_matches(labels::scope_label_of(skill.scope), query)
    ||| field_matches(skill.path, query)
}

fn does_skill_match(skill: &SkillDescriptor, query: &str) -> (b: bool)
    ensures
        b == skill_matches(skill@, query@),
{
    picker_field_matches(query, skill.name.as_str()) || picker_field_matches(
        query,
        skill.description.as_str(),
    ) || picker_field_matches(query, labels::skill_scope_label(skill.scope)) || picker_field_matches(
        query,
        skill.path.as_str(),
    )
}

/// The skills that a query leaves, in order.
pub open spec fn skills_kept(skills: Seq<SkillDescriptorView>, query: Option<Seq<char>>) -> Seq<
    SkillDescriptorView,
> {
    match normalized(query) {
        Some(q) => skills.filter(|skill: SkillDescriptorView| skill_matches(skill, q)),
        None => skills,
    }
}

/// The skills that a query leaves.
pub fn filter_skills<'a>(skills: &'a [SkillDescriptor], query: Option<&str>) -> (out: Vec<
    &'a SkillDescriptor,
>)
    ensures
        text::views(out@) == skills_kept(text::views(skills@), text::opt_view(query)),
{
    let wanted: Option<String> = normalize_picker_query(query);
    let ghost all = text::views(skills@);
    let ghost keep = |skill: SkillDescriptorView|
        wanted is None || skill_matches(skill, wanted->0@);
    let mut out: Vec<&'a SkillDescriptor> = Vec::new();
    let mut i: usize = 0;
    proof {
        reveal(Seq::filter);
        assert(all.take(0).filter(keep) =~= Seq::empty());
    }
    while i < skills.len()
        invariant
            i <= skills@.len(),
            all == text::views(skills@),
            keep == (|skill: SkillDescriptorView| wanted is None || skill_matches(skill, wanted->0@)),
            text::views(out@) == all.take(i as int).filter(keep),
        decreases skills@.len() - i,
    {
        proof {
            reveal(Seq::filter);
            assert(all.take(i + 1).drop_last() =~= all.take(i as int));
            assert(all.take(i + 1).last() == skills@[i as int]@);
        }
        let hit: bool = match &wanted {
            Some(query) => does_skill_match(&skills[i], query.as_str()),
            None => true,
        };
        if hit {
            out.push(&skills[i]);
        }
        i = i + 1;
    }
    assert(all.take(all.len() as int) =~= all);
    proof {
        match normalized(text::opt_view(query)) {
            Some(q) => {
                assert(keep =~= |skill: SkillDescriptorView| skill_matches(skill, q));
            },
            None => {
                lemma_filter_all(all, keep);
            },
        }
    }
    out
}

/// Whether a list of artifacts shows one of them.
pub open spec fn artifact_matches(artifact: ArtifactManifestView, query: Seq<char>) -> bool {
    ||| field_matches(artifact.title, query)
    ||| field_matches(artifact.summary, query)
    ||| field_matches(labels::artifact_kind_name_of(artifact.kind), query)
    ||| field_matches(artifact.primary_path, query)
    ||| exists|i: int| 0 <= i < artifact.tags.len() && field_matches(#[trigger] artifact.tags[i], query)
}

fn does_artifact_match(artifact: &ArtifactManifest, query: &str) -> (b: bool)
    ensures
        b == artifact_matches(artifact@, query@),
{
    if picker_field_matches(query, artifact.title.as_str()) || picker_field_matches(
        query,
        artifact.summary.as_str(),
    ) || picker_field_matches(query, labels::artifact_kind_name(artifact.kind))
        || picker_field_matches(query, artifact.primary_path.as_str()) {
        return true;
    }
    let mut i: usize = 0;
    while i < artifact.tags.len()
        invariant
            i <= artifact.tags@.len(),
            forall|j: int| 0 <= j < i ==> !field_matches(#[trigger] artifact@.tags[j], query@),
        decreases artifact.tags@.len() - i,
    {
        assert(artifact@.tags[i as int] == artifact.tags@[i as int]@);
        if picker_field_matches(query, artifact.tags[i].as_str()) {
            return true;
        }
        i = i + 1;
    }
    false
}

/// The artifacts that a query leaves, in order.
pub open spec fn artifacts_kept(artifacts: Seq<ArtifactManifestView>, query: Option<Seq<char>>) -> Seq<
    ArtifactManifestView,
> {
    match normalized(query) {
        Some(q) => artifacts.filter(|artifact: ArtifactManifestView| artifact_matches(artifact, q)),
        None => artifacts,
    }
}

/// The artifacts that a query leaves.
pub fn filter_artifacts<'a>(artifacts: &'a [ArtifactManifest], query: Option<&str>) -> (out: Vec<
    &'a ArtifactManifest,
>)
    ensures
        text::views(out@) == artifacts_kept(text::views(artifacts@), text::opt_view(query)),
{
    let wanted: Option<String> = normalize_picker_query(query);
    let ghost all = text::views(artifacts@);
    let ghost keep = |artifact: ArtifactManifestView|
        wanted is None || artifact_matches(artifact, wanted->0@);
    let mut out: Vec<&'a ArtifactManifest> = Vec::new();
    let mut i: usize = 0;
    proof {
        reveal(Seq::filter);
        assert(all.take(0).filter(keep) =~= Seq::empty());
    }
    while i < artifacts.len()
        invariant
            i <= artifacts@.len(),
            all == text::views(artifacts@),
            keep == (|artifact: ArtifactManifestView|
                wanted is None || artifact_matches(artifact, wanted->0@)),
            text::views(out@) == all.take(i as int).filter(keep),
        decreases artifacts@.len() - i,
    {
        proof {
            reveal(Seq::filter);
            assert(all.take(i + 1).drop_last() =~= all.take(i as int));
            assert(all.take(i + 1).last() == artifacts@[i as int]@);
        }
        let hit: bool = match &wanted {
            Some(query) => does_artifact_match(&artifacts[i], query.as_str()),
            None => true,
        };
        if hit {
            out.push(&artifacts[i]);
        }
        i = i + 1;
    }
    assert(all.take(all.len() as int) =~= all);
    proof {
        match normalized(text::opt_view(query)) {
            Some(q) => {
                assert(keep =~= |artifact: ArtifactManifestView| artifact_matches(artifact, q));
            },
            None => {
                lemma_filter_all(all, keep);
            },
        }
    }
    out
}

/// The case of a query's letters and the white space around it make no difference to what it leaves
/// of the skills, the conversations and the artifacts.
pub proof fn law_query_ignores_case_and_outer_space(
    skills: Seq<SkillDescriptorView>,
    threads: Seq<ThreadListItemView>,
    artifacts: Seq<ArtifactManifestView>,
    first: Seq<char>,
    second: Seq<char>,
)
    requires
        text::blank(first) == text::blank(second),
        text::lower(text::trim_of(first)) == text::lower(text::trim_of(second)),
    ensures
        skills_kept(skills, Some(first)) == skills_kept(skills, Some(second)),
        threads_kept(threads, Some(first)) == threads_kept(threads, Some(second)),
        artifacts_kept(artifacts, Some(first)) == artifacts_kept(artifacts, Some(second)),
{
}

/// What a query leaves of a list of skills is on the list and matches; and whatever is on the list
/// and matches is left.
pub proof fn law_query_leaves_the_matching_skills(
    skills: Seq<SkillDescriptorView>,
    query: Seq<char>,
    skill: SkillDescriptorView,
)
    requires
        !text::blank(query),
    ensures
        skills_kept(skills, Some(query)).contains(skill) <==> (skills.contains(skill)
            && skill_matches(skill, text::lower(text::trim_of(query)))),
{
    let q = text::lower(text::trim_of(query));
    let keep = |s: SkillDescriptorView| skill_matches(s, q);
    lemma_filter_contains(skills, keep, skill);
}

/// What a query leaves of a list of conversations is on the list and matches; and whatever is on the
/// list and matches is left.
pub proof fn law_query_leaves_the_matching_threads(
    threads: Seq<ThreadListItemView>,
    query: Seq<char>,
    item: ThreadListItemView,
)
    requires
        !text::blank(query),
    ensures
        threads_kept(threads, Some(query)).contains(item) <==> (threads.contains(item)
            && thread_matches(item, text::lower(text::trim_of(query)))),
{
    let q = text::lower(text::trim_of(query));
    let keep = |t: ThreadListItemView| thread_matches(t, q);
    lemma_filter_contains(threads, keep, item);
}

/// What a query leaves of a list of artifacts is on the list and matches; and whatever is on the
/// list and matches is left.
pub proof fn law_query_leaves_the_matching_artifacts(
    artifacts: Seq<ArtifactManifestView>,
    query: Seq<char>,
    artifact: ArtifactManifestView,
)
    requires
        !text::blank(query),
    ensures
        artifacts_kept(artifacts, Some(query)).contains(artifact) <==> (artifacts.contains(artifact)
            && artifact_matches(artifact, text::lower(text::trim_of(query)))),
{
    let q = text::lower(text::trim_of(query));
    let keep = |a: ArtifactManifestView| artifact_matches(a, q);
    lemma_filter_contains(artifacts, keep, artifact);
}

proof fn lemma_filter_contains<T>(items: Seq<T>, keep: spec_fn(T) -> bool, x: T)
    ensures
        items.filter(keep).contains(x) <==> (items.contains(x) && keep(x)),
    decreases items.len(),
{
    reveal(Seq::filter);
    if items.len() > 0 {
        let rest = items.drop_last();
        lemma_filter_contains(rest, keep, x);
        assert(items[items.len() - 1] == items.last());
        if items.contains(x) {
            let j = choose|j: int| 0 <= j < items.len() && items[j] == x;
            if j < rest.len() {
                assert(rest[j] == x);
            }
        }
        if rest.contains(x) {
            let j = choose|j: int| 0 <= j < rest.len() && rest[j] == x;
            assert(items[j] == x);
        }
        let kept = rest.filter(keep);
        if keep(items.last()) {
            assert(kept.push(items.last())[kept.len() as int] == items.last());
            if kept.contains(x) {
                let j = choose|j: int| 0 <= j < kept.len() && kept[j] == x;
                assert(kept.push(items.last())[j] == x);
            }
            if kept.push(items.last()).contains(x) && x != items.last() {
                let j = choose|j: int|
                    0 <= j < kept.push(items.last()).len() && kept.push(items.last())[j] == x;
                assert(kept[j] == x);
            }
        }
    }
}

/// What the user asked for at the prompt for a filter.
#[derive(Debug, PartialEq)]
pub enum PickerFilter {
    All,
    Query(String),
    Cancel,
}

/// What a line at the prompt for a filter asks for.
pub fn parse_picker_filter(line: &str) -> (filter: PickerFilter)
    ensures
        match filter {
            PickerFilter::All => text::blank(line@),
            PickerFilter::Cancel => !text::blank(line@) && text::lower(text::trim_of(line@))
                == text::lower("q"@),
            PickerFilter::Query(query) => !text::blank(line@) && text::lower(text::trim_of(line@))
                != text::lower("q"@) && query@ == text::trim_of(line@),
        },
{
    if text::is_blank(line) {
        return PickerFilter::All;
    }
    let trimmed: String = text::trim(line);
    if text::same_ignoring_case(trimmed.as_str(), "q") {
        return PickerFilter::Cancel;
    }
    PickerFilter::Query(trimmed)
}

// -- Numbered choices ---------------------------------------------------------------------

/// What a line at the prompt for a number chooses.
#[derive(Clone, Copy, Debug, PartialEq, Eq, Structural)]
pub enum Choice {
    Cancelled,
    Chosen(usize),
    NotANumber,
    OutOfRange,
}

/// What a line chooses from a list that is counted from one; nought stands for the first too.
pub open spec fn choice_of(line: Seq<char>, count: nat) -> Choice {
    let t = text::trim_of(line);
    if t.len() == 0 {
        Choice::Cancelled
    } else {
        match text::number_of(t) {
            None => Choice::NotANumber,
            Some(n) => {
                let index: int = if n == 0 {
                    0
                } else {
                    n - 1
                };
                if index < count {
                    Choice::Chosen(index as usize)
                } else {
                    Choice::OutOfRange
                }
            },
        }
    }
}

/// What a line chooses from a list that is counted from one; nought stands for the first too.
pub fn parse_choice(line: &str, count: usize) -> (choice: Choice)
    ensures
        choice == choice_of(line@, count as nat),
{
    let trimmed: String = text::trim(line);
    if text::is_empty(trimmed.as_str()) {
        return Choice::Cancelled;
    }
    match text::parse_number(trimmed.as_str()) {
        None => Choice::NotANumber,
        Some(n) => {
            let index: usize = if n == 0 {
                0
            } else {
                n - 1
            };
            if index < count {
                Choice::Chosen(index)
            } else {
                Choice::OutOfRange
            }
        },
    }
}

/// What a line chooses from the files of an artifact, counted from one; `q` closes the list.
pub open spec fn file_choice_of(line: Seq<char>, count: nat) -> Choice {
    let t = text::trim_of(line);
    if t.len() == 0 || text::lower(t) == text::lower("q"@) {
        Choice::Cancelled
    } else {
        match text::number_of(t) {
            None => Choice::NotANumber,
            Some(n) => if 0 < n <= count {
                Choice::Chosen((n - 1) as usize)
            } else {
                Choice::OutOfRange
            },
        }
    }
}

/// What a line chooses from the files of an artifact.
pub fn parse_file_choice(line: &str, count: usize) -> (choice: Choice)
    ensures
        choice == file_choice_of(line@, count as nat),
{
    let trimmed: String = text::trim(line);
    if text::is_empty(trimmed.as_str()) || text::same_ignoring_case(trimmed.as_str(), "q") {
        return Choice::Cancelled;
    }
    match text::parse_number(trimmed.as_str()) {
        None => Choice::NotANumber,
        Some(n) => {
            if 0 < n && n <= count {
                Choice::Chosen(n - 1)
            } else {
                Choice::OutOfRange
            }
        },
    }
}

// -- Files of an artifact -------------------------------------------------------------------

/// The first file of an artifact at a given path, or the first of all.
pub open spec fn preferred_file(paths: Seq<Seq<char>>, primary: Seq<char>, from: int) -> int
    decreases paths.len() - from,
{
    if from < 0 || from >= paths.len() {
        0
    } else if paths::same_path_of(paths[from], primary) {
        from
    } else {
        preferred_file(paths, primary, from + 1)
    }
}

/// The index of the file to show first: the primary one where it is there, else the first.
pub fn preferred_artifact_file_index(bundle: &ArtifactReadBundle) -> (index: usize)
    ensures
        index == preferred_file(
            Seq::new(bundle@.files.len(), |i: int| bundle@.files[i].path),
            bundle@.manifest.primary_path,
            0,
        ),
        bundle@.files.len() > 0 ==> index < bundle@.files.len(),
{
    let ghost all = Seq::new(bundle@.files.len(), |i: int| bundle@.files[i].path);
    let mut i: usize = 0;
    while i < bundle.files.len()
        invariant
            i <= bundle.files@.len(),
            all == Seq::new(bundle@.files.len(), |i: int| bundle@.files[i].path),
            preferred_file(all, bundle@.manifest.primary_path, i as int) == preferred_file(
                all,
                bundle@.manifest.primary_path,
                0,
            ),
        decreases bundle.files@.len() - i,
    {
        assert(all[i as int] == bundle.files@[i as int]@.path);
        if paths::same_path(bundle.files[i].path.as_str(), bundle.manifest.primary_path.as_str()) {
            return i;
        }
        i = i + 1;
    }
    0
}

// -- What queries and numbers find -----------------------------------------------------------------------

proof fn lemma_found_by_part(field: Seq<char>, part: Seq<char>)
    requires
        text::contains_text(field, part),
    ensures
        field_matches(field, text::lower(text::trim_of(part))),
{
    text::lemma_trim_start(part);
    text::lemma_trim_end(text::trim_start_of(part));
    let t = text::trim_of(part);
    text::lemma_trim_is_inside(part);
    text::lemma_contains_trans(field, part, t);
    let i = choose|i: int|
        0 <= i <= field.len() - t.len() && #[trigger] field.subrange(i, i + t.len()) == t;
    assert forall|k: int| 0 <= k < t.len() implies text::lower(field)[i + k] == text::lower(t)[k] by {
        assert(field.subrange(i, i + t.len())[k] == field[i + k]);
    }
    assert(text::lower(field).subrange(i, i + t.len()) =~= text::lower(t));
}

/// A skill is found by any part of its name, its description or its path, and by where it comes from.
pub proof fn law_any_part_finds_a_skill(
    skills: Seq<SkillDescriptorView>,
    skill: SkillDescriptorView,
    part: Seq<char>,
)
    requires
        skills.contains(skill),
        !text::blank(part),
        text::contains_text(skill.name, part) || text::contains_text(skill.description, part)
            || text::contains_text(skill.path, part) || text::contains_text(
            labels::scope_label_of(skill.scope),
            part,
        ),
    ensures
        skills_kept(skills, Some(part)).contains(skill),
{
    law_query_leaves_the_matching_skills(skills, part, skill);
    if text::contains_text(skill.name, part) {
        lemma_found_by_part(skill.name, part);
    } else if text::contains_text(skill.description, part) {
        lemma_found_by_part(skill.description, part);
    } else if text::contains_text(skill.path, part) {
        lemma_found_by_part(skill.path, part);
    } else {
        lemma_found_by_part(labels::scope_label_of(skill.scope), part);
    }
}

/// A conversation is found by any part of its title or its identifier, and by its state.
pub proof fn law_any_part_finds_a_thread(
    threads: Seq<ThreadListItemView>,
    item: ThreadListItemView,
    part: Seq<char>,
)
    requires
        threads.contains(item),
        !text::blank(part),
        (item.thread.title is Some && text::contains_text(item.thread.title->0, part))
            || text::contains_text(item.thread.id, part) || text::contains_text(
            labels::thread_status_name_of(item.thread.status),
            part,
        ),
    ensures
        threads_kept(threads, Some(part)).contains(item),
{
    law_query_leaves_the_matching_threads(threads, part, item);
    if item.thread.title is Some && text::contains_text(item.thread.title->0, part) {
        lemma_found_by_part(item.thread.title->0, part);
    } else if text::contains_text(item.thread.id, part) {
        lemma_found_by_part(item.thread.id, part);
    } else {
        lemma_found_by_part(labels::thread_status_name_of(item.thread.status), part);
    }
}

/// An artifact is found by any part of its title, its summary, its file or one of its tags, and by its
/// kind.
pub proof fn law_any_part_finds_an_artifact(
    artifacts: Seq<ArtifactManifestView>,
    artifact: ArtifactManifestView,
    part: Seq<char>,
    tag: int,
)
    requires
        artifacts.contains(artifact),
        !text::blank(part),
        text::contains_text(artifact.title, part) || text::contains_text(artifact.summary, part)
            || text::contains_text(artifact.primary_path, part) || text::contains_text(
            labels::artifact_kind_name_of(artifact.kind),
            part,
        ) || (0 <= tag < artifact.tags.len() && text::contains_text(artifact.tags[tag], part)),
    ensures
        artifacts_kept(artifacts, Some(part)).contains(artifact),
{
    law_query_leaves_the_matching_artifacts(artifacts, part, artifact);
    if text::contains_text(artifact.title, part) {
        lemma_found_by_part(artifact.title, part);
    } else if text::contains_text(artifact.summary, part) {
        lemma_found_by_part(artifact.summary, part);
    } else if text::contains_text(artifact.primary_path, part) {
        lemma_found_by_part(artifact.primary_path, part);
    } else if text::contains_text(labels::artifact_kind_name_of(artifact.kind), part) {
        lemma_found_by_part(labels::artifact_kind_name_of(artifact.kind), part);
    } else {
        lemma_found_by_part(artifact.tags[tag], part);
    }
}

/// What a query leaves holds it: a skill in its name, description, scope or path, a conversation in its
/// title, identifier or state, an artifact in its title, summary, kind, file or a tag. No case counts.
pub proof fn law_what_is_left_holds_the_query(
    skill: SkillDescriptorView,
    item: ThreadListItemView,
    artifact: ArtifactManifestView,
    query: Seq<char>,
)
    ensures
        skill_matches(skill, text::lower(query)) ==> text::contains_text(
            text::lower(skill.name),
            text::lower(query),
        ) || text::contains_text(text::lower(skill.description), text::lower(query))
            || text::contains_text(text::lower(skill.path), text::lower(query))
            || text::contains_text(
            text::lower(labels::scope_label_of(skill.scope)),
            text::lower(query),
        ),
        query.len() > 0 && thread_matches(item, text::lower(query)) ==> (item.thread.title is Some
            && text::contains_text(text::lower(item.thread.title->0), text::lower(query)))
            || text::contains_text(text::lower(item.thread.id), text::lower(query))
            || text::contains_text(
            text::lower(labels::thread_status_name_of(item.thread.status)),
            text::lower(query),
        ),
        artifact_matches(artifact, text::lower(query)) ==> text::contains_text(
            text::lower(artifact.title),
            text::lower(query),
        ) || text::contains_text(text::lower(artifact.summary), text::lower(query))
            || text::contains_text(text::lower(artifact.primary_path), text::lower(query))
            || text::contains_text(
            text::lower(labels::artifact_kind_name_of(artifact.kind)),
            text::lower(query),
        ) || exists|i: int|
            0 <= i < artifact.tags.len() && text::contains_text(
                text::lower(#[trigger] artifact.tags[i]),
                text::lower(query),
            ),
{
    reveal_strlit("");
    if query.len() > 0 && item.thread.title is None {
        assert(text::lower(""@).len() == 0);
        assert(!text::contains_text(text::lower(""@), text::lower(query)));
    }
    if artifact_matches(artifact, text::lower(query)) && !field_matches(
        artifact.title,
        text::lower(query),
    ) && !field_matches(artifact.summary, text::lower(query)) && !field_matches(
        artifact.primary_path,
        text::lower(query),
    ) && !field_matches(labels::artifact_kind_name_of(artifact.kind), text::lower(query)) {
        let i = choose|i: int|
            0 <= i < artifact.tags.len() && field_matches(
                #[trigger] artifact.tags[i],
                text::lower(query),
            );
        assert(text::contains_text(text::lower(artifact.tags[i]), text::lower(query)));
    }
}

/// Without a query, and with a blank one, everything is left.
pub proof fn law_a_blank_query_leaves_everything(
    skills: Seq<SkillDescriptorView>,
    threads: Seq<ThreadListItemView>,
    artifacts: Seq<ArtifactManifestView>,
    query: Option<Seq<char>>,
)
    requires
        query is None || text::blank(query->0),
    ensures
        skills_kept(skills, query) == skills,
        threads_kept(threads, query) == threads,
        artifacts_kept(artifacts, query) == artifacts,
{
}

/// The skills with a name are those on the list that have it, and no others.
pub proof fn law_skills_are_named_by_their_name(
    skills: Seq<SkillDescriptorView>,
    name: Seq<char>,
    skill: SkillDescriptorView,
)
    ensures
        skills_named(skills, name).contains(skill) <==> (skills.contains(skill) && skill.name
            == name),
{
    let keep = |s: SkillDescriptorView| s.name == name;
    lemma_filter_contains(skills, keep, skill);
}

/// A prompt that does not open with the sign, white space aside, names no skill.
pub proof fn law_no_sign_names_no_skill(raw: Seq<char>)
    requires
        text::trim_start_of(raw).len() == 0 || text::trim_start_of(raw)[0] != '$',
    ensures
        skill_named(raw) is None,
        can_cut_skill(raw),
{
}

/// A number from one up to how many there are chooses the one in that place; a larger one chooses
/// nothing, and so does a blank line.
pub proof fn law_a_number_chooses_its_place(n: nat, count: nat)
    requires
        n <= usize::MAX,
        count <= usize::MAX,
    ensures
        0 < n <= count ==> choice_of(text::decimal(n), count) == Choice::Chosen((n - 1) as usize),
        0 < n <= count ==> file_choice_of(text::decimal(n), count) == Choice::Chosen(
            (n - 1) as usize,
        ),
        n > count && n > 0 ==> choice_of(text::decimal(n), count) == Choice::OutOfRange || (n == 1
            && count == 0),
        n > count ==> file_choice_of(text::decimal(n), count) == Choice::OutOfRange,
        choice_of(Seq::empty(), count) == Choice::Cancelled,
        file_choice_of(Seq::empty(), count) == Choice::Cancelled,
{
    text::lemma_decimal_reads_back(n);
    let d = text::decimal(n);
    reveal_strlit("q");
    assert(text::lower("q"@)[0] == 'q');
    assert(text::lower(d)[0] == text::lower_char(d[0]));
    assert(d[0] != 'q' && d[0] != 'Q');
    assert(text::lower(d) != text::lower("q"@));
}

/// Whatever is chosen is one of those that there are.
pub proof fn law_a_choice_is_in_range(line: Seq<char>, count: nat)
    requires
        count <= usize::MAX,
    ensures
        choice_of(line, count) matches Choice::Chosen(i) ==> i < count,
        file_choice_of(line, count) matches Choice::Chosen(i) ==> i < count,
        text::blank(line) <==> choice_of(line, count) == Choice::Cancelled,
        text::blank(line) ==> file_choice_of(line, count) == Choice::Cancelled,
        text::number_of(text::trim_of(line)) is None && !text::blank(line) ==> choice_of(
            line,
            count,
        ) == Choice::NotANumber,
{
    text::lemma_trim_blank_iff(line);
}

/// The file that is shown first is the one that the artifact names, the first of its path; where none
/// has that path it is the first of all.
pub proof fn law_the_named_file_is_shown_first(
    paths: Seq<Seq<char>>,
    primary: Seq<char>,
    from: int,
)
    requires
        0 <= from <= paths.len(),
    ensures
        ({
            let k = preferred_file(paths, primary, from);
            &&& (exists|i: int|
                from <= i < paths.len() && paths::same_path_of(#[trigger] paths[i], primary)) ==> (
            from <= k < paths.len() && paths::same_path_of(paths[k], primary) && forall|i: int|
                from <= i < k ==> !paths::same_path_of(#[trigger] paths[i], primary))
            &&& (forall|i: int|
                from <= i < paths.len() ==> !paths::same_path_of(#[trigger] paths[i], primary))
                ==> k == 0
        }),
    decreases paths.len() - from,
{
    if from < paths.len() {
        law_the_named_file_is_shown_first(paths, primary, from + 1);
        let k = preferred_file(paths, primary, from);
        if !paths::same_path_of(paths[from], primary) {
            if exists|i: int|
                from <= i < paths.len() && paths::same_path_of(#[trigger] paths[i], primary) {
                let i = choose|i: int|
                    from <= i < paths.len() && paths::same_path_of(#[trigger] paths[i], primary);
                assert(i >= from + 1);
                assert(paths::same_path_of(paths[i], primary));
            }
        }
    }
}

/// How a skill is written names it and where it comes from, and its description its path too.
pub proof fn law_labels_name_the_skill(skill: SkillDescriptorView)
    ensures
        text::begins(skill_label(skill), skill.name),
        text::begins(skill_description(skill), skill.name),
        text::contains_text(skill_label(skill), labels::scope_label_of(skill.scope)),
        text::contains_text(skill_description(skill), labels::scope_label_of(skill.scope)),
        text::contains_text(skill_description(skill), skill.path),
{
    let scope = labels::scope_label_of(skill.scope);
    let label = skill_label(skill);
    let description = skill_description(skill);
    assert(label.take(skill.name.len() as int) =~= skill.name);
    assert(description.take(skill.name.len() as int) =~= skill.name);
    text::lemma_contains_inside(skill.name + " ["@, scope, "]"@);
    let tail = "] ("@ + skill.path + ")"@;
    assert(description =~= (skill.name + " ["@) + scope + tail);
    text::lemma_contains_inside(skill.name + " ["@, scope, tail);
    text::lemma_contains_inside(skill.name + " ["@ + scope + "] ("@, skill.path, ")"@);
}

} // verus!
