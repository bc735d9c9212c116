//! Skills that a prompt can invoke.
use vstd::prelude::*;
use crate::text;

verus! {

/// Where a skill comes from.
#[derive(Clone, Copy, Debug, PartialEq, Eq, Structural)]
pub enum SkillScope {
    Bundled,
    User,
    Repo,
    Generated,
}

impl SkillScope {
    /// The rank of a scope: repository skills first, generated ones last.
    pub open spec fn rank(self) -> nat {
        match self {
            SkillScope::Repo => 0,
            SkillScope::User => 1,
            SkillScope::Bundled => 2,
            SkillScope::Generated => 3,
        }
    }

    /// The rank of a scope, lowest first.
    pub fn priority(self) -> (p: usize)
        ensures
            p == self.rank(),
    {
        match self {
            SkillScope::Repo => 0,
            SkillScope::User => 1,
            SkillScope::Bundled => 2,
            SkillScope::Generated => 3,
        }
    }
}

/// A skill as the runtime lists it.
#[derive(Debug, PartialEq, Eq)]
pub struct SkillDescriptor {
    pub name: String,
    pub description: String,
    pub short_description: Option<String>,
    pub path: String,
    pub scope: SkillScope,
    pub enabled: bool,
}

/// The model of `SkillDescriptor`.
#[verifier::ext_equal]
pub struct SkillDescriptorView {
    pub name: Seq<char>,
    pub description: Seq<char>,
    pub short_description: Option<Seq<char>>,
    pub path: Seq<char>,
    pub scope: SkillScope,
    pub enabled: bool,
}

impl View for SkillDescriptor {
    type V = SkillDescriptorView;

    open spec fn view(&self) -> SkillDescriptorView {
        SkillDescriptorView {
            name: self.name@,
            description: self.description@,
            short_description: text::opt_view(self.short_description),
            path: self.path@,
            scope: self.scope,
            enabled: self.enabled,
        }
    }
}

impl Clone for SkillDescriptor {
    fn clone(&self) -> (copy: Self)
        ensures
            copy@ == self@,
    {
        SkillDescriptor {
            name: self.name.clone(),
            description: self.description.clone(),
            short_description: text::copy_maybe(&self.short_description),
            path: self.path.clone(),
            scope: self.scope,
            enabled: self.enabled,
        }
    }
}

fn same_maybe(a: &Option<String>, b: &Option<String>) -> (same: bool)
    ensures
        same == (text::opt_view(*a) == text::opt_view(*b)),
{
    match (a, b) {
        (Some(a), Some(b)) => text::same_text(a.as_str(), b.as_str()),
        (None, None) => true,
        _ => false,
    }
}

/// Whether two skills, where there are any, are alike in all that is listed of them.
pub fn same_skill(a: &Option<SkillDescriptor>, b: &Option<SkillDescriptor>) -> (same: bool)
    ensures
        same == (text::opt_view(*a) == text::opt_view(*b)),
{
    match (a, b) {
        (Some(a), Some(b)) => {
            let same: bool = text::same_text(a.name.as_str(), b.name.as_str()) && text::same_text(
                a.description.as_str(),
                b.description.as_str(),
            ) && same_maybe(&a.short_description, &b.short_description) && text::same_text(
                a.path.as_str(),
                b.path.as_str(),
            ) && a.scope == b.scope && a.enabled == b.enabled;
            assert(same ==> a@ == b@);
            same
        },
        (None, None) => true,
        _ => false,
    }
}

} // verus!
