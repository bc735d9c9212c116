//! Identifiers of threads, turns and artifacts, held as the text they are written as.
use vstd::prelude::*;
use crate::text;

verus! {

/// A conversation kept on this machine.
#[derive(Debug, PartialEq, Eq)]
pub struct LocalThreadId {
    pub text: String,
}

impl View for LocalThreadId {
    type V = Seq<char>;

    open spec fn view(&self) -> Seq<char> {
        self.text@
    }
}

impl Clone for LocalThreadId {
    fn clone(&self) -> (copy: Self)
        ensures
            copy@ == self@,
    {
        LocalThreadId { text: self.text.clone() }
    }
}

impl LocalThreadId {
    /// Whether two identifiers are the same one.
    pub fn same(&self, other: &Self) -> (b: bool)
        ensures
            b == (self@ == other@),
    {
        text::same_text(self.text.as_str(), other.text.as_str())
    }
}

/// One turn of a local conversation.
#[derive(Debug, PartialEq, Eq)]
pub struct LocalTurnId {
    pub text: String,
}

impl View for LocalTurnId {
    type V = Seq<char>;

    open spec fn view(&self) -> Seq<char> {
        self.text@
    }
}

impl Clone for LocalTurnId {
    fn clone(&self) -> (copy: Self)
        ensures
            copy@ == self@,
    {
        LocalTurnId { text: self.text.clone() }
    }
}

impl LocalTurnId {
    /// Whether two identifiers are the same one.
    pub fn same(&self, other: &Self) -> (b: bool)
        ensures
            b == (self@ == other@),
    {
        text::same_text(self.text.as_str(), other.text.as_str())
    }
}

/// An artifact.
#[derive(Debug, PartialEq, Eq)]
pub struct ArtifactId {
    pub text: String,
}

impl View for ArtifactId {
    type V = Seq<char>;

    open spec fn view(&self) -> Seq<char> {
        self.text@
    }
}

impl Clone for ArtifactId {
    fn clone(&self) -> (copy: Self)
        ensures
            copy@ == self@,
    {
        ArtifactId { text: self.text.clone() }
    }
}

impl ArtifactId {
    /// Whether two identifiers are the same one.
    pub fn same(&self, other: &Self) -> (b: bool)
        ensures
            b == (self@ == other@),
    {
        text::same_text(self.text.as_str(), other.text.as_str())
    }
}

/// A conversation as the upstream runtime names it.
#[derive(Debug, PartialEq, Eq)]
pub struct UpstreamThreadId {
    pub text: String,
}

impl View for UpstreamThreadId {
    type V = Seq<char>;

    open spec fn view(&self) -> Seq<char> {
        self.text@
    }
}

impl Clone for UpstreamThreadId {
    fn clone(&self) -> (copy: Self)
        ensures
            copy@ == self@,
    {
        UpstreamThreadId { text: self.text.clone() }
    }
}

impl UpstreamThreadId {
    /// Whether two identifiers are the same one.
    pub fn same(&self, other: &Self) -> (b: bool)
        ensures
            b == (self@ == other@),
    {
        text::same_text(self.text.as_str(), other.text.as_str())
    }
}

/// A turn as the upstream runtime names it.
#[derive(Debug, PartialEq, Eq)]
pub struct UpstreamTurnId {
    pub text: String,
}

impl View for UpstreamTurnId {
    type V = Seq<char>;

    open spec fn view(&self) -> Seq<char> {
        self.text@
    }
}

impl Clone for UpstreamTurnId {
    fn clone(&self) -> (copy: Self)
        ensures
            copy@ == self@,
    {
        UpstreamTurnId { text: self.text.clone() }
    }
}

impl UpstreamTurnId {
    /// Whether two identifiers are the same one.
    pub fn same(&self, other: &Self) -> (b: bool)
        ensures
            b == (self@ == other@),
    {
        text::same_text(self.text.as_str(), other.text.as_str())
    }
}

} // verus!
