//! The commit record produced by the parser, its mathematical view, and the
//! error carried out of a query when the external invocation fails.

use vstd::prelude::*;

verus! {

/// One parsed commit record.
#[derive(Debug, Clone)]
pub struct CommitEntry {
    /// Full commit identifier.
    pub hash: String,
    /// Abbreviated commit identifier; a prefix of `hash` in well-formed
    /// tool output.
    pub short_hash: String,
    /// First-line commit subject.
    pub message: String,
    /// Author display name.
    pub author: String,
    /// Human-relative author date, kept verbatim.
    pub date: String,
    /// Machine-sortable author date with explicit offset, kept verbatim.
    pub date_iso: String,
    /// Parent identifiers in first-parent order; empty for a root commit.
    pub parents: Vec<String>,
    /// Raw ref-decoration text, possibly empty, kept verbatim.
    pub refs: String,
    /// Literal graph-drawing prefix of the source line.
    pub graph: String,
}

/// Mathematical view of a [`CommitEntry`]: every field as a sequence of
/// characters, the parent list as a sequence of such sequences.
pub struct CommitEntryView {
    pub hash: Seq<char>,
    pub short_hash: Seq<char>,
    pub message: Seq<char>,
    pub author: Seq<char>,
    pub date: Seq<char>,
    pub date_iso: Seq<char>,
    pub parents: Seq<Seq<char>>,
    pub refs: Seq<char>,
    pub graph: Seq<char>,
}

impl View for CommitEntry {
    type V = CommitEntryView;

    open spec fn view(&self) -> CommitEntryView {
        CommitEntryView {
            hash: self.hash@,
            short_hash: self.short_hash@,
            message: self.message@,
            author: self.author@,
            date: self.date@,
            date_iso: self.date_iso@,
            parents: self.parents.deep_view(),
            refs: self.refs@,
            graph: self.graph@,
        }
    }
}

impl DeepView for CommitEntry {
    type V = CommitEntryView;

    open spec fn deep_view(&self) -> CommitEntryView {
        self.view()
    }
}

/// Failure of the external invocation, carrying its diagnostic text.
#[derive(Debug, Clone)]
pub struct GitError {
    pub message: String,
}

impl View for GitError {
    type V = Seq<char>;

    open spec fn view(&self) -> Seq<char> {
        self.message@
    }
}

} // verus!
