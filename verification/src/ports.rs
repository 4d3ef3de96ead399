//! The two capability abstractions the pipeline is built over: a storage
//! port that lists a namespace, and a parser port that turns one resource
//! into documents. Each implementation gives a specification-level model of
//! what its calls return, so the pipeline's own contracts can be exact.

use vstd::prelude::*;
use crate::document::Document;
use crate::document::DocumentPath;
use crate::document::DocumentView;
use crate::document::Entry;
use crate::document::EntryView;
use crate::document::LoadError;
use crate::document::LoadErrorView;
use crate::document::docs_view;
use crate::document::entries_view;

verus! {

/// Parser port: parse one addressable resource into zero or more documents.
/// A directory loader implements this too, so a whole directory can be
/// registered as the parser for a nested sub-tree.
pub trait DocumentLoader: Sized {
    /// Model of this parser: the documents it yields for `path`, or its
    /// failure, as a function of the parser's own state and the path.
    spec fn spec_load(&self, path: Seq<char>) -> Result<Seq<DocumentView>, LoadErrorView>;

    /// Parse the resource at `path`.
    fn load(&self, path: &DocumentPath) -> (r: Result<Vec<Document>, LoadError>)
        ensures
            docs_view(r) == self.spec_load(path@),
    ;
}

/// Storage port: an abstraction over a hierarchical storage backend that can
/// recursively list everything under a path.
pub trait StoragePort: Sized {
    /// Model of the backend's configured root prefix.
    spec fn spec_root(&self) -> Seq<char>;

    /// Model of whether `path` resolves to a location this backend can open.
    spec fn spec_can_open(&self, path: Seq<char>) -> bool;

    /// Model of the recursive listing under `path`: the entries in the order
    /// the backend yields them, or the backend's failure.
    spec fn spec_list(&self, path: Seq<char>) -> Result<Seq<EntryView>, LoadErrorView>;

    /// The prefix to join with entry-relative paths before pattern matching.
    fn root_prefix(&self) -> (r: String)
        ensures
            r@ == self.spec_root(),
    ;

    /// Whether `path` resolves at all.
    fn can_open(&self, path: &DocumentPath) -> (r: bool)
        ensures
            r == self.spec_can_open(path@),
    ;

    /// List every entry under `path`, recursively, in the backend's order.
    fn list(&self, path: &DocumentPath) -> (r: Result<Vec<Entry>, LoadError>)
        ensures
            entries_view(r) == self.spec_list(path@),
    ;
}

} // verus!
