//! Plain data carried through the pipeline: paths, listing entries, parsed
//! documents, and the error kinds a load can end with.

use vstd::prelude::*;
use vstd::string::StringExecFns;

verus! {

/// Kind discriminator for a listing entry: only `File` entries are parsed,
/// everything else (directories, links, ...) is skipped.
#[derive(Clone, Copy, Debug, PartialEq, Eq, Structural)]
pub enum EntryKind {
    File,
    Other,
}

/// One item yielded while listing a storage namespace: a path relative to the
/// backend root, plus its kind.
#[derive(Debug)]
pub struct Entry {
    pub path: String,
    pub kind: EntryKind,
}

/// Mathematical model of an `Entry`.
pub struct EntryView {
    pub path: Seq<char>,
    pub kind: EntryKind,
}

impl View for Entry {
    type V = EntryView;

    open spec fn view(&self) -> EntryView {
        EntryView { path: self.path@, kind: self.kind }
    }
}

impl DeepView for Entry {
    type V = EntryView;

    open spec fn deep_view(&self) -> EntryView {
        self@
    }
}

impl Clone for Entry {
    fn clone(&self) -> (r: Self)
        ensures
            r@ == self@,
    {
        Entry { path: self.path.clone(), kind: self.kind }
    }
}

/// An opaque location addressable by a storage port; immutable once built.
#[derive(Debug)]
pub struct DocumentPath {
    path: String,
}

impl View for DocumentPath {
    type V = Seq<char>;

    closed spec fn view(&self) -> Seq<char> {
        self.path@
    }
}

impl DocumentPath {
    pub fn from_string(s: &str) -> (r: Self)
        ensures
            r@ == s@,
    {
        DocumentPath { path: s.to_owned() }
    }

    pub fn as_str(&self) -> (r: &str)
        ensures
            r@ == self@,
    {
        self.path.as_str()
    }
}

impl Clone for DocumentPath {
    fn clone(&self) -> (r: Self)
        ensures
            r@ == self@,
    {
        DocumentPath { path: self.path.clone() }
    }
}

/// A parser's output unit: where it came from, its content, and a content
/// fingerprint supplied by the parser for downstream comparison. The pipeline
/// never alters a document after a parser produced it.
#[derive(Debug, PartialEq, Eq)]
pub struct Document {
    pub path: String,
    pub content: String,
    pub content_md5: String,
}

/// Mathematical model of a `Document`.
pub struct DocumentView {
    pub path: Seq<char>,
    pub content: Seq<char>,
    pub content_md5: Seq<char>,
}

impl View for Document {
    type V = DocumentView;

    open spec fn view(&self) -> DocumentView {
        DocumentView { path: self.path@, content: self.content@, content_md5: self.content_md5@ }
    }
}

impl DeepView for Document {
    type V = DocumentView;

    open spec fn deep_view(&self) -> DocumentView {
        self@
    }
}

impl Clone for Document {
    fn clone(&self) -> (r: Self)
        ensures
            r@ == self@,
    {
        Document {
            path: self.path.clone(),
            content: self.content.clone(),
            content_md5: self.content_md5.clone(),
        }
    }
}

/// Why a load failed. A load returns either the complete document sequence or
/// exactly one of these; no partial results.
#[derive(Debug, PartialEq, Eq)]
pub enum LoadError {
    /// The storage port failed while listing or reading; holds its message.
    Storage(String),
    /// A registered glob pattern does not compile; holds the pattern text.
    Pattern(String),
    /// A parser failed on one task; holds the failing task's path joined
    /// with the parser's message.
    Parse(String),
    /// The root path does not resolve at all; holds the path text.
    NotFound(String),
}

/// Mathematical model of a `LoadError`.
pub enum LoadErrorView {
    Storage(Seq<char>),
    Pattern(Seq<char>),
    Parse(Seq<char>),
    NotFound(Seq<char>),
}

impl View for LoadError {
    type V = LoadErrorView;

    open spec fn view(&self) -> LoadErrorView {
        match self {
            LoadError::Storage(s) => LoadErrorView::Storage(s@),
            LoadError::Pattern(s) => LoadErrorView::Pattern(s@),
            LoadError::Parse(s) => LoadErrorView::Parse(s@),
            LoadError::NotFound(s) => LoadErrorView::NotFound(s@),
        }
    }
}

impl DeepView for LoadError {
    type V = LoadErrorView;

    open spec fn deep_view(&self) -> LoadErrorView {
        self@
    }
}

impl Clone for LoadError {
    fn clone(&self) -> (r: Self)
        ensures
            r@ == self@,
    {
        match self {
            LoadError::Storage(s) => LoadError::Storage(s.clone()),
            LoadError::Pattern(s) => LoadError::Pattern(s.clone()),
            LoadError::Parse(s) => LoadError::Parse(s.clone()),
            LoadError::NotFound(s) => LoadError::NotFound(s.clone()),
        }
    }
}

/// The text a load error carries.
pub open spec fn spec_error_text(e: LoadErrorView) -> Seq<char> {
    match e {
        LoadErrorView::Storage(s) => s,
        LoadErrorView::Pattern(s) => s,
        LoadErrorView::Parse(s) => s,
        LoadErrorView::NotFound(s) => s,
    }
}

/// The error a failing task surfaces: a parse failure carrying the
/// originating task's path joined with the parser's own message, for
/// diagnosability.
pub open spec fn spec_task_failure(path: Seq<char>, e: LoadErrorView) -> LoadErrorView {
    LoadErrorView::Parse(path + ": "@ + spec_error_text(e))
}

impl LoadError {
    /// The text this error carries.
    pub fn text(&self) -> (r: &str)
        ensures
            r@ == spec_error_text(self@),
    {
        match self {
            LoadError::Storage(s) => s.as_str(),
            LoadError::Pattern(s) => s.as_str(),
            LoadError::Parse(s) => s.as_str(),
            LoadError::NotFound(s) => s.as_str(),
        }
    }
}

/// Attach the failing task's path to a parser's error.
pub fn task_failure(path: &str, e: &LoadError) -> (r: LoadError)
    ensures
        r@ == spec_task_failure(path@, e@),
{
    let mut text = path.to_owned();
    text.append(": ");
    text.append(e.text());
    LoadError::Parse(text)
}

/// View of a whole load outcome: either the documents' models in order, or
/// the error's model.
pub open spec fn docs_view(r: Result<Vec<Document>, LoadError>) -> Result<
    Seq<DocumentView>,
    LoadErrorView,
> {
    match r {
        Ok(v) => Ok(v.deep_view()),
        Err(e) => Err(e@),
    }
}

/// View of a listing outcome: the entries' models in listing order, or the
/// error's model.
pub open spec fn entries_view(r: Result<Vec<Entry>, LoadError>) -> Result<
    Seq<EntryView>,
    LoadErrorView,
> {
    match r {
        Ok(v) => Ok(v.deep_view()),
        Err(e) => Err(e@),
    }
}

} // verus!
