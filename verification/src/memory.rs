//! In-memory implementations of the two ports: a storage backend whose
//! listing is a fixed entry table, and a parser whose output is a fixed
//! row table. They are what drives the pipeline where no real backend or
//! format parser stands behind it, and they make every pipeline behavior
//! reproducible.

use vstd::prelude::*;
use crate::document::Document;
use crate::document::DocumentPath;
use crate::document::DocumentView;
use crate::document::Entry;
use crate::document::EntryKind;
use crate::document::EntryView;
use crate::document::LoadError;
use crate::document::LoadErrorView;
use crate::document::docs_view;
use crate::executor::clone_documents;
use crate::ports::DocumentLoader;
use crate::ports::StoragePort;

verus! {

/// Copy an entry list, element for element.
fn clone_entries(entries: &Vec<Entry>) -> (r: Vec<Entry>)
    ensures
        r.deep_view() == entries.deep_view(),
{
    let mut out: Vec<Entry> = Vec::new();
    let mut i: usize = 0;
    while i < entries.len()
        invariant
            i <= entries.len(),
            out@.len() == i,
            forall|j: int|
                0 <= j < i ==> #[trigger] out.deep_view()[j] == entries.deep_view()[j],
        decreases entries.len() - i,
    {
        let ghost dv_before = out.deep_view();
        let copied = entries[i].clone();
        out.push(copied);
        proof {
            assert forall|j: int| 0 <= j < i + 1 implies #[trigger] out.deep_view()[j]
                == entries.deep_view()[j] by {
                if j < i as int {
                    assert(out.deep_view()[j] == dv_before[j]);
                } else {
                    assert(out.deep_view()[j] == copied@);
                    assert(entries.deep_view()[j] == entries@[j]@);
                }
            }
        }
        i = i + 1;
    }
    proof {
        assert(out.deep_view() =~= entries.deep_view());
    }
    out
}

/// A storage port over a fixed table: one directory path that resolves, a
/// root prefix, and the entries its recursive listing yields, in order.
/// With `broken` set the backend fails every listing with that message.
pub struct MemoryStorage {
    pub root: String,
    pub dir: String,
    pub entries: Vec<Entry>,
    pub broken: Option<String>,
}

impl MemoryStorage {
    /// A healthy backend with root prefix `root` whose only openable
    /// location is `dir`, listing nothing yet.
    pub fn create(root: &str, dir: &str) -> (r: Self)
        ensures
            r.root@ == root@,
            r.dir@ == dir@,
            r.entries.deep_view() == Seq::<EntryView>::empty(),
            r.broken is None,
    {
        let r = MemoryStorage {
            root: root.to_owned(),
            dir: dir.to_owned(),
            entries: Vec::new(),
            broken: None,
        };
        proof {
            assert(r.entries.deep_view() =~= Seq::<EntryView>::empty());
        }
        r
    }

    /// Append a file entry to the listing.
    pub fn with_file(self, path: &str) -> (r: Self)
        ensures
            r.root == self.root,
            r.dir == self.dir,
            r.broken == self.broken,
            r.entries.deep_view() == self.entries.deep_view().push(
                EntryView { path: path@, kind: EntryKind::File },
            ),
    {
        let mut this = self;
        this.entries.push(Entry { path: path.to_owned(), kind: EntryKind::File });
        proof {
            assert(this.entries.deep_view() =~= self.entries.deep_view().push(
                EntryView { path: path@, kind: EntryKind::File },
            ));
        }
        this
    }

    /// Append a non-file entry (a directory, a link) to the listing.
    pub fn with_other(self, path: &str) -> (r: Self)
        ensures
            r.root == self.root,
            r.dir == self.dir,
            r.broken == self.broken,
            r.entries.deep_view() == self.entries.deep_view().push(
                EntryView { path: path@, kind: EntryKind::Other },
            ),
    {
        let mut this = self;
        this.entries.push(Entry { path: path.to_owned(), kind: EntryKind::Other });
        proof {
            assert(this.entries.deep_view() =~= self.entries.deep_view().push(
                EntryView { path: path@, kind: EntryKind::Other },
            ));
        }
        this
    }

    /// Make every listing fail with a storage error carrying `message`.
    pub fn with_broken_listing(self, message: &str) -> (r: Self)
        ensures
            r.root == self.root,
            r.dir == self.dir,
            r.entries == self.entries,
            r.broken matches Some(m) && m@ == message@,
    {
        let mut this = self;
        this.broken = Some(message.to_owned());
        this
    }
}

impl StoragePort for MemoryStorage {
    open spec fn spec_root(&self) -> Seq<char> {
        self.root@
    }

    open spec fn spec_can_open(&self, path: Seq<char>) -> bool {
        path == self.dir@
    }

    open spec fn spec_list(&self, path: Seq<char>) -> Result<Seq<EntryView>, LoadErrorView> {
        match self.broken {
            Some(m) => Err(LoadErrorView::Storage(m@)),
            None => if path == self.dir@ {
                Ok(self.entries.deep_view())
            } else {
                Err(LoadErrorView::NotFound(path))
            },
        }
    }

    fn root_prefix(&self) -> (r: String) {
        self.root.clone()
    }

    fn can_open(&self, path: &DocumentPath) -> (r: bool) {
        self.dir == path.as_str().to_owned()
    }

    fn list(&self, path: &DocumentPath) -> (r: Result<Vec<Entry>, LoadError>) {
        match &self.broken {
            Some(m) => Err(LoadError::Storage(m.clone())),
            None => {
                if self.dir == path.as_str().to_owned() {
                    Ok(clone_entries(&self.entries))
                } else {
                    Err(LoadError::NotFound(path.as_str().to_owned()))
                }
            },
        }
    }
}

/// Where a path stands in a parser table, scanning from `i`.
pub open spec fn find_row(
    rows: Seq<(String, Result<Vec<Document>, LoadError>)>,
    path: Seq<char>,
    i: int,
) -> Option<int>
    decreases rows.len() - i,
{
    if i < 0 || i >= rows.len() {
        None
    } else if rows[i].0@ == path {
        Some(i)
    } else {
        find_row(rows, path, i + 1)
    }
}

/// A parser port over a fixed table: each row binds one path to the
/// outcome the parser yields for it — a document list, or a failure. A
/// path with no row fails as not found. The first row for a path wins.
pub struct StaticLoader {
    pub rows: Vec<(String, Result<Vec<Document>, LoadError>)>,
}

impl StaticLoader {
    /// A parser that knows no path yet.
    pub fn create() -> (r: Self)
        ensures
            r.rows@.len() == 0,
    {
        StaticLoader { rows: Vec::new() }
    }

    /// Bind `path` to a successful parse yielding `docs`.
    pub fn with_docs(self, path: &str, docs: Vec<Document>) -> (r: Self)
        ensures
            r.rows@.len() == self.rows@.len() + 1,
            r.rows@[self.rows@.len() as int].0@ == path@,
            r.rows@[self.rows@.len() as int].1 == Ok::<Vec<Document>, LoadError>(docs),
            forall|j: int| 0 <= j < self.rows@.len() ==> r.rows@[j] == self.rows@[j],
    {
        let mut this = self;
        this.rows.push((path.to_owned(), Ok(docs)));
        this
    }

    /// Bind `path` to a failure.
    pub fn with_failure(self, path: &str, error: LoadError) -> (r: Self)
        ensures
            r.rows@.len() == self.rows@.len() + 1,
            r.rows@[self.rows@.len() as int].0@ == path@,
            r.rows@[self.rows@.len() as int].1 == Err::<Vec<Document>, LoadError>(error),
            forall|j: int| 0 <= j < self.rows@.len() ==> r.rows@[j] == self.rows@[j],
    {
        let mut this = self;
        this.rows.push((path.to_owned(), Err(error)));
        this
    }
}

impl DocumentLoader for StaticLoader {
    open spec fn spec_load(&self, path: Seq<char>) -> Result<Seq<DocumentView>, LoadErrorView> {
        match find_row(self.rows@, path, 0) {
            Some(j) => docs_view(self.rows@[j].1),
            None => Err(LoadErrorView::NotFound(path)),
        }
    }

    fn load(&self, path: &DocumentPath) -> (r: Result<Vec<Document>, LoadError>) {
        let ghost rows = self.rows@;
        let wanted = path.as_str().to_owned();
        let mut i: usize = 0;
        while i < self.rows.len()
            invariant
                i <= self.rows.len(),
                rows == self.rows@,
                wanted@ == path@,
                find_row(rows, path@, 0) == find_row(rows, path@, i as int),
            decreases self.rows.len() - i,
        {
            if self.rows[i].0 == wanted {
                proof {
                    assert(find_row(rows, path@, i as int) == Some(i as int));
                }
                return match &self.rows[i].1 {
                    Ok(docs) => Ok(clone_documents(docs)),
                    Err(e) => Err(e.clone()),
                };
            }
            i = i + 1;
        }
        Err(LoadError::NotFound(wanted))
    }
}

} // verus!
