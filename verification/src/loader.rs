//! The directory loader: the composite that walks a storage port, selects a
//! parser per file through the ordered glob registry, executes the task list
//! and returns the flattened documents. It implements the parser port
//! itself, so a directory loader can be registered as the parser for a
//! nested sub-tree.

use vstd::prelude::*;
use crate::document::Document;
use crate::document::DocumentPath;
use crate::document::DocumentView;
use crate::document::LoadError;
use crate::document::LoadErrorView;
use crate::document::docs_view;
use crate::executor::parsers_of;
use crate::executor::run_tasks;
use crate::executor::spec_task_outcome;
use crate::executor::run_tasks_spec;
use crate::ports::DocumentLoader;
use crate::ports::StoragePort;
use crate::walker::Task;
use crate::walker::TaskView;
use crate::walker::build_tasks;
use crate::walker::lemma_walk_parser_in_range;
use crate::walker::patterns_of;
use crate::walker::tasks_view;
use crate::walker::walk_tasks;

verus! {

/// Where a pattern already stands in the registry, scanning from `i` in
/// registration order.
pub open spec fn find_pattern(pats: Seq<Seq<char>>, pat: Seq<char>, i: int) -> Option<int>
    decreases pats.len() - i,
{
    if i < 0 || i >= pats.len() {
        None
    } else if pats[i] == pat {
        Some(i)
    } else {
        find_pattern(pats, pat, i + 1)
    }
}

/// Loads every matching file under a directory: glob rules are registered
/// in order, each file is parsed by the first matching rule's parser, and
/// results come back flattened in listing order.
pub struct DirectoryLoader<D: StoragePort, P: DocumentLoader> {
    disk: D,
    loaders: Vec<(String, P)>,
    max_threads: usize,
}

impl<D: StoragePort, P: DocumentLoader> DirectoryLoader<D, P> {
    /// Model of the storage port this loader walks.
    pub closed spec fn spec_disk(&self) -> D {
        self.disk
    }

    /// The registered pattern texts, in registration order.
    pub closed spec fn spec_patterns(&self) -> Seq<Seq<char>> {
        patterns_of(self.loaders@)
    }

    /// The registered parsers, in registration order.
    pub closed spec fn spec_parsers(&self) -> Seq<P> {
        parsers_of(self.loaders@)
    }

    /// The configured concurrency bound.
    pub closed spec fn spec_max_threads(&self) -> int {
        self.max_threads as int
    }

    /// A fresh loader over `disk` with no rules and the default concurrency
    /// bound of 8.
    pub fn create(disk: D) -> (r: Self)
        ensures
            r.spec_disk() == disk,
            r.spec_patterns() == Seq::<Seq<char>>::empty(),
            r.spec_parsers() == Seq::<P>::empty(),
            r.spec_max_threads() == 8,
    {
        let r = DirectoryLoader { disk, loaders: Vec::new(), max_threads: 8 };
        proof {
            assert(r.spec_patterns() =~= Seq::<Seq<char>>::empty());
            assert(r.spec_parsers() =~= Seq::<P>::empty());
        }
        r
    }

    /// Register `loader` for the paths matching `glob`. Registering a
    /// pattern already present replaces its parser in place, keeping the
    /// pattern's original position in first-match order; a new pattern is
    /// appended after all earlier ones.
    pub fn with_loader(self, glob: &str, loader: P) -> (r: Self)
        ensures
            r.spec_disk() == self.spec_disk(),
            r.spec_max_threads() == self.spec_max_threads(),
            find_pattern(self.spec_patterns(), glob@, 0) matches Some(j) ==> r.spec_patterns()
                == self.spec_patterns().update(j, glob@) && r.spec_parsers()
                == self.spec_parsers().update(j, loader),
            find_pattern(self.spec_patterns(), glob@, 0) is None ==> r.spec_patterns()
                == self.spec_patterns().push(glob@) && r.spec_parsers()
                == self.spec_parsers().push(loader),
    {
        let ghost orig = self;
        let mut this = self;
        let ghost pats = this.spec_patterns();
        let pattern = glob.to_owned();
        let mut i: usize = 0;
        while i < this.loaders.len()
            invariant
                orig == self,
                i <= this.loaders.len(),
                this.spec_disk() == orig.spec_disk(),
                this.spec_max_threads() == orig.spec_max_threads(),
                pats == patterns_of(this.loaders@),
                pats == orig.spec_patterns(),
                parsers_of(this.loaders@) == orig.spec_parsers(),
                find_pattern(pats, glob@, 0) == find_pattern(pats, glob@, i as int),
                pattern@ == glob@,
            decreases this.loaders.len() - i,
        {
            proof {
                assert(pats[i as int] == this.loaders@[i as int].0@);
            }
            if this.loaders[i].0 == pattern {
                let ghost before = this.loaders@;
                proof {
                    assert(find_pattern(pats, glob@, i as int) == Some(i as int));
                }
                this.loaders.remove(i);
                this.loaders.insert(i, (pattern, loader));
                proof {
                    assert(this.loaders@ =~= before.update(i as int, (pattern, loader)));
                    assert(patterns_of(this.loaders@) =~= pats.update(i as int, glob@));
                    assert(parsers_of(this.loaders@) =~= parsers_of(before).update(
                        i as int,
                        loader,
                    ));
                }
                return this;
            }
            i = i + 1;
        }
        let ghost before = this.loaders@;
        proof {
            assert(find_pattern(pats, glob@, i as int) is None);
        }
        this.loaders.push((pattern, loader));
        proof {
            assert(patterns_of(this.loaders@) =~= pats.push(glob@));
            assert(parsers_of(this.loaders@) =~= parsers_of(before).push(loader));
        }
        this
    }

    /// Set the concurrency bound for task execution; it must be at least 1.
    pub fn with_max_threads(self, max_threads: usize) -> (r: Self)
        requires
            max_threads >= 1,
        ensures
            r.spec_disk() == self.spec_disk(),
            r.spec_patterns() == self.spec_patterns(),
            r.spec_parsers() == self.spec_parsers(),
            r.spec_max_threads() == max_threads,
    {
        let mut this = self;
        this.max_threads = max_threads;
        this
    }

    /// The configured concurrency bound, for the driver of a worker pool.
    pub fn max_threads(&self) -> (r: usize)
        ensures
            r == self.spec_max_threads(),
    {
        self.max_threads
    }

    /// The storage port this loader walks.
    pub fn disk(&self) -> (r: &D)
        ensures
            *r == self.spec_disk(),
    {
        &self.disk
    }

    /// How many rules are registered.
    pub fn rules_len(&self) -> (r: usize)
        ensures
            r == self.spec_parsers().len(),
    {
        self.loaders.len()
    }

    /// Run one task of this loader's task list: invoke the selected parser
    /// on the task's qualified path; a failure comes back with the task's
    /// path attached. For a driver that executes the task list itself.
    pub fn run_task(&self, task: &Task) -> (r: Result<Vec<Document>, LoadError>)
        requires
            0 <= task@.parser < self.spec_parsers().len(),
        ensures
            docs_view(r) == spec_task_outcome(task@, self.spec_parsers()),
    {
        crate::executor::run_task(&self.loaders, task)
    }

    /// Model of the walk: the ordered task list built from the storage
    /// port's listing of `path`, or the first failure the walk hits.
    pub open spec fn spec_tasks(&self, path: Seq<char>) -> Result<Seq<TaskView>, LoadErrorView> {
        match self.spec_disk().spec_list(path) {
            Err(e) => Err(e),
            Ok(entries) => walk_tasks(entries, self.spec_disk().spec_root(), self.spec_patterns()),
        }
    }

    /// List the directory and build the ordered task list: one task per
    /// file entry whose root-qualified path matches a registered pattern,
    /// first match winning, in listing order.
    pub fn process_directory(&self, path: &DocumentPath) -> (r: Result<Vec<Task>, LoadError>)
        ensures
            tasks_view(r) == self.spec_tasks(path@),
    {
        let entries = match self.disk.list(path) {
            Err(e) => {
                return Err(e);
            },
            Ok(es) => es,
        };
        let root = self.disk.root_prefix();
        build_tasks(&self.loaders, root.as_str(), &entries)
    }
}

impl<D: StoragePort, P: DocumentLoader> DocumentLoader for DirectoryLoader<D, P> {
    /// Model of a whole load: fail when the root does not resolve, walk the
    /// listing into tasks, execute them in order, and flatten the documents
    /// task by task; otherwise surface the first failure.
    open spec fn spec_load(&self, path: Seq<char>) -> Result<Seq<DocumentView>, LoadErrorView> {
        if !self.spec_disk().spec_can_open(path) {
            Err(LoadErrorView::NotFound(path))
        } else {
            match self.spec_tasks(path) {
                Err(e) => Err(e),
                Ok(tasks) => run_tasks_spec(tasks, self.spec_parsers()),
            }
        }
    }

    /// Load every matching file under `path`: either the complete document
    /// sequence, in task order, or exactly one error.
    fn load(&self, path: &DocumentPath) -> (r: Result<Vec<Document>, LoadError>) {
        if !self.disk.can_open(path) {
            return Err(LoadError::NotFound(path.as_str().to_owned()));
        }
        let tasks = match self.process_directory(path) {
            Err(e) => {
                return Err(e);
            },
            Ok(ts) => ts,
        };
        proof {
            lemma_walk_parser_in_range(
                self.spec_disk().spec_list(path@)->Ok_0,
                self.spec_disk().spec_root(),
                self.spec_patterns(),
                0,
            );
            assert(self.spec_parsers().len() == self.loaders@.len());
        }
        run_tasks(&self.loaders, &tasks)
    }
}

/// Idempotence: a parser port's model is a function of its state and the
/// path, so two loads of the same path against an unchanged loader and
/// backend yield identical outcomes — same documents, same order, same
/// fingerprints.
pub proof fn lemma_load_idempotent<L: DocumentLoader>(
    loader: &L,
    path: Seq<char>,
    r1: Result<Vec<Document>, LoadError>,
    r2: Result<Vec<Document>, LoadError>,
)
    requires
        docs_view(r1) == loader.spec_load(path),
        docs_view(r2) == loader.spec_load(path),
    ensures
        docs_view(r1) == docs_view(r2),
{
}

} // verus!
