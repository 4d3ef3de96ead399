//! End-to-end behavior of the directory loader over in-memory ports:
//! matching, first-match-wins, ordering, fail-fast, idempotence, and each
//! error kind.

use llmchain::Document;
use llmchain::DocumentLoader;
use llmchain::DocumentPath;
use llmchain::DirectoryLoader;
use llmchain::LoadError;
use llmchain::MemoryStorage;
use llmchain::StaticLoader;

fn doc(path: &str, content: &str, md5: &str) -> Document {
    Document {
        path: path.to_string(),
        content: content.to_string(),
        content_md5: md5.to_string(),
    }
}

/// Root holds `a.md`, `b.md`, `c.txt`; only `**/*.md` is registered: the
/// load returns exactly the two markdown documents, in listing order, and
/// `c.txt` is silently excluded.
#[test]
fn test_directory_loader() {
    let disk = MemoryStorage::create("/base/", "dir")
        .with_file("a.md")
        .with_file("b.md")
        .with_file("c.txt");
    let parser = StaticLoader::create()
        .with_docs("/base/a.md", vec![doc("/base/a.md", "# a", "md5-a")])
        .with_docs("/base/b.md", vec![doc("/base/b.md", "# b", "md5-b")]);
    let loader = DirectoryLoader::create(disk).with_loader("**/*.md", parser);

    let documents = loader.load(&DocumentPath::from_string("dir")).unwrap();
    assert_eq!(documents.len(), 2);
    assert_eq!(
        documents,
        vec![
            doc("/base/a.md", "# a", "md5-a"),
            doc("/base/b.md", "# b", "md5-b"),
        ]
    );
}

/// Entries that are not files are skipped, and a file no pattern matches
/// is excluded without an error.
#[test]
fn skips_non_files_and_unmatched() {
    let disk = MemoryStorage::create("/base/", "dir")
        .with_other("sub/")
        .with_file("notes.txt")
        .with_file("a.md");
    let parser = StaticLoader::create().with_docs("/base/a.md", vec![doc("/base/a.md", "a", "m")]);
    let loader = DirectoryLoader::create(disk).with_loader("**/*.md", parser);

    let documents = loader.load(&DocumentPath::from_string("dir")).unwrap();
    assert_eq!(documents, vec![doc("/base/a.md", "a", "m")]);
}

/// `**/*.md` is registered before `**/a.md`: for `a.md` the parser bound
/// to the earlier pattern wins, deterministically.
#[test]
fn first_match_wins_by_registration_order() {
    let disk = MemoryStorage::create("/base/", "dir").with_file("a.md");
    let parser_a =
        StaticLoader::create().with_docs("/base/a.md", vec![doc("/base/a.md", "from A", "ma")]);
    let parser_b =
        StaticLoader::create().with_docs("/base/a.md", vec![doc("/base/a.md", "from B", "mb")]);
    let loader = DirectoryLoader::create(disk)
        .with_loader("**/*.md", parser_a)
        .with_loader("**/a.md", parser_b);

    let documents = loader.load(&DocumentPath::from_string("dir")).unwrap();
    assert_eq!(documents, vec![doc("/base/a.md", "from A", "ma")]);
}

/// Re-registering a pattern replaces its parser in place: the pattern
/// keeps its original position in first-match order.
#[test]
fn reregistering_replaces_in_place() {
    let disk = MemoryStorage::create("/base/", "dir").with_file("a.md");
    let parser_a =
        StaticLoader::create().with_docs("/base/a.md", vec![doc("/base/a.md", "old", "m1")]);
    let parser_b =
        StaticLoader::create().with_docs("/base/a.md", vec![doc("/base/a.md", "late", "m2")]);
    let parser_c =
        StaticLoader::create().with_docs("/base/a.md", vec![doc("/base/a.md", "new", "m3")]);
    let loader = DirectoryLoader::create(disk)
        .with_loader("**/a.md", parser_a)
        .with_loader("**/*.md", parser_b)
        .with_loader("**/a.md", parser_c);

    let documents = loader.load(&DocumentPath::from_string("dir")).unwrap();
    assert_eq!(documents, vec![doc("/base/a.md", "new", "m3")]);
}

/// A task may contribute zero or many documents; the flattening keeps task
/// order and never interleaves two tasks' documents.
#[test]
fn flattening_keeps_task_order() {
    let disk = MemoryStorage::create("/base/", "dir")
        .with_file("a.md")
        .with_file("b.md")
        .with_file("c.md");
    let parser = StaticLoader::create()
        .with_docs(
            "/base/a.md",
            vec![doc("/base/a.md", "a1", "m1"), doc("/base/a.md", "a2", "m2")],
        )
        .with_docs("/base/b.md", vec![])
        .with_docs("/base/c.md", vec![doc("/base/c.md", "c1", "m3")]);
    let loader = DirectoryLoader::create(disk).with_loader("**/*.md", parser);

    let documents = loader.load(&DocumentPath::from_string("dir")).unwrap();
    assert_eq!(
        documents,
        vec![
            doc("/base/a.md", "a1", "m1"),
            doc("/base/a.md", "a2", "m2"),
            doc("/base/c.md", "c1", "m3"),
        ]
    );
}

/// Fail-fast: when the parser fails on the middle file, the load returns
/// exactly that failure — as a parse error naming the failing task's path
/// and the parser's message — and no documents, although the tasks before
/// and after it would have succeeded.
#[test]
fn fail_fast_returns_first_failure() {
    let disk = MemoryStorage::create("/base/", "dir")
        .with_file("a.md")
        .with_file("b.md")
        .with_file("c.md");
    let parser = StaticLoader::create()
        .with_docs("/base/a.md", vec![doc("/base/a.md", "a", "m1")])
        .with_failure("/base/b.md", LoadError::Parse("b is broken".to_string()))
        .with_docs("/base/c.md", vec![doc("/base/c.md", "c", "m2")]);
    let loader = DirectoryLoader::create(disk).with_loader("**/*.md", parser);

    let outcome = loader.load(&DocumentPath::from_string("dir"));
    assert_eq!(
        outcome,
        Err(LoadError::Parse("/base/b.md: b is broken".to_string()))
    );
}

/// Whatever kind of error the parser reports, the surfaced task failure
/// names the failing task's path.
#[test]
fn task_failure_names_the_path() {
    let disk = MemoryStorage::create("/base/", "dir").with_file("a.md");
    let parser = StaticLoader::create()
        .with_failure("/base/a.md", LoadError::Storage("read timed out".to_string()));
    let loader = DirectoryLoader::create(disk).with_loader("**/*.md", parser);

    let outcome = loader.load(&DocumentPath::from_string("dir"));
    assert_eq!(
        outcome,
        Err(LoadError::Parse("/base/a.md: read timed out".to_string()))
    );
}

/// Idempotence: two loads over an unchanged backend yield an identical
/// document sequence — same order, same contents, same fingerprints.
#[test]
fn load_twice_is_identical() {
    let disk = MemoryStorage::create("/base/", "dir")
        .with_file("a.md")
        .with_file("b.md");
    let parser = StaticLoader::create()
        .with_docs("/base/a.md", vec![doc("/base/a.md", "a", "fp-a")])
        .with_docs("/base/b.md", vec![doc("/base/b.md", "b", "fp-b")]);
    let loader = DirectoryLoader::create(disk).with_loader("**/*.md", parser);

    let first = loader.load(&DocumentPath::from_string("dir")).unwrap();
    let second = loader.load(&DocumentPath::from_string("dir")).unwrap();
    assert_eq!(first, second);
}

/// A root path the backend cannot open fails as not found.
#[test]
fn unresolvable_root_is_not_found() {
    let disk = MemoryStorage::create("/base/", "dir");
    let loader: DirectoryLoader<MemoryStorage, StaticLoader> = DirectoryLoader::create(disk);

    let outcome = loader.load(&DocumentPath::from_string("elsewhere"));
    assert_eq!(outcome, Err(LoadError::NotFound("elsewhere".to_string())));
}

/// A backend listing failure aborts the whole load with a storage error.
#[test]
fn listing_failure_aborts_load() {
    let disk = MemoryStorage::create("/base/", "dir")
        .with_file("a.md")
        .with_broken_listing("backend io failure");
    let parser = StaticLoader::create().with_docs("/base/a.md", vec![doc("/base/a.md", "a", "m")]);
    let loader = DirectoryLoader::create(disk).with_loader("**/*.md", parser);

    let outcome = loader.load(&DocumentPath::from_string("dir"));
    assert_eq!(
        outcome,
        Err(LoadError::Storage("backend io failure".to_string()))
    );
}

/// A registered pattern that does not compile aborts the walk at its first
/// evaluation, naming the pattern.
#[test]
fn bad_pattern_aborts_walk() {
    let disk = MemoryStorage::create("/base/", "dir").with_file("a.md");
    let parser = StaticLoader::create().with_docs("/base/a.md", vec![doc("/base/a.md", "a", "m")]);
    let loader = DirectoryLoader::create(disk).with_loader("a[", parser);

    let outcome = loader.load(&DocumentPath::from_string("dir"));
    assert_eq!(outcome, Err(LoadError::Pattern("a[".to_string())));
}

/// A bad pattern standing after the matching one is never evaluated:
/// first-match-wins stops the scan before reaching it.
#[test]
fn later_bad_pattern_is_not_reached() {
    let disk = MemoryStorage::create("/base/", "dir").with_file("a.md");
    let parser = StaticLoader::create().with_docs("/base/a.md", vec![doc("/base/a.md", "a", "m")]);
    let unused = StaticLoader::create();
    let loader = DirectoryLoader::create(disk)
        .with_loader("**/*.md", parser)
        .with_loader("a[", unused);

    let documents = loader.load(&DocumentPath::from_string("dir")).unwrap();
    assert_eq!(documents, vec![doc("/base/a.md", "a", "m")]);
}

/// An empty listing loads successfully into an empty document sequence.
#[test]
fn empty_directory_loads_empty() {
    let disk = MemoryStorage::create("/base/", "dir");
    let parser = StaticLoader::create();
    let loader = DirectoryLoader::create(disk).with_loader("**/*.md", parser);

    let documents = loader.load(&DocumentPath::from_string("dir")).unwrap();
    assert_eq!(documents, Vec::<Document>::new());
}

/// The backend's root prefix is joined onto each entry before matching and
/// before the parser sees the path.
#[test]
fn root_prefix_is_joined() {
    let disk = MemoryStorage::create("/data/repo/", "dir").with_file("src/a.md");
    let parser = StaticLoader::create().with_docs(
        "/data/repo/src/a.md",
        vec![doc("/data/repo/src/a.md", "a", "m")],
    );
    let loader = DirectoryLoader::create(disk).with_loader("/data/repo/**/*.md", parser);

    let documents = loader.load(&DocumentPath::from_string("dir")).unwrap();
    assert_eq!(documents, vec![doc("/data/repo/src/a.md", "a", "m")]);
}

/// A document path survives the round trip through its string form.
#[test]
fn document_path_round_trip() {
    let path = DocumentPath::from_string("/base/a.md");
    assert_eq!(path.as_str(), "/base/a.md");
}

/// The defaults and the builder: a fresh loader runs with a bound of 8,
/// and the bound can be reconfigured before loading.
#[test]
fn max_threads_builder() {
    let disk = MemoryStorage::create("/base/", "dir");
    let loader: DirectoryLoader<MemoryStorage, StaticLoader> = DirectoryLoader::create(disk);
    assert_eq!(loader.max_threads(), 8);
    let loader = loader.with_max_threads(2);
    assert_eq!(loader.max_threads(), 2);
}

/// Recursive composition: a directory loader is itself a parser, so it can
/// be registered as the parser for a nested bundle; the outer load returns
/// the inner load's documents in place.
#[test]
fn directory_loader_composes_as_parser() {
    let inner_disk = MemoryStorage::create("/store/", "/base/inner.bundle").with_file("d.md");
    let inner_parser =
        StaticLoader::create().with_docs("/store/d.md", vec![doc("/store/d.md", "inner", "mi")]);
    let inner = DirectoryLoader::create(inner_disk).with_loader("**/*.md", inner_parser);

    let outer_disk = MemoryStorage::create("/base/", "dir").with_file("inner.bundle");
    let outer = DirectoryLoader::create(outer_disk).with_loader("**/*.bundle", inner);

    let documents = outer.load(&DocumentPath::from_string("dir")).unwrap();
    assert_eq!(documents, vec![doc("/store/d.md", "inner", "mi")]);
}
