//! The directory walker: evaluates each listed entry against the ordered
//! pattern registry (first match wins) and produces the task list, in
//! listing order.

use vstd::prelude::*;
use vstd::string::StringExecFns;
use crate::document::Entry;
use crate::document::EntryKind;
use crate::document::EntryView;
use crate::document::LoadError;
use crate::document::LoadErrorView;
use crate::globs::glob_match;
use crate::globs::glob_match_path;
use crate::globs::glob_ok;

verus! {

/// One unit of work for the executor: a fully root-qualified path and the
/// index, in registration order, of the parser selected for it.
#[derive(Debug)]
pub struct Task {
    pub path: String,
    pub parser: usize,
}

/// Mathematical model of a `Task`.
pub struct TaskView {
    pub path: Seq<char>,
    pub parser: int,
}

impl View for Task {
    type V = TaskView;

    open spec fn view(&self) -> TaskView {
        TaskView { path: self.path@, parser: self.parser as int }
    }
}

impl DeepView for Task {
    type V = TaskView;

    open spec fn deep_view(&self) -> TaskView {
        self@
    }
}

/// The pattern texts of a registry, in registration order.
pub open spec fn patterns_of<P>(loaders: Seq<(String, P)>) -> Seq<Seq<char>> {
    loaders.map_values(|l: (String, P)| l.0@)
}

/// First-match-wins selection, scanning the registry from position `i` on:
/// `Err(j)` when the scan reaches an uncompilable pattern at `j` first,
/// `Ok(Some(j))` when pattern `j` is the first that matches `path`,
/// `Ok(None)` when no pattern matches.
pub open spec fn select_from(pats: Seq<Seq<char>>, path: Seq<char>, i: int) -> Result<
    Option<int>,
    int,
>
    decreases pats.len() - i,
{
    if i < 0 || i >= pats.len() {
        Ok(None)
    } else if !glob_ok(pats[i]) {
        Err(i)
    } else if glob_match(pats[i], path) {
        Ok(Some(i))
    } else {
        select_from(pats, path, i + 1)
    }
}

/// First-match-wins selection over the whole registry.
pub open spec fn select_parser(pats: Seq<Seq<char>>, path: Seq<char>) -> Result<
    Option<int>,
    int,
> {
    select_from(pats, path, 0)
}

/// View of an exec selection outcome.
pub open spec fn opt_index_view(o: Option<usize>) -> Option<int> {
    match o {
        Some(i) => Some(i as int),
        None => None,
    }
}

/// Scan the registry in registration order and return the first pattern that
/// matches `path`, an error for the first pattern reached that does not
/// compile, or `None` when no pattern matches.
pub fn find_parser<P>(loaders: &Vec<(String, P)>, path: &str) -> (r: Result<
    Option<usize>,
    LoadError,
>)
    ensures
        ({
            let sel = select_parser(patterns_of(loaders@), path@);
            match r {
                Ok(o) => sel == Ok::<Option<int>, int>(opt_index_view(o)) && (o matches Some(i)
                    ==> i < loaders.len()),
                Err(e) => sel is Err && e@ == LoadErrorView::Pattern(
                    patterns_of(loaders@)[sel->Err_0],
                ),
            }
        }),
{
    let ghost pats = patterns_of(loaders@);
    let mut i: usize = 0;
    while i < loaders.len()
        invariant
            i <= loaders.len(),
            pats == patterns_of(loaders@),
            select_from(pats, path@, 0) == select_from(pats, path@, i as int),
        decreases loaders.len() - i,
    {
        proof {
            assert(pats[i as int] == loaders@[i as int].0@);
        }
        let pattern: &String = &loaders[i].0;
        match glob_match_path(pattern.as_str(), path) {
            None => {
                return Err(LoadError::Pattern(pattern.clone()));
            },
            Some(true) => {
                return Ok(Some(i));
            },
            Some(false) => {},
        }
        i = i + 1;
    }
    Ok(None)
}

/// The walk over a listing, from entry `i` on: skip entries that are not
/// files, qualify each file path with the backend root prefix, select its
/// parser first-match-wins, and collect one task per matched file, in
/// listing order. A file no pattern matches is silently excluded; an
/// uncompilable pattern aborts the walk at its first evaluation.
pub open spec fn walk_from(
    entries: Seq<EntryView>,
    root: Seq<char>,
    pats: Seq<Seq<char>>,
    i: int,
) -> Result<Seq<TaskView>, LoadErrorView>
    decreases entries.len() - i,
{
    if i < 0 || i >= entries.len() {
        Ok(Seq::empty())
    } else if !(entries[i].kind is File) {
        walk_from(entries, root, pats, i + 1)
    } else {
        let q = root + entries[i].path;
        match select_parser(pats, q) {
            Err(j) => Err(LoadErrorView::Pattern(pats[j])),
            Ok(None) => walk_from(entries, root, pats, i + 1),
            Ok(Some(p)) => match walk_from(entries, root, pats, i + 1) {
                Err(er) => Err(er),
                Ok(ts) => Ok(seq![TaskView { path: q, parser: p }] + ts),
            },
        }
    }
}

/// The walk over a whole listing.
pub open spec fn walk_tasks(
    entries: Seq<EntryView>,
    root: Seq<char>,
    pats: Seq<Seq<char>>,
) -> Result<Seq<TaskView>, LoadErrorView> {
    walk_from(entries, root, pats, 0)
}

/// View of an exec walk outcome.
pub open spec fn tasks_view(r: Result<Vec<Task>, LoadError>) -> Result<
    Seq<TaskView>,
    LoadErrorView,
> {
    match r {
        Ok(v) => Ok(v.deep_view()),
        Err(e) => Err(e@),
    }
}

/// Build the ordered task list for a listing: one task per file entry whose
/// root-qualified path matches a registered pattern, first match winning.
pub fn build_tasks<P>(loaders: &Vec<(String, P)>, root: &str, entries: &Vec<Entry>) -> (r: Result<
    Vec<Task>,
    LoadError,
>)
    ensures
        tasks_view(r) == walk_tasks(entries.deep_view(), root@, patterns_of(loaders@)),
{
    let ghost pats = patterns_of(loaders@);
    let ghost ev = entries.deep_view();
    let mut tasks: Vec<Task> = Vec::new();
    let mut i: usize = 0;
    while i < entries.len()
        invariant
            i <= entries.len(),
            pats == patterns_of(loaders@),
            ev == entries.deep_view(),
            walk_from(ev, root@, pats, i as int) is Ok ==> walk_from(ev, root@, pats, 0) == Ok::<
                Seq<TaskView>,
                LoadErrorView,
            >(tasks.deep_view() + walk_from(ev, root@, pats, i as int)->Ok_0),
            walk_from(ev, root@, pats, i as int) is Err ==> walk_from(ev, root@, pats, 0)
                == walk_from(ev, root@, pats, i as int),
        decreases entries.len() - i,
    {
        proof {
            assert(ev[i as int] == entries@[i as int]@);
        }
        let entry = &entries[i];
        match entry.kind {
            EntryKind::Other => {},
            EntryKind::File => {
                let mut qualified = root.to_owned();
                qualified.append(entry.path.as_str());
                match find_parser(loaders, qualified.as_str()) {
                    Err(e) => {
                        proof {
                            assert(walk_from(ev, root@, pats, i as int) == Err::<
                                Seq<TaskView>,
                                LoadErrorView,
                            >(e@));
                        }
                        return Err(e);
                    },
                    Ok(None) => {},
                    Ok(Some(p)) => {
                        let ghost tasks_before = tasks.deep_view();
                        let ghost tv = TaskView { path: root@ + entry.path@, parser: p as int };
                        tasks.push(Task { path: qualified, parser: p });
                        proof {
                            assert(tasks.deep_view() =~= tasks_before.push(tv));
                            if walk_from(ev, root@, pats, i + 1) is Ok {
                                let rest = walk_from(ev, root@, pats, i + 1)->Ok_0;
                                assert(walk_from(ev, root@, pats, i as int) == Ok::<
                                    Seq<TaskView>,
                                    LoadErrorView,
                                >(seq![tv] + rest));
                                assert(tasks_before.push(tv) + rest =~= tasks_before + (
                                seq![tv] + rest));
                            }
                        }
                    },
                }
            },
        }
        i = i + 1;
    }
    proof {
        assert(walk_from(ev, root@, pats, i as int) == Ok::<Seq<TaskView>, LoadErrorView>(
            Seq::empty(),
        ));
        assert(tasks.deep_view() + Seq::<TaskView>::empty() =~= tasks.deep_view());
    }
    Ok(tasks)
}

/// How selection from position `i` relates to the patterns themselves:
/// a selected pattern matches and every pattern scanned before it compiled
/// and did not match; a reported bad pattern is the first one scanned that
/// does not compile; `None` means everything scanned compiled and nothing
/// matched.
pub proof fn lemma_select_from_characterizes(pats: Seq<Seq<char>>, path: Seq<char>, i: int)
    requires
        0 <= i,
    ensures
        select_from(pats, path, i) matches Ok(Some(p)) ==> i <= p < pats.len() && glob_ok(pats[p])
            && glob_match(pats[p], path) && (forall|k: int|
            i <= k < p ==> #[trigger] glob_ok(pats[k]) && !glob_match(pats[k], path)),
        select_from(pats, path, i) matches Err(b) ==> i <= b < pats.len() && !glob_ok(pats[b]) && (
        forall|k: int| i <= k < b ==> #[trigger] glob_ok(pats[k]) && !glob_match(pats[k], path)),
        select_from(pats, path, i) == Ok::<Option<int>, int>(None) ==> (forall|k: int|
            i <= k < pats.len() ==> #[trigger] glob_ok(pats[k]) && !glob_match(pats[k], path)),
    decreases pats.len() - i,
{
    if i < pats.len() {
        lemma_select_from_characterizes(pats, path, i + 1);
    }
}

/// First match wins: when two registered patterns both match the same
/// qualified path and selection completes without a pattern error, the
/// parser bound to the pattern registered earlier (or earlier still) is
/// selected. Selection is a function of the registry and the path, so the
/// choice is the same on every run.
pub proof fn lemma_first_match_wins(pats: Seq<Seq<char>>, path: Seq<char>, i: int, j: int)
    requires
        0 <= i < j < pats.len(),
        glob_match(pats[i], path),
        glob_match(pats[j], path),
        select_parser(pats, path) is Ok,
    ensures
        select_parser(pats, path)->Ok_0 matches Some(s) && s <= i && glob_match(pats[s], path),
{
    lemma_select_stops_by(pats, path, 0, i);
}

/// Selection scanned from `i` cannot pass a matching pattern at `m`: it
/// settles on some pattern registered at `m` or earlier.
proof fn lemma_select_stops_by(pats: Seq<Seq<char>>, path: Seq<char>, i: int, m: int)
    requires
        0 <= i <= m < pats.len(),
        glob_match(pats[m], path),
        select_from(pats, path, i) is Ok,
    ensures
        select_from(pats, path, i)->Ok_0 matches Some(s) && i <= s <= m && glob_match(
            pats[s],
            path,
        ),
    decreases m - i,
{
    if !glob_ok(pats[i]) {
        assert(select_from(pats, path, i) is Err);
    } else if glob_match(pats[i], path) {
    } else {
        lemma_select_stops_by(pats, path, i + 1, m);
    }
}

/// Every task the walk produces carries a parser index that points into the
/// registry.
pub proof fn lemma_walk_parser_in_range(
    entries: Seq<EntryView>,
    root: Seq<char>,
    pats: Seq<Seq<char>>,
    i: int,
)
    ensures
        walk_from(entries, root, pats, i) matches Ok(ts) ==> forall|j: int|
            0 <= j < ts.len() ==> 0 <= #[trigger] ts[j].parser < pats.len(),
    decreases entries.len() - i,
{
    if i < 0 || i >= entries.len() {
    } else {
        lemma_walk_parser_in_range(entries, root, pats, i + 1);
        if entries[i].kind is File {
            lemma_select_from_characterizes(pats, root + entries[i].path, 0);
        }
    }
}

/// Whether the walk turns `e` into a task: it is a file and some registered
/// pattern matches its qualified path.
pub open spec fn entry_selected(root: Seq<char>, pats: Seq<Seq<char>>, e: EntryView) -> bool {
    e.kind is File && select_parser(pats, root + e.path) matches Ok(Some(_))
}

/// The task the walk builds for a selected entry.
pub open spec fn task_of(root: Seq<char>, pats: Seq<Seq<char>>, e: EntryView) -> TaskView {
    TaskView { path: root + e.path, parser: select_parser(pats, root + e.path)->Ok_0->Some_0 }
}

/// Exactly the matching files, in listing order: when the walk completes,
/// its task list is precisely the listing filtered to the file entries some
/// registered pattern matches, each mapped to its qualified path and its
/// first-match parser. Files no pattern matches are excluded and nothing
/// else is added, re-sorted or duplicated.
pub proof fn lemma_walk_exactly_matching(
    entries: Seq<EntryView>,
    root: Seq<char>,
    pats: Seq<Seq<char>>,
)
    requires
        walk_tasks(entries, root, pats) is Ok,
    ensures
        walk_tasks(entries, root, pats)->Ok_0 == entries.filter(
            |e: EntryView| entry_selected(root, pats, e),
        ).map_values(|e: EntryView| task_of(root, pats, e)),
{
    lemma_walk_from_matching(entries, root, pats, 0);
    assert(entries.subrange(0, entries.len() as int) =~= entries);
}

proof fn lemma_walk_from_matching(
    entries: Seq<EntryView>,
    root: Seq<char>,
    pats: Seq<Seq<char>>,
    i: int,
)
    requires
        0 <= i <= entries.len(),
        walk_from(entries, root, pats, i) is Ok,
    ensures
        walk_from(entries, root, pats, i)->Ok_0 == entries.subrange(i, entries.len() as int).filter(
            |e: EntryView| entry_selected(root, pats, e),
        ).map_values(|e: EntryView| task_of(root, pats, e)),
    decreases entries.len() - i,
{
    let pred = |e: EntryView| entry_selected(root, pats, e);
    let f = |e: EntryView| task_of(root, pats, e);
    if i == entries.len() {
        assert(entries.subrange(i, entries.len() as int) =~= Seq::<EntryView>::empty());
        reveal_with_fuel(Seq::filter, 2);
        assert(walk_from(entries, root, pats, i)->Ok_0 =~= Seq::<EntryView>::empty().filter(
            pred,
        ).map_values(f));
    } else {
        lemma_walk_from_matching(entries, root, pats, i + 1);
        let suffix = entries.subrange(i, entries.len() as int);
        let rest = entries.subrange(i + 1, entries.len() as int);
        let head = seq![entries[i]];
        assert(suffix =~= head + rest);
        Seq::filter_distributes_over_add(head, rest, pred);
        reveal_with_fuel(Seq::filter, 2);
        assert(head.drop_last() =~= Seq::<EntryView>::empty());
        if pred(entries[i]) {
            assert(head.filter(pred) =~= seq![entries[i]]);
            assert(suffix.filter(pred).map_values(f) =~= seq![f(entries[i])] + rest.filter(
                pred,
            ).map_values(f));
        } else {
            assert(head.filter(pred) =~= Seq::<EntryView>::empty());
            assert(suffix.filter(pred).map_values(f) =~= rest.filter(pred).map_values(f));
        }
    }
}

} // verus!
