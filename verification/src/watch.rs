//! Which files changed, out of what a directory watcher reports.
use crate::text::same_text;
use vstd::prelude::*;

verus! {

/// What happened to a file.
#[derive(Clone, Copy, PartialEq, Eq, Structural, Hash, Debug)]
pub enum WatchKind {
    /// It was created.
    Created,
    /// It was modified.
    Modified,
    /// Anything else.
    Other,
}

/// A path, by a number that stands for it alone, and the extension of its file name if
/// it has one.
#[derive(PartialEq, Debug)]
pub struct WatchedPath {
    /// Number of the path.
    pub path: usize,
    /// Its extension.
    pub extension: Option<String>,
}

/// One report of a directory watcher.
#[derive(PartialEq, Debug)]
pub struct WatchEvent {
    /// What happened.
    pub kind: WatchKind,
    /// To which paths.
    pub paths: Vec<WatchedPath>,
}

/// Whether a path is that of a graph file.
pub open spec fn graph_file(p: WatchedPath) -> bool {
    match p.extension {
        Some(e) => e@ == "json"@,
        None => false,
    }
}

/// A list of paths with one more at the end, unless it is already there.
pub open spec fn noted(known: Seq<usize>, path: usize) -> Seq<usize> {
    if known.contains(path) {
        known
    } else {
        known.push(path)
    }
}

/// The graph files among paths, noted one after the other.
pub open spec fn noted_paths(known: Seq<usize>, paths: Seq<WatchedPath>) -> Seq<usize>
    decreases paths.len(),
{
    if paths.len() == 0 {
        known
    } else {
        let rest = noted_paths(known, paths.drop_last());
        if graph_file(paths.last()) {
            noted(rest, paths.last().path)
        } else {
            rest
        }
    }
}

/// The graph files that events created or modified, each once, in the order
/// first reported.
pub open spec fn changed_paths(events: Seq<WatchEvent>) -> Seq<usize>
    decreases events.len(),
{
    if events.len() == 0 {
        Seq::empty()
    } else {
        let rest = changed_paths(events.drop_last());
        match events.last().kind {
            WatchKind::Other => rest,
            _ => noted_paths(rest, events.last().paths@),
        }
    }
}

fn is_graph_file(p: &WatchedPath) -> (r: bool)
    ensures
        r == graph_file(*p),
{
    match &p.extension {
        Some(e) => same_text(e.as_str(), "json"),
        None => false,
    }
}

/// Note a path unless it is already in the list.
pub fn note_path(known: &mut Vec<usize>, path: usize)
    ensures
        final(known)@ == noted(old(known)@, path),
{
    let mut k: usize = 0;
    while k < known.len()
        invariant
            k <= known@.len(),
            known@ == old(known)@,
            forall|i: int| 0 <= i < k ==> (#[trigger] known@[i]) != path,
        decreases known@.len() - k,
    {
        if known[k] == path {
            return;
        }
        k = k + 1;
    }
    known.push(path);
}

/// The graph files that events created or modified, each once, in the order
/// first reported.
pub fn collect_changes(events: &Vec<WatchEvent>) -> (r: Vec<usize>)
    ensures
        r@ == changed_paths(events@),
{
    let mut changed: Vec<usize> = Vec::new();
    let mut k: usize = 0;
    while k < events.len()
        invariant
            k <= events@.len(),
            changed@ == changed_paths(events@.take(k as int)),
        decreases events@.len() - k,
    {
        let event = &events[k];
        proof {
            assert(events@.take(k + 1).drop_last() =~= events@.take(k as int));
        }
        if event.kind != WatchKind::Other {
            let ghost known = changed@;
            let mut j: usize = 0;
            while j < event.paths.len()
                invariant
                    j <= event.paths@.len(),
                    changed@ == noted_paths(known, event.paths@.take(j as int)),
                decreases event.paths@.len() - j,
            {
                proof {
                    assert(event.paths@.take(j + 1).drop_last() =~= event.paths@.take(j as int));
                }
                if is_graph_file(&event.paths[j]) {
                    note_path(&mut changed, event.paths[j].path);
                }
                j = j + 1;
            }
            assert(event.paths@.take(j as int) =~= event.paths@);
        }
        k = k + 1;
    }
    assert(events@.take(k as int) =~= events@);
    changed
}

proof fn lemma_noting_keeps_distinct(known: Seq<usize>, paths: Seq<WatchedPath>)
    requires
        known.no_duplicates(),
    ensures
        noted_paths(known, paths).no_duplicates(),
    decreases paths.len(),
{
    if paths.len() > 0 {
        lemma_noting_keeps_distinct(known, paths.drop_last());
    }
}

/// No file is reported twice.
pub proof fn changes_are_reported_once(events: Seq<WatchEvent>)
    ensures
        changed_paths(events).no_duplicates(),
    decreases events.len(),
{
    if events.len() > 0 {
        changes_are_reported_once(events.drop_last());
        lemma_noting_keeps_distinct(changed_paths(events.drop_last()), events.last().paths@);
    }
}

} // verus!
