//! Finding the dotrain sources below a directory.

use vstd::prelude::*;
use vstd::utf8::{decode_utf8, valid_utf8};
use crate::error::{BuildError, BuildFailure};
use crate::outcome::{followed_by, single, tolerate};
use crate::path::{is_dotrain_path, FilePath};
use crate::snapshot::{content_view, read_to_string, text_of_file, Entry, IoFailure, Snapshot};

verus! {

/// The dotrain source that a regular file is: the file with its text, where
/// its path has the dotrain extension. With `force`, a source that cannot be
/// read as text counts as none; without, it fails the scan.
pub open spec fn dotrain_in_file(
    path: Seq<u8>,
    content: Result<Seq<u8>, Seq<char>>,
    force: bool,
) -> Result<Seq<(Seq<u8>, Seq<char>)>, BuildFailure> {
    if is_dotrain_path(path) {
        tolerate(single(match text_of_file(path, content) {
            Ok(text) => Ok((path, text)),
            Err(e) => Err(e),
        }), force)
    } else {
        Ok(Seq::empty())
    }
}

/// The dotrain sources that one entry of a directory contributes, each with
/// its path and text, in the order of the listings. With `force`, a directory
/// that cannot be read contributes nothing; without, it fails the scan.
pub open spec fn dotrain_in_entry(entry: Entry, force: bool) -> Result<
    Seq<(Seq<u8>, Seq<char>)>,
    BuildFailure,
>
    decreases entry, 0nat,
{
    match entry {
        Entry::Directory { path, listing } => tolerate(
            match listing {
                Ok(entries) => dotrain_in_entries(path@, entries@, 0, force),
                Err(failure) => Err(BuildFailure::Io { path: path@, message: failure@ }),
            },
            force,
        ),
        Entry::File { path, content } => dotrain_in_file(path@, content_view(content), force),
        Entry::Other { .. } => Ok(Seq::empty()),
    }
}

/// The dotrain sources below the entries of the directory `dir` from position
/// `from` on. A listing that broke off fails its directory, whatever `force` is.
pub open spec fn dotrain_in_entries(
    dir: Seq<u8>,
    entries: Seq<Result<Entry, IoFailure>>,
    from: int,
    force: bool,
) -> Result<Seq<(Seq<u8>, Seq<char>)>, BuildFailure>
    decreases entries, entries.len() - from,
{
    if 0 <= from < entries.len() {
        match entries[from] {
            Ok(entry) => match dotrain_in_entry(entry, force) {
                Ok(found) => followed_by(found, dotrain_in_entries(dir, entries, from + 1, force)),
                Err(e) => Err(e),
            },
            Err(failure) => Err(BuildFailure::Io { path: dir, message: failure@ }),
        }
    } else {
        Ok(Seq::empty())
    }
}

/// The dotrain sources below the directory `path`, as the snapshot shows it.
pub open spec fn dotrain_files(snapshot: Snapshot, path: Seq<u8>, force: bool) -> Result<
    Seq<(Seq<u8>, Seq<char>)>,
    BuildFailure,
> {
    match snapshot.listing_of(path) {
        Ok(entries) => dotrain_in_entries(path, entries, 0, force),
        Err(message) => Err(BuildFailure::Io { path, message }),
    }
}

/// Whether a regular file of this path, read with this outcome, is the entry
/// or lies below it, at any depth, in directories whose listings were read.
pub open spec fn occurs_in(entry: Entry, path: Seq<u8>, content: Result<Seq<u8>, Seq<char>>) -> bool
    decreases entry, 0nat,
{
    match entry {
        Entry::Directory { listing: Ok(entries), .. } => occurs_from(entries@, 0, path, content),
        Entry::File { path: p, content: c } => p@ == path && content_view(c) == content,
        _ => false,
    }
}

/// Whether such a file is one of the entries of a listing from position
/// `from` on, or lies below one of them.
pub open spec fn occurs_from(
    entries: Seq<Result<Entry, IoFailure>>,
    from: int,
    path: Seq<u8>,
    content: Result<Seq<u8>, Seq<char>>,
) -> bool
    decreases entries, entries.len() - from,
{
    0 <= from < entries.len() && (match entries[from] {
        Ok(entry) => occurs_in(entry, path, content),
        Err(_) => false,
    } || occurs_from(entries, from + 1, path, content))
}

/// Whether such a file is the entry of a listing at position `at`, or lies
/// below it.
pub open spec fn occurs_at(
    entries: Seq<Result<Entry, IoFailure>>,
    at: int,
    path: Seq<u8>,
    content: Result<Seq<u8>, Seq<char>>,
) -> bool {
    0 <= at < entries.len() && match entries[at] {
        Ok(entry) => occurs_in(entry, path, content),
        Err(_) => false,
    }
}

/// Whether such a file lies below a directory with these entries.
pub open spec fn occurs_below(
    entries: Seq<Result<Entry, IoFailure>>,
    path: Seq<u8>,
    content: Result<Seq<u8>, Seq<char>>,
) -> bool {
    occurs_from(entries, 0, path, content)
}

/// Whether `file` is a dotrain source with the text of a readable file that
/// lies below a directory with these entries.
pub open spec fn is_source_below(
    entries: Seq<Result<Entry, IoFailure>>,
    file: (Seq<u8>, Seq<char>),
) -> bool {
    is_dotrain_path(file.0) && exists|bytes: Seq<u8>|
        #[trigger] occurs_below(entries, file.0, Ok(bytes)) && valid_utf8(bytes) && decode_utf8(bytes)
            == file.1
}

/// A file occurs from a position on exactly if it is, or lies below, an entry
/// at some later position.
pub proof fn lemma_occurs_from(
    entries: Seq<Result<Entry, IoFailure>>,
    from: int,
    path: Seq<u8>,
    content: Result<Seq<u8>, Seq<char>>,
)
    requires
        0 <= from,
    ensures
        occurs_from(entries, from, path, content) <==> exists|at: int|
            from <= at && #[trigger] occurs_at(entries, at, path, content),
    decreases entries.len() - from,
{
    if from < entries.len() {
        lemma_occurs_from(entries, from + 1, path, content);
        if occurs_from(entries, from, path, content) {
            if !occurs_from(entries, from + 1, path, content) {
                assert(occurs_at(entries, from, path, content));
            }
        }
    }
}

proof fn lemma_found_in_entry(entry: Entry, force: bool, k: int) -> (bytes: Seq<u8>)
    requires
        dotrain_in_entry(entry, force) matches Ok(files) && 0 <= k < files.len(),
    ensures
        is_dotrain_path(dotrain_in_entry(entry, force)->Ok_0[k].0),
        occurs_in(entry, dotrain_in_entry(entry, force)->Ok_0[k].0, Ok(bytes)),
        valid_utf8(bytes),
        decode_utf8(bytes) == dotrain_in_entry(entry, force)->Ok_0[k].1,
    decreases entry, 0nat,
{
    match entry {
        Entry::Directory { path, listing } => {
            match listing {
                Ok(entries) => lemma_found_in_entries(path@, entries@, 0, force, k),
                Err(_) => Seq::empty(),
            }
        },
        Entry::File { path, content } => content->Ok_0@,
        Entry::Other { .. } => Seq::empty(),
    }
}

proof fn lemma_found_in_entries(
    dir: Seq<u8>,
    entries: Seq<Result<Entry, IoFailure>>,
    from: int,
    force: bool,
    k: int,
) -> (bytes: Seq<u8>)
    requires
        dotrain_in_entries(dir, entries, from, force) matches Ok(files) && 0 <= k < files.len(),
    ensures
        is_dotrain_path(dotrain_in_entries(dir, entries, from, force)->Ok_0[k].0),
        occurs_from(
            entries,
            from,
            dotrain_in_entries(dir, entries, from, force)->Ok_0[k].0,
            Ok(bytes),
        ),
        valid_utf8(bytes),
        decode_utf8(bytes) == dotrain_in_entries(dir, entries, from, force)->Ok_0[k].1,
    decreases entries, entries.len() - from,
{
    let entry = entries[from]->Ok_0;
    let found = dotrain_in_entry(entry, force)->Ok_0;
    if k < found.len() {
        lemma_found_in_entry(entry, force, k)
    } else {
        lemma_found_in_entries(dir, entries, from + 1, force, k - found.len())
    }
}

proof fn lemma_strict_finds_in_entry(entry: Entry, path: Seq<u8>, content: Result<Seq<u8>, Seq<char>>)
    requires
        dotrain_in_entry(entry, false) is Ok,
        occurs_in(entry, path, content),
        is_dotrain_path(path),
    ensures
        content matches Ok(bytes) && valid_utf8(bytes) && dotrain_in_entry(
            entry,
            false,
        )->Ok_0.contains((path, decode_utf8(bytes))),
    decreases entry, 0nat,
{
    match entry {
        Entry::Directory { path: dir, listing } => {
            lemma_strict_finds_in_entries(dir@, listing->Ok_0@, 0, path, content);
        },
        Entry::File { path: p, content: c } => {
            let files = dotrain_in_entry(entry, false)->Ok_0;
            assert(files[0] == (path, decode_utf8(content->Ok_0)));
        },
        Entry::Other { .. } => {},
    }
}

proof fn lemma_strict_finds_in_entries(
    dir: Seq<u8>,
    entries: Seq<Result<Entry, IoFailure>>,
    from: int,
    path: Seq<u8>,
    content: Result<Seq<u8>, Seq<char>>,
)
    requires
        dotrain_in_entries(dir, entries, from, false) is Ok,
        occurs_from(entries, from, path, content),
        is_dotrain_path(path),
    ensures
        content matches Ok(bytes) && valid_utf8(bytes) && dotrain_in_entries(
            dir,
            entries,
            from,
            false,
        )->Ok_0.contains((path, decode_utf8(bytes))),
    decreases entries, entries.len() - from,
{
    let entry = entries[from]->Ok_0;
    let found = dotrain_in_entry(entry, false)->Ok_0;
    let more = dotrain_in_entries(dir, entries, from + 1, false)->Ok_0;
    let file = (path, decode_utf8(content->Ok_0));
    if occurs_in(entry, path, content) {
        lemma_strict_finds_in_entry(entry, path, content);
        let k = choose|k: int| 0 <= k < found.len() && found[k] == file;
        assert((found + more)[k] == file);
    } else {
        lemma_strict_finds_in_entries(dir, entries, from + 1, path, content);
        let k = choose|k: int| 0 <= k < more.len() && more[k] == file;
        assert((found + more)[found.len() + k] == file);
    }
}

/// Whatever a scan returns is a dotrain source: its path has the dotrain
/// extension, and its text is that of a readable file of that path which
/// lies below the scanned directory.
pub proof fn lemma_scan_returns_only_dotrain_files(
    snapshot: Snapshot,
    dir: Seq<u8>,
    force: bool,
    k: int,
)
    requires
        dotrain_files(snapshot, dir, force) matches Ok(files) && 0 <= k < files.len(),
    ensures
        is_source_below(snapshot.listing_of(dir)->Ok_0, dotrain_files(snapshot, dir, force)->Ok_0[k]),
{
    let entries = snapshot.listing_of(dir)->Ok_0;
    let bytes = lemma_found_in_entries(dir, entries, 0, force, k);
    assert(occurs_below(entries, dotrain_files(snapshot, dir, force)->Ok_0[k].0, Ok(bytes)));
}

/// A scan without `force` that succeeds returns every file with the dotrain
/// extension that lies below the scanned directory, at any depth, and each
/// such file was readable as text.
pub proof fn lemma_strict_scan_returns_every_dotrain_file(
    snapshot: Snapshot,
    dir: Seq<u8>,
    path: Seq<u8>,
    content: Result<Seq<u8>, Seq<char>>,
)
    requires
        dotrain_files(snapshot, dir, false) is Ok,
        occurs_below(snapshot.listing_of(dir)->Ok_0, path, content),
        is_dotrain_path(path),
    ensures
        content matches Ok(bytes) && valid_utf8(bytes) && dotrain_files(
            snapshot,
            dir,
            false,
        )->Ok_0.contains((path, decode_utf8(bytes))),
{
    lemma_strict_finds_in_entries(dir, snapshot.listing_of(dir)->Ok_0, 0, path, content);
}

/// Where a scan without `force` succeeds, a scan with `force` returns the same.
pub proof fn lemma_forced_scan_agrees(snapshot: Snapshot, dir: Seq<u8>)
    requires
        dotrain_files(snapshot, dir, false) is Ok,
    ensures
        dotrain_files(snapshot, dir, true) == dotrain_files(snapshot, dir, false),
{
    lemma_forced_agrees_in_entries(dir, snapshot.listing_of(dir)->Ok_0, 0);
}

proof fn lemma_forced_agrees_in_entry(entry: Entry)
    requires
        dotrain_in_entry(entry, false) is Ok,
    ensures
        dotrain_in_entry(entry, true) == dotrain_in_entry(entry, false),
    decreases entry, 0nat,
{
    match entry {
        Entry::Directory { path, listing } => {
            lemma_forced_agrees_in_entries(path@, listing->Ok_0@, 0);
        },
        _ => {},
    }
}

proof fn lemma_forced_agrees_in_entries(
    dir: Seq<u8>,
    entries: Seq<Result<Entry, IoFailure>>,
    from: int,
)
    requires
        dotrain_in_entries(dir, entries, from, false) is Ok,
    ensures
        dotrain_in_entries(dir, entries, from, true) == dotrain_in_entries(dir, entries, from, false),
    decreases entries, entries.len() - from,
{
    if 0 <= from < entries.len() {
        lemma_forced_agrees_in_entry(entries[from]->Ok_0);
        lemma_forced_agrees_in_entries(dir, entries, from + 1);
    }
}

/// The outcome of a scan, as contracts speak of it.
pub open spec fn scan_view(r: Result<Vec<(FilePath, String)>, BuildError>) -> Result<
    Seq<(Seq<u8>, Seq<char>)>,
    BuildFailure,
> {
    match r {
        Ok(files) => Ok(files.deep_view()),
        Err(e) => Err(e@),
    }
}

/// The dotrain source that a regular file is, if it is one.
pub fn scan_file(path: &FilePath, content: &Result<Vec<u8>, IoFailure>, force: bool) -> (r: Result<
    Vec<(FilePath, String)>,
    BuildError,
>)
    ensures
        scan_view(r) == dotrain_in_file(path@, content_view(*content), force),
{
    let mut found: Vec<(FilePath, String)> = Vec::new();
    assert(found.deep_view() =~= Seq::empty());
    if path.is_dotrain() {
        let read = match content {
            Ok(bytes) => Ok(bytes),
            Err(failure) => Err(failure.message.clone()),
        };
        match read_to_string(path, read) {
            Ok(text) => {
                found.push((path.clone(), text.to_owned()));
                assert(found.deep_view() =~= seq![(path@, text@)]);
            },
            Err(e) => {
                if !force {
                    return Err(e);
                }
            },
        }
    }
    Ok(found)
}

/// A directory whose scan is under way: its entries, how many of them are
/// done, and what was found in those.
struct Visit<'a> {
    dir: &'a FilePath,
    entries: &'a Vec<Result<Entry, IoFailure>>,
    next: usize,
    found: Vec<(FilePath, String)>,
}

/// What the scan of a directory under way comes to.
spec fn outcome_of(visit: Visit, force: bool) -> Result<Seq<(Seq<u8>, Seq<char>)>, BuildFailure> {
    followed_by(
        visit.found.deep_view(),
        dotrain_in_entries(visit.dir@, visit.entries@, visit.next as int, force),
    )
}

/// What the scan of a directory comes to whose next entry to do stands behind
/// a directory that came to `below`.
spec fn resumed(parent: Visit, below: Result<Seq<(Seq<u8>, Seq<char>)>, BuildFailure>, force: bool) ->
    Result<Seq<(Seq<u8>, Seq<char>)>, BuildFailure> {
    match tolerate(below, force) {
        Ok(found) => followed_by(
            parent.found.deep_view(),
            followed_by(
                found,
                dotrain_in_entries(parent.dir@, parent.entries@, parent.next as int, force),
            ),
        ),
        Err(e) => Err(e),
    }
}

/// What the scan of the outermost of the directories under way comes to,
/// where the innermost of them stands in a directory that came to `below`.
spec fn unwound(
    parents: Seq<Visit>,
    below: Result<Seq<(Seq<u8>, Seq<char>)>, BuildFailure>,
    force: bool,
) -> Result<Seq<(Seq<u8>, Seq<char>)>, BuildFailure>
    decreases parents.len(),
{
    if parents.len() == 0 {
        below
    } else {
        unwound(parents.drop_last(), resumed(parents.last(), below, force), force)
    }
}

/// The work that an entry stands for: one step for the entry, and for a
/// directory one more, and the work of its entries.
spec fn work_in(entry: Entry) -> nat
    decreases entry, 0nat,
{
    match entry {
        Entry::Directory { listing: Ok(entries), .. } => 2 + work_from(entries@, 0),
        _ => 1,
    }
}

/// The work that the entries from position `from` on stand for.
spec fn work_from(entries: Seq<Result<Entry, IoFailure>>, from: int) -> nat
    decreases entries, entries.len() - from,
{
    if 0 <= from < entries.len() {
        (match entries[from] {
            Ok(entry) => work_in(entry),
            Err(_) => 1,
        }) + work_from(entries, from + 1)
    } else {
        0
    }
}

/// The work that is left in the directories under way.
spec fn work_left(parents: Seq<Visit>) -> nat
    decreases parents.len(),
{
    if parents.len() == 0 {
        0
    } else {
        work_left(parents.drop_last()) + 1 + work_from(
            parents.last().entries@,
            parents.last().next as int,
        )
    }
}

proof fn lemma_unwound_failure(parents: Seq<Visit>, e: BuildFailure)
    ensures
        unwound(parents, Err(e), false) == Err::<Seq<(Seq<u8>, Seq<char>)>, BuildFailure>(e),
    decreases parents.len(),
{
    if parents.len() > 0 {
        lemma_unwound_failure(parents.drop_last(), e);
    }
}

proof fn lemma_unwound_push(
    parents: Seq<Visit>,
    parent: Visit,
    below: Result<Seq<(Seq<u8>, Seq<char>)>, BuildFailure>,
    force: bool,
)
    ensures
        unwound(parents.push(parent), below, force) == unwound(
            parents,
            resumed(parent, below, force),
            force,
        ),
        work_left(parents.push(parent)) == work_left(parents) + 1 + work_from(
            parent.entries@,
            parent.next as int,
        ),
{
    assert(parents.push(parent).drop_last() =~= parents);
}

/// The dotrain sources below the entries of the directory `dir`. The
/// directories below are visited from a list of those under way, so that the
/// depth of the tree costs no depth of calls.
pub fn scan_listing(dir: &FilePath, entries: &Vec<Result<Entry, IoFailure>>, force: bool) -> (r:
    Result<Vec<(FilePath, String)>, BuildError>)
    ensures
        scan_view(r) == dotrain_in_entries(dir@, entries@, 0, force),
{
    let mut parents: Vec<Visit> = Vec::new();
    let mut top = Visit { dir, entries, next: 0, found: Vec::new() };
    assert(top.found.deep_view() =~= Seq::empty());
    proof {
        let all = dotrain_in_entries(dir@, entries@, 0, force);
        if let Ok(files) = all {
            assert(Seq::<(Seq<u8>, Seq<char>)>::empty() + files =~= files);
        }
    }
    loop
        invariant
            top.next <= top.entries.len(),
            forall|i: int|
                0 <= i < parents@.len() ==> (#[trigger] parents@[i]).next <= parents@[i].entries.len(),
            dotrain_in_entries(dir@, entries@, 0, force) == unwound(
                parents@,
                outcome_of(top, force),
                force,
            ),
        decreases work_left(parents@) + 1 + work_from(top.entries@, top.next as int),
    {
        let listing = top.entries;
        let ghost outer = top;
        let ghost around = parents@;
        if top.next == listing.len() {
            proof {
                assert(top.found.deep_view() + Seq::empty() =~= top.found.deep_view());
            }
            match parents.pop() {
                Some(parent) => {
                    proof {
                        assert(around =~= parents@.push(parent));
                        lemma_unwound_push(parents@, parent, outcome_of(top, force), force);
                    }
                    let mut parent = parent;
                    let ghost before = parent.found.deep_view();
                    let ghost added = top.found.deep_view();
                    let mut found = top.found;
                    parent.found.append(&mut found);
                    proof {
                        assert(parent.found.deep_view() =~= before + added);
                        let rest = dotrain_in_entries(
                            parent.dir@,
                            parent.entries@,
                            parent.next as int,
                            force,
                        );
                        if let Ok(more) = rest {
                            assert((before + added) + more =~= before + (added + more));
                        }
                    }
                    top = parent;
                },
                None => {
                    return Ok(top.found);
                },
            }
        } else {
            let ghost at = top.next as int;
            let ghost rest = dotrain_in_entries(top.dir@, top.entries@, at + 1, force);
            match &listing[top.next] {
                Ok(Entry::Directory { path, listing: below }) => {
                    let ghost entry = Entry::Directory { path: *path, listing: *below };
                    top.next = top.next + 1;
                    match below {
                        Ok(inner) => {
                            proof {
                                assert(dotrain_in_entry(entry, force) == tolerate(
                                    dotrain_in_entries(path@, inner@, 0, force),
                                    force,
                                ));
                                assert(work_in(entry) == 2 + work_from(inner@, 0));
                                lemma_unwound_push(
                                    around,
                                    top,
                                    dotrain_in_entries(path@, inner@, 0, force),
                                    force,
                                );
                                assert(outcome_of(outer, force) == resumed(
                                    top,
                                    dotrain_in_entries(path@, inner@, 0, force),
                                    force,
                                ));
                            }
                            parents.push(top);
                            top = Visit { dir: path, entries: inner, next: 0, found: Vec::new() };
                            proof {
                                assert(top.found.deep_view() =~= Seq::empty());
                                let all = dotrain_in_entries(path@, inner@, 0, force);
                                if let Ok(files) = all {
                                    assert(Seq::<(Seq<u8>, Seq<char>)>::empty() + files =~= files);
                                }
                            }
                        },
                        Err(failure) => {
                            let ghost e = BuildFailure::Io { path: path@, message: failure@ };
                            proof {
                                assert(dotrain_in_entry(entry, force) == tolerate(
                                    Err::<Seq<(Seq<u8>, Seq<char>)>, BuildFailure>(e),
                                    force,
                                ));
                                assert(work_in(entry) == 1);
                            }
                            if !force {
                                proof {
                                    assert(outcome_of(outer, force) == Err::<
                                        Seq<(Seq<u8>, Seq<char>)>,
                                        BuildFailure,
                                    >(e));
                                    lemma_unwound_failure(parents@, e);
                                }
                                return Err(
                                    BuildError::Io {
                                        path: path.clone(),
                                        message: failure.message.clone(),
                                    },
                                );
                            }
                            proof {
                                if let Ok(more) = rest {
                                    assert(Seq::<(Seq<u8>, Seq<char>)>::empty() + more =~= more);
                                }
                            }
                        },
                    }
                },
                Ok(Entry::File { path, content }) => {
                    let ghost entry = Entry::File { path: *path, content: *content };
                    proof {
                        assert(dotrain_in_entry(entry, force) == dotrain_in_file(
                            path@,
                            content_view(*content),
                            force,
                        ));
                        assert(work_in(entry) == 1);
                    }
                    match scan_file(path, content, force) {
                        Ok(mut found) => {
                            let ghost before = top.found.deep_view();
                            let ghost added = found.deep_view();
                            top.found.append(&mut found);
                            top.next = top.next + 1;
                            proof {
                                assert(top.found.deep_view() =~= before + added);
                                if let Ok(more) = rest {
                                    assert((before + added) + more =~= before + (added + more));
                                }
                            }
                        },
                        Err(e) => {
                            proof {
                                assert(!force);
                                assert(outcome_of(top, force) == Err::<
                                    Seq<(Seq<u8>, Seq<char>)>,
                                    BuildFailure,
                                >(e@));
                                lemma_unwound_failure(parents@, e@);
                            }
                            return Err(e);
                        },
                    }
                },
                Ok(Entry::Other { path }) => {
                    let ghost entry = Entry::Other { path: *path };
                    top.next = top.next + 1;
                    proof {
                        assert(dotrain_in_entry(entry, force) == Ok::<
                            Seq<(Seq<u8>, Seq<char>)>,
                            BuildFailure,
                        >(Seq::empty()));
                        assert(work_in(entry) == 1);
                        if let Ok(more) = rest {
                            assert(Seq::<(Seq<u8>, Seq<char>)>::empty() + more =~= more);
                        }
                    }
                },
                Err(failure) => {
                    let e = BuildError::Io {
                        path: top.dir.clone(),
                        message: failure.message.clone(),
                    };
                    proof {
                        assert(outcome_of(top, force) == Err::<
                            Seq<(Seq<u8>, Seq<char>)>,
                            BuildFailure,
                        >(e@));
                    }
                    if !force {
                        proof {
                            lemma_unwound_failure(parents@, e@);
                        }
                        return Err(e);
                    }
                    match parents.pop() {
                        Some(parent) => {
                            proof {
                                assert(around =~= parents@.push(parent));
                                lemma_unwound_push(parents@, parent, outcome_of(top, force), force);
                                let after = dotrain_in_entries(
                                    parent.dir@,
                                    parent.entries@,
                                    parent.next as int,
                                    force,
                                );
                                if let Ok(more) = after {
                                    assert(Seq::<(Seq<u8>, Seq<char>)>::empty() + more =~= more);
                                }
                            }
                            top = parent;
                        },
                        None => {
                            return Err(e);
                        },
                    }
                },
            }
        }
    }
}

/// Reads the dotrain sources below the directory `path`, at any depth.
pub fn read_dotrain_files(path: &FilePath, snapshot: &Snapshot, force: bool) -> (r: Result<
    Vec<(FilePath, String)>,
    BuildError,
>)
    ensures
        scan_view(r) == dotrain_files(*snapshot, path@, force),
{
    match snapshot.read_dir(path) {
        Ok(entries) => scan_listing(path, entries, force),
        Err(message) => Err(BuildError::Io { path: path.clone(), message }),
    }
}

} // verus!
