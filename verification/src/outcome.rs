//! Outcomes of the parts of a build, and how they add up.

use vstd::prelude::*;
use crate::error::BuildFailure;

verus! {

/// `found`, followed by what `rest` holds where it is no failure.
pub open spec fn followed_by<T>(found: Seq<T>, rest: Result<Seq<T>, BuildFailure>) -> Result<
    Seq<T>,
    BuildFailure,
> {
    match rest {
        Ok(more) => Ok(found + more),
        Err(e) => Err(e),
    }
}

/// What the parts from position `from` on hold, in their order, or the first
/// failure among them.
pub open spec fn collect<T>(parts: Seq<Result<Seq<T>, BuildFailure>>, from: int) -> Result<
    Seq<T>,
    BuildFailure,
>
    decreases parts.len() - from,
{
    if 0 <= from < parts.len() {
        match parts[from] {
            Ok(items) => followed_by(items, collect(parts, from + 1)),
            Err(e) => Err(e),
        }
    } else {
        Ok(Seq::empty())
    }
}

/// A part as a build with `force` takes it: a failure counts as nothing found.
pub open spec fn tolerate<T>(part: Result<Seq<T>, BuildFailure>, force: bool) -> Result<
    Seq<T>,
    BuildFailure,
> {
    if force && part is Err {
        Ok(Seq::empty())
    } else {
        part
    }
}

/// One item, where there is one.
pub open spec fn single<T>(item: Result<T, BuildFailure>) -> Result<Seq<T>, BuildFailure> {
    match item {
        Ok(value) => Ok(seq![value]),
        Err(e) => Err(e),
    }
}

/// Taking one more part into what was found leaves the whole unchanged.
pub proof fn lemma_collect_next<T>(
    parts: Seq<Result<Seq<T>, BuildFailure>>,
    from: int,
    found: Seq<T>,
)
    requires
        0 <= from < parts.len(),
        parts[from] is Ok,
    ensures
        followed_by(found, collect(parts, from)) == followed_by(
            found + parts[from]->Ok_0,
            collect(parts, from + 1),
        ),
{
    if let Ok(more) = collect(parts, from + 1) {
        assert(found + (parts[from]->Ok_0 + more) =~= (found + parts[from]->Ok_0) + more);
    }
}

/// Past the last part nothing is left to collect.
pub proof fn lemma_collect_done<T>(parts: Seq<Result<Seq<T>, BuildFailure>>, found: Seq<T>)
    ensures
        followed_by(found, collect(parts, parts.len() as int)) == Ok::<Seq<T>, BuildFailure>(found),
{
    assert(found + Seq::<T>::empty() =~= found);
}

/// A collection fails exactly if one of its parts does.
pub proof fn lemma_collect_fails<T>(parts: Seq<Result<Seq<T>, BuildFailure>>, from: int)
    requires
        0 <= from,
    ensures
        collect(parts, from) is Err <==> exists|i: int|
            from <= i < parts.len() && (#[trigger] parts[i]) is Err,
    decreases parts.len() - from,
{
    if from < parts.len() {
        lemma_collect_fails(parts, from + 1);
        if parts[from] is Ok {
            if collect(parts, from) is Err {
                let i = choose|i: int| from + 1 <= i < parts.len() && (#[trigger] parts[i]) is Err;
                assert(from <= i < parts.len() && parts[i] is Err);
            } else {
                assert forall|i: int| from <= i < parts.len() implies !((#[trigger] parts[i]) is Err) by {
                    if i > from {
                        assert(from + 1 <= i);
                    }
                }
            }
        }
    }
}

/// Whatever a part holds is in the collection, where that succeeds.
pub proof fn lemma_collect_holds<T>(
    parts: Seq<Result<Seq<T>, BuildFailure>>,
    from: int,
    i: int,
    item: T,
)
    requires
        0 <= from <= i < parts.len(),
        collect(parts, from) is Ok,
        parts[i] matches Ok(items) && items.contains(item),
    ensures
        collect(parts, from)->Ok_0.contains(item),
    decreases parts.len() - from,
{
    let first = parts[from]->Ok_0;
    let more = collect(parts, from + 1)->Ok_0;
    if i == from {
        let k = choose|k: int| 0 <= k < first.len() && first[k] == item;
        assert((first + more)[k] == item);
    } else {
        lemma_collect_holds(parts, from + 1, i, item);
        let k = choose|k: int| 0 <= k < more.len() && more[k] == item;
        assert((first + more)[first.len() + k] == item);
    }
}

/// Whatever is in a collection, one of the parts holds.
pub proof fn lemma_collect_from_part<T>(
    parts: Seq<Result<Seq<T>, BuildFailure>>,
    from: int,
    item: T,
) -> (i: int)
    requires
        0 <= from,
        collect(parts, from) matches Ok(all) && all.contains(item),
    ensures
        from <= i < parts.len(),
        parts[i] matches Ok(items) && items.contains(item),
    decreases parts.len() - from,
{
    let first = parts[from]->Ok_0;
    let more = collect(parts, from + 1)->Ok_0;
    let k = choose|k: int| 0 <= k < (first + more).len() && (first + more)[k] == item;
    if k < first.len() {
        assert(first[k] == item);
        from
    } else {
        assert(more[k - first.len()] == item);
        lemma_collect_from_part(parts, from + 1, item)
    }
}

} // verus!
