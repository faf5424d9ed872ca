//! What holds of every build.

use vstd::prelude::*;
use crate::config::RainConfigStruct;
use crate::deployer::{deployer_record, Deployer};
use crate::meta::{loaded_meta, meta_bytes, meta_entry};
use crate::outcome::{
    collect,
    lemma_collect_fails,
    lemma_collect_from_part,
    lemma_collect_holds,
};
use crate::path::uri_of;
use crate::scan::{dotrain_files, lemma_forced_scan_agrees};
use crate::snapshot::Snapshot;
use crate::store::{
    assembled_deployers,
    included_files,
    included_parts,
    loaded_metas,
    meta_parts,
    processed,
    record_parts,
    source_of,
    source_parts,
    sources,
    store_entries,
};

verus! {

/// With `force`, gathering does not fail.
pub proof fn lemma_forced_gathering_succeeds(config: RainConfigStruct, snapshot: Snapshot)
    ensures
        included_files(config, snapshot, true) is Ok,
        loaded_metas(config, snapshot, true) is Ok,
        assembled_deployers(config, snapshot, true) is Ok,
        processed(config, snapshot, true) is Ok,
{
    lemma_collect_fails(included_parts(config, snapshot, true), 0);
    lemma_collect_fails(meta_parts(config, snapshot, true), 0);
    lemma_collect_fails(record_parts(config, snapshot, true), 0);
}

/// A build with `force` does not fail.
pub proof fn lemma_forced_build_succeeds(config: RainConfigStruct, snapshot: Snapshot)
    ensures
        store_entries(config, snapshot, true) is Ok,
{
    lemma_forced_gathering_succeeds(config, snapshot);
    let found = processed(config, snapshot, true)->Ok_0;
    lemma_collect_fails(source_parts(found.dotrains, true), 0);
}

/// Where a build without `force` succeeds, the build with `force` gives the
/// same entries.
pub proof fn lemma_forced_build_agrees(config: RainConfigStruct, snapshot: Snapshot)
    requires
        store_entries(config, snapshot, false) is Ok,
    ensures
        store_entries(config, snapshot, true) == store_entries(config, snapshot, false),
{
    let scans = included_parts(config, snapshot, false);
    lemma_collect_fails(scans, 0);
    assert forall|i: int| 0 <= i < scans.len() implies included_parts(config, snapshot, true)[i]
        == scans[i] by {
        assert(scans[i] is Ok);
        lemma_forced_scan_agrees(snapshot, config.directories()[i]@);
    }
    assert(included_parts(config, snapshot, true) =~= scans);
    let metas = meta_parts(config, snapshot, false);
    lemma_collect_fails(metas, 0);
    assert forall|i: int| 0 <= i < metas.len() implies meta_parts(config, snapshot, true)[i]
        == metas[i] by {
        assert(metas[i] is Ok);
    }
    assert(meta_parts(config, snapshot, true) =~= metas);
    let records = record_parts(config, snapshot, false);
    lemma_collect_fails(records, 0);
    assert forall|i: int| 0 <= i < records.len() implies record_parts(config, snapshot, true)[i]
        == records[i] by {
        assert(records[i] is Ok);
    }
    assert(record_parts(config, snapshot, true) =~= records);
    let files = processed(config, snapshot, false)->Ok_0.dotrains;
    let named = source_parts(files, false);
    lemma_collect_fails(named, 0);
    assert forall|i: int| 0 <= i < named.len() implies source_parts(files, true)[i] == named[i] by {
        assert(named[i] is Ok);
    }
    assert(source_parts(files, true) =~= named);
}

/// A build without `force` fails where the assembly of one deployer fails.
pub proof fn lemma_strict_build_fails_with_deployer(
    config: RainConfigStruct,
    snapshot: Snapshot,
    bad: int,
)
    requires
        0 <= bad < config.bundles().len(),
        deployer_record(snapshot, config.bundles()[bad].0@, config.bundles()[bad].1) is Err,
    ensures
        store_entries(config, snapshot, false) is Err,
{
    let parts = record_parts(config, snapshot, false);
    assert(parts[bad] is Err);
    lemma_collect_fails(parts, 0);
}

/// The deployers of a build with `force` are the records of the bundles whose
/// assembly succeeds, and no others.
pub proof fn lemma_forced_build_deployers(
    config: RainConfigStruct,
    snapshot: Snapshot,
    record: Deployer,
)
    ensures
        store_entries(config, snapshot, true)->Ok_0.deployers.contains(record) <==> exists|i: int|
            0 <= i < config.bundles().len() && #[trigger] deployer_record(
                snapshot,
                config.bundles()[i].0@,
                config.bundles()[i].1,
            ) == Ok::<Deployer, crate::error::BuildFailure>(record),
{
    lemma_forced_build_succeeds(config, snapshot);
    lemma_forced_gathering_succeeds(config, snapshot);
    let parts = record_parts(config, snapshot, true);
    let assembled = assembled_deployers(config, snapshot, true)->Ok_0;
    let listed = store_entries(config, snapshot, true)->Ok_0.deployers;
    assert(listed == assembled.reverse());
    if listed.contains(record) {
        let k = choose|k: int| 0 <= k < listed.len() && listed[k] == record;
        assert(assembled[assembled.len() - 1 - k] == record);
        let i = lemma_collect_from_part(parts, 0, record);
        assert(parts[i]->Ok_0.contains(record));
        let j = choose|j: int| 0 <= j < parts[i]->Ok_0.len() && parts[i]->Ok_0[j] == record;
        assert(deployer_record(snapshot, config.bundles()[i].0@, config.bundles()[i].1) == Ok::<
            Deployer,
            crate::error::BuildFailure,
        >(record));
    }
    if exists|i: int|
        0 <= i < config.bundles().len() && #[trigger] deployer_record(
            snapshot,
            config.bundles()[i].0@,
            config.bundles()[i].1,
        ) == Ok::<Deployer, crate::error::BuildFailure>(record) {
        let i = choose|i: int|
            0 <= i < config.bundles().len() && #[trigger] deployer_record(
                snapshot,
                config.bundles()[i].0@,
                config.bundles()[i].1,
            ) == Ok::<Deployer, crate::error::BuildFailure>(record);
        assert(parts[i]->Ok_0[0] == record);
        lemma_collect_holds(parts, 0, i, record);
        let k = choose|k: int| 0 <= k < assembled.len() && assembled[k] == record;
        assert(listed[assembled.len() - 1 - k] == record);
    }
}

/// The metas of a build with `force` hold the meta of every meta file that
/// can be loaded.
pub proof fn lemma_forced_build_keeps_metas(config: RainConfigStruct, snapshot: Snapshot, i: int)
    requires
        0 <= i < config.meta_files().len(),
        meta_bytes(snapshot, config.meta_files()[i]) is Ok,
    ensures
        store_entries(config, snapshot, true)->Ok_0.metas.contains(
            meta_entry(meta_bytes(snapshot, config.meta_files()[i])->Ok_0),
        ),
{
    lemma_forced_build_succeeds(config, snapshot);
    lemma_forced_gathering_succeeds(config, snapshot);
    let parts = meta_parts(config, snapshot, true);
    let entry = meta_entry(meta_bytes(snapshot, config.meta_files()[i])->Ok_0);
    assert(parts[i] == loaded_meta(snapshot, config.meta_files()[i], true));
    assert(parts[i]->Ok_0[0] == entry);
    lemma_collect_holds(parts, 0, i, entry);
}

/// The dotrain sources of a build with `force` hold every source that the
/// scan of an included directory finds and whose path has a URI.
pub proof fn lemma_forced_build_keeps_dotrains(
    config: RainConfigStruct,
    snapshot: Snapshot,
    i: int,
    k: int,
)
    requires
        0 <= i < config.directories().len(),
        dotrain_files(snapshot, config.directories()[i]@, true) matches Ok(files) && 0 <= k
            < files.len() && uri_of(files[k].0) is Some,
    ensures
        ({
            let file = dotrain_files(snapshot, config.directories()[i]@, true)->Ok_0[k];
            store_entries(config, snapshot, true)->Ok_0.dotrains.contains(
                (uri_of(file.0)->0, file.1),
            )
        }),
{
    lemma_forced_build_succeeds(config, snapshot);
    lemma_forced_gathering_succeeds(config, snapshot);
    let file = dotrain_files(snapshot, config.directories()[i]@, true)->Ok_0[k];
    let scans = included_parts(config, snapshot, true);
    assert(scans[i]->Ok_0[k] == file);
    lemma_collect_holds(scans, 0, i, file);
    let files = included_files(config, snapshot, true)->Ok_0;
    lemma_forced_sources_keep(files, file);
}

/// With `force`, the sources that the store knows are those whose path has a
/// URI: each of them is there, and nothing else is.
pub proof fn lemma_forced_sources_keep(files: Seq<(Seq<u8>, Seq<char>)>, file: (Seq<u8>, Seq<char>))
    requires
        files.contains(file),
        uri_of(file.0) is Some,
    ensures
        sources(files, true) is Ok,
        sources(files, true)->Ok_0.contains((uri_of(file.0)->0, file.1)),
{
    let parts = source_parts(files, true);
    lemma_collect_fails(parts, 0);
    let k = choose|k: int| 0 <= k < files.len() && files[k] == file;
    let source = (uri_of(file.0)->0, file.1);
    assert(source_of(file) == Ok::<(Seq<char>, Seq<char>), crate::error::BuildFailure>(source));
    assert(parts[k]->Ok_0[0] == source);
    lemma_collect_holds(parts, 0, k, source);
}

/// With `force`, whatever source the store knows was found under a path
/// that has this URI.
pub proof fn lemma_forced_sources_only(
    files: Seq<(Seq<u8>, Seq<char>)>,
    source: (Seq<char>, Seq<char>),
) -> (file: (Seq<u8>, Seq<char>))
    requires
        sources(files, true) matches Ok(known) && known.contains(source),
    ensures
        files.contains(file),
        uri_of(file.0) == Some(source.0),
        file.1 == source.1,
{
    let parts = source_parts(files, true);
    let k = lemma_collect_from_part(parts, 0, source);
    let j = choose|j: int| 0 <= j < parts[k]->Ok_0.len() && parts[k]->Ok_0[j] == source;
    files[k]
}

/// A build without `force` fails where a source was found under a path that
/// has no URI.
pub proof fn lemma_strict_build_fails_without_uri(
    config: RainConfigStruct,
    snapshot: Snapshot,
    k: int,
)
    requires
        included_files(config, snapshot, false) matches Ok(files) && 0 <= k < files.len() && uri_of(
            files[k].0,
        ) is None,
    ensures
        store_entries(config, snapshot, false) is Err,
{
    let files = included_files(config, snapshot, false)->Ok_0;
    let parts = source_parts(files, false);
    assert(parts[k] is Err);
    lemma_collect_fails(parts, 0);
}

/// One deployer bundle that cannot be assembled fails the build without
/// `force`. The build with `force` succeeds on the same configuration, leaves
/// out the records of the bundles that cannot be assembled and nothing else:
/// it holds the record of every other bundle, the meta of every meta file that
/// can be loaded, and every dotrain source that can be read and named.
pub proof fn lemma_malformed_deployer(config: RainConfigStruct, snapshot: Snapshot, bad: int)
    requires
        0 <= bad < config.bundles().len(),
        deployer_record(snapshot, config.bundles()[bad].0@, config.bundles()[bad].1) is Err,
    ensures
        store_entries(config, snapshot, false) is Err,
        store_entries(config, snapshot, true) is Ok,
        forall|i: int|
            0 <= i < config.bundles().len() && (#[trigger] deployer_record(
                snapshot,
                config.bundles()[i].0@,
                config.bundles()[i].1,
            )) is Ok ==> store_entries(config, snapshot, true)->Ok_0.deployers.contains(
                deployer_record(snapshot, config.bundles()[i].0@, config.bundles()[i].1)->Ok_0,
            ),
        store_entries(config, snapshot, true)->Ok_0.deployers.len() < config.bundles().len(),
        forall|i: int|
            0 <= i < config.meta_files().len() && (#[trigger] meta_bytes(
                snapshot,
                config.meta_files()[i],
            )) is Ok ==> store_entries(config, snapshot, true)->Ok_0.metas.contains(
                meta_entry(meta_bytes(snapshot, config.meta_files()[i])->Ok_0),
            ),
        forall|i: int, k: int|
            0 <= i < config.directories().len() && dotrain_files(
                snapshot,
                config.directories()[i]@,
                true,
            ) is Ok && 0 <= k < dotrain_files(snapshot, config.directories()[i]@, true)->Ok_0.len()
                && uri_of(
                (#[trigger] dotrain_files(snapshot, config.directories()[i]@, true)->Ok_0[k]).0,
            ) is Some ==> store_entries(config, snapshot, true)->Ok_0.dotrains.contains(
                (
                    uri_of(dotrain_files(snapshot, config.directories()[i]@, true)->Ok_0[k].0)->0,
                    dotrain_files(snapshot, config.directories()[i]@, true)->Ok_0[k].1,
                ),
            ),
{
    lemma_strict_build_fails_with_deployer(config, snapshot, bad);
    lemma_forced_build_succeeds(config, snapshot);
    assert forall|i: int|
        0 <= i < config.bundles().len() && (#[trigger] deployer_record(
            snapshot,
            config.bundles()[i].0@,
            config.bundles()[i].1,
        )) is Ok implies store_entries(config, snapshot, true)->Ok_0.deployers.contains(
        deployer_record(snapshot, config.bundles()[i].0@, config.bundles()[i].1)->Ok_0,
    ) by {
        lemma_forced_build_deployers(
            config,
            snapshot,
            deployer_record(snapshot, config.bundles()[i].0@, config.bundles()[i].1)->Ok_0,
        );
    }
    assert forall|i: int|
        0 <= i < config.meta_files().len() && (#[trigger] meta_bytes(
            snapshot,
            config.meta_files()[i],
        )) is Ok implies store_entries(config, snapshot, true)->Ok_0.metas.contains(
        meta_entry(meta_bytes(snapshot, config.meta_files()[i])->Ok_0),
    ) by {
        lemma_forced_build_keeps_metas(config, snapshot, i);
    }
    assert forall|i: int, k: int|
        0 <= i < config.directories().len() && dotrain_files(
            snapshot,
            config.directories()[i]@,
            true,
        ) is Ok && 0 <= k < dotrain_files(snapshot, config.directories()[i]@, true)->Ok_0.len()
            && uri_of(
            (#[trigger] dotrain_files(snapshot, config.directories()[i]@, true)->Ok_0[k]).0,
        ) is Some implies store_entries(config, snapshot, true)->Ok_0.dotrains.contains(
        (
            uri_of(dotrain_files(snapshot, config.directories()[i]@, true)->Ok_0[k].0)->0,
            dotrain_files(snapshot, config.directories()[i]@, true)->Ok_0[k].1,
        ),
    ) by {
        lemma_forced_build_keeps_dotrains(config, snapshot, i, k);
    }
    lemma_forced_gathering_succeeds(config, snapshot);
    lemma_collect_shorter(record_parts(config, snapshot, true), 0, bad);
}

/// A collection of parts that hold at most one item each, one of them none,
/// holds fewer items than there are parts.
proof fn lemma_collect_shorter<T>(
    parts: Seq<Result<Seq<T>, crate::error::BuildFailure>>,
    from: int,
    none: int,
)
    requires
        0 <= from,
        collect(parts, from) is Ok,
        forall|i: int| 0 <= i < parts.len() && (#[trigger] parts[i]) is Ok ==> parts[i]->Ok_0.len() <= 1,
    ensures
        collect(parts, from)->Ok_0.len() <= parts.len() - from || from > parts.len(),
        from <= none < parts.len() && parts[none]->Ok_0.len() == 0 ==> collect(parts, from)->Ok_0.len()
            < parts.len() - from,
    decreases parts.len() - from,
{
    if from < parts.len() {
        lemma_collect_shorter(parts, from + 1, none);
    }
}

} // verus!
