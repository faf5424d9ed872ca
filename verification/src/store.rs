//! From a configuration to the entries of a store.

use vstd::prelude::*;
use crate::config::{RainConfigDeployer, RainConfigMetaType, RainConfigStruct};
use crate::deployer::{deployer_record, read_deployer, Deployer, DeployerRecord};
use crate::error::{BuildError, BuildFailure};
use crate::laws::lemma_forced_build_succeeds;
use crate::meta::{loaded_meta, metas_view, read_meta};
use crate::outcome::{
    collect,
    followed_by,
    lemma_collect_done,
    lemma_collect_next,
    single,
    tolerate,
};
use crate::path::{uri_of, FilePath};
use crate::scan::{dotrain_files, read_dotrain_files, scan_view};
use crate::snapshot::Snapshot;

verus! {

/// What a build gathers before any of it becomes an entry of a store.
#[derive(Debug)]
pub struct ProcessType {
    /// The dotrain sources below the included directories, each with its path and text.
    pub dotrains: Vec<(FilePath, String)>,
    /// The local metas, each under its content hash.
    pub metas: Vec<(Vec<u8>, Vec<u8>)>,
    /// The records of the deployers, in the order of the configuration.
    pub deployers: Vec<DeployerRecord>,
}

/// A `ProcessType` as contracts speak of it.
pub struct Processed {
    pub dotrains: Seq<(Seq<u8>, Seq<char>)>,
    pub metas: Seq<(Seq<u8>, Seq<u8>)>,
    pub deployers: Seq<Deployer>,
}

impl View for ProcessType {
    type V = Processed;

    open spec fn view(&self) -> Processed {
        Processed {
            dotrains: self.dotrains.deep_view(),
            metas: metas_view(self.metas@),
            deployers: self.deployers.deep_view(),
        }
    }
}

/// What a store is to take, in the order in which it takes it: the endpoints,
/// then the metas, then the dotrain sources, then the deployers.
#[derive(Debug)]
pub struct StoreEntries {
    /// The discovery endpoints, as the configuration gives them.
    pub subgraphs: Vec<String>,
    /// The metas, each under its content hash.
    pub metas: Vec<(Vec<u8>, Vec<u8>)>,
    /// The dotrain sources, each a URI with the text that is known under it.
    pub dotrains: Vec<(String, String)>,
    /// The records of the deployers, the last of the configuration first.
    pub deployers: Vec<DeployerRecord>,
}

/// `StoreEntries` as contracts speak of them.
pub struct Entries {
    pub subgraphs: Seq<Seq<char>>,
    pub metas: Seq<(Seq<u8>, Seq<u8>)>,
    pub dotrains: Seq<(Seq<char>, Seq<char>)>,
    pub deployers: Seq<Deployer>,
}

impl View for StoreEntries {
    type V = Entries;

    open spec fn view(&self) -> Entries {
        Entries {
            subgraphs: self.subgraphs.deep_view(),
            metas: metas_view(self.metas@),
            dotrains: self.dotrains.deep_view(),
            deployers: self.deployers.deep_view(),
        }
    }
}

impl RainConfigStruct {
    /// The included directories; none where the field is absent.
    pub open spec fn directories(&self) -> Seq<FilePath> {
        match self.included {
            Some(directories) => directories@,
            None => Seq::empty(),
        }
    }

    /// The discovery endpoints; none where the field is absent.
    pub open spec fn endpoints(&self) -> Seq<Seq<char>> {
        match self.subgraphs {
            Some(endpoints) => endpoints.deep_view(),
            None => Seq::empty(),
        }
    }

    /// The local meta files; none where the field is absent.
    pub open spec fn meta_files(&self) -> Seq<RainConfigMetaType> {
        match self.meta {
            Some(files) => files@,
            None => Seq::empty(),
        }
    }

    /// The deployer bundles, each with its key; none where the field is absent.
    pub open spec fn bundles(&self) -> Seq<(String, RainConfigDeployer)> {
        match self.deployers {
            Some(bundles) => bundles@,
            None => Seq::empty(),
        }
    }

    /// No two deployer bundles stand under the same key.
    pub open spec fn wf(&self) -> bool {
        forall|i: int, j: int|
            0 <= i < j < self.bundles().len() ==> (#[trigger] self.bundles()[i]).0@ != (
            #[trigger] self.bundles()[j]).0@
    }
}

/// What the scan of each included directory gives to the build.
pub open spec fn included_parts(config: RainConfigStruct, snapshot: Snapshot, force: bool) -> Seq<
    Result<Seq<(Seq<u8>, Seq<char>)>, BuildFailure>,
> {
    Seq::new(
        config.directories().len(),
        |i: int| tolerate(dotrain_files(snapshot, config.directories()[i]@, force), force),
    )
}

/// The dotrain sources below the included directories, in the order of the
/// configuration. With `force`, a directory whose scan fails gives nothing.
pub open spec fn included_files(config: RainConfigStruct, snapshot: Snapshot, force: bool) -> Result<
    Seq<(Seq<u8>, Seq<char>)>,
    BuildFailure,
> {
    collect(included_parts(config, snapshot, force), 0)
}

/// What each local meta file gives to the build.
pub open spec fn meta_parts(config: RainConfigStruct, snapshot: Snapshot, force: bool) -> Seq<
    Result<Seq<(Seq<u8>, Seq<u8>)>, BuildFailure>,
> {
    Seq::new(
        config.meta_files().len(),
        |i: int| loaded_meta(snapshot, config.meta_files()[i], force),
    )
}

/// The local metas, in the order of the configuration.
pub open spec fn loaded_metas(config: RainConfigStruct, snapshot: Snapshot, force: bool) -> Result<
    Seq<(Seq<u8>, Seq<u8>)>,
    BuildFailure,
> {
    collect(meta_parts(config, snapshot, force), 0)
}

/// What each deployer bundle gives to the build. With `force`, a bundle whose
/// assembly fails at any step gives nothing.
pub open spec fn record_parts(config: RainConfigStruct, snapshot: Snapshot, force: bool) -> Seq<
    Result<Seq<Deployer>, BuildFailure>,
> {
    Seq::new(
        config.bundles().len(),
        |i: int|
            tolerate(
                single(deployer_record(snapshot, config.bundles()[i].0@, config.bundles()[i].1)),
                force,
            ),
    )
}

/// The records of the deployers, in the order of the configuration.
pub open spec fn assembled_deployers(config: RainConfigStruct, snapshot: Snapshot, force: bool) ->
    Result<Seq<Deployer>, BuildFailure> {
    collect(record_parts(config, snapshot, force), 0)
}

/// What a build gathers: the dotrain sources, then the metas, then the
/// deployers, or the first failure in that order.
pub open spec fn processed(config: RainConfigStruct, snapshot: Snapshot, force: bool) -> Result<
    Processed,
    BuildFailure,
> {
    match included_files(config, snapshot, force) {
        Ok(dotrains) => match loaded_metas(config, snapshot, force) {
            Ok(metas) => match assembled_deployers(config, snapshot, force) {
                Ok(deployers) => Ok(Processed { dotrains, metas, deployers }),
                Err(e) => Err(e),
            },
            Err(e) => Err(e),
        },
        Err(e) => Err(e),
    }
}

/// A dotrain source as the store knows it: its text under the URI of its path.
pub open spec fn source_of(file: (Seq<u8>, Seq<char>)) -> Result<
    (Seq<char>, Seq<char>),
    BuildFailure,
> {
    match uri_of(file.0) {
        Some(uri) => Ok((uri, file.1)),
        None => Err(BuildFailure::InvalidUri { path: file.0 }),
    }
}

/// What each dotrain source gives to the store. With `force`, one whose path
/// has no URI gives nothing.
pub open spec fn source_parts(files: Seq<(Seq<u8>, Seq<char>)>, force: bool) -> Seq<
    Result<Seq<(Seq<char>, Seq<char>)>, BuildFailure>,
> {
    Seq::new(files.len(), |i: int| tolerate(single(source_of(files[i])), force))
}

/// The dotrain sources as the store knows them, in the order in which they were found.
pub open spec fn sources(files: Seq<(Seq<u8>, Seq<char>)>, force: bool) -> Result<
    Seq<(Seq<char>, Seq<char>)>,
    BuildFailure,
> {
    collect(source_parts(files, force), 0)
}

/// The entries of the store that a configuration describes. Without `force`
/// the first failure of any part fails the build; with `force` a part that
/// fails is left out.
pub open spec fn store_entries(config: RainConfigStruct, snapshot: Snapshot, force: bool) -> Result<
    Entries,
    BuildFailure,
> {
    match processed(config, snapshot, force) {
        Ok(found) => match sources(found.dotrains, force) {
            Ok(dotrains) => Ok(
                Entries {
                    subgraphs: config.endpoints(),
                    metas: found.metas,
                    dotrains,
                    deployers: found.deployers.reverse(),
                },
            ),
            Err(e) => Err(e),
        },
        Err(e) => Err(e),
    }
}

/// The outcome of gathering, as contracts speak of it.
pub open spec fn process_view(r: Result<ProcessType, BuildError>) -> Result<Processed, BuildFailure> {
    match r {
        Ok(found) => Ok(found@),
        Err(e) => Err(e@),
    }
}

/// The outcome of a build, as contracts speak of it.
pub open spec fn entries_view(r: Result<StoreEntries, BuildError>) -> Result<Entries, BuildFailure> {
    match r {
        Ok(entries) => Ok(entries@),
        Err(e) => Err(e@),
    }
}

/// The metas that each meta file of the configuration adds.
fn read_metas(config: &RainConfigStruct, snapshot: &Snapshot, force: bool) -> (r: Result<
    Vec<(Vec<u8>, Vec<u8>)>,
    BuildError,
>)
    ensures
        match r {
            Ok(metas) => loaded_metas(*config, *snapshot, force) == Ok::<
                Seq<(Seq<u8>, Seq<u8>)>,
                BuildFailure,
            >(metas_view(metas@)),
            Err(e) => loaded_metas(*config, *snapshot, force) == Err::<
                Seq<(Seq<u8>, Seq<u8>)>,
                BuildFailure,
            >(e@),
        },
{
    let mut metas: Vec<(Vec<u8>, Vec<u8>)> = Vec::new();
    let ghost parts = meta_parts(*config, *snapshot, force);
    assert(metas_view(metas@) =~= Seq::empty());
    if let Some(files) = &config.meta {
        let mut i: usize = 0;
        while i < files.len()
            invariant
                0 <= i <= files.len(),
                files@ == config.meta_files(),
                parts == meta_parts(*config, *snapshot, force),
                collect(parts, 0) == followed_by(metas_view(metas@), collect(parts, i as int)),
            decreases files.len() - i,
        {
            proof {
                if parts[i as int] is Ok {
                    lemma_collect_next(parts, i as int, metas_view(metas@));
                }
            }
            read_meta(&files[i], &mut metas, snapshot, force)?;
            i = i + 1;
        }
    }
    proof {
        lemma_collect_done(parts, metas_view(metas@));
    }
    Ok(metas)
}

/// The records of the deployer bundles of the configuration.
fn read_deployers(config: &RainConfigStruct, snapshot: &Snapshot, force: bool) -> (r: Result<
    Vec<DeployerRecord>,
    BuildError,
>)
    ensures
        match r {
            Ok(records) => assembled_deployers(*config, *snapshot, force) == Ok::<
                Seq<Deployer>,
                BuildFailure,
            >(records.deep_view()),
            Err(e) => assembled_deployers(*config, *snapshot, force) == Err::<
                Seq<Deployer>,
                BuildFailure,
            >(e@),
        },
{
    let mut records: Vec<DeployerRecord> = Vec::new();
    let ghost parts = record_parts(*config, *snapshot, force);
    assert(records.deep_view() =~= Seq::empty());
    if let Some(bundles) = &config.deployers {
        let mut i: usize = 0;
        while i < bundles.len()
            invariant
                0 <= i <= bundles.len(),
                bundles@ == config.bundles(),
                parts == record_parts(*config, *snapshot, force),
                collect(parts, 0) == followed_by(records.deep_view(), collect(parts, i as int)),
            decreases bundles.len() - i,
        {
            let ghost before = records.deep_view();
            proof {
                if parts[i as int] is Ok {
                    lemma_collect_next(parts, i as int, before);
                }
            }
            match read_deployer(bundles[i].0.as_str(), &bundles[i].1, snapshot) {
                Ok(record) => {
                    let ghost added = record@;
                    records.push(record);
                    assert(records.deep_view() =~= before + seq![added]);
                },
                Err(e) => {
                    if !force {
                        return Err(e);
                    }
                    assert(before + Seq::<Deployer>::empty() =~= before);
                },
            }
            i = i + 1;
        }
    }
    proof {
        lemma_collect_done(parts, records.deep_view());
    }
    Ok(records)
}

/// The dotrain sources as the store knows them.
fn register_dotrains(files: Vec<(FilePath, String)>, force: bool) -> (r: Result<
    Vec<(String, String)>,
    BuildError,
>)
    ensures
        match r {
            Ok(dotrains) => sources(files.deep_view(), force) == Ok::<
                Seq<(Seq<char>, Seq<char>)>,
                BuildFailure,
            >(dotrains.deep_view()),
            Err(e) => sources(files.deep_view(), force) == Err::<
                Seq<(Seq<char>, Seq<char>)>,
                BuildFailure,
            >(e@),
        },
{
    let mut dotrains: Vec<(String, String)> = Vec::new();
    let ghost parts = source_parts(files.deep_view(), force);
    assert(dotrains.deep_view() =~= Seq::empty());
    let mut i: usize = 0;
    while i < files.len()
        invariant
            0 <= i <= files.len(),
            parts == source_parts(files.deep_view(), force),
            collect(parts, 0) == followed_by(dotrains.deep_view(), collect(parts, i as int)),
        decreases files.len() - i,
    {
        let ghost before = dotrains.deep_view();
        proof {
            assert(files.deep_view()[i as int] == (files@[i as int].0@, files@[i as int].1@));
            if parts[i as int] is Ok {
                lemma_collect_next(parts, i as int, before);
            }
        }
        match files[i].0.to_uri() {
            Some(uri) => {
                let ghost added = (uri@, files@[i as int].1@);
                dotrains.push((uri, files[i].1.clone()));
                assert(dotrains.deep_view() =~= before + seq![added]);
            },
            None => {
                if !force {
                    return Err(BuildError::InvalidUri { path: files[i].0.clone() });
                }
                assert(before + Seq::<(Seq<char>, Seq<char>)>::empty() =~= before);
            },
        }
        i = i + 1;
    }
    proof {
        lemma_collect_done(parts, dotrains.deep_view());
    }
    Ok(dotrains)
}

/// The endpoints of the configuration.
fn copy_endpoints(config: &RainConfigStruct) -> (endpoints: Vec<String>)
    ensures
        endpoints.deep_view() == config.endpoints(),
{
    let mut endpoints: Vec<String> = Vec::new();
    if let Some(given) = &config.subgraphs {
        let mut i: usize = 0;
        while i < given.len()
            invariant
                0 <= i <= given.len(),
                endpoints@.len() == i,
                forall|j: int| 0 <= j < i ==> endpoints@[j]@ == given@[j]@,
            decreases given.len() - i,
        {
            endpoints.push(given[i].clone());
            i = i + 1;
        }
        assert(endpoints.deep_view() =~= given.deep_view());
    } else {
        assert(endpoints.deep_view() =~= Seq::empty());
    }
    endpoints
}

/// The records in the order in which a store takes them: the last first.
fn last_first(records: Vec<DeployerRecord>) -> (ordered: Vec<DeployerRecord>)
    ensures
        ordered.deep_view() == records.deep_view().reverse(),
{
    let mut records = records;
    let ghost all = records.deep_view();
    let mut ordered: Vec<DeployerRecord> = Vec::new();
    assert(ordered.deep_view() + records.deep_view().reverse() =~= all.reverse());
    while records.len() > 0
        invariant
            ordered.deep_view() + records.deep_view().reverse() == all.reverse(),
        decreases records.len(),
    {
        let ghost taken = ordered.deep_view();
        let ghost left = records.deep_view();
        match records.pop() {
            Some(record) => {
                ordered.push(record);
            },
            None => {},
        }
        assert(ordered.deep_view() + records.deep_view().reverse() =~= taken + left.reverse());
    }
    assert(ordered.deep_view() + records.deep_view().reverse() =~= ordered.deep_view());
    ordered
}

impl RainConfigStruct {
    /// Reads the dotrain sources below the included directories.
    pub fn read_included_files(&self, snapshot: &Snapshot, force: bool) -> (r: Result<
        Vec<(FilePath, String)>,
        BuildError,
    >)
        ensures
            scan_view(r) == included_files(*self, *snapshot, force),
            force ==> r is Ok,
    {
        let mut files: Vec<(FilePath, String)> = Vec::new();
        let ghost parts = included_parts(*self, *snapshot, force);
        assert(files.deep_view() =~= Seq::empty());
        if let Some(directories) = &self.included {
            let mut i: usize = 0;
            while i < directories.len()
                invariant
                    0 <= i <= directories.len(),
                    directories@ == self.directories(),
                    parts == included_parts(*self, *snapshot, force),
                    collect(parts, 0) == followed_by(files.deep_view(), collect(parts, i as int)),
                decreases directories.len() - i,
            {
                let ghost before = files.deep_view();
                proof {
                    if parts[i as int] is Ok {
                        lemma_collect_next(parts, i as int, before);
                    }
                }
                match read_dotrain_files(&directories[i], snapshot, force) {
                    Ok(mut found) => {
                        let ghost added = found.deep_view();
                        files.append(&mut found);
                        assert(files.deep_view() =~= before + added);
                    },
                    Err(e) => {
                        if !force {
                            return Err(e);
                        }
                        assert(before + Seq::<(Seq<u8>, Seq<char>)>::empty() =~= before);
                    },
                }
                i = i + 1;
            }
        }
        proof {
            lemma_collect_done(parts, files.deep_view());
        }
        Ok(files)
    }

    /// Gathers the dotrain sources, the metas and the deployers of the configuration.
    pub fn process(&self, snapshot: &Snapshot, force: bool) -> (r: Result<ProcessType, BuildError>)
        ensures
            process_view(r) == processed(*self, *snapshot, force),
    {
        let dotrains = self.read_included_files(snapshot, force)?;
        let metas = read_metas(self, snapshot, force)?;
        let deployers = read_deployers(self, snapshot, force)?;
        Ok(ProcessType { dotrains, metas, deployers })
    }

    /// The entries of the store that the configuration describes, under
    /// either of the two ways to treat a failure.
    pub fn build(&self, snapshot: &Snapshot, force: bool) -> (r: Result<StoreEntries, BuildError>)
        ensures
            entries_view(r) == store_entries(*self, *snapshot, force),
    {
        let found = self.process(snapshot, force)?;
        let subgraphs = copy_endpoints(self);
        let dotrains = register_dotrains(found.dotrains, force)?;
        let deployers = last_first(found.deployers);
        Ok(StoreEntries { subgraphs, metas: found.metas, dotrains, deployers })
    }

    /// The entries of the store that the configuration describes. The first
    /// failure, of whatever part, fails the build.
    pub fn build_store(&self, snapshot: &Snapshot) -> (r: Result<StoreEntries, BuildError>)
        ensures
            entries_view(r) == store_entries(*self, *snapshot, false),
    {
        self.build(snapshot, false)
    }

    /// The entries of the store that the configuration describes, without
    /// whatever part of it fails. This build does not fail.
    pub fn force_build_store(&self, snapshot: &Snapshot) -> (r: Result<StoreEntries, BuildError>)
        ensures
            entries_view(r) == store_entries(*self, *snapshot, true),
            r is Ok,
    {
        proof {
            lemma_forced_build_succeeds(*self, *snapshot);
        }
        self.build(snapshot, true)
    }

    /// Whether no two deployer bundles stand under the same key.
    pub fn has_unique_keys(&self) -> (unique: bool)
        ensures
            unique == self.wf(),
    {
        if let Some(bundles) = &self.deployers {
            let mut j: usize = 0;
            while j < bundles.len()
                invariant
                    0 <= j <= bundles.len(),
                    bundles@ == self.bundles(),
                    forall|a: int, b: int|
                        0 <= a < b < j ==> (#[trigger] bundles@[a]).0@ != (#[trigger] bundles@[b]).0@,
                decreases bundles.len() - j,
            {
                let mut i: usize = 0;
                while i < j
                    invariant
                        0 <= i <= j < bundles.len(),
                        bundles@ == self.bundles(),
                        forall|a: int| 0 <= a < i ==> (#[trigger] bundles@[a]).0@ != bundles@[j as int].0@,
                        forall|a: int, b: int|
                            0 <= a < b < j ==> (#[trigger] bundles@[a]).0@ != (#[trigger] bundles@[b]).0@,
                    decreases j - i,
                {
                    if bundles[i].0 == bundles[j].0 {
                        assert(self.bundles()[i as int].0@ == self.bundles()[j as int].0@);
                        return false;
                    }
                    i = i + 1;
                }
                j = j + 1;
            }
        }
        true
    }
}

} // verus!
