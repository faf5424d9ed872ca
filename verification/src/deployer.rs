//! Assembling the record of a deployer from the files of its bundle.

use vstd::prelude::*;
use vstd::utf8::encode_utf8;
use crate::artifact::{artifact_bytecode, read_bytecode, Bytecode};
use crate::config::RainConfigDeployer;
use crate::error::{BuildError, BuildFailure, BytecodeField};
use crate::hex::{decode_hex, hex_decode};
use crate::hash::keccak256_digest;
use crate::meta::{loaded_meta, meta_bytes, metas_view, read_meta};
use crate::path::FilePath;
use crate::snapshot::Snapshot;

verus! {

/// A deployer as the store takes it.
#[derive(Debug)]
pub struct DeployerRecord {
    /// The content hash of the construction meta.
    pub meta_hash: Vec<u8>,
    /// The construction meta.
    pub meta_bytes: Vec<u8>,
    /// The creation bytecode of the expression deployer.
    pub bytecode: Vec<u8>,
    /// The deployed bytecode of the parser.
    pub parser: Vec<u8>,
    /// The deployed bytecode of the store.
    pub store: Vec<u8>,
    /// The deployed bytecode of the interpreter.
    pub interpreter: Vec<u8>,
    /// The deployed bytecode of the expression deployer: the payload of the
    /// meta envelope whose hash the store files the record under.
    pub deployed_bytecode: Vec<u8>,
    /// The bytes that the deployer's key spells.
    pub tx_hash: Vec<u8>,
}

/// A `DeployerRecord` as contracts speak of it.
pub struct Deployer {
    pub meta_hash: Seq<u8>,
    pub meta_bytes: Seq<u8>,
    pub bytecode: Seq<u8>,
    pub parser: Seq<u8>,
    pub store: Seq<u8>,
    pub interpreter: Seq<u8>,
    pub deployed_bytecode: Seq<u8>,
    pub tx_hash: Seq<u8>,
}

impl View for DeployerRecord {
    type V = Deployer;

    open spec fn view(&self) -> Deployer {
        Deployer {
            meta_hash: self.meta_hash@,
            meta_bytes: self.meta_bytes@,
            bytecode: self.bytecode@,
            parser: self.parser@,
            store: self.store@,
            interpreter: self.interpreter@,
            deployed_bytecode: self.deployed_bytecode@,
            tx_hash: self.tx_hash@,
        }
    }
}

impl Deployer {
    /// The construction meta stands under its own content hash.
    pub open spec fn wf(self) -> bool {
        self.meta_hash == keccak256_digest(self.meta_bytes)
    }
}

impl DeployerRecord {
    /// The construction meta stands under its own content hash.
    pub open spec fn wf(&self) -> bool {
        self@.wf()
    }
}

impl DeepView for DeployerRecord {
    type V = Deployer;

    open spec fn deep_view(&self) -> Deployer {
        self@
    }
}

/// The one meta that a deployer's construction meta resolved to.
pub open spec fn single_meta(metas: Seq<(Seq<u8>, Seq<u8>)>) -> Result<
    (Seq<u8>, Seq<u8>),
    BuildFailure,
> {
    if metas.len() == 1 {
        Ok(metas[0])
    } else {
        Err(BuildFailure::AmbiguousConstructionMeta { found: metas.len() })
    }
}

/// The bytecode that a place in a deployer asks of the artifact at `path`.
pub open spec fn required_bytecode(
    path: Seq<u8>,
    field: BytecodeField,
    bytecode: Result<Bytecode, BuildFailure>,
) -> Result<Seq<u8>, BuildFailure> {
    match bytecode {
        Ok(b) => match (
            match field {
                BytecodeField::Creation => b.creation,
                BytecodeField::Deployed => b.deployed,
            }
        ) {
            Some(bytes) => Ok(bytes),
            None => Err(BuildFailure::MissingBytecode { path, field }),
        },
        Err(e) => Err(e),
    }
}

/// The bytes that a deployer's key spells.
pub open spec fn key_bytes(key: Seq<char>) -> Result<Seq<u8>, BuildFailure> {
    match hex_decode(encode_utf8(key)) {
        Ok(bytes) => Ok(bytes),
        Err(cause) => Err(BuildFailure::DeployerKey { key, cause }),
    }
}

/// The parts of a deployer's record, each as its step of the assembly gives it.
pub struct DeployerParts {
    pub meta: Result<(Seq<u8>, Seq<u8>), BuildFailure>,
    pub bytecode: Result<Seq<u8>, BuildFailure>,
    pub deployed_bytecode: Result<Seq<u8>, BuildFailure>,
    pub parser: Result<Seq<u8>, BuildFailure>,
    pub store: Result<Seq<u8>, BuildFailure>,
    pub interpreter: Result<Seq<u8>, BuildFailure>,
    pub tx_hash: Result<Seq<u8>, BuildFailure>,
}

impl DeployerParts {
    /// The first failure among the parts, in the order of the steps.
    pub open spec fn failure(self) -> Option<BuildFailure> {
        if self.meta is Err {
            Some(self.meta->Err_0)
        } else if self.bytecode is Err {
            Some(self.bytecode->Err_0)
        } else if self.deployed_bytecode is Err {
            Some(self.deployed_bytecode->Err_0)
        } else if self.parser is Err {
            Some(self.parser->Err_0)
        } else if self.store is Err {
            Some(self.store->Err_0)
        } else if self.interpreter is Err {
            Some(self.interpreter->Err_0)
        } else if self.tx_hash is Err {
            Some(self.tx_hash->Err_0)
        } else {
            None
        }
    }

    /// The record, where no part failed; else the first failure.
    pub open spec fn assemble(self) -> Result<Deployer, BuildFailure> {
        match self.failure() {
            Some(e) => Err(e),
            None => Ok(
                Deployer {
                    meta_hash: self.meta->Ok_0.0,
                    meta_bytes: self.meta->Ok_0.1,
                    bytecode: self.bytecode->Ok_0,
                    parser: self.parser->Ok_0,
                    store: self.store->Ok_0,
                    interpreter: self.interpreter->Ok_0,
                    deployed_bytecode: self.deployed_bytecode->Ok_0,
                    tx_hash: self.tx_hash->Ok_0,
                },
            ),
        }
    }
}

/// The construction meta of a deployer. It is loaded without `force`,
/// whatever the build around it does, and must be exactly one.
pub open spec fn construction_meta(snapshot: Snapshot, deployer: RainConfigDeployer) -> Result<
    (Seq<u8>, Seq<u8>),
    BuildFailure,
> {
    match loaded_meta(snapshot, deployer.construction_meta, false) {
        Ok(metas) => single_meta(metas),
        Err(e) => Err(e),
    }
}

/// The parts of the record of the deployer under `key`.
pub open spec fn deployer_parts(snapshot: Snapshot, key: Seq<char>, deployer: RainConfigDeployer) ->
    DeployerParts {
    let expression_deployer = artifact_bytecode(snapshot, deployer.expression_deployer@);
    DeployerParts {
        meta: construction_meta(snapshot, deployer),
        bytecode: required_bytecode(
            deployer.expression_deployer@,
            BytecodeField::Creation,
            expression_deployer,
        ),
        deployed_bytecode: required_bytecode(
            deployer.expression_deployer@,
            BytecodeField::Deployed,
            expression_deployer,
        ),
        parser: required_bytecode(
            deployer.parser@,
            BytecodeField::Deployed,
            artifact_bytecode(snapshot, deployer.parser@),
        ),
        store: required_bytecode(
            deployer.store@,
            BytecodeField::Deployed,
            artifact_bytecode(snapshot, deployer.store@),
        ),
        interpreter: required_bytecode(
            deployer.interpreter@,
            BytecodeField::Deployed,
            artifact_bytecode(snapshot, deployer.interpreter@),
        ),
        tx_hash: key_bytes(key),
    }
}

/// The record of the deployer under `key`: every part of it, or the failure
/// of the first step that fails. No record is made of some of the parts.
pub open spec fn deployer_record(snapshot: Snapshot, key: Seq<char>, deployer: RainConfigDeployer) ->
    Result<Deployer, BuildFailure> {
    deployer_parts(snapshot, key, deployer).assemble()
}

/// A construction meta that cannot be loaded, or that resolves to no meta or
/// to several, fails the assembly. The assembly takes no `force`: no build
/// around it can turn this failure into a record.
pub proof fn lemma_construction_meta_is_required(
    snapshot: Snapshot,
    key: Seq<char>,
    deployer: RainConfigDeployer,
)
    ensures
        meta_bytes(snapshot, deployer.construction_meta) matches Err(e) ==> deployer_record(
            snapshot,
            key,
            deployer,
        ) == Err::<Deployer, BuildFailure>(e),
        deployer_record(snapshot, key, deployer) matches Ok(record) ==> meta_bytes(
            snapshot,
            deployer.construction_meta,
        ) == Ok::<Seq<u8>, BuildFailure>(record.meta_bytes) && record.wf(),
        forall|metas: Seq<(Seq<u8>, Seq<u8>)>| #[trigger] single_meta(metas) is Ok <==> metas.len() == 1,
{
}

/// The outcome of an assembly, as contracts speak of it.
pub open spec fn record_view(r: Result<DeployerRecord, BuildError>) -> Result<
    Deployer,
    BuildFailure,
> {
    match r {
        Ok(record) => Ok(record@),
        Err(e) => Err(e@),
    }
}

/// Takes the one meta that a deployer's construction meta resolved to. None,
/// or more than one, is a failure.
pub fn single_construction_meta(metas: Vec<(Vec<u8>, Vec<u8>)>) -> (r: Result<
    (Vec<u8>, Vec<u8>),
    BuildError,
>)
    ensures
        r is Ok <==> metas@.len() == 1,
        match r {
            Ok(meta) => single_meta(metas_view(metas@)) == Ok::<(Seq<u8>, Seq<u8>), BuildFailure>(
                (meta.0@, meta.1@),
            ),
            Err(e) => single_meta(metas_view(metas@)) == Err::<(Seq<u8>, Seq<u8>), BuildFailure>(
                e@,
            ),
        },
{
    let mut metas = metas;
    let found: usize = metas.len();
    if found == 1 {
        match metas.pop() {
            Some(meta) => Ok(meta),
            None => Err(BuildError::AmbiguousConstructionMeta { found }),
        }
    } else {
        Err(BuildError::AmbiguousConstructionMeta { found })
    }
}

/// Reads the artifact at `path` and takes the bytecode that `field` names.
pub fn read_required_bytecode(path: &FilePath, field: BytecodeField, snapshot: &Snapshot) -> (r:
    Result<Vec<u8>, BuildError>)
    ensures
        match r {
            Ok(bytes) => required_bytecode(path@, field, artifact_bytecode(*snapshot, path@))
                == Ok::<Seq<u8>, BuildFailure>(bytes@),
            Err(e) => required_bytecode(path@, field, artifact_bytecode(*snapshot, path@)) == Err::<
                Seq<u8>,
                BuildFailure,
            >(e@),
        },
{
    let bytecode = read_bytecode(path, snapshot)?;
    let wanted = match field {
        BytecodeField::Creation => bytecode.creation,
        BytecodeField::Deployed => bytecode.deployed,
    };
    match wanted {
        Some(bytes) => Ok(bytes),
        None => Err(BuildError::MissingBytecode { path: path.clone(), field }),
    }
}

/// Assembles the record of the deployer under the key `hash`.
pub fn read_deployer(hash: &str, deployer: &RainConfigDeployer, snapshot: &Snapshot) -> (r: Result<
    DeployerRecord,
    BuildError,
>)
    ensures
        record_view(r) == deployer_record(*snapshot, hash@, *deployer),
        r matches Ok(record) ==> record.wf(),
{
    let mut metas: Vec<(Vec<u8>, Vec<u8>)> = Vec::new();
    assert(metas_view(metas@) =~= Seq::empty());
    read_meta(&deployer.construction_meta, &mut metas, snapshot, false)?;
    assert(Seq::<(Seq<u8>, Seq<u8>)>::empty() + loaded_meta(
        *snapshot,
        deployer.construction_meta,
        false,
    )->Ok_0 =~= loaded_meta(*snapshot, deployer.construction_meta, false)->Ok_0);
    let (meta_hash, meta_bytes) = single_construction_meta(metas)?;
    let expression_deployer = read_bytecode(&deployer.expression_deployer, snapshot)?;
    let bytecode = match expression_deployer.creation {
        Some(bytes) => bytes,
        None => {
            return Err(
                BuildError::MissingBytecode {
                    path: deployer.expression_deployer.clone(),
                    field: BytecodeField::Creation,
                },
            );
        },
    };
    let deployed_bytecode = match expression_deployer.deployed {
        Some(bytes) => bytes,
        None => {
            return Err(
                BuildError::MissingBytecode {
                    path: deployer.expression_deployer.clone(),
                    field: BytecodeField::Deployed,
                },
            );
        },
    };
    let parser = read_required_bytecode(&deployer.parser, BytecodeField::Deployed, snapshot)?;
    let store = read_required_bytecode(&deployer.store, BytecodeField::Deployed, snapshot)?;
    let interpreter = read_required_bytecode(
        &deployer.interpreter,
        BytecodeField::Deployed,
        snapshot,
    )?;
    let tx_hash = match decode_hex(hash.as_bytes()) {
        Ok(bytes) => bytes,
        Err(cause) => {
            return Err(BuildError::DeployerKey { key: hash.to_owned(), cause });
        },
    };
    Ok(
        DeployerRecord {
            meta_hash,
            meta_bytes,
            bytecode,
            parser,
            store,
            interpreter,
            deployed_bytecode,
            tx_hash,
        },
    )
}

} // verus!
