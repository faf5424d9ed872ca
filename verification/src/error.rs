//! What can go wrong while the entries of a store are assembled.

use vstd::prelude::*;
use crate::hex::HexError;
use crate::path::FilePath;

verus! {

/// One of the two bytecode fields of a contract artifact.
#[derive(Clone, Copy, Debug, PartialEq, Eq, Structural)]
pub enum BytecodeField {
    /// The code that runs once, when the contract is created.
    Creation,
    /// The code that stays at the contract's address.
    Deployed,
}

/// The three families of failure.
#[derive(Clone, Copy, Debug, PartialEq, Eq, Structural)]
pub enum ErrorKind {
    /// A file or a directory could not be read.
    Io,
    /// What was read is not what its format asks for.
    Decode,
    /// What was read is well formed and still cannot be used.
    Semantic,
}

/// Why a build, or one item of it, failed.
#[derive(Clone, Debug)]
pub enum BuildError {
    /// A file or a directory could not be read.
    Io { path: FilePath, message: String },
    /// A meta file does not hold hexadecimal text.
    MetaHex { path: FilePath, cause: HexError },
    /// An artifact is not a JSON document.
    ArtifactJson { path: FilePath, message: String },
    /// A bytecode field of an artifact does not hold hexadecimal text.
    BytecodeHex { path: FilePath, field: BytecodeField, cause: HexError },
    /// A deployer's key is not hexadecimal text.
    DeployerKey { key: String, cause: HexError },
    /// An artifact holds neither of the two bytecode fields.
    NoBytecode { path: FilePath },
    /// An artifact lacks the bytecode field that its place in a deployer asks for.
    MissingBytecode { path: FilePath, field: BytecodeField },
    /// A deployer's construction meta resolved to no entry, or to several.
    AmbiguousConstructionMeta { found: usize },
    /// A path is not valid text, so that no URI can be made of it.
    InvalidUri { path: FilePath },
}

/// A `BuildError` as contracts speak of it.
pub enum BuildFailure {
    Io { path: Seq<u8>, message: Seq<char> },
    MetaHex { path: Seq<u8>, cause: HexError },
    ArtifactJson { path: Seq<u8>, message: Seq<char> },
    BytecodeHex { path: Seq<u8>, field: BytecodeField, cause: HexError },
    DeployerKey { key: Seq<char>, cause: HexError },
    NoBytecode { path: Seq<u8> },
    MissingBytecode { path: Seq<u8>, field: BytecodeField },
    AmbiguousConstructionMeta { found: nat },
    InvalidUri { path: Seq<u8> },
}

impl BuildFailure {
    /// The family that a failure belongs to.
    pub open spec fn kind(self) -> ErrorKind {
        match self {
            BuildFailure::Io { .. } => ErrorKind::Io,
            BuildFailure::MetaHex { .. } => ErrorKind::Decode,
            BuildFailure::ArtifactJson { .. } => ErrorKind::Decode,
            BuildFailure::BytecodeHex { .. } => ErrorKind::Decode,
            BuildFailure::DeployerKey { .. } => ErrorKind::Decode,
            BuildFailure::NoBytecode { .. } => ErrorKind::Semantic,
            BuildFailure::MissingBytecode { .. } => ErrorKind::Semantic,
            BuildFailure::AmbiguousConstructionMeta { .. } => ErrorKind::Semantic,
            BuildFailure::InvalidUri { .. } => ErrorKind::Semantic,
        }
    }
}

impl View for BuildError {
    type V = BuildFailure;

    open spec fn view(&self) -> BuildFailure {
        match *self {
            BuildError::Io { path, message } => BuildFailure::Io { path: path@, message: message@ },
            BuildError::MetaHex { path, cause } => BuildFailure::MetaHex { path: path@, cause },
            BuildError::ArtifactJson { path, message } => BuildFailure::ArtifactJson {
                path: path@,
                message: message@,
            },
            BuildError::BytecodeHex { path, field, cause } => BuildFailure::BytecodeHex {
                path: path@,
                field,
                cause,
            },
            BuildError::DeployerKey { key, cause } => BuildFailure::DeployerKey { key: key@, cause },
            BuildError::NoBytecode { path } => BuildFailure::NoBytecode { path: path@ },
            BuildError::MissingBytecode { path, field } => BuildFailure::MissingBytecode {
                path: path@,
                field,
            },
            BuildError::AmbiguousConstructionMeta { found } => BuildFailure::AmbiguousConstructionMeta {
                found: found as nat,
            },
            BuildError::InvalidUri { path } => BuildFailure::InvalidUri { path: path@ },
        }
    }
}

impl BuildError {
    /// The family that the error belongs to.
    pub fn kind(&self) -> (k: ErrorKind)
        ensures
            k == self@.kind(),
    {
        match self {
            BuildError::Io { .. } => ErrorKind::Io,
            BuildError::MetaHex { .. } => ErrorKind::Decode,
            BuildError::ArtifactJson { .. } => ErrorKind::Decode,
            BuildError::BytecodeHex { .. } => ErrorKind::Decode,
            BuildError::DeployerKey { .. } => ErrorKind::Decode,
            BuildError::NoBytecode { .. } => ErrorKind::Semantic,
            BuildError::MissingBytecode { .. } => ErrorKind::Semantic,
            BuildError::AmbiguousConstructionMeta { .. } => ErrorKind::Semantic,
            BuildError::InvalidUri { .. } => ErrorKind::Semantic,
        }
    }
}

} // verus!
