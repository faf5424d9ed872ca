//! Assembles the entries of a content-addressed metadata store from a workspace
//! configuration: dotrain sources found below the included directories, local
//! meta files, discovery endpoints and deployer bundles.
//!
//! The library reads no disk. A build takes a [`Snapshot`]: the listings of
//! the directories and the bytes of the files that the configuration names,
//! each with the outcome of its read. From the configuration and the snapshot
//! [`RainConfigStruct::build_store`] and [`RainConfigStruct::force_build_store`]
//! compute what the store is to take, in the order in which it takes it.
//! The first fails on the first failure of any part; the second leaves out
//! whatever fails.
//!
//! What a build computes is defined by the `spec` functions of each module,
//! and the module `laws` states what holds of every build.

pub mod artifact;
pub mod config;
pub mod deployer;
pub mod error;
pub mod hash;
pub mod hex;
pub mod json;
pub mod laws;
pub mod meta;
pub mod outcome;
pub mod path;
pub mod scan;
pub mod snapshot;
pub mod store;
pub mod text;

pub use artifact::ArtifactBytecode;
pub use config::{RainConfigDeployer, RainConfigMetaType, RainConfigStruct};
pub use deployer::DeployerRecord;
pub use error::{BuildError, BytecodeField, ErrorKind};
pub use hex::HexError;
pub use path::FilePath;
pub use snapshot::{Entry, IoFailure, Snapshot};
pub use store::{ProcessType, StoreEntries};
