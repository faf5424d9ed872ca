//! Loading local meta files.

use vstd::prelude::*;
use vstd::utf8::valid_utf8;
use crate::config::RainConfigMetaType;
use crate::error::{BuildError, BuildFailure};
use crate::hash::{keccak256, keccak256_digest};
use crate::hex::{decode_hex, hex_decode};
use crate::snapshot::{invalid_text_message, read_to_string, Snapshot};

verus! {

/// The bytes of a meta file: those of a binary file as they are, those of a
/// hex file decoded from its text.
pub open spec fn meta_bytes(snapshot: Snapshot, meta: RainConfigMetaType) -> Result<
    Seq<u8>,
    BuildFailure,
> {
    match meta {
        RainConfigMetaType::Binary(path) => match snapshot.content_of(path@) {
            Ok(bytes) => Ok(bytes),
            Err(message) => Err(BuildFailure::Io { path: path@, message }),
        },
        RainConfigMetaType::Hex(path) => match snapshot.content_of(path@) {
            Ok(text) => if valid_utf8(text) {
                match hex_decode(text) {
                    Ok(bytes) => Ok(bytes),
                    Err(cause) => Err(BuildFailure::MetaHex { path: path@, cause }),
                }
            } else {
                Err(BuildFailure::Io { path: path@, message: invalid_text_message() })
            },
            Err(message) => Err(BuildFailure::Io { path: path@, message }),
        },
    }
}

/// A meta as the store holds it: the bytes under their content hash.
pub open spec fn meta_entry(bytes: Seq<u8>) -> (Seq<u8>, Seq<u8>) {
    (keccak256_digest(bytes), bytes)
}

/// What loading a meta file adds to the metas. With `force`, a file that
/// cannot be loaded adds nothing; without, it fails the load.
pub open spec fn loaded_meta(snapshot: Snapshot, meta: RainConfigMetaType, force: bool) -> Result<
    Seq<(Seq<u8>, Seq<u8>)>,
    BuildFailure,
> {
    match meta_bytes(snapshot, meta) {
        Ok(bytes) => Ok(seq![meta_entry(bytes)]),
        Err(e) => if force {
            Ok(Seq::empty())
        } else {
            Err(e)
        },
    }
}

/// The metas of a list, as contracts speak of them.
pub open spec fn metas_view(metas: Seq<(Vec<u8>, Vec<u8>)>) -> Seq<(Seq<u8>, Seq<u8>)> {
    Seq::new(metas.len(), |i: int| (metas[i].0@, metas[i].1@))
}

/// The bytes of a meta file.
pub fn load_meta_bytes(meta: &RainConfigMetaType, snapshot: &Snapshot) -> (r: Result<
    Vec<u8>,
    BuildError,
>)
    ensures
        match r {
            Ok(bytes) => meta_bytes(*snapshot, *meta) == Ok::<Seq<u8>, BuildFailure>(bytes@),
            Err(e) => meta_bytes(*snapshot, *meta) == Err::<Seq<u8>, BuildFailure>(e@),
        },
{
    match meta {
        RainConfigMetaType::Binary(path) => match snapshot.read(path) {
            Ok(bytes) => Ok(bytes.clone()),
            Err(message) => Err(BuildError::Io { path: path.clone(), message }),
        },
        RainConfigMetaType::Hex(path) => match read_to_string(path, snapshot.read(path)) {
            Ok(text) => {
                proof {
                    vstd::utf8::decode_utf8_encode_utf8(snapshot.content_of(path@)->Ok_0);
                }
                match decode_hex(text.as_bytes()) {
                    Ok(bytes) => Ok(bytes),
                    Err(cause) => Err(BuildError::MetaHex { path: path.clone(), cause }),
                }
            },
            Err(e) => Err(e),
        },
    }
}

/// Loads one meta file and appends its bytes, under their hash, to `metas`.
pub fn read_meta(
    meta: &RainConfigMetaType,
    metas: &mut Vec<(Vec<u8>, Vec<u8>)>,
    snapshot: &Snapshot,
    force: bool,
) -> (r: Result<(), BuildError>)
    ensures
        match loaded_meta(*snapshot, *meta, force) {
            Ok(added) => r is Ok && metas_view(final(metas)@) == metas_view(old(metas)@) + added,
            Err(e) => r matches Err(x) && x@ == e && final(metas)@ == old(metas)@,
        },
{
    match load_meta_bytes(meta, snapshot) {
        Ok(bytes) => {
            let hash = keccak256(bytes.as_slice());
            metas.push((hash, bytes));
            assert(metas_view(metas@) =~= metas_view(old(metas)@) + seq![meta_entry(bytes@)]);
            Ok(())
        },
        Err(e) => {
            if force {
                assert(metas_view(metas@) + Seq::empty() =~= metas_view(metas@));
                Ok(())
            } else {
                Err(e)
            }
        },
    }
}

/// The hash of a meta depends on its bytes alone: two meta files that hold
/// the same bytes, in whichever form, are loaded as the same entry.
pub proof fn lemma_same_bytes_same_entry(
    first_snapshot: Snapshot,
    first: RainConfigMetaType,
    second_snapshot: Snapshot,
    second: RainConfigMetaType,
    force: bool,
)
    requires
        meta_bytes(first_snapshot, first) is Ok,
        meta_bytes(first_snapshot, first) == meta_bytes(second_snapshot, second),
    ensures
        loaded_meta(first_snapshot, first, force) == loaded_meta(second_snapshot, second, force),
        loaded_meta(first_snapshot, first, force)->Ok_0[0].0 == keccak256_digest(
            meta_bytes(first_snapshot, first)->Ok_0,
        ),
{
}

} // verus!
