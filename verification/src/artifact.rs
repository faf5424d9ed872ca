//! Reading the bytecode of a compiled contract out of its artifact.

use vstd::prelude::*;
use vstd::utf8::encode_utf8;
use crate::error::{BuildError, BuildFailure, BytecodeField};
use crate::hex::{decode_hex, hex_decode};
use crate::json::{json_parsed, nested_string, parse_json, string_at};
use crate::path::FilePath;
use crate::snapshot::Snapshot;

verus! {

/// The bytecode that an artifact holds. An artifact may publish only the
/// deployed bytecode, only the creation bytecode, or both.
#[derive(Debug)]
pub struct ArtifactBytecode {
    pub creation: Option<Vec<u8>>,
    pub deployed: Option<Vec<u8>>,
}

/// An `ArtifactBytecode` as contracts speak of it.
pub struct Bytecode {
    pub creation: Option<Seq<u8>>,
    pub deployed: Option<Seq<u8>>,
}

/// The bytes of an optional string of bytes.
pub open spec fn bytes_view(bytes: Option<Vec<u8>>) -> Option<Seq<u8>> {
    match bytes {
        Some(b) => Some(b@),
        None => None,
    }
}

/// The text of an optional string.
pub open spec fn text_view(text: Option<&str>) -> Option<Seq<char>> {
    match text {
        Some(t) => Some(t@),
        None => None,
    }
}

impl View for ArtifactBytecode {
    type V = Bytecode;

    open spec fn view(&self) -> Bytecode {
        Bytecode { creation: bytes_view(self.creation), deployed: bytes_view(self.deployed) }
    }
}

impl ArtifactBytecode {
    /// An artifact's bytecode holds at least one of the two.
    pub open spec fn wf(&self) -> bool {
        self.creation is Some || self.deployed is Some
    }
}

/// The bytes that a bytecode field spells, or the failure that names the field.
pub open spec fn field_bytes(path: Seq<u8>, field: BytecodeField, text: Seq<char>) -> Result<
    Seq<u8>,
    BuildFailure,
> {
    match hex_decode(encode_utf8(text)) {
        Ok(bytes) => Ok(bytes),
        Err(cause) => Err(BuildFailure::BytecodeHex { path, field, cause }),
    }
}

/// The bytecode of an artifact at `path`, given the text of its two bytecode
/// fields, each where the artifact holds it as a string. A field that is there
/// must decode. Where both are there and neither decodes, the failure names
/// the deployed bytecode.
pub open spec fn bytecode_of(
    path: Seq<u8>,
    creation: Option<Seq<char>>,
    deployed: Option<Seq<char>>,
) -> Result<Bytecode, BuildFailure> {
    match (creation, deployed) {
        (Some(c), Some(d)) => match field_bytes(path, BytecodeField::Deployed, d) {
            Ok(deployed_bytes) => match field_bytes(path, BytecodeField::Creation, c) {
                Ok(creation_bytes) => Ok(
                    Bytecode { creation: Some(creation_bytes), deployed: Some(deployed_bytes) },
                ),
                Err(e) => Err(e),
            },
            Err(e) => Err(e),
        },
        (None, Some(d)) => match field_bytes(path, BytecodeField::Deployed, d) {
            Ok(deployed_bytes) => Ok(Bytecode { creation: None, deployed: Some(deployed_bytes) }),
            Err(e) => Err(e),
        },
        (Some(c), None) => match field_bytes(path, BytecodeField::Creation, c) {
            Ok(creation_bytes) => Ok(Bytecode { creation: Some(creation_bytes), deployed: None }),
            Err(e) => Err(e),
        },
        (None, None) => Err(BuildFailure::NoBytecode { path }),
    }
}

/// The four cases of what an artifact holds. With only one of the two fields,
/// the other is absent from the result; with neither, the read fails; a field
/// that is there and does not decode fails the read, and the failure names it.
pub proof fn lemma_bytecode_cases(
    path: Seq<u8>,
    creation: Option<Seq<char>>,
    deployed: Option<Seq<char>>,
)
    ensures
        bytecode_of(path, creation, deployed) is Ok ==> {
            let b = bytecode_of(path, creation, deployed)->Ok_0;
            &&& b.creation is Some <==> creation is Some
            &&& b.deployed is Some <==> deployed is Some
        },
        bytecode_of(path, creation, deployed) is Ok <==> {
            &&& creation is Some || deployed is Some
            &&& creation is Some ==> hex_decode(encode_utf8(creation->0)) is Ok
            &&& deployed is Some ==> hex_decode(encode_utf8(deployed->0)) is Ok
        },
        creation is None && deployed is None ==> bytecode_of(path, creation, deployed) == Err::<
            Bytecode,
            BuildFailure,
        >(BuildFailure::NoBytecode { path }),
        deployed is Some && hex_decode(encode_utf8(deployed->0)) is Err ==> bytecode_of(
            path,
            creation,
            deployed,
        ) == Err::<Bytecode, BuildFailure>(
            BuildFailure::BytecodeHex {
                path,
                field: BytecodeField::Deployed,
                cause: hex_decode(encode_utf8(deployed->0))->Err_0,
            },
        ),
        creation is Some && hex_decode(encode_utf8(creation->0)) is Err && (deployed is Some
            ==> hex_decode(encode_utf8(deployed->0)) is Ok) ==> bytecode_of(
            path,
            creation,
            deployed,
        ) == Err::<Bytecode, BuildFailure>(
            BuildFailure::BytecodeHex {
                path,
                field: BytecodeField::Creation,
                cause: hex_decode(encode_utf8(creation->0))->Err_0,
            },
        ),
{
}

/// The bytecode of the artifact file `path`, as the snapshot shows it: that
/// of the strings under `bytecode.object` and `deployedBytecode.object`.
pub open spec fn artifact_bytecode(snapshot: Snapshot, path: Seq<u8>) -> Result<
    Bytecode,
    BuildFailure,
> {
    match snapshot.content_of(path) {
        Ok(content) => match json_parsed(content) {
            Ok(strings) => bytecode_of(
                path,
                string_at(strings, "bytecode"@, "object"@),
                string_at(strings, "deployedBytecode"@, "object"@),
            ),
            Err(message) => Err(BuildFailure::ArtifactJson { path, message }),
        },
        Err(message) => Err(BuildFailure::Io { path, message }),
    }
}

/// The outcome of reading an artifact, as contracts speak of it.
pub open spec fn bytecode_view(r: Result<ArtifactBytecode, BuildError>) -> Result<
    Bytecode,
    BuildFailure,
> {
    match r {
        Ok(bytecode) => Ok(bytecode@),
        Err(e) => Err(e@),
    }
}

/// Decodes one bytecode field.
fn decode_field(path: &FilePath, field: BytecodeField, text: &str) -> (r: Result<
    Vec<u8>,
    BuildError,
>)
    ensures
        match r {
            Ok(bytes) => field_bytes(path@, field, text@) == Ok::<Seq<u8>, BuildFailure>(bytes@),
            Err(e) => field_bytes(path@, field, text@) == Err::<Seq<u8>, BuildFailure>(e@),
        },
{
    match decode_hex(text.as_bytes()) {
        Ok(bytes) => Ok(bytes),
        Err(cause) => Err(BuildError::BytecodeHex { path: path.clone(), field, cause }),
    }
}

/// Decodes the bytecode fields of an artifact, each where the artifact holds
/// it as a string.
pub fn extract_bytecode(path: &FilePath, creation: Option<&str>, deployed: Option<&str>) -> (r:
    Result<ArtifactBytecode, BuildError>)
    ensures
        bytecode_view(r) == bytecode_of(path@, text_view(creation), text_view(deployed)),
        r matches Ok(bytecode) ==> bytecode.wf(),
{
    match (creation, deployed) {
        (Some(c), Some(d)) => {
            let creation_bytes = decode_field(path, BytecodeField::Creation, c);
            let deployed_bytes = decode_field(path, BytecodeField::Deployed, d);
            match deployed_bytes {
                Ok(deployed_bytes) => match creation_bytes {
                    Ok(creation_bytes) => Ok(
                        ArtifactBytecode {
                            creation: Some(creation_bytes),
                            deployed: Some(deployed_bytes),
                        },
                    ),
                    Err(e) => Err(e),
                },
                Err(e) => Err(e),
            }
        },
        (None, Some(d)) => match decode_field(path, BytecodeField::Deployed, d) {
            Ok(deployed_bytes) => Ok(
                ArtifactBytecode { creation: None, deployed: Some(deployed_bytes) },
            ),
            Err(e) => Err(e),
        },
        (Some(c), None) => match decode_field(path, BytecodeField::Creation, c) {
            Ok(creation_bytes) => Ok(
                ArtifactBytecode { creation: Some(creation_bytes), deployed: None },
            ),
            Err(e) => Err(e),
        },
        (None, None) => Err(BuildError::NoBytecode { path: path.clone() }),
    }
}

/// Reads the bytecode of the artifact file `path`.
pub fn read_bytecode(path: &FilePath, snapshot: &Snapshot) -> (r: Result<
    ArtifactBytecode,
    BuildError,
>)
    ensures
        bytecode_view(r) == artifact_bytecode(*snapshot, path@),
        r matches Ok(bytecode) ==> bytecode.wf(),
{
    let content = match snapshot.read(path) {
        Ok(content) => content,
        Err(message) => {
            return Err(BuildError::Io { path: path.clone(), message });
        },
    };
    let doc = match parse_json(content.as_slice()) {
        Ok(doc) => doc,
        Err(message) => {
            return Err(BuildError::ArtifactJson { path: path.clone(), message });
        },
    };
    let deployed = nested_string(&doc, "deployedBytecode", "object");
    let creation = nested_string(&doc, "bytecode", "object");
    extract_bytecode(path, creation, deployed)
}

} // verus!
