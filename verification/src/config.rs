//! The workspace configuration.

use vstd::prelude::*;
use crate::path::FilePath;

verus! {

/// A local meta file, by the form in which it holds its bytes.
#[derive(Debug, Clone)]
pub enum RainConfigMetaType {
    /// A file whose bytes are the meta.
    Binary(FilePath),
    /// A text file that holds the meta as a hex string.
    Hex(FilePath),
}

/// The files of one deployer bundle.
#[derive(Debug, Clone)]
pub struct RainConfigDeployer {
    pub construction_meta: RainConfigMetaType,
    pub expression_deployer: FilePath,
    pub parser: FilePath,
    pub store: FilePath,
    pub interpreter: FilePath,
}

/// The configuration of a workspace. Every field may be absent.
#[derive(Debug, Clone)]
pub struct RainConfigStruct {
    /// Directories that are searched for dotrain sources, at any depth.
    pub included: Option<Vec<FilePath>>,
    /// Endpoints at which metas are looked up.
    pub subgraphs: Option<Vec<String>>,
    /// Local meta files.
    pub meta: Option<Vec<RainConfigMetaType>>,
    /// Deployer bundles, each under its hash as a hex string.
    pub deployers: Option<Vec<(String, RainConfigDeployer)>>,
}

/// Whether two meta files are of the same form and path.
pub open spec fn same_meta(a: RainConfigMetaType, b: RainConfigMetaType) -> bool {
    match (a, b) {
        (RainConfigMetaType::Binary(a), RainConfigMetaType::Binary(b)) => a@ == b@,
        (RainConfigMetaType::Hex(a), RainConfigMetaType::Hex(b)) => a@ == b@,
        _ => false,
    }
}

/// Whether two deployer bundles name the same files.
pub open spec fn same_deployer(a: RainConfigDeployer, b: RainConfigDeployer) -> bool {
    &&& same_meta(a.construction_meta, b.construction_meta)
    &&& a.expression_deployer@ == b.expression_deployer@
    &&& a.parser@ == b.parser@
    &&& a.store@ == b.store@
    &&& a.interpreter@ == b.interpreter@
}

/// Whether two optional lists of paths are both absent, or both there with
/// the same paths in the same order.
pub open spec fn same_paths(a: Option<Vec<FilePath>>, b: Option<Vec<FilePath>>) -> bool {
    match (a, b) {
        (Some(a), Some(b)) => a.len() == b.len() && forall|i: int|
            0 <= i < a.len() ==> (#[trigger] a[i])@ == b[i]@,
        (None, None) => true,
        _ => false,
    }
}

/// Whether two optional lists of endpoints are both absent, or both there
/// with the same endpoints in the same order.
pub open spec fn same_endpoints(a: Option<Vec<String>>, b: Option<Vec<String>>) -> bool {
    match (a, b) {
        (Some(a), Some(b)) => a.len() == b.len() && forall|i: int|
            0 <= i < a.len() ==> (#[trigger] a[i])@ == b[i]@,
        (None, None) => true,
        _ => false,
    }
}

/// Whether two optional lists of meta files are both absent, or both there
/// with the same meta files in the same order.
pub open spec fn same_metas(
    a: Option<Vec<RainConfigMetaType>>,
    b: Option<Vec<RainConfigMetaType>>,
) -> bool {
    match (a, b) {
        (Some(a), Some(b)) => a.len() == b.len() && forall|i: int|
            0 <= i < a.len() ==> same_meta(#[trigger] a[i], b[i]),
        (None, None) => true,
        _ => false,
    }
}

/// Whether two optional lists of deployer bundles are both absent, or both
/// there with the same bundles under the same keys in the same order.
pub open spec fn same_bundles(
    a: Option<Vec<(String, RainConfigDeployer)>>,
    b: Option<Vec<(String, RainConfigDeployer)>>,
) -> bool {
    match (a, b) {
        (Some(a), Some(b)) => a.len() == b.len() && forall|i: int|
            0 <= i < a.len() ==> (#[trigger] a[i]).0@ == b[i].0@ && same_deployer(a[i].1, b[i].1),
        (None, None) => true,
        _ => false,
    }
}

/// Whether two configurations say the same.
pub open spec fn same_config(a: RainConfigStruct, b: RainConfigStruct) -> bool {
    &&& same_paths(a.included, b.included)
    &&& same_endpoints(a.subgraphs, b.subgraphs)
    &&& same_metas(a.meta, b.meta)
    &&& same_bundles(a.deployers, b.deployers)
}

impl PartialEq for RainConfigMetaType {
    fn eq(&self, other: &RainConfigMetaType) -> (equal: bool) {
        match (self, other) {
            (RainConfigMetaType::Binary(a), RainConfigMetaType::Binary(b)) => a == b,
            (RainConfigMetaType::Hex(a), RainConfigMetaType::Hex(b)) => a == b,
            _ => false,
        }
    }
}

impl vstd::std_specs::cmp::PartialEqSpecImpl for RainConfigMetaType {
    open spec fn obeys_eq_spec() -> bool {
        true
    }

    open spec fn eq_spec(&self, other: &RainConfigMetaType) -> bool {
        same_meta(*self, *other)
    }
}

impl PartialEq for RainConfigDeployer {
    fn eq(&self, other: &RainConfigDeployer) -> (equal: bool) {
        self.construction_meta == other.construction_meta && self.expression_deployer
            == other.expression_deployer && self.parser == other.parser && self.store == other.store
            && self.interpreter == other.interpreter
    }
}

impl vstd::std_specs::cmp::PartialEqSpecImpl for RainConfigDeployer {
    open spec fn obeys_eq_spec() -> bool {
        true
    }

    open spec fn eq_spec(&self, other: &RainConfigDeployer) -> bool {
        same_deployer(*self, *other)
    }
}

fn paths_equal(a: &Option<Vec<FilePath>>, b: &Option<Vec<FilePath>>) -> (equal: bool)
    ensures
        equal == same_paths(*a, *b),
{
    match (a, b) {
        (Some(left), Some(right)) => {
            if left.len() != right.len() {
                return false;
            }
            let mut i: usize = 0;
            while i < left.len()
                invariant
                    0 <= i <= left.len(),
                    left.len() == right.len(),
                    *a == Some(*left),
                    *b == Some(*right),
                    forall|j: int| 0 <= j < i ==> (#[trigger] left@[j])@ == right@[j]@,
                decreases left.len() - i,
            {
                if left[i] != right[i] {
                    assert(left@[i as int]@ != right@[i as int]@);
                    return false;
                }
                i = i + 1;
            }
            true
        },
        (None, None) => true,
        _ => false,
    }
}

fn endpoints_equal(a: &Option<Vec<String>>, b: &Option<Vec<String>>) -> (equal: bool)
    ensures
        equal == same_endpoints(*a, *b),
{
    match (a, b) {
        (Some(left), Some(right)) => {
            if left.len() != right.len() {
                return false;
            }
            let mut i: usize = 0;
            while i < left.len()
                invariant
                    0 <= i <= left.len(),
                    left.len() == right.len(),
                    *a == Some(*left),
                    *b == Some(*right),
                    forall|j: int| 0 <= j < i ==> (#[trigger] left@[j])@ == right@[j]@,
                decreases left.len() - i,
            {
                if left[i] != right[i] {
                    assert(left@[i as int]@ != right@[i as int]@);
                    return false;
                }
                i = i + 1;
            }
            true
        },
        (None, None) => true,
        _ => false,
    }
}

fn metas_equal(a: &Option<Vec<RainConfigMetaType>>, b: &Option<Vec<RainConfigMetaType>>) -> (equal:
    bool)
    ensures
        equal == same_metas(*a, *b),
{
    match (a, b) {
        (Some(left), Some(right)) => {
            if left.len() != right.len() {
                return false;
            }
            let mut i: usize = 0;
            while i < left.len()
                invariant
                    0 <= i <= left.len(),
                    left.len() == right.len(),
                    *a == Some(*left),
                    *b == Some(*right),
                    forall|j: int| 0 <= j < i ==> same_meta(#[trigger] left@[j], right@[j]),
                decreases left.len() - i,
            {
                if left[i] != right[i] {
                    assert(!same_meta(left@[i as int], right@[i as int]));
                    return false;
                }
                i = i + 1;
            }
            true
        },
        (None, None) => true,
        _ => false,
    }
}

fn bundles_equal(
    a: &Option<Vec<(String, RainConfigDeployer)>>,
    b: &Option<Vec<(String, RainConfigDeployer)>>,
) -> (equal: bool)
    ensures
        equal == same_bundles(*a, *b),
{
    match (a, b) {
        (Some(left), Some(right)) => {
            if left.len() != right.len() {
                return false;
            }
            let mut i: usize = 0;
            while i < left.len()
                invariant
                    0 <= i <= left.len(),
                    left.len() == right.len(),
                    *a == Some(*left),
                    *b == Some(*right),
                    forall|j: int|
                        0 <= j < i ==> (#[trigger] left@[j]).0@ == right@[j].0@ && same_deployer(
                            left@[j].1,
                            right@[j].1,
                        ),
                decreases left.len() - i,
            {
                if left[i].0 != right[i].0 || left[i].1 != right[i].1 {
                    assert(!(left@[i as int].0@ == right@[i as int].0@ && same_deployer(
                        left@[i as int].1,
                        right@[i as int].1,
                    )));
                    return false;
                }
                i = i + 1;
            }
            true
        },
        (None, None) => true,
        _ => false,
    }
}

impl PartialEq for RainConfigStruct {
    fn eq(&self, other: &RainConfigStruct) -> (equal: bool) {
        paths_equal(&self.included, &other.included) && endpoints_equal(
            &self.subgraphs,
            &other.subgraphs,
        ) && metas_equal(&self.meta, &other.meta) && bundles_equal(&self.deployers, &other.deployers)
    }
}

impl vstd::std_specs::cmp::PartialEqSpecImpl for RainConfigStruct {
    open spec fn obeys_eq_spec() -> bool {
        true
    }

    open spec fn eq_spec(&self, other: &RainConfigStruct) -> bool {
        same_config(*self, *other)
    }
}

} // verus!
