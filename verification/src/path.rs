//! Paths as the operating system spells them, and what the build reads off them.

use vstd::prelude::*;
use vstd::slice::slice_to_vec;
use vstd::utf8::{decode_utf8, valid_utf8};
use crate::text::text_of;

verus! {

/// The byte that separates the components of a path.
pub const SEPARATOR: u8 = 47;

/// The byte that separates a file name from its extension.
pub const DOT: u8 = 46;

/// A path in the operating system's own encoding: a string of bytes that need
/// not be valid text.
#[derive(Debug)]
pub struct FilePath {
    pub bytes: Vec<u8>,
}

impl View for FilePath {
    type V = Seq<u8>;

    open spec fn view(&self) -> Seq<u8> {
        self.bytes@
    }
}

impl DeepView for FilePath {
    type V = Seq<u8>;

    open spec fn deep_view(&self) -> Seq<u8> {
        self.bytes@
    }
}

impl Clone for FilePath {
    fn clone(&self) -> (copy: FilePath)
        ensures
            copy@ == self@,
    {
        FilePath { bytes: slice_to_vec(self.bytes.as_slice()) }
    }
}

/// Whether two strings of bytes are the same.
pub fn same_bytes(a: &Vec<u8>, b: &Vec<u8>) -> (same: bool)
    ensures
        same == (a@ == b@),
{
    if a.len() != b.len() {
        return false;
    }
    let mut i: usize = 0;
    while i < a.len()
        invariant
            0 <= i <= a.len(),
            a.len() == b.len(),
            forall|j: int| 0 <= j < i ==> a@[j] == b@[j],
        decreases a.len() - i,
    {
        if a[i] != b[i] {
            return false;
        }
        i = i + 1;
    }
    assert(a@ =~= b@);
    true
}

impl PartialEq for FilePath {
    fn eq(&self, other: &FilePath) -> (equal: bool) {
        same_bytes(&self.bytes, &other.bytes)
    }
}

impl vstd::std_specs::cmp::PartialEqSpecImpl for FilePath {
    open spec fn obeys_eq_spec() -> bool {
        true
    }

    open spec fn eq_spec(&self, other: &FilePath) -> bool {
        self@ == other@
    }
}

/// The position of the last occurrence of `byte` in `s`.
pub open spec fn last_index_of(s: Seq<u8>, byte: u8) -> Option<int>
    decreases s.len(),
{
    if s.len() == 0 {
        None
    } else if s.last() == byte {
        Some(s.len() - 1)
    } else {
        last_index_of(s.drop_last(), byte)
    }
}

/// The final component of a path: what follows its last separator.
pub open spec fn file_name(path: Seq<u8>) -> Seq<u8> {
    match last_index_of(path, SEPARATOR) {
        Some(i) => path.subrange(i + 1, path.len() as int),
        None => path,
    }
}

/// The extension of a path: what follows the last dot of its final component,
/// unless that dot is the component's first byte.
pub open spec fn extension(path: Seq<u8>) -> Option<Seq<u8>> {
    let name = file_name(path);
    match last_index_of(name, DOT) {
        Some(i) => if i > 0 {
            Some(name.subrange(i + 1, name.len() as int))
        } else {
            None
        },
        None => None,
    }
}

/// The extension of dotrain source files, `rain`.
pub open spec fn dotrain_extension() -> Seq<u8> {
    seq![114u8, 97u8, 105u8, 110u8]
}

/// Whether a path names a dotrain source file.
pub open spec fn is_dotrain_path(path: Seq<u8>) -> bool {
    extension(path) == Some(dotrain_extension())
}

/// `last_index_of` finds an occurrence, and nothing occurs after it.
pub proof fn lemma_last_index_of(s: Seq<u8>, byte: u8)
    ensures
        match last_index_of(s, byte) {
            Some(i) => 0 <= i < s.len() && s[i] == byte && forall|j: int|
                i < j < s.len() ==> #[trigger] s[j] != byte,
            None => forall|j: int| 0 <= j < s.len() ==> #[trigger] s[j] != byte,
        },
    decreases s.len(),
{
    if s.len() > 0 && s.last() != byte {
        let front = s.drop_last();
        lemma_last_index_of(front, byte);
        assert forall|j: int| 0 <= j < front.len() implies front[j] == s[j] by {}
        match last_index_of(front, byte) {
            Some(i) => {
                assert forall|j: int| i < j < s.len() implies #[trigger] s[j] != byte by {
                    if j < front.len() {
                        assert(front[j] != byte);
                    }
                }
            },
            None => {
                assert forall|j: int| 0 <= j < s.len() implies #[trigger] s[j] != byte by {
                    if j < front.len() {
                        assert(front[j] != byte);
                    }
                }
            },
        }
    }
}

/// An occurrence with nothing after it is the one `last_index_of` finds.
pub proof fn lemma_last_index_of_is(s: Seq<u8>, byte: u8, i: int)
    requires
        0 <= i < s.len(),
        s[i] == byte,
        forall|j: int| i < j < s.len() ==> #[trigger] s[j] != byte,
    ensures
        last_index_of(s, byte) == Some(i),
{
    lemma_last_index_of(s, byte);
}

/// The position of the last occurrence of `byte` in `v` at or after `from`.
fn find_last(v: &Vec<u8>, from: usize, byte: u8) -> (r: Option<usize>)
    requires
        from <= v.len(),
    ensures
        match r {
            Some(i) => from <= i < v.len() && last_index_of(
                v@.subrange(from as int, v.len() as int),
                byte,
            ) == Some(i - from),
            None => last_index_of(v@.subrange(from as int, v.len() as int), byte) is None,
        },
{
    let ghost tail = v@.subrange(from as int, v.len() as int);
    let mut i: usize = v.len();
    while i > from
        invariant
            from <= i <= v.len(),
            tail == v@.subrange(from as int, v.len() as int),
            forall|j: int| i - from <= j < tail.len() ==> #[trigger] tail[j] != byte,
        decreases i,
    {
        i = i - 1;
        if v[i] == byte {
            proof {
                lemma_last_index_of_is(tail, byte, i - from);
            }
            return Some(i);
        }
    }
    proof {
        lemma_last_index_of(tail, byte);
    }
    None
}

/// The URI of a path: the path as text, where it is valid text.
pub open spec fn uri_of(path: Seq<u8>) -> Option<Seq<char>> {
    if valid_utf8(path) {
        Some(decode_utf8(path))
    } else {
        None
    }
}

impl FilePath {
    /// The URI under which a file of this path is known, if the path is valid text.
    pub fn to_uri(&self) -> (uri: Option<String>)
        ensures
            match uri {
                Some(text) => uri_of(self@) == Some(text@),
                None => uri_of(self@) is None,
            },
    {
        match text_of(self.bytes.as_slice()) {
            Some(text) => Some(text.to_owned()),
            None => None,
        }
    }

    /// Whether the path names a dotrain source file.
    pub fn is_dotrain(&self) -> (b: bool)
        ensures
            b == is_dotrain_path(self@),
    {
        let len: usize = self.bytes.len();
        let start: usize = match find_last(&self.bytes, 0, SEPARATOR) {
            Some(i) => i + 1,
            None => 0,
        };
        assert(self@.subrange(0, len as int) == self@);
        let ghost name = file_name(self@);
        assert(name == self@.subrange(start as int, len as int));
        match find_last(&self.bytes, start, DOT) {
            Some(dot) => {
                if dot > start && len - dot == 5 {
                    let hit = self.bytes[dot + 1] == 114 && self.bytes[dot + 2] == 97
                        && self.bytes[dot + 3] == 105 && self.bytes[dot + 4] == 110;
                    proof {
                        let ext = name.subrange(dot - start + 1, name.len() as int);
                        assert(ext.len() == 4);
                        assert(ext[0] == self@[dot + 1]);
                        assert(ext[1] == self@[dot + 2]);
                        assert(ext[2] == self@[dot + 3]);
                        assert(ext[3] == self@[dot + 4]);
                        if hit {
                            assert(ext =~= dotrain_extension());
                        }
                    }
                    hit
                } else {
                    proof {
                        if dot > start {
                            let ext = name.subrange(dot - start + 1, name.len() as int);
                            assert(ext.len() != dotrain_extension().len());
                        }
                    }
                    false
                }
            },
            None => false,
        }
    }
}

} // verus!
