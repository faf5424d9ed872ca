//! What the file system gave when it was asked: the directories that were
//! listed and the files that were read, each with its outcome.

use vstd::prelude::*;
use vstd::utf8::{decode_utf8, valid_utf8};
use crate::error::{BuildError, BuildFailure};
use crate::path::FilePath;
use crate::text::text_of;

verus! {

/// The operating system's refusal of a read.
#[derive(Clone, Debug)]
pub struct IoFailure {
    pub message: String,
}

impl View for IoFailure {
    type V = Seq<char>;

    open spec fn view(&self) -> Seq<char> {
        self.message@
    }
}

/// One entry of a directory, with what lies below it.
#[derive(Debug)]
pub enum Entry {
    /// A directory, and its own listing or why it could not be listed. An
    /// entry of a listing is a failure where the listing broke off at it.
    Directory { path: FilePath, listing: Result<Vec<Result<Entry, IoFailure>>, IoFailure> },
    /// A regular file, and its bytes or why there are none: the read failed,
    /// or nobody asked for the content of this file.
    File { path: FilePath, content: Result<Vec<u8>, IoFailure> },
    /// Anything else.
    Other { path: FilePath },
}

/// The answers of the file system to the reads of one build.
#[derive(Debug)]
pub struct Snapshot {
    /// The directories that were listed, by path.
    pub directories: Vec<(FilePath, Result<Vec<Result<Entry, IoFailure>>, IoFailure>)>,
    /// The files that were read, by path.
    pub files: Vec<(FilePath, Result<Vec<u8>, IoFailure>)>,
}

/// The message of the failure that stands for a path of which a snapshot holds nothing.
pub open spec fn absent_message() -> Seq<char> {
    "no such file or directory"@
}

/// The message of the failure to read a file as text that is not valid UTF-8.
pub open spec fn invalid_text_message() -> Seq<char> {
    "stream did not contain valid UTF-8"@
}

/// The text of a file, given what reading it gave.
pub open spec fn text_of_file(path: Seq<u8>, content: Result<Seq<u8>, Seq<char>>) -> Result<
    Seq<char>,
    BuildFailure,
> {
    match content {
        Ok(bytes) => if valid_utf8(bytes) {
            Ok(decode_utf8(bytes))
        } else {
            Err(BuildFailure::Io { path, message: invalid_text_message() })
        },
        Err(message) => Err(BuildFailure::Io { path, message }),
    }
}

/// The outcome of reading a file, as `text_of_file` takes it.
pub open spec fn content_view(content: Result<Vec<u8>, IoFailure>) -> Result<Seq<u8>, Seq<char>> {
    match content {
        Ok(bytes) => Ok(bytes@),
        Err(failure) => Err(failure@),
    }
}

/// The position of the first pair in `pairs` whose path is `path`.
pub open spec fn position_of<T>(pairs: Seq<(FilePath, T)>, path: Seq<u8>) -> Option<int>
    decreases pairs.len(),
{
    if pairs.len() == 0 {
        None
    } else if pairs.last().0@ == path && position_of(pairs.drop_last(), path) is None {
        Some(pairs.len() - 1)
    } else {
        position_of(pairs.drop_last(), path)
    }
}

/// `position_of` finds a pair with the path, and none stands before it.
pub proof fn lemma_position_of<T>(pairs: Seq<(FilePath, T)>, path: Seq<u8>)
    ensures
        match position_of(pairs, path) {
            Some(i) => 0 <= i < pairs.len() && pairs[i].0@ == path && forall|j: int|
                0 <= j < i ==> (#[trigger] pairs[j]).0@ != path,
            None => forall|j: int| 0 <= j < pairs.len() ==> (#[trigger] pairs[j]).0@ != path,
        },
    decreases pairs.len(),
{
    if pairs.len() > 0 {
        let front = pairs.drop_last();
        lemma_position_of(front, path);
        assert forall|j: int| 0 <= j < front.len() implies front[j] == pairs[j] by {}
        match position_of(front, path) {
            Some(i) => {
                assert forall|j: int| 0 <= j < i implies (#[trigger] pairs[j]).0@ != path by {
                    assert(front[j].0@ != path);
                }
            },
            None => {
                assert forall|j: int| 0 <= j < front.len() implies (#[trigger] pairs[j]).0@
                    != path by {
                    assert(front[j].0@ != path);
                }
            },
        }
    }
}

/// The first pair in `pairs` whose path is `path`.
fn find<'a, T>(pairs: &'a Vec<(FilePath, T)>, path: &FilePath) -> (found: Option<&'a T>)
    ensures
        match found {
            Some(value) => position_of(pairs@, path@) matches Some(i) && *value == pairs@[i].1,
            None => position_of(pairs@, path@) is None,
        },
{
    let mut i: usize = 0;
    while i < pairs.len()
        invariant
            0 <= i <= pairs.len(),
            forall|j: int| 0 <= j < i ==> (#[trigger] pairs@[j]).0@ != path@,
        decreases pairs.len() - i,
    {
        if pairs[i].0 == *path {
            proof {
                lemma_position_of(pairs@, path@);
            }
            return Some(&pairs[i].1);
        }
        i = i + 1;
    }
    proof {
        lemma_position_of(pairs@, path@);
    }
    None
}

/// Reads a file as text, as `std::fs::read_to_string` would.
pub fn read_to_string<'a>(path: &FilePath, content: Result<&'a Vec<u8>, String>) -> (r: Result<
    &'a str,
    BuildError,
>)
    ensures
        match r {
            Ok(text) => text_of_file(
                path@,
                match content {
                    Ok(bytes) => Ok(bytes@),
                    Err(message) => Err(message@),
                },
            ) == Ok::<Seq<char>, BuildFailure>(text@),
            Err(e) => text_of_file(
                path@,
                match content {
                    Ok(bytes) => Ok(bytes@),
                    Err(message) => Err(message@),
                },
            ) == Err::<Seq<char>, BuildFailure>(e@),
        },
{
    match content {
        Ok(bytes) => match text_of(bytes.as_slice()) {
            Some(text) => Ok(text),
            None => Err(
                BuildError::Io {
                    path: path.clone(),
                    message: "stream did not contain valid UTF-8".to_string(),
                },
            ),
        },
        Err(message) => Err(BuildError::Io { path: path.clone(), message }),
    }
}

impl Snapshot {
    /// What listing the directory `path` gave. A directory that the snapshot
    /// does not hold counts as one that is not there.
    pub open spec fn listing_of(&self, path: Seq<u8>) -> Result<
        Seq<Result<Entry, IoFailure>>,
        Seq<char>,
    > {
        match position_of(self.directories@, path) {
            Some(i) => match self.directories@[i].1 {
                Ok(entries) => Ok(entries@),
                Err(failure) => Err(failure@),
            },
            None => Err(absent_message()),
        }
    }

    /// What reading the file `path` gave. A file that the snapshot does not
    /// hold counts as one that is not there.
    pub open spec fn content_of(&self, path: Seq<u8>) -> Result<Seq<u8>, Seq<char>> {
        match position_of(self.files@, path) {
            Some(i) => match self.files@[i].1 {
                Ok(bytes) => Ok(bytes@),
                Err(failure) => Err(failure@),
            },
            None => Err(absent_message()),
        }
    }

    /// The listing of the directory `path`, or the message of the failure.
    pub fn read_dir(&self, path: &FilePath) -> (r: Result<&Vec<Result<Entry, IoFailure>>, String>)
        ensures
            match r {
                Ok(entries) => self.listing_of(path@) == Ok::<
                    Seq<Result<Entry, IoFailure>>,
                    Seq<char>,
                >(entries@),
                Err(message) => self.listing_of(path@) == Err::<
                    Seq<Result<Entry, IoFailure>>,
                    Seq<char>,
                >(message@),
            },
    {
        match find(&self.directories, path) {
            Some(Ok(entries)) => Ok(entries),
            Some(Err(failure)) => Err(failure.message.clone()),
            None => Err("no such file or directory".to_string()),
        }
    }

    /// The bytes of the file `path`, or the message of the failure.
    pub fn read(&self, path: &FilePath) -> (r: Result<&Vec<u8>, String>)
        ensures
            match r {
                Ok(bytes) => self.content_of(path@) == Ok::<Seq<u8>, Seq<char>>(bytes@),
                Err(message) => self.content_of(path@) == Err::<Seq<u8>, Seq<char>>(message@),
            },
    {
        match find(&self.files, path) {
            Some(Ok(bytes)) => Ok(bytes),
            Some(Err(failure)) => Err(failure.message.clone()),
            None => Err("no such file or directory".to_string()),
        }
    }
}

} // verus!
