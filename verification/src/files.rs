//! Where the files are looked for and which of them become modules: a target
//! directory stands under the root, or under the build subdirectory of the
//! root; a file name is split at its last dot into a base name and an
//! extension, and only the script and the binary extension are accepted.

use crate::text::same_text;
use vstd::prelude::*;
use vstd::string::*;

verus! {

/// The parts of the path of a target directory, in the order in which they are
/// joined: the root, the build subdirectory where one is configured, and the
/// target.
pub open spec fn target_parts<T>(root: T, build_path: Option<T>, target: T) -> Seq<T> {
    match build_path {
        Some(build) => seq![root, build, target],
        None => seq![root, target],
    }
}

/// Resolves a target directory: gives the parts of its path, for the caller to
/// join in this order. Without a build subdirectory the target stands directly
/// under the root.
pub fn target_dir_parts<T>(root: T, build_path: Option<T>, target: T) -> (parts: Vec<T>)
    ensures
        parts@ == target_parts(root, build_path, target),
{
    let mut parts: Vec<T> = Vec::new();
    parts.push(root);
    match build_path {
        Some(build) => {
            parts.push(build);
        },
        None => {},
    }
    parts.push(target);
    assert(parts@ =~= target_parts(root, build_path, target));
    parts
}

/// The two kinds of file that are uploaded.
#[derive(Clone, Copy, Debug, PartialEq, Eq)]
pub enum FileKind {
    /// A script, uploaded as its text.
    Script,
    /// A compiled binary, uploaded as base64.
    Binary,
}

/// The extension of script files.
pub open spec fn script_extension() -> Seq<char> {
    seq!['j', 's']
}

/// The extension of binary files.
pub open spec fn binary_extension() -> Seq<char> {
    seq!['w', 'a', 's', 'm']
}

/// The position of the last `.` of `name`, or -1 where it has none.
pub open spec fn last_dot(name: Seq<char>) -> int
    decreases name.len(),
{
    if name.len() == 0 {
        -1
    } else if name.last() == '.' {
        name.len() - 1
    } else {
        last_dot(name.drop_last())
    }
}

/// The name of the parent directory, which is no file name.
pub open spec fn parent_name() -> Seq<char> {
    seq!['.', '.']
}

/// The base name and the extension of a file name: what stands before and after
/// its last dot. A name without a dot, or with its only dot in front, has
/// neither, and neither has the name `..`.
pub open spec fn split_name(name: Seq<char>) -> Option<(Seq<char>, Seq<char>)> {
    let dot = last_dot(name);
    if dot <= 0 || name == parent_name() {
        None
    } else {
        Some((name.take(dot), name.skip(dot + 1)))
    }
}

/// The kind of file that an extension stands for, if any.
pub open spec fn kind_of_extension(extension: Seq<char>) -> Option<FileKind> {
    if extension == script_extension() {
        Some(FileKind::Script)
    } else if extension == binary_extension() {
        Some(FileKind::Binary)
    } else {
        None
    }
}

/// The module name and the kind of a file that is accepted, `None` for a file
/// that is skipped.
pub open spec fn classified(name: Seq<char>) -> Option<(Seq<char>, FileKind)> {
    match split_name(name) {
        Some((stem, extension)) => match kind_of_extension(extension) {
            Some(kind) => Some((stem, kind)),
            None => None,
        },
        None => None,
    }
}

/// `last_dot` is the position of a dot after which no dot follows, and -1 only
/// where the name has no dot at all.
pub proof fn lemma_last_dot(name: Seq<char>)
    ensures
        -1 <= last_dot(name) < name.len(),
        last_dot(name) >= 0 ==> name[last_dot(name)] == '.',
        forall|i: int| last_dot(name) < i < name.len() ==> name[i] != '.',
    decreases name.len(),
{
    if name.len() > 0 && name.last() != '.' {
        let front = name.drop_last();
        lemma_last_dot(front);
        assert forall|i: int| last_dot(name) < i < name.len() implies name[i] != '.' by {
            if i < front.len() {
                assert(front[i] == name[i]);
            }
        }
    }
}

/// Counts the characters of `s` and finds its last dot.
fn scan(s: &str) -> (r: (usize, Option<usize>))
    ensures
        r.0 == s@.len(),
        match r.1 {
            Some(i) => i == last_dot(s@),
            None => last_dot(s@) == -1,
        },
{
    let total: usize = s.unicode_len();
    let mut n: usize = 0;
    let mut last: Option<usize> = None;
    for c in it: s.chars()
        invariant
            n == it.index(),
            it.seq() == s@,
            total == s@.len(),
            match last {
                Some(i) => i == last_dot(s@.take(n as int)),
                None => last_dot(s@.take(n as int)) == -1,
            },
    {
        assert(s@.take(n + 1).drop_last() =~= s@.take(n as int));
        if c == '.' {
            last = Some(n);
        }
        n = n + 1;
    }
    assert(s@.take(n as int) =~= s@);
    (n, last)
}

/// Splits a file name into base name and extension; `None` where it has not
/// both.
pub fn split_file_name(file_name: &str) -> (r: Option<(String, String)>)
    ensures
        match r {
            Some((stem, extension)) => split_name(file_name@) == Some((stem@, extension@)),
            None => split_name(file_name@) is None,
        },
{
    let (total, last) = scan(file_name);
    proof {
        lemma_last_dot(file_name@);
        reveal_strlit("..");
        assert(".."@ =~= parent_name());
    }
    match last {
        Some(dot) => {
            if dot == 0 || same_text(file_name, "..") {
                None
            } else {
                let stem = String::from_str(file_name.substring_char(0, dot));
                let extension = String::from_str(file_name.substring_char(dot + 1, total));
                assert(stem@ =~= file_name@.take(dot as int));
                assert(extension@ =~= file_name@.skip(dot + 1));
                Some((stem, extension))
            }
        },
        None => None,
    }
}

/// The kind of file that `extension` stands for: a script for `js`, a binary
/// for `wasm`, nothing for any other.
pub fn file_kind(extension: &str) -> (r: Option<FileKind>)
    ensures
        r == kind_of_extension(extension@),
{
    proof {
        reveal_strlit("js");
        reveal_strlit("wasm");
        assert("js"@ =~= script_extension());
        assert("wasm"@ =~= binary_extension());
    }
    if same_text(extension, "js") {
        Some(FileKind::Script)
    } else if same_text(extension, "wasm") {
        Some(FileKind::Binary)
    } else {
        None
    }
}

/// Decides what becomes of a directory entry by its file name: the module name
/// and the kind of an accepted file, `None` for one that is skipped.
pub fn classify(file_name: &str) -> (r: Option<(String, FileKind)>)
    ensures
        match r {
            Some((stem, kind)) => classified(file_name@) == Some((stem@, kind)),
            None => classified(file_name@) is None,
        },
{
    match split_file_name(file_name) {
        Some((stem, extension)) => match file_kind(extension.as_str()) {
            Some(kind) => Some((stem, kind)),
            None => None,
        },
        None => None,
    }
}

} // verus!
