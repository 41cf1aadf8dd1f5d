//! The file collector: from the files of the scanned directories, in the order
//! in which they were read, to the module set, and what holds of that set.

use crate::encoding::{base64_bytes, lemma_base64_round_trip};
use crate::error::{invalid_text_cause, UploadError, UploadErrorView};
use crate::files::{classified, FileKind};
use crate::modules::{encodable, loaded, Loaded, ModuleEntry, ModuleSet};
use vstd::prelude::*;
use vstd::utf8::*;

verus! {

/// A file as it was read from a scanned directory.
#[derive(Debug, PartialEq, Eq)]
pub struct SourceFile {
    /// The name of the file, without the directory.
    pub name: String,
    /// What the file holds.
    pub bytes: Vec<u8>,
}

/// The module set that the files give, taken in one after the other, or `None`
/// where one of them is a script that is not valid UTF-8.
pub open spec fn collected(files: Seq<SourceFile>) -> Option<Map<Seq<char>, ModuleEntry>>
    decreases files.len(),
{
    if files.len() == 0 {
        Some(Map::empty())
    } else {
        match collected(files.drop_last()) {
            Some(map) => match loaded(files.last().name@, files.last().bytes@) {
                Loaded::Skipped => Some(map),
                Loaded::Unreadable => None,
                Loaded::Module(name, entry) => Some(map.insert(name, entry)),
            },
            None => None,
        }
    }
}

/// Every binary among the files can be encoded on this machine.
pub open spec fn all_encodable(files: Seq<SourceFile>) -> bool {
    forall|i: int|
        0 <= i < files.len() ==> (classified(#[trigger] files[i].name@) matches Some((_, kind))
            ==> encodable(kind, files[i].bytes@.len()))
}

/// Builds the module set from the files of the scanned directories, in the
/// order in which they were read. The first script that is not valid UTF-8 ends
/// the work with an I/O error.
pub fn collect_modules(files: &Vec<SourceFile>) -> (r: Result<ModuleSet, UploadError>)
    requires
        all_encodable(files@),
    ensures
        match r {
            Ok(set) => collected(files@) == Some(set@),
            Err(e) => collected(files@) is None && e@ == UploadErrorView::Io(invalid_text_cause()),
        },
{
    let mut set = ModuleSet::new();
    let mut i: usize = 0;
    while i < files.len()
        invariant
            i <= files@.len(),
            all_encodable(files@),
            collected(files@.take(i as int)) == Some(set@),
        decreases files@.len() - i,
    {
        let ghost before = files@.take(i as int);
        let ghost next = files@.take(i + 1);
        assert(next.drop_last() =~= before);
        assert(next.last() == files@[i as int]);
        assert(classified(files@[i as int].name@) matches Some((_, kind)) ==> encodable(
            kind,
            files@[i as int].bytes@.len(),
        ));
        match set.add_file(files[i].name.as_str(), files[i].bytes.as_slice()) {
            Ok(()) => {},
            Err(e) => {
                proof {
                    lemma_collected_fails_for_good(files@, i + 1);
                }
                return Err(e);
            },
        }
        i = i + 1;
    }
    assert(files@.take(i as int) =~= files@);
    Ok(set)
}

/// Once a front part of the files cannot be collected, no longer part can.
pub proof fn lemma_collected_fails_for_good(files: Seq<SourceFile>, n: int)
    requires
        0 <= n <= files.len(),
        collected(files.take(n)) is None,
    ensures
        collected(files) is None,
    decreases files.len() - n,
{
    if n < files.len() {
        assert(files.take(n + 1).drop_last() =~= files.take(n));
        lemma_collected_fails_for_good(files, n + 1);
    } else {
        assert(files.take(n) =~= files);
    }
}

/// Whether `file` is a script or a binary with the base name `name`.
pub open spec fn provides(file: SourceFile, name: Seq<char>) -> bool {
    classified(file.name@) matches Some((stem, _)) && stem == name
}

/// Where the files can be collected, none of them is an unreadable script.
pub proof fn lemma_collected_files_are_readable(files: Seq<SourceFile>, i: int)
    requires
        collected(files) is Some,
        0 <= i < files.len(),
    ensures
        loaded(files[i].name@, files[i].bytes@) != Loaded::Unreadable,
    decreases files.len(),
{
    if i < files.len() - 1 {
        lemma_collected_files_are_readable(files.drop_last(), i);
    }
}

/// Filter: a file that is neither a script nor a binary never shows in the
/// module set. Wherever it stands among the files, the set that is collected
/// with it is the set that is collected without it.
pub proof fn lemma_other_files_are_ignored(
    before: Seq<SourceFile>,
    file: SourceFile,
    after: Seq<SourceFile>,
)
    requires
        classified(file.name@) is None,
    ensures
        collected(before.push(file) + after) == collected(before + after),
    decreases after.len(),
{
    if after.len() == 0 {
        assert(before.push(file) + after =~= before.push(file));
        assert(before + after =~= before);
        assert(before.push(file).drop_last() =~= before);
    } else {
        let front = after.drop_last();
        lemma_other_files_are_ignored(before, file, front);
        assert((before.push(file) + after).drop_last() =~= before.push(file) + front);
        assert((before + after).drop_last() =~= before + front);
    }
}

/// Filter: every module of the collected set comes from an accepted file. Its
/// name is the base name of a script or a binary among the files.
pub proof fn lemma_modules_come_from_accepted_files(files: Seq<SourceFile>, name: Seq<char>)
    requires
        collected(files) matches Some(map) && map.contains_key(name),
    ensures
        exists|i: int| 0 <= i < files.len() && provides(#[trigger] files[i], name),
    decreases files.len(),
{
    let front = files.drop_last();
    if provides(files.last(), name) {
        assert(provides(files[files.len() - 1], name));
    } else {
        lemma_modules_come_from_accepted_files(front, name);
        let i = choose|i: int| 0 <= i < front.len() && provides(#[trigger] front[i], name);
        assert(provides(files[i], name));
    }
}

/// Last write wins: of the scripts and binaries with one base name, the one
/// that was read last is the module of that name, whatever was read before it.
pub proof fn lemma_last_file_wins(files: Seq<SourceFile>, last: int, name: Seq<char>)
    requires
        collected(files) is Some,
        0 <= last < files.len(),
        provides(files[last], name),
        forall|i: int| last < i < files.len() ==> !provides(#[trigger] files[i], name),
    ensures
        collected(files)->0.contains_key(name),
        loaded(files[last].name@, files[last].bytes@) == Loaded::Module(
            name,
            collected(files)->0[name],
        ),
    decreases files.len(),
{
    if last < files.len() - 1 {
        let front = files.drop_last();
        assert(!provides(files[files.len() - 1], name));
        assert forall|i: int| last < i < front.len() implies !provides(
            #[trigger] front[i],
            name,
        ) by {
            assert(!provides(files[i], name));
        }
        lemma_last_file_wins(front, last, name);
    }
}

/// Identity: a script is uploaded as exactly the text that its bytes encode.
/// The module of its name is that text, and the UTF-8 encoding of the module is
/// the file.
pub proof fn lemma_script_text_is_kept(files: Seq<SourceFile>, last: int, name: Seq<char>)
    requires
        collected(files) is Some,
        0 <= last < files.len(),
        classified(files[last].name@) == Some((name, FileKind::Script)),
        forall|i: int| last < i < files.len() ==> !provides(#[trigger] files[i], name),
    ensures
        collected(files)->0.contains_key(name),
        collected(files)->0[name] == ModuleEntry::Text(decode_utf8(files[last].bytes@)),
        encode_utf8(decode_utf8(files[last].bytes@)) == files[last].bytes@,
{
    broadcast use decode_utf8_encode_utf8;

    lemma_collected_files_are_readable(files, last);
    lemma_last_file_wins(files, last, name);
}

/// Round trip: a binary is uploaded as base64 text from which exactly its
/// bytes are read back.
pub proof fn lemma_binary_bytes_are_recovered(files: Seq<SourceFile>, last: int, name: Seq<char>)
    requires
        collected(files) is Some,
        0 <= last < files.len(),
        classified(files[last].name@) == Some((name, FileKind::Binary)),
        forall|i: int| last < i < files.len() ==> !provides(#[trigger] files[i], name),
    ensures
        collected(files)->0.contains_key(name),
        collected(files)->0[name] matches ModuleEntry::Binary { binary } && base64_bytes(binary)
            == Some(files[last].bytes@),
{
    lemma_last_file_wins(files, last, name);
    lemma_base64_round_trip(files[last].bytes@);
}

} // verus!
