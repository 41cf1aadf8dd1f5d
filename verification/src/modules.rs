//! The module set: the files that are uploaded, each under its base name and in
//! the form in which it travels, script text as it is and a binary as base64.

use crate::encoding::{base64_len, base64_text, encode_base64};
use crate::error::{invalid_text_cause, UploadError, UploadErrorView};
use crate::files::{classified, classify, FileKind};
use crate::text::{decode_text, same_text};
use vstd::prelude::*;
use vstd::utf8::*;

verus! {

/// What is uploaded for one module.
#[derive(Debug, PartialEq, Eq)]
pub enum ModuleContent {
    /// The text of a script file.
    Text(String),
    /// A binary file; `binary` holds its bytes in base64.
    Binary { binary: String },
}

/// A `ModuleContent` with the text of its field in place of the string.
pub enum ModuleEntry {
    Text(Seq<char>),
    Binary { binary: Seq<char> },
}

impl View for ModuleContent {
    type V = ModuleEntry;

    open spec fn view(&self) -> ModuleEntry {
        match self {
            ModuleContent::Text(text) => ModuleEntry::Text(text@),
            ModuleContent::Binary { binary } => ModuleEntry::Binary { binary: binary@ },
        }
    }
}

/// What is uploaded for a file of the given kind that holds `bytes`: the text
/// that a script encodes, the base64 text of a binary. A script that is not
/// valid UTF-8 has none.
pub open spec fn encoded(kind: FileKind, bytes: Seq<u8>) -> Option<ModuleEntry> {
    match kind {
        FileKind::Script => if valid_utf8(bytes) {
            Some(ModuleEntry::Text(decode_utf8(bytes)))
        } else {
            None
        },
        FileKind::Binary => Some(ModuleEntry::Binary { binary: base64_text(bytes) }),
    }
}

/// Whether a file of the given kind and length can be encoded on this machine:
/// the base64 text of a binary has to fit in `usize`.
pub open spec fn encodable(kind: FileKind, len: nat) -> bool {
    kind == FileKind::Binary ==> base64_len(len) <= usize::MAX
}

impl ModuleContent {
    /// Encodes the content of a file of the given kind. A script that is not
    /// valid UTF-8 is an I/O error.
    pub fn from_file(kind: FileKind, bytes: &[u8]) -> (r: Result<ModuleContent, UploadError>)
        requires
            encodable(kind, bytes@.len()),
        ensures
            match r {
                Ok(content) => encoded(kind, bytes@) == Some(content@),
                Err(e) => encoded(kind, bytes@) is None && e@ == UploadErrorView::Io(
                    invalid_text_cause(),
                ),
            },
    {
        match kind {
            FileKind::Script => match decode_text(bytes) {
                Some(text) => Ok(ModuleContent::Text(text)),
                None => Err(UploadError::invalid_text()),
            },
            FileKind::Binary => Ok(ModuleContent::Binary { binary: encode_base64(bytes) }),
        }
    }
}

/// One module: the name it is uploaded under and its content.
#[derive(Debug, PartialEq, Eq)]
pub struct Module {
    pub name: String,
    pub content: ModuleContent,
}

/// The map that a list of modules stands for; of two modules with one name the
/// later counts.
pub open spec fn modules_map(list: Seq<Module>) -> Map<Seq<char>, ModuleEntry>
    decreases list.len(),
{
    if list.len() == 0 {
        Map::empty()
    } else {
        modules_map(list.drop_last()).insert(list.last().name@, list.last().content@)
    }
}

/// No two modules of the list have the same name.
pub open spec fn distinct_names(list: Seq<Module>) -> bool {
    forall|i: int, j: int| 0 <= i < j < list.len() ==> list[i].name@ != list[j].name@
}

/// The keys of `modules_map(list)` are the names in the list.
pub proof fn lemma_modules_map_keys(list: Seq<Module>)
    ensures
        forall|k: Seq<char>|
            modules_map(list).contains_key(k) <==> exists|i: int|
                0 <= i < list.len() && #[trigger] list[i].name@ == k,
        modules_map(list).dom().finite(),
    decreases list.len(),
{
    if list.len() > 0 {
        let front = list.drop_last();
        lemma_modules_map_keys(front);
        assert forall|k: Seq<char>| modules_map(list).contains_key(k) implies exists|i: int|
            0 <= i < list.len() && #[trigger] list[i].name@ == k by {
            if k == list.last().name@ {
                assert(list[list.len() - 1].name@ == k);
            } else {
                let i = choose|i: int| 0 <= i < front.len() && #[trigger] front[i].name@ == k;
                assert(list[i].name@ == k);
            }
        }
        assert forall|k: Seq<char>|
            (exists|i: int|
                0 <= i < list.len() && #[trigger] list[i].name@ == k) implies modules_map(
            list,
        ).contains_key(k) by {
            let i = choose|i: int| 0 <= i < list.len() && #[trigger] list[i].name@ == k;
            if i < front.len() {
                assert(front[i].name@ == k);
            }
        }
    }
}

/// Where the names are distinct, the map holds every module of the list under
/// its name, and has as many keys as the list has modules.
pub proof fn lemma_modules_map_values(list: Seq<Module>)
    requires
        distinct_names(list),
    ensures
        forall|i: int|
            0 <= i < list.len() ==> modules_map(list).contains_key(#[trigger] list[i].name@)
                && modules_map(list)[list[i].name@] == list[i].content@,
        modules_map(list).dom().finite(),
        modules_map(list).dom().len() == list.len(),
    decreases list.len(),
{
    if list.len() > 0 {
        let front = list.drop_last();
        assert(distinct_names(front)) by {
            assert forall|i: int, j: int| 0 <= i < j < front.len() implies front[i].name@
                != front[j].name@ by {
                assert(list[i].name@ != list[j].name@);
            }
        }
        lemma_modules_map_values(front);
        lemma_modules_map_keys(front);
        assert(!modules_map(front).contains_key(list.last().name@)) by {
            if modules_map(front).contains_key(list.last().name@) {
                let i = choose|i: int|
                    0 <= i < front.len() && #[trigger] front[i].name@ == list.last().name@;
                assert(list[i].name@ != list[list.len() - 1].name@);
            }
        }
        assert forall|i: int| 0 <= i < list.len() implies modules_map(list).contains_key(
            #[trigger] list[i].name@,
        ) && modules_map(list)[list[i].name@] == list[i].content@ by {
            if i < front.len() {
                assert(front[i].name@ == list[i].name@);
                assert(list[i].name@ != list[list.len() - 1].name@);
            }
        }
    }
}

/// The set of modules to upload, a map from module name to content. A name
/// occurs once; a module added under a name that is taken replaces the earlier.
pub struct ModuleSet {
    list: Vec<Module>,
}

impl View for ModuleSet {
    type V = Map<Seq<char>, ModuleEntry>;

    closed spec fn view(&self) -> Map<Seq<char>, ModuleEntry> {
        modules_map(self.list@)
    }
}

impl ModuleSet {
    #[verifier::type_invariant]
    spec fn well_formed(self) -> bool {
        distinct_names(self.list@)
    }

    /// The set without modules.
    pub fn new() -> (set: ModuleSet)
        ensures
            set@ == Map::<Seq<char>, ModuleEntry>::empty(),
    {
        ModuleSet { list: Vec::new() }
    }

    /// The place of the module called `name` in the list, if there is one.
    fn position(&self, name: &str) -> (r: Option<usize>)
        ensures
            match r {
                Some(i) => i < self.list@.len() && self.list@[i as int].name@ == name@,
                None => forall|i: int| 0 <= i < self.list@.len() ==> self.list@[i].name@ != name@,
            },
    {
        let mut i: usize = 0;
        while i < self.list.len()
            invariant
                i <= self.list@.len(),
                forall|j: int| 0 <= j < i ==> self.list@[j].name@ != name@,
            decreases self.list@.len() - i,
        {
            if same_text(self.list[i].name.as_str(), name) {
                return Some(i);
            }
            i = i + 1;
        }
        None
    }

    /// Puts `content` under `name`, in place of what was there under that name.
    pub fn insert(&mut self, name: String, content: ModuleContent)
        ensures
            final(self)@ == old(self)@.insert(name@, content@),
    {
        proof {
            use_type_invariant(&*self);
            lemma_modules_map_keys(self.list@);
            lemma_modules_map_values(self.list@);
        }
        let ghost before = self.list@;
        let ghost key = name@;
        let ghost value = content@;
        let found = self.position(name.as_str());
        let mut list: Vec<Module> = Vec::new();
        std::mem::swap(&mut self.list, &mut list);
        match found {
            Some(i) => {
                list.set(i, Module { name, content });
                proof {
                    let after = list@;
                    assert(distinct_names(after)) by {
                        assert forall|a: int, b: int| 0 <= a < b < after.len() implies after[a].name@
                            != after[b].name@ by {
                            assert(before[a].name@ != before[b].name@);
                        }
                    }
                    lemma_modules_map_keys(after);
                    lemma_modules_map_values(after);
                    assert forall|k: Seq<char>|
                        modules_map(after).contains_key(k) <==> modules_map(before).insert(
                            key,
                            value,
                        ).contains_key(k) by {
                        if modules_map(after).contains_key(k) {
                            let a = choose|a: int|
                                0 <= a < after.len() && #[trigger] after[a].name@ == k;
                            assert(before[a].name@ == k);
                        }
                        if modules_map(before).contains_key(k) {
                            let a = choose|a: int|
                                0 <= a < before.len() && #[trigger] before[a].name@ == k;
                            assert(after[a].name@ == k);
                        }
                        if k == key {
                            assert(after[i as int].name@ == k);
                        }
                    }
                    assert forall|k: Seq<char>| modules_map(after).contains_key(k) implies (
                    #[trigger] modules_map(after)[k]) == modules_map(before).insert(key, value)[k] by {
                        let a = choose|a: int|
                            0 <= a < after.len() && #[trigger] after[a].name@ == k;
                        assert(modules_map(after)[after[a].name@] == after[a].content@);
                        if a != i {
                            assert(before[a].name@ == k);
                            assert(modules_map(before)[before[a].name@] == before[a].content@);
                            assert(before[a].name@ != before[i as int].name@);
                        }
                    }
                    assert(modules_map(after) =~= modules_map(before).insert(key, value));
                }
            },
            None => {
                list.push(Module { name, content });
                proof {
                    let after = list@;
                    assert(after.drop_last() =~= before);
                    assert(distinct_names(after)) by {
                        assert forall|a: int, b: int| 0 <= a < b < after.len() implies after[a].name@
                            != after[b].name@ by {
                            if b < before.len() {
                                assert(before[a].name@ != before[b].name@);
                            } else {
                                assert(before[a].name@ != key);
                            }
                        }
                    }
                }
            },
        }
        self.list = list;
    }

    /// The content uploaded under `name`, if there is any.
    pub fn get(&self, name: &str) -> (r: Option<&ModuleContent>)
        ensures
            match r {
                Some(content) => self@.contains_key(name@) && self@[name@] == content@,
                None => !self@.contains_key(name@),
            },
    {
        proof {
            use_type_invariant(self);
            lemma_modules_map_keys(self.list@);
            lemma_modules_map_values(self.list@);
        }
        match self.position(name) {
            Some(i) => {
                assert(self.list@[i as int].name@ == name@);
                Some(&self.list[i].content)
            },
            None => None,
        }
    }

    /// The number of modules in the set.
    pub fn len(&self) -> (n: usize)
        ensures
            self@.dom().finite(),
            n == self@.dom().len(),
    {
        proof {
            use_type_invariant(self);
            lemma_modules_map_values(self.list@);
        }
        self.list.len()
    }

    /// The modules of the set as a list, every name once, in no order that
    /// callers may rely on.
    pub fn modules(&self) -> (list: &Vec<Module>)
        ensures
            distinct_names(list@),
            modules_map(list@) == self@,
    {
        proof {
            use_type_invariant(self);
        }
        &self.list
    }

    /// Takes in one file of a scanned directory. A file that `classify` skips
    /// changes nothing; a script or a binary is encoded and put under its base
    /// name; a script that is not valid UTF-8 is an I/O error and changes
    /// nothing.
    pub fn add_file(&mut self, file_name: &str, bytes: &[u8]) -> (r: Result<(), UploadError>)
        requires
            classified(file_name@) matches Some((_, kind)) ==> encodable(kind, bytes@.len()),
        ensures
            match loaded(file_name@, bytes@) {
                Loaded::Skipped => r is Ok && final(self)@ == old(self)@,
                Loaded::Unreadable => {
                    &&& final(self)@ == old(self)@
                    &&& r matches Err(e)
                    &&& e@ == UploadErrorView::Io(invalid_text_cause())
                },
                Loaded::Module(name, entry) => r is Ok && final(self)@ == old(self)@.insert(
                    name,
                    entry,
                ),
            },
    {
        match classify(file_name) {
            Some((name, kind)) => match ModuleContent::from_file(kind, bytes) {
                Ok(content) => {
                    self.insert(name, content);
                    Ok(())
                },
                Err(e) => Err(e),
            },
            None => Ok(()),
        }
    }
}

/// What a file of a scanned directory comes to.
pub enum Loaded {
    /// Not a script or a binary: left out.
    Skipped,
    /// A script that is not valid UTF-8.
    Unreadable,
    /// A module, with its name and its content.
    Module(Seq<char>, ModuleEntry),
}

/// What the file called `name` that holds `bytes` comes to.
pub open spec fn loaded(name: Seq<char>, bytes: Seq<u8>) -> Loaded {
    match classified(name) {
        Some((stem, kind)) => match encoded(kind, bytes) {
            Some(entry) => Loaded::Module(stem, entry),
            None => Loaded::Unreadable,
        },
        None => Loaded::Skipped,
    }
}

} // verus!
