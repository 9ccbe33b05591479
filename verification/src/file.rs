//! A file to create: its name, the template it is made from, and what is
//! written for it.

use crate::error::{CreateError, CreateErrorView};
use crate::store::{Entry, TemplateStore, TemplateStoreView};
use crate::template::{fill, filled};
use crate::text::{last_index_of, lemma_last_index_of, rfind, to_chars};
use vstd::prelude::*;

verus! {

/// The permission bits of a file that its owner may run: the owner reads,
/// writes and runs it, the others read it.
pub const EXECUTABLE_MODE: u32 = 0o744;

/// The permission bits of any other file: the owner reads and writes it,
/// the others read it.
pub const PLAIN_MODE: u32 = 0o644;

/// Whether the owner of a file with these permission bits may run it.
pub open spec fn owner_may_execute(mode: u32) -> bool {
    mode & 0o100 != 0
}

/// The permission bits of a new file.
pub open spec fn mode_of(executable: bool) -> u32 {
    if executable {
        EXECUTABLE_MODE
    } else {
        PLAIN_MODE
    }
}

/// The last segment of a path: what follows its last `/`, or all of it
/// where it holds none.
pub open spec fn last_segment(path: Seq<char>) -> Seq<char> {
    match last_index_of(path, '/') {
        Some(at) => path.skip(at + 1),
        None => path,
    }
}

/// A file to create.
#[derive(Debug, PartialEq, Eq)]
pub struct NewFile {
    /// Path of the file, without the extention.
    pub path: String,
    /// Extention of the file. It decides which template is used.
    pub extention: String,
    /// Whether the extention is left out of the created file's name.
    pub no_extention: bool,
}

/// A `NewFile` as contracts see it.
pub struct NewFileView {
    pub path: Seq<char>,
    pub extention: Seq<char>,
    pub no_extention: bool,
}

impl View for NewFile {
    type V = NewFileView;

    open spec fn view(&self) -> NewFileView {
        NewFileView {
            path: self.path@,
            extention: self.extention@,
            no_extention: self.no_extention,
        }
    }
}

impl NewFileView {
    /// The path with a `.` and the extention behind it.
    pub open spec fn full_name(self) -> Seq<char> {
        self.path + seq!['.'] + self.extention
    }

    /// The name under which the file is created and opened: the full name,
    /// or the bare path where the extention is left out.
    pub open spec fn name(self) -> Seq<char> {
        if self.no_extention {
            self.path
        } else {
            self.full_name()
        }
    }

    /// The name that placeholders stand for: the last segment of the path.
    pub open spec fn stem(self) -> Seq<char> {
        last_segment(self.path)
    }
}

/// What is written for a new file.
#[derive(Debug, PartialEq, Eq)]
pub struct Creation {
    /// The file's name, relative to the working directory.
    pub name: String,
    /// What the file holds.
    pub contents: String,
    /// The file's permission bits.
    pub mode: u32,
}

/// A `Creation` as contracts see it.
pub struct CreationView {
    pub name: Seq<char>,
    pub contents: Seq<char>,
    pub mode: u32,
}

impl View for Creation {
    type V = CreationView;

    open spec fn view(&self) -> CreationView {
        CreationView { name: self.name@, contents: self.contents@, mode: self.mode }
    }
}

/// The outcome of a creation as contracts see it.
pub open spec fn outcome(result: Result<Creation, CreateError>) -> Result<
    CreationView,
    CreateErrorView,
> {
    match result {
        Ok(creation) => Ok(creation@),
        Err(error) => Err(error@),
    }
}

/// What creating `file` from `store` comes to.
///
/// Where something stands at the file's place already, nothing is made,
/// and the error names the file with its extention, left out or not. Else
/// the template of the file's extention is looked up, left out or not: a
/// missing one and one that is no text are errors. Else the file gets its
/// name, the filled template, and the permission bits of its extention.
pub open spec fn created(file: NewFileView, store: TemplateStoreView, target_exists: bool) -> Result<
    CreationView,
    CreateErrorView,
> {
    if target_exists {
        Err(CreateErrorView::FileExists(file.full_name()))
    } else if !store.templates.contains_key(file.extention) {
        Err(CreateErrorView::TemplateDoesntExist(file.extention))
    } else {
        match store.templates[file.extention] {
            Entry::Text(template) => Ok(
                CreationView {
                    name: file.name(),
                    contents: filled(template, file.stem()),
                    mode: mode_of(store.executable.contains(file.extention)),
                },
            ),
            _ => Err(CreateErrorView::InvalidValueType(file.extention)),
        }
    }
}

/// The last segment of `path`.
pub fn base_name(path: &str) -> (stem: String)
    ensures
        stem@ == last_segment(path@),
{
    let chars = to_chars(path);
    match rfind(&chars, '/') {
        Some(at) => {
            proof {
                lemma_last_index_of(path@, '/');
            }
            path.substring_char(at + 1, chars.len()).to_owned()
        },
        None => path.to_owned(),
    }
}

impl NewFile {
    /// The name under which the file is created and opened.
    pub fn to_string(&self) -> (name: String)
        ensures
            name@ == self@.name(),
    {
        if self.no_extention {
            self.path.clone()
        } else {
            self.full_name()
        }
    }

    /// The file's name with its extention, left out or not.
    pub fn full_name(&self) -> (name: String)
        ensures
            name@ == self@.full_name(),
    {
        let mut name = self.path.clone();
        proof {
            reveal_strlit(".");
        }
        name.append(".");
        name.append(self.extention.as_str());
        name
    }

    /// Decides what is written for this file, given the template store and
    /// whether something stands at the file's place already.
    pub fn create(&self, store: &TemplateStore, target_exists: bool) -> (result: Result<
        Creation,
        CreateError,
    >)
        ensures
            outcome(result) == created(self@, store@, target_exists),
    {
        if target_exists {
            return Err(CreateError::FileExists(self.full_name()));
        }
        let template = match store.template(self.extention.as_str()) {
            Ok(template) => template,
            Err(error) => {
                return Err(error);
            },
        };
        let stem = base_name(self.path.as_str());
        let contents = fill(template.as_str(), stem.as_str());
        let mode = if store.is_executable(self.extention.as_str()) {
            EXECUTABLE_MODE
        } else {
            PLAIN_MODE
        };
        Ok(Creation { name: self.to_string(), contents, mode })
    }
}

/// The owner may run a file with the executable permission bits, and may
/// not run one with the plain bits.
pub proof fn lemma_owner_execute_bit()
    ensures
        owner_may_execute(EXECUTABLE_MODE),
        !owner_may_execute(PLAIN_MODE),
{
    assert(0o744u32 & 0o100u32 != 0) by (bit_vector);
    assert(0o644u32 & 0o100u32 == 0) by (bit_vector);
}

/// A created file may be run by its owner if and only if its extention is
/// listed as executable.
pub proof fn lemma_executable_iff_listed(file: NewFileView, store: TemplateStoreView)
    requires
        created(file, store, false) is Ok,
    ensures
        owner_may_execute(created(file, store, false)->Ok_0.mode) <==> store.executable.contains(
            file.extention,
        ),
{
    lemma_owner_execute_bit();
}

/// Where something stands at the file's place already, the file is refused
/// as existing, under its name with the extention, and nothing is to be
/// written. This holds whatever an earlier attempt came to, so a file that
/// was created is refused when it is asked for again.
pub proof fn lemma_taken_place_refused(file: NewFileView, store: TemplateStoreView)
    ensures
        created(file, store, true) == Err::<CreationView, CreateErrorView>(
            CreateErrorView::FileExists(file.full_name()),
        ),
{
}

/// A file whose extention has no template is refused for that, and nothing
/// is to be written.
pub proof fn lemma_missing_template_refused(file: NewFileView, store: TemplateStoreView)
    requires
        !store.templates.contains_key(file.extention),
    ensures
        created(file, store, false) == Err::<CreationView, CreateErrorView>(
            CreateErrorView::TemplateDoesntExist(file.extention),
        ),
{
}

/// A file whose extention is not left out is created under its path, a `.`
/// and its extention.
pub proof fn lemma_name_with_extention(file: NewFileView, store: TemplateStoreView)
    requires
        !file.no_extention,
        created(file, store, false) is Ok,
    ensures
        created(file, store, false)->Ok_0.name == file.path + seq!['.'] + file.extention,
{
}

/// A file whose extention is left out is created under its bare path. Its
/// template is still that of its extention: but for the name, the outcome
/// is the one of the same file with the extention kept.
pub proof fn lemma_extention_left_out(
    file: NewFileView,
    store: TemplateStoreView,
    target_exists: bool,
)
    requires
        file.no_extention,
    ensures
        ({
            let kept = NewFileView { no_extention: false, ..file };
            match (created(file, store, target_exists), created(kept, store, target_exists)) {
                (Ok(bare), Ok(full)) => {
                    &&& bare.name == file.path
                    &&& bare.contents == full.contents
                    &&& bare.mode == full.mode
                },
                (Err(bare), Err(full)) => bare == full,
                _ => false,
            }
        }),
{
}

} // verus!
