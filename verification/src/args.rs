//! The command line: which files to create, which flags are set, and what
//! is handed on to the editor.

use crate::file::{NewFile, NewFileView};
use crate::text::{last_index_of, lemma_last_index_of, rfind, same_text, texts, to_chars};
use tuple_map::TupleMap2;
use vstd::prelude::*;

verus! {

/// What the command line asks for.
#[derive(Debug, PartialEq, Eq)]
pub struct Args {
    /// The files to create, in the order in which they were named.
    pub files_to_process: Vec<NewFile>,
    /// Whether a git repository is to be made.
    pub create_git_repo: bool,
    /// Whether the editor stays closed.
    pub no_editor: bool,
    /// What is handed to the editor before the files' names.
    pub extra_editor_args: Vec<String>,
}

/// `Args` as contracts see them.
pub struct ArgsView {
    pub files_to_process: Seq<NewFileView>,
    pub create_git_repo: bool,
    pub no_editor: bool,
    pub extra_editor_args: Seq<Seq<char>>,
}

/// The views of a list of files.
pub open spec fn file_views(files: Seq<NewFile>) -> Seq<NewFileView> {
    files.map_values(|file: NewFile| file@)
}

impl View for Args {
    type V = ArgsView;

    open spec fn view(&self) -> ArgsView {
        ArgsView {
            files_to_process: file_views(self.files_to_process@),
            create_git_repo: self.create_git_repo,
            no_editor: self.no_editor,
            extra_editor_args: texts(self.extra_editor_args@),
        }
    }
}

/// The token behind which everything belongs to the editor.
pub open spec fn separator() -> Seq<char> {
    "--"@
}

/// Whether `token` asks for a git repository.
pub open spec fn is_repo_flag(token: Seq<char>) -> bool {
    token == "-g"@ || token == "--create-git-repo"@
}

/// Whether `token` asks to leave the editor closed.
pub open spec fn is_editor_flag(token: Seq<char>) -> bool {
    token == "-n"@ || token == "--no-editor"@
}

/// Whether `token` is a flag and names no file.
pub open spec fn is_flag(token: Seq<char>) -> bool {
    is_repo_flag(token) || is_editor_flag(token)
}

/// The mark in front of a file whose extention is left out of its name.
pub open spec fn suppress_mark() -> Seq<char> {
    seq!['r', 'e', ':']
}

/// Whether `token` begins with the mark that leaves the extention out.
pub open spec fn is_suppressed(token: Seq<char>) -> bool {
    token.len() >= 3 && token.take(3) == suppress_mark()
}

/// The file that `token` names. The mark `re:` in front is taken off, once.
/// What is left is split at its last `.`: the path before it, the extention
/// behind it. Without a `.` all of it is the path, and the extention is empty.
pub open spec fn file_spec(token: Seq<char>) -> NewFileView {
    let no_extention = is_suppressed(token);
    let rest = if no_extention {
        token.skip(3)
    } else {
        token
    };
    match last_index_of(rest, '.') {
        Some(dot) => NewFileView {
            path: rest.take(dot),
            extention: rest.skip(dot + 1),
            no_extention,
        },
        None => NewFileView { path: rest, extention: Seq::empty(), no_extention },
    }
}

/// The files that `tokens` name: each token that is no flag names one, and
/// they keep the tokens' order. A name that comes twice gives two files.
pub open spec fn file_specs(tokens: Seq<Seq<char>>) -> Seq<NewFileView>
    decreases tokens.len(),
{
    if tokens.len() == 0 {
        Seq::empty()
    } else if is_flag(tokens.last()) {
        file_specs(tokens.drop_last())
    } else {
        file_specs(tokens.drop_last()).push(file_spec(tokens.last()))
    }
}

/// The position of the first separator among `tokens`, or their number
/// where there is none.
pub open spec fn cut(tokens: Seq<Seq<char>>) -> int
    decreases tokens.len(),
{
    if tokens.len() == 0 || tokens[0] == separator() {
        0
    } else {
        1 + cut(tokens.skip(1))
    }
}

/// Whether one of `tokens` asks for a git repository.
pub open spec fn any_repo_flag(tokens: Seq<Seq<char>>) -> bool {
    exists|i: int| 0 <= i < tokens.len() && is_repo_flag(#[trigger] tokens[i])
}

/// Whether one of `tokens` asks to leave the editor closed.
pub open spec fn any_editor_flag(tokens: Seq<Seq<char>>) -> bool {
    exists|i: int| 0 <= i < tokens.len() && is_editor_flag(#[trigger] tokens[i])
}

/// What `tokens` ask for. The tokens before the first separator are flags
/// and files, wherever a flag stands among them. Those behind it go to the
/// editor as they are.
pub open spec fn parsed(tokens: Seq<Seq<char>>) -> ArgsView {
    let at = cut(tokens);
    let own = tokens.take(at);
    ArgsView {
        files_to_process: file_specs(own),
        create_git_repo: any_repo_flag(own),
        no_editor: any_editor_flag(own),
        extra_editor_args: if at < tokens.len() {
            tokens.skip(at + 1)
        } else {
            Seq::empty()
        },
    }
}

/// No token is both a flag for the repository and one for the editor.
pub proof fn lemma_flags_apart(token: Seq<char>)
    ensures
        !(is_repo_flag(token) && is_editor_flag(token)),
{
    reveal_strlit("-g");
    reveal_strlit("--create-git-repo");
    reveal_strlit("-n");
    reveal_strlit("--no-editor");
    assert("-n"@.len() == 2 && "-n"@[1] == 'n');
    assert("--no-editor"@.len() == 11);
}

/// `cut` finds the first separator.
pub proof fn lemma_cut(tokens: Seq<Seq<char>>, at: int)
    requires
        0 <= at <= tokens.len(),
        forall|i: int| 0 <= i < at ==> tokens[i] != separator(),
        at < tokens.len() ==> tokens[at] == separator(),
    ensures
        cut(tokens) == at,
    decreases at,
{
    if at > 0 {
        let rest = tokens.skip(1);
        assert forall|i: int| 0 <= i < at - 1 implies rest[i] != separator() by {}
        lemma_cut(rest, at - 1);
    }
}

/// What stands behind the first separator is handed to the editor as it is
/// and in its order, and has no part in the flags and the files: they are
/// those of the tokens before the separator alone.
pub proof fn lemma_behind_separator(tokens: Seq<Seq<char>>, at: int)
    requires
        0 <= at < tokens.len(),
        tokens[at] == separator(),
        forall|i: int| 0 <= i < at ==> tokens[i] != separator(),
    ensures
        parsed(tokens).extra_editor_args == tokens.skip(at + 1),
        parsed(tokens).files_to_process == parsed(tokens.take(at)).files_to_process,
        parsed(tokens).create_git_repo == parsed(tokens.take(at)).create_git_repo,
        parsed(tokens).no_editor == parsed(tokens.take(at)).no_editor,
        parsed(tokens.take(at)).extra_editor_args == Seq::<Seq<char>>::empty(),
{
    let own = tokens.take(at);
    lemma_cut(tokens, at);
    lemma_cut(own, at);
    assert(own.take(at) =~= own);
}

/// A token with the mark `re:` names a file whose extention is left out
/// of its name: the file is created under its bare path.
pub proof fn lemma_marked_token(token: Seq<char>)
    requires
        is_suppressed(token),
    ensures
        file_spec(token).no_extention,
        file_spec(token).name() == file_spec(token).path,
{
}

/// A token without the mark that holds a `.` names the file that is
/// created under the token itself.
pub proof fn lemma_plain_token(token: Seq<char>)
    requires
        !is_suppressed(token),
        last_index_of(token, '.') is Some,
    ensures
        !file_spec(token).no_extention,
        file_spec(token).name() == token,
{
    lemma_last_index_of(token, '.');
}

/// An owned copy of `text`.
pub fn owned(text: &str) -> (copy: String)
    ensures
        copy@ == text@,
{
    text.to_owned()
}

/// Makes an owned string of each half of a pair with `TupleMap2::map` of
/// the `tuple_map` crate, which gives the pair of what the function makes
/// of the first half and of the second.
#[verifier::external_body]
fn owned_pair(halves: (&str, &str)) -> (copies: (String, String))
    ensures
        copies.0@ == halves.0@,
        copies.1@ == halves.1@,
{
    halves.map(|half| owned(half))
}

/// The file that `token` names.
pub fn parse_file_spec(token: &str) -> (file: NewFile)
    ensures
        file@ == file_spec(token@),
{
    let chars = to_chars(token);
    let no_extention = chars.len() >= 3 && chars[0] == 'r' && chars[1] == 'e' && chars[2] == ':';
    proof {
        if chars.len() >= 3 {
            assert(token@.take(3) =~= seq![token@[0], token@[1], token@[2]]);
        }
    }
    let rest = if no_extention {
        token.substring_char(3, chars.len())
    } else {
        token
    };
    let rest_chars = to_chars(rest);
    let halves = match rfind(&rest_chars, '.') {
        Some(dot) => {
            proof {
                lemma_last_index_of(rest@, '.');
            }
            (rest.substring_char(0, dot), rest.substring_char(dot + 1, rest_chars.len()))
        },
        None => {
            proof {
                reveal_strlit("");
                assert(""@ =~= Seq::<char>::empty());
            }
            (rest, "")
        },
    };
    let (path, extention) = owned_pair(halves);
    NewFile { path, extention, no_extention }
}

/// The position of the first `--` among `args`, or their number where
/// there is none.
pub fn find_separator(args: &[String]) -> (at: usize)
    ensures
        at == cut(texts(args@)),
        at <= args.len(),
{
    let ghost tokens = texts(args@);
    let mut at: usize = 0;
    while at < args.len()
        invariant
            at <= args.len(),
            tokens == texts(args@),
            forall|i: int| 0 <= i < at ==> tokens[i] != separator(),
        decreases args.len() - at,
    {
        if same_text(args[at].as_str(), "--") {
            proof {
                lemma_cut(tokens, at as int);
            }
            return at;
        }
        at += 1;
    }
    proof {
        lemma_cut(tokens, at as int);
    }
    at
}

/// Reads the command line, without the program's name.
///
/// Every command line is accepted. A flag counts wherever it stands before
/// the first `--`.
pub fn parse_args(args: &[String]) -> (read: Option<Args>)
    ensures
        read matches Some(found) && found@ == parsed(texts(args@)),
{
    let ghost tokens = texts(args@);
    let cut_at = find_separator(args);
    let ghost own = tokens.take(cut_at as int);
    let mut files_to_process: Vec<NewFile> = Vec::new();
    let mut create_git_repo = false;
    let mut no_editor = false;
    let mut at: usize = 0;
    while at < cut_at
        invariant
            at <= cut_at <= args.len(),
            tokens == texts(args@),
            own == tokens.take(cut_at as int),
            file_views(files_to_process@) == file_specs(own.take(at as int)),
            create_git_repo == any_repo_flag(own.take(at as int)),
            no_editor == any_editor_flag(own.take(at as int)),
        decreases cut_at - at,
    {
        let item = args[at].as_str();
        let ghost before = own.take(at as int);
        let ghost after = own.take(at + 1);
        proof {
            assert(after.drop_last() =~= before);
            assert forall|i: int| 0 <= i < before.len() implies before[i] == after[i] by {}
            lemma_flags_apart(item@);
            if is_repo_flag(item@) {
                assert(is_repo_flag(after[at as int]));
            }
            if is_editor_flag(item@) {
                assert(is_editor_flag(after[at as int]));
            }
        }
        if same_text(item, "-g") || same_text(item, "--create-git-repo") {
            create_git_repo = true;
        } else if same_text(item, "-n") || same_text(item, "--no-editor") {
            no_editor = true;
        } else {
            let file = parse_file_spec(item);
            files_to_process.push(file);
        }
        at += 1;
    }
    let mut extra_editor_args: Vec<String> = Vec::new();
    if cut_at < args.len() {
        let mut next: usize = cut_at + 1;
        while next < args.len()
            invariant
                cut_at < next <= args.len(),
                tokens == texts(args@),
                texts(extra_editor_args@) == tokens.subrange(cut_at + 1, next as int),
            decreases args.len() - next,
        {
            extra_editor_args.push(args[next].clone());
            proof {
                assert(tokens.subrange(cut_at + 1, next + 1) =~= tokens.subrange(
                    cut_at + 1,
                    next as int,
                ).push(tokens[next as int]));
            }
            next += 1;
        }
    } else {
        proof {
            assert(texts(extra_editor_args@) =~= Seq::<Seq<char>>::empty());
        }
    }
    proof {
        assert(own.take(cut_at as int) =~= own);
    }
    Some(Args { files_to_process, create_git_repo, no_editor, extra_editor_args })
}

} // verus!
