//! One run: what is to be done for a command line, step by step. The steps
//! are handed out as a list; whoever carries them out does so in order and
//! stops at the first that fails.

use crate::args::{parse_args, parsed, Args, ArgsView};
use crate::error::CreateErrorView;
use crate::file::{created, NewFile, NewFileView};
use crate::store::TemplateStoreView;
use crate::text::{same_text, texts};
use vstd::prelude::*;

verus! {

/// One step of a run.
#[derive(Debug, PartialEq, Eq)]
pub enum Task {
    /// Show how the program is used. Nothing else is done in such a run.
    ShowUsage,
    /// Read the templates from the user's configuration.
    LoadTemplates,
    /// Create this file.
    Create(NewFile),
    /// Make a git repository in the working directory.
    InitRepository,
    /// Open the editor with these arguments and wait for it.
    LaunchEditor(Vec<String>),
}

/// A `Task` as contracts see it.
pub enum TaskView {
    ShowUsage,
    LoadTemplates,
    Create(NewFileView),
    InitRepository,
    LaunchEditor(Seq<Seq<char>>),
}

impl View for Task {
    type V = TaskView;

    open spec fn view(&self) -> TaskView {
        match self {
            Task::ShowUsage => TaskView::ShowUsage,
            Task::LoadTemplates => TaskView::LoadTemplates,
            Task::Create(file) => TaskView::Create(file@),
            Task::InitRepository => TaskView::InitRepository,
            Task::LaunchEditor(arguments) => TaskView::LaunchEditor(texts(arguments@)),
        }
    }
}

/// The views of a list of tasks.
pub open spec fn task_views(tasks: Seq<Task>) -> Seq<TaskView> {
    tasks.map_values(|task: Task| task@)
}

/// Whether `token` asks how the program is used.
pub open spec fn is_help_flag(token: Seq<char>) -> bool {
    token == "-h"@ || token == "--help"@
}

/// Whether a run only shows how the program is used: it does so for an
/// empty command line, and where a token asks for it, wherever it stands.
pub open spec fn wants_usage(tokens: Seq<Seq<char>>) -> bool {
    tokens.len() == 0 || exists|i: int| 0 <= i < tokens.len() && is_help_flag(#[trigger] tokens[i])
}

/// The names under which files are created and opened.
pub open spec fn names(files: Seq<NewFileView>) -> Seq<Seq<char>> {
    files.map_values(|file: NewFileView| file.name())
}

/// What the editor is started with: what the command line hands on to it,
/// then the name of each file, in order.
pub open spec fn editor_args(args: ArgsView) -> Seq<Seq<char>> {
    args.extra_editor_args + names(args.files_to_process)
}

/// One task for each file, in order.
pub open spec fn creations(files: Seq<NewFileView>) -> Seq<TaskView> {
    files.map_values(|file: NewFileView| TaskView::Create(file))
}

/// The steps that `args` ask for: the templates are read, the files are
/// created in order, then the repository is made if it is asked for, then
/// the editor is opened unless it is to stay closed.
pub open spec fn scheduled(args: ArgsView) -> Seq<TaskView> {
    seq![TaskView::LoadTemplates] + creations(args.files_to_process) + (if args.create_git_repo {
        seq![TaskView::InitRepository]
    } else {
        Seq::empty()
    }) + (if args.no_editor {
        Seq::empty()
    } else {
        seq![TaskView::LaunchEditor(editor_args(args))]
    })
}

/// The steps of the run that a command line asks for.
pub open spec fn planned(tokens: Seq<Seq<char>>) -> Seq<TaskView> {
    if wants_usage(tokens) {
        seq![TaskView::ShowUsage]
    } else {
        scheduled(parsed(tokens))
    }
}

/// Whether the command line only asks how the program is used.
pub fn asks_for_usage(tokens: &[String]) -> (asked: bool)
    ensures
        asked == wants_usage(texts(tokens@)),
{
    let mut at: usize = 0;
    while at < tokens.len()
        invariant
            at <= tokens.len(),
            forall|i: int| 0 <= i < at ==> !is_help_flag(#[trigger] texts(tokens@)[i]),
        decreases tokens.len() - at,
    {
        let token = tokens[at].as_str();
        if same_text(token, "-h") || same_text(token, "--help") {
            assert(is_help_flag(texts(tokens@)[at as int]));
            return true;
        }
        at += 1;
    }
    tokens.len() == 0
}

/// What the editor is started with.
pub fn editor_arguments(args: &Args) -> (arguments: Vec<String>)
    ensures
        texts(arguments@) == editor_args(args@),
{
    let mut arguments: Vec<String> = Vec::new();
    let mut at: usize = 0;
    while at < args.extra_editor_args.len()
        invariant
            at <= args.extra_editor_args.len(),
            texts(arguments@) == args@.extra_editor_args.take(at as int),
        decreases args.extra_editor_args.len() - at,
    {
        arguments.push(args.extra_editor_args[at].clone());
        proof {
            assert(args@.extra_editor_args.take(at + 1) =~= args@.extra_editor_args.take(
                at as int,
            ).push(args@.extra_editor_args[at as int]));
        }
        at += 1;
    }
    let ghost files = args@.files_to_process;
    let mut next: usize = 0;
    while next < args.files_to_process.len()
        invariant
            next <= args.files_to_process.len(),
            files == args@.files_to_process,
            texts(arguments@) == args@.extra_editor_args + names(files.take(next as int)),
        decreases args.files_to_process.len() - next,
    {
        let name = args.files_to_process[next].to_string();
        arguments.push(name);
        proof {
            assert(args@.extra_editor_args + names(files.take(next + 1)) =~= (
            args@.extra_editor_args + names(files.take(next as int))).push(
                files[next as int].name(),
            ));
        }
        next += 1;
    }
    arguments
}

/// The steps that `args` ask for.
pub fn schedule(args: &Args) -> (tasks: Vec<Task>)
    ensures
        task_views(tasks@) == scheduled(args@),
{
    let ghost files = args@.files_to_process;
    let mut tasks: Vec<Task> = Vec::new();
    tasks.push(Task::LoadTemplates);
    let mut at: usize = 0;
    while at < args.files_to_process.len()
        invariant
            at <= args.files_to_process.len(),
            files == args@.files_to_process,
            task_views(tasks@) == seq![TaskView::LoadTemplates] + creations(files.take(at as int)),
        decreases args.files_to_process.len() - at,
    {
        let file = &args.files_to_process[at];
        let copy = NewFile {
            path: file.path.clone(),
            extention: file.extention.clone(),
            no_extention: file.no_extention,
        };
        tasks.push(Task::Create(copy));
        proof {
            assert(seq![TaskView::LoadTemplates] + creations(files.take(at + 1)) =~= (
            seq![TaskView::LoadTemplates] + creations(files.take(at as int))).push(
                TaskView::Create(file@),
            ));
        }
        at += 1;
    }
    let ghost created = tasks@;
    if args.create_git_repo {
        tasks.push(Task::InitRepository);
        proof {
            assert(task_views(tasks@) =~= task_views(created) + seq![TaskView::InitRepository]);
        }
    }
    let ghost settled = tasks@;
    if !args.no_editor {
        let arguments = editor_arguments(args);
        tasks.push(Task::LaunchEditor(arguments));
        proof {
            assert(task_views(tasks@) =~= task_views(settled) + seq![
                TaskView::LaunchEditor(editor_args(args@)),
            ]);
        }
    }
    tasks
}

/// The steps of the run that a command line asks for, without the
/// program's name.
pub fn plan(tokens: &[String]) -> (tasks: Vec<Task>)
    ensures
        task_views(tasks@) == planned(texts(tokens@)),
{
    if asks_for_usage(tokens) {
        let mut tasks: Vec<Task> = Vec::new();
        tasks.push(Task::ShowUsage);
        return tasks;
    }
    match parse_args(tokens) {
        Some(args) => schedule(&args),
        None => Vec::new(),
    }
}

/// What creating `files` in order comes to, in a directory that is known by
/// the names that are taken in it: the first failure, if there is one, and
/// the names that are taken afterwards. A file that is created takes its
/// name. The first file that fails ends the run: what was created before
/// it stays, and the files behind it are not tried.
pub open spec fn carried_out(
    files: Seq<NewFileView>,
    store: TemplateStoreView,
    taken: Set<Seq<char>>,
) -> (Option<CreateErrorView>, Set<Seq<char>>)
    decreases files.len(),
{
    if files.len() == 0 {
        (None, taken)
    } else {
        match created(files[0], store, taken.contains(files[0].name())) {
            Ok(creation) => carried_out(files.skip(1), store, taken.insert(creation.name)),
            Err(error) => (Some(error), taken),
        }
    }
}

/// A name that is taken stays taken, whatever is created.
pub proof fn lemma_taken_stays(
    files: Seq<NewFileView>,
    store: TemplateStoreView,
    taken: Set<Seq<char>>,
    name: Seq<char>,
)
    requires
        taken.contains(name),
    ensures
        carried_out(files, store, taken).1.contains(name),
    decreases files.len(),
{
    if files.len() > 0 {
        match created(files[0], store, taken.contains(files[0].name())) {
            Ok(creation) => {
                lemma_taken_stays(files.skip(1), store, taken.insert(creation.name), name);
            },
            Err(_) => {},
        }
    }
}

/// A run that created all of its files, and at least one, fails when it is
/// made again: the first file is refused as existing, and the second run
/// takes no name that was not taken before it.
pub proof fn lemma_second_run_refused(
    files: Seq<NewFileView>,
    store: TemplateStoreView,
    taken: Set<Seq<char>>,
)
    requires
        files.len() > 0,
        carried_out(files, store, taken).0 is None,
    ensures
        ({
            let after = carried_out(files, store, taken).1;
            carried_out(files, store, after) == (
                Some(CreateErrorView::FileExists(files[0].full_name())),
                after,
            )
        }),
{
    let first = files[0];
    let creation = created(first, store, taken.contains(first.name()))->Ok_0;
    lemma_taken_stays(files.skip(1), store, taken.insert(creation.name), first.name());
}

} // verus!
