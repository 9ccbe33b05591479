use just_code::args::{find_separator, owned, parse_args, parse_file_spec, Args};
use just_code::file::NewFile;

fn tokens(words: &[&str]) -> Vec<String> {
    words.iter().map(|word| word.to_string()).collect()
}

fn file(path: &str, extention: &str, no_extention: bool) -> NewFile {
    NewFile { path: path.to_string(), extention: extention.to_string(), no_extention }
}

#[test]
fn owned_copies_a_text() {
    assert_eq!(owned("abc"), "abc".to_string());
    assert_eq!(owned(""), String::new());
}

#[test]
fn parse_file_spec_splits_at_the_last_dot() {
    assert_eq!(parse_file_spec("my_module.py"), file("my_module", "py", false));
    assert_eq!(parse_file_spec("a.tar.gz"), file("a.tar", "gz", false));
    assert_eq!(parse_file_spec("src/lib/main.rs"), file("src/lib/main", "rs", false));
    assert_eq!(parse_file_spec("../up.d/x"), file("../up", "d/x", false));
}

#[test]
fn parse_file_spec_without_dot_has_an_empty_extention() {
    assert_eq!(parse_file_spec("Makefile"), file("Makefile", "", false));
    assert_eq!(parse_file_spec(""), file("", "", false));
}

#[test]
fn parse_file_spec_with_a_dot_at_an_end() {
    assert_eq!(parse_file_spec(".gitignore"), file("", "gitignore", false));
    assert_eq!(parse_file_spec("name."), file("name", "", false));
    assert_eq!(parse_file_spec("."), file("", "", false));
}

#[test]
fn parse_file_spec_takes_the_mark_off() {
    assert_eq!(parse_file_spec("re:hello.sh"), file("hello", "sh", true));
    assert_eq!(parse_file_spec("re:a.b.c"), file("a.b", "c", true));
    assert_eq!(parse_file_spec("re:"), file("", "", true));
    assert_eq!(parse_file_spec("re:.sh"), file("", "sh", true));
}

#[test]
fn parse_file_spec_takes_the_mark_off_a_name_without_dot() {
    assert_eq!(parse_file_spec("re:hello"), file("hello", "", true));
}

#[test]
fn parse_file_spec_takes_the_mark_off_once() {
    assert_eq!(parse_file_spec("re:re:hello.sh"), file("re:hello", "sh", true));
}

#[test]
fn parse_file_spec_wants_the_mark_in_front() {
    assert_eq!(parse_file_spec("are:x.sh"), file("are:x", "sh", false));
    assert_eq!(parse_file_spec("re.x"), file("re", "x", false));
    assert_eq!(parse_file_spec("RE:x.sh"), file("RE:x", "sh", false));
    assert_eq!(parse_file_spec("re"), file("re", "", false));
}

#[test]
fn parse_file_spec_counts_characters() {
    assert_eq!(parse_file_spec("re:été.tëxt"), file("été", "tëxt", true));
    assert_eq!(parse_file_spec("日本.語"), file("日本", "語", false));
}

#[test]
fn find_separator_gives_the_first_one() {
    assert_eq!(find_separator(&tokens(&["a", "--", "b", "--"])), 1);
    assert_eq!(find_separator(&tokens(&["--"])), 0);
    assert_eq!(find_separator(&tokens(&["a", "b"])), 2);
    assert_eq!(find_separator(&tokens(&[])), 0);
    assert_eq!(find_separator(&tokens(&["---", "-", "-- "])), 3);
}

#[test]
fn parse_args_of_nothing_is_empty() {
    assert_eq!(
        parse_args(&tokens(&[])),
        Some(Args {
            files_to_process: vec![],
            create_git_repo: false,
            no_editor: false,
            extra_editor_args: vec![],
        })
    );
}

#[test]
fn parse_args_reads_files_in_order() {
    let read = parse_args(&tokens(&["main.py", "re:run.sh", "README"])).unwrap();
    assert_eq!(
        read.files_to_process,
        vec![file("main", "py", false), file("run", "sh", true), file("README", "", false)]
    );
    assert!(!read.create_git_repo);
    assert!(!read.no_editor);
    assert!(read.extra_editor_args.is_empty());
}

#[test]
fn parse_args_keeps_a_file_named_twice() {
    let read = parse_args(&tokens(&["a.txt", "a.txt"])).unwrap();
    assert_eq!(read.files_to_process, vec![file("a", "txt", false), file("a", "txt", false)]);
}

#[test]
fn parse_args_reads_the_short_flags() {
    let read = parse_args(&tokens(&["-g", "a.txt", "-n"])).unwrap();
    assert!(read.create_git_repo);
    assert!(read.no_editor);
    assert_eq!(read.files_to_process, vec![file("a", "txt", false)]);
}

#[test]
fn parse_args_reads_the_long_flags() {
    let read = parse_args(&tokens(&["--create-git-repo", "a.txt"])).unwrap();
    assert!(read.create_git_repo);
    assert!(!read.no_editor);
    let read = parse_args(&tokens(&["a.txt", "--no-editor"])).unwrap();
    assert!(!read.create_git_repo);
    assert!(read.no_editor);
}

#[test]
fn parse_args_takes_a_flag_wherever_it_stands() {
    let first = parse_args(&tokens(&["-n", "a.txt", "b.txt"])).unwrap();
    let middle = parse_args(&tokens(&["a.txt", "-n", "b.txt"])).unwrap();
    let last = parse_args(&tokens(&["a.txt", "b.txt", "-n"])).unwrap();
    assert_eq!(first, middle);
    assert_eq!(middle, last);
    assert!(last.no_editor);
}

#[test]
fn parse_args_takes_other_dashed_tokens_for_files() {
    let read = parse_args(&tokens(&["-x", "--gee", "-G"])).unwrap();
    assert_eq!(
        read.files_to_process,
        vec![file("-x", "", false), file("--gee", "", false), file("-G", "", false)]
    );
    assert!(!read.create_git_repo);
}

#[test]
fn parse_args_hands_on_what_follows_the_separator() {
    let read = parse_args(&tokens(&["main.py", "--", "-O", "+3"])).unwrap();
    assert_eq!(read.files_to_process, vec![file("main", "py", false)]);
    assert_eq!(read.extra_editor_args, tokens(&["-O", "+3"]));
}

#[test]
fn parse_args_takes_no_flag_behind_the_separator() {
    let read = parse_args(&tokens(&["a.txt", "--", "-g", "-n", "--no-editor", "b.txt"])).unwrap();
    assert!(!read.create_git_repo);
    assert!(!read.no_editor);
    assert_eq!(read.files_to_process, vec![file("a", "txt", false)]);
    assert_eq!(read.extra_editor_args, tokens(&["-g", "-n", "--no-editor", "b.txt"]));
}

#[test]
fn parse_args_cuts_at_the_first_separator_only() {
    let read = parse_args(&tokens(&["--", "a", "--", "b"])).unwrap();
    assert!(read.files_to_process.is_empty());
    assert_eq!(read.extra_editor_args, tokens(&["a", "--", "b"]));
}

#[test]
fn parse_args_with_a_separator_at_the_end() {
    let read = parse_args(&tokens(&["-g", "a.txt", "--"])).unwrap();
    assert!(read.create_git_repo);
    assert_eq!(read.files_to_process, vec![file("a", "txt", false)]);
    assert!(read.extra_editor_args.is_empty());
}
