use just_code::error::CreateError;
use just_code::file::{base_name, Creation, NewFile, EXECUTABLE_MODE, PLAIN_MODE};
use just_code::store::TemplateStore;

fn file(path: &str, extention: &str, no_extention: bool) -> NewFile {
    NewFile { path: path.to_string(), extention: extention.to_string(), no_extention }
}

fn store() -> TemplateStore {
    TemplateStore::parse(
        "executable_file_extentions = [\"sh\"]\n\
         txt = \"hello $file name$\"\n\
         py = \"$FILE_NAME$ module\"\n\
         java = \"class $FileName$\"\n\
         sh = \"#!/bin/sh\\n# $file-name$\\n\"\n\
         \"\" = \"plain $file_name$\"\n\
         bad = 7\n",
    )
    .unwrap()
}

#[test]
fn to_string_puts_the_extention_behind_the_path() {
    assert_eq!(file("my_module", "txt", false).to_string(), "my_module.txt");
    assert_eq!(file("src/a.tar", "gz", false).to_string(), "src/a.tar.gz");
}

#[test]
fn to_string_leaves_the_extention_out_where_asked() {
    assert_eq!(file("hello", "sh", true).to_string(), "hello");
    assert_eq!(file("", "sh", true).to_string(), "");
}

#[test]
fn to_string_keeps_the_dot_before_an_empty_extention() {
    assert_eq!(file("Makefile", "", false).to_string(), "Makefile.");
    assert_eq!(file("", "", false).to_string(), ".");
}

#[test]
fn full_name_has_the_extention_left_out_or_not() {
    assert_eq!(file("hello", "sh", true).full_name(), "hello.sh");
    assert_eq!(file("hello", "sh", false).full_name(), "hello.sh");
}

#[test]
fn base_name_is_the_last_segment() {
    assert_eq!(base_name("my_module"), "my_module");
    assert_eq!(base_name("src/my_module"), "my_module");
    assert_eq!(base_name("/abs/dir/user_service"), "user_service");
    assert_eq!(base_name("dir/"), "");
    assert_eq!(base_name(""), "");
    assert_eq!(base_name("/"), "");
}

#[test]
fn create_fills_the_lower_placeholder() {
    assert_eq!(
        file("my_module", "txt", false).create(&store(), false),
        Ok(Creation {
            name: "my_module.txt".to_string(),
            contents: "hello my module".to_string(),
            mode: 0o644,
        })
    );
}

#[test]
fn create_fills_the_upper_snake_placeholder() {
    let made = file("my_module", "py", false).create(&store(), false).unwrap();
    assert_eq!(made.contents, "MY_MODULE module");
    assert_eq!(made.name, "my_module.py");
}

#[test]
fn create_fills_the_pascal_placeholder() {
    let made = file("user_service", "java", false).create(&store(), false).unwrap();
    assert_eq!(made.contents, "class UserService");
    assert_eq!(made.name, "user_service.java");
}

#[test]
fn create_names_the_file_by_its_last_segment() {
    let made = file("src/deep/user_service", "java", false).create(&store(), false).unwrap();
    assert_eq!(made.contents, "class UserService");
    assert_eq!(made.name, "src/deep/user_service.java");
}

#[test]
fn create_leaves_the_extention_out_of_the_name_only() {
    assert_eq!(
        file("run_all", "sh", true).create(&store(), false),
        Ok(Creation {
            name: "run_all".to_string(),
            contents: "#!/bin/sh\n# run-all\n".to_string(),
            mode: 0o744,
        })
    );
}

#[test]
fn create_makes_listed_extentions_executable() {
    assert_eq!(file("a", "sh", false).create(&store(), false).unwrap().mode, EXECUTABLE_MODE);
    assert_eq!(file("a", "txt", false).create(&store(), false).unwrap().mode, PLAIN_MODE);
    assert_eq!(EXECUTABLE_MODE, 0o744);
    assert_eq!(PLAIN_MODE, 0o644);
    assert_ne!(EXECUTABLE_MODE & 0o100, 0);
    assert_eq!(PLAIN_MODE & 0o100, 0);
}

#[test]
fn create_refuses_a_place_that_is_taken() {
    assert_eq!(
        file("my_module", "txt", false).create(&store(), true),
        Err(CreateError::FileExists("my_module.txt".to_string()))
    );
}

#[test]
fn create_names_a_taken_place_with_the_extention_left_out_or_not() {
    assert_eq!(
        file("hello", "sh", true).create(&store(), true),
        Err(CreateError::FileExists("hello.sh".to_string()))
    );
}

#[test]
fn create_tells_a_taken_place_before_a_missing_template() {
    assert_eq!(
        file("a", "nope", false).create(&store(), true),
        Err(CreateError::FileExists("a.nope".to_string()))
    );
}

#[test]
fn create_refuses_an_extention_without_template() {
    assert_eq!(
        file("a", "nope", false).create(&store(), false),
        Err(CreateError::TemplateDoesntExist("nope".to_string()))
    );
    assert_eq!(
        file("a", "nope", true).create(&store(), false),
        Err(CreateError::TemplateDoesntExist("nope".to_string()))
    );
}

#[test]
fn create_refuses_a_template_that_is_no_text() {
    assert_eq!(
        file("a", "bad", false).create(&store(), false),
        Err(CreateError::InvalidValueType("bad".to_string()))
    );
}

#[test]
fn create_uses_the_template_of_the_empty_extention() {
    assert_eq!(
        file("Make_file", "", false).create(&store(), false),
        Ok(Creation {
            name: "Make_file.".to_string(),
            contents: "plain make_file".to_string(),
            mode: 0o644,
        })
    );
}

#[test]
fn create_twice_succeeds_and_then_fails() {
    let templates = store();
    let wanted = file("my_module", "txt", false);
    let first = wanted.create(&templates, false);
    assert!(first.is_ok());
    let second = wanted.create(&templates, true);
    assert_eq!(second, Err(CreateError::FileExists("my_module.txt".to_string())));
}

#[test]
fn error_messages_name_the_file_or_the_extention() {
    assert_eq!(CreateError::IO("disk full".to_string()).to_string(), "An IO error accured");
    assert_eq!(
        CreateError::FileExists("a.txt".to_string()).to_string(),
        "The file `a.txt` already exists"
    );
    assert_eq!(
        CreateError::TemplateDoesntExist("txt".to_string()).to_string(),
        "Template for file extention `txt` doesn’t exist"
    );
    assert_eq!(
        CreateError::InvalidValueType("txt".to_string()).to_string(),
        "Template for file extention `txt` has an invalid type, should be a string"
    );
}
