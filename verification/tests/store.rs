use just_code::error::CreateError;
use just_code::store::{require_texts, ConfigError, TemplateStore};
use toml::{Table, Value};

#[test]
fn parse_reads_templates_by_extention() {
    let store = TemplateStore::parse("txt = \"hello\"\npy = \"print('hi')\"\n").unwrap();
    assert_eq!(store.template("txt"), Ok("hello".to_string()));
    assert_eq!(store.template("py"), Ok("print('hi')".to_string()));
}

#[test]
fn parse_accepts_an_empty_configuration() {
    let store = TemplateStore::parse("").unwrap();
    assert_eq!(store.template("txt"), Err(CreateError::TemplateDoesntExist("txt".to_string())));
    assert!(!store.is_executable("txt"));
}

#[test]
fn parse_refuses_what_is_no_toml() {
    assert!(matches!(TemplateStore::parse("txt = "), Err(ConfigError::Syntax(_))));
    assert!(matches!(TemplateStore::parse("= = ="), Err(ConfigError::Syntax(_))));
}

#[test]
fn parse_keeps_the_wording_of_the_parser() {
    match TemplateStore::parse("txt = ") {
        Err(ConfigError::Syntax(wording)) => assert!(!wording.is_empty()),
        other => panic!("expected a syntax error, got {:?}", other),
    }
}

#[test]
fn parse_reads_the_executable_extentions() {
    let store = TemplateStore::parse(
        "executable_file_extentions = [\"sh\", \"py\"]\nsh = \"#!/bin/sh\"\ntxt = \"\"\n",
    )
    .unwrap();
    assert!(store.is_executable("sh"));
    assert!(store.is_executable("py"));
    assert!(!store.is_executable("txt"));
    assert!(!store.is_executable("s"));
    assert!(!store.is_executable(""));
}

#[test]
fn parse_takes_the_list_of_executable_extentions_out_of_the_templates() {
    let store = TemplateStore::parse("executable_file_extentions = [\"sh\"]\n").unwrap();
    assert_eq!(
        store.template("executable_file_extentions"),
        Err(CreateError::TemplateDoesntExist("executable_file_extentions".to_string()))
    );
}

#[test]
fn parse_takes_the_key_out_where_it_holds_no_list() {
    let store = TemplateStore::parse("executable_file_extentions = \"sh\"\nsh = \"x\"\n").unwrap();
    assert!(!store.is_executable("sh"));
    assert_eq!(
        store.template("executable_file_extentions"),
        Err(CreateError::TemplateDoesntExist("executable_file_extentions".to_string()))
    );
    assert_eq!(store.template("sh"), Ok("x".to_string()));
}

#[test]
fn parse_refuses_an_executable_extention_that_is_no_string() {
    assert_eq!(
        TemplateStore::parse("executable_file_extentions = [\"sh\", 3, \"py\", true]\n").err(),
        Some(ConfigError::ExecutableNotText(1))
    );
    assert_eq!(
        TemplateStore::parse("executable_file_extentions = [[\"sh\"]]\n").err(),
        Some(ConfigError::ExecutableNotText(0))
    );
}

#[test]
fn from_table_reads_a_table_made_by_hand() {
    let mut table = Table::new();
    table.insert("txt".to_string(), Value::String("hello $file name$".to_string()));
    table.insert("num".to_string(), Value::Integer(3));
    table.insert(
        "executable_file_extentions".to_string(),
        Value::Array(vec![Value::String("sh".to_string())]),
    );
    let store = TemplateStore::from_table(table).unwrap();
    assert_eq!(store.template("txt"), Ok("hello $file name$".to_string()));
    assert_eq!(store.template("num"), Err(CreateError::InvalidValueType("num".to_string())));
    assert_eq!(store.template("rs"), Err(CreateError::TemplateDoesntExist("rs".to_string())));
    assert!(store.is_executable("sh"));
}

#[test]
fn from_table_accepts_an_empty_list_of_executable_extentions() {
    let mut table = Table::new();
    table.insert("executable_file_extentions".to_string(), Value::Array(vec![]));
    let store = TemplateStore::from_table(table).unwrap();
    assert!(!store.is_executable("sh"));
}

#[test]
fn template_tells_a_value_that_is_no_text() {
    let store =
        TemplateStore::parse("a = 1\nb = true\nc = [\"x\"]\nd = 1.5\n[e]\nf = \"g\"\n").unwrap();
    for extention in ["a", "b", "c", "d", "e"] {
        assert_eq!(
            store.template(extention),
            Err(CreateError::InvalidValueType(extention.to_string()))
        );
    }
    assert_eq!(store.template("f"), Err(CreateError::TemplateDoesntExist("f".to_string())));
}

#[test]
fn template_gives_an_empty_template() {
    let store = TemplateStore::parse("txt = \"\"\n").unwrap();
    assert_eq!(store.template("txt"), Ok(String::new()));
}

#[test]
fn template_looks_up_the_empty_extention() {
    let store = TemplateStore::parse("\"\" = \"plain\"\n").unwrap();
    assert_eq!(store.template(""), Ok("plain".to_string()));
}

#[test]
fn require_texts_gives_the_strings_or_the_first_gap() {
    assert_eq!(require_texts(vec![]), Ok(vec![]));
    assert_eq!(
        require_texts(vec![Some("a".to_string()), Some("b".to_string())]),
        Ok(vec!["a".to_string(), "b".to_string()])
    );
    assert_eq!(require_texts(vec![Some("a".to_string()), None, None]), Err(1));
    assert_eq!(require_texts(vec![None]), Err(0));
}
