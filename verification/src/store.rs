//! The template store: the template of each file extension, and the
//! extensions whose files are made executable. It is read from a TOML
//! document.

use crate::error::CreateError;
use crate::text::{same_text, texts};
use toml::{Table, Value};
use vstd::prelude::*;

verus! {

/// `toml::map::Map`, the table of a TOML document. Its contents are spoken
/// of through `table_entries` alone.
#[verifier::external_type_specification]
#[verifier::external_body]
#[verifier::reject_recursive_types(K)]
#[verifier::reject_recursive_types(V)]
pub struct ExTomlMap<K, V>(toml::map::Map<K, V>);

/// `toml::Value`, a value of a TOML document.
#[verifier::external_type_specification]
#[verifier::external_body]
pub struct ExTomlValue(Value);

/// `toml::de::Error`, the reason why a text is no TOML document.
#[verifier::external_type_specification]
#[verifier::external_body]
pub struct ExTomlError(toml::de::Error);

/// What a table holds under one key, as far as this library reads it.
pub enum Entry {
    /// A TOML string, with its text.
    Text(Seq<char>),
    /// A TOML array, with its items in order: the text of an item that is a
    /// TOML string, `None` for an item of another kind.
    List(Seq<Option<Seq<char>>>),
    /// A value of any other kind: a number, a truth value, a date, a table.
    Other,
}

/// What `table` holds: its keys, each with the entry that stands for the
/// value under it.
pub uninterp spec fn table_entries(table: Table) -> Map<Seq<char>, Entry>;

/// What the TOML parser makes of `text`: the entries of the table that it
/// returns, or `None` where it refuses the text.
pub uninterp spec fn parsed_config(text: Seq<char>) -> Option<Map<Seq<char>, Entry>>;

/// The items of a list, each with its text where it has one.
pub open spec fn item_texts(items: Seq<Option<String>>) -> Seq<Option<Seq<char>>> {
    items.map_values(
        |item: Option<String>|
            match item {
                Some(s) => Some(s@),
                None => None,
            },
    )
}

/// Parses `text` with `toml::Table`'s `FromStr`, which is `toml::from_str`.
/// The result reads nothing but the text, so it is named by `parsed_config`:
/// the table's entries where the parser accepts the text, `None` where it
/// returns an error.
#[verifier::external_body]
fn parse_table(text: &str) -> (parsed: Result<Table, toml::de::Error>)
    ensures
        match parsed {
            Ok(table) => parsed_config(text@) == Some(table_entries(table)),
            Err(_) => parsed_config(text@) is None,
        },
{
    text.parse::<Table>()
}

/// The wording of a parse error, from its `Display`. Nothing is claimed of it.
#[verifier::external_body]
fn error_text(error: &toml::de::Error) -> String {
    error.to_string()
}

/// Looks `key` up with `toml::map::Map::get`. `None`: the table has no such
/// key. `Some(None)`: the value under it is no TOML string. `Some(Some(..))`:
/// a copy of the string under it.
#[verifier::external_body]
fn table_get(table: &Table, key: &str) -> (found: Option<Option<String>>)
    ensures
        match found {
            None => !table_entries(*table).contains_key(key@),
            Some(None) => table_entries(*table).contains_key(key@) && !(table_entries(
                *table,
            )[key@] is Text),
            Some(Some(text)) => table_entries(*table).contains_key(key@) && table_entries(
                *table,
            )[key@] == Entry::Text(text@),
        },
{
    match table.get(key) {
        None => None,
        Some(Value::String(text)) => Some(Some(text.clone())),
        Some(_) => Some(None),
    }
}

/// Takes `key` out of the table with `toml::map::Map::remove`, whatever is
/// under it; the other keys stay as they are. Where the value was a TOML
/// array its items are returned in order, each string as `Some`, each other
/// item as `None`; where the key was missing or held no array, `None`.
#[verifier::external_body]
fn table_take_list(table: &mut Table, key: &str) -> (taken: Option<Vec<Option<String>>>)
    ensures
        table_entries(*final(table)) == table_entries(*old(table)).remove(key@),
        match taken {
            Some(items) => table_entries(*old(table)).contains_key(key@) && table_entries(
                *old(table),
            )[key@] == Entry::List(item_texts(items@)),
            None => !(table_entries(*old(table)).contains_key(key@) && table_entries(
                *old(table),
            )[key@] is List),
        },
{
    match table.remove(key) {
        Some(Value::Array(items)) => Some(
            items.into_iter().map(|item| match item {
                Value::String(text) => Some(text),
                _ => None,
            }).collect(),
        ),
        _ => None,
    }
}

/// Why a configuration text gives no template store.
#[derive(Debug, PartialEq, Eq)]
pub enum ConfigError {
    /// The text is no TOML document. Holds the parser's wording.
    Syntax(String),
    /// The list of executable extensions holds, at this position, an item
    /// that is no string.
    ExecutableNotText(usize),
}

/// The templates by file extension, and the extensions whose files are
/// executable.
#[derive(Debug)]
pub struct TemplateStore {
    templates: Table,
    executable: Vec<String>,
}

/// A template store as contracts see it.
pub struct TemplateStoreView {
    /// What is stored under each file extension.
    pub templates: Map<Seq<char>, Entry>,
    /// The extensions whose files are executable.
    pub executable: Seq<Seq<char>>,
}

impl View for TemplateStore {
    type V = TemplateStoreView;

    closed spec fn view(&self) -> TemplateStoreView {
        TemplateStoreView {
            templates: table_entries(self.templates),
            executable: texts(self.executable@),
        }
    }
}

/// The key under which a configuration lists the executable extensions.
pub open spec fn executable_key() -> Seq<char> {
    "executable_file_extentions"@
}

/// The position of the first item without a text, if there is one.
pub open spec fn first_without_text(items: Seq<Option<Seq<char>>>) -> Option<int>
    decreases items.len(),
{
    if items.len() == 0 {
        None
    } else {
        match first_without_text(items.drop_last()) {
            Some(at) => Some(at),
            None => if items.last() is None {
                Some(items.len() - 1)
            } else {
                None
            },
        }
    }
}

/// The texts of items that all have one.
pub open spec fn all_texts(items: Seq<Option<Seq<char>>>) -> Seq<Seq<char>> {
    items.map_values(|item: Option<Seq<char>>| item->0)
}

/// The items listed as executable extensions. A configuration without the
/// key, or with something else than an array under it, lists none.
pub open spec fn listed_executable(entries: Map<Seq<char>, Entry>) -> Seq<Option<Seq<char>>> {
    if entries.contains_key(executable_key()) {
        match entries[executable_key()] {
            Entry::List(items) => items,
            _ => Seq::empty(),
        }
    } else {
        Seq::empty()
    }
}

/// The store that the entries of a configuration give, or the position of
/// the item that spoils the list of executable extensions. The key of that
/// list is no extension: it is not among the templates.
pub open spec fn store_of(entries: Map<Seq<char>, Entry>) -> Result<TemplateStoreView, int> {
    match first_without_text(listed_executable(entries)) {
        Some(at) => Err(at),
        None => Ok(
            TemplateStoreView {
                templates: entries.remove(executable_key()),
                executable: all_texts(listed_executable(entries)),
            },
        ),
    }
}

/// The strings of a list whose items are all strings, or the position of
/// its first item that is none.
pub fn require_texts(items: Vec<Option<String>>) -> (required: Result<Vec<String>, usize>)
    ensures
        match required {
            Ok(strings) => first_without_text(item_texts(items@)) is None && texts(strings@)
                == all_texts(item_texts(items@)),
            Err(at) => first_without_text(item_texts(items@)) == Some(at as int),
        },
{
    let ghost listed = item_texts(items@);
    let mut strings: Vec<String> = Vec::new();
    let mut at: usize = 0;
    while at < items.len()
        invariant
            at <= items.len(),
            listed == item_texts(items@),
            first_without_text(listed.take(at as int)) is None,
            texts(strings@) == all_texts(listed.take(at as int)),
        decreases items.len() - at,
    {
        proof {
            assert(listed.take(at + 1).drop_last() =~= listed.take(at as int));
        }
        match &items[at] {
            Some(text) => {
                strings.push(text.clone());
                proof {
                    assert(all_texts(listed.take(at + 1)) =~= all_texts(
                        listed.take(at as int),
                    ).push(text@));
                }
            },
            None => {
                proof {
                    lemma_first_without_text_stays(listed, at + 1);
                }
                return Err(at);
            },
        }
        at += 1;
    }
    proof {
        assert(listed.take(items.len() as int) =~= listed);
    }
    Ok(strings)
}

impl TemplateStore {
    /// Makes the store of a parsed configuration.
    pub fn from_table(table: Table) -> (made: Result<TemplateStore, ConfigError>)
        ensures
            match made {
                Ok(store) => store_of(table_entries(table)) == Ok::<TemplateStoreView, int>(
                    store@,
                ),
                Err(ConfigError::ExecutableNotText(at)) => store_of(table_entries(table)) == Err::<
                    TemplateStoreView,
                    int,
                >(at as int),
                Err(ConfigError::Syntax(_)) => false,
            },
    {
        let mut templates = table;
        let listed = match table_take_list(&mut templates, "executable_file_extentions") {
            Some(items) => items,
            None => Vec::new(),
        };
        proof {
            assert(item_texts(Seq::<Option<String>>::empty()) =~= Seq::empty());
        }
        match require_texts(listed) {
            Ok(executable) => Ok(TemplateStore { templates, executable }),
            Err(at) => Err(ConfigError::ExecutableNotText(at)),
        }
    }

    /// Reads a configuration: a TOML document with a template under each
    /// file extension and, optionally, the list of executable extensions.
    pub fn parse(config: &str) -> (made: Result<TemplateStore, ConfigError>)
        ensures
            match made {
                Ok(store) => parsed_config(config@) matches Some(entries) && store_of(entries)
                    == Ok::<TemplateStoreView, int>(store@),
                Err(ConfigError::ExecutableNotText(at)) => parsed_config(config@) matches Some(
                    entries,
                ) && store_of(entries) == Err::<TemplateStoreView, int>(at as int),
                Err(ConfigError::Syntax(_)) => parsed_config(config@) is None,
            },
    {
        match parse_table(config) {
            Ok(table) => TemplateStore::from_table(table),
            Err(error) => Err(ConfigError::Syntax(error_text(&error))),
        }
    }

    /// The template for files of `extention`.
    pub fn template(&self, extention: &str) -> (found: Result<String, CreateError>)
        ensures
            match found {
                Ok(template) => self@.templates.contains_key(extention@)
                    && self@.templates[extention@] == Entry::Text(template@),
                Err(CreateError::TemplateDoesntExist(named)) => !self@.templates.contains_key(
                    extention@,
                ) && named@ == extention@,
                Err(CreateError::InvalidValueType(named)) => self@.templates.contains_key(
                    extention@,
                ) && !(self@.templates[extention@] is Text) && named@ == extention@,
                Err(_) => false,
            },
    {
        match table_get(&self.templates, extention) {
            Some(Some(template)) => Ok(template),
            Some(None) => Err(CreateError::InvalidValueType(extention.to_owned())),
            None => Err(CreateError::TemplateDoesntExist(extention.to_owned())),
        }
    }

    /// Whether files of `extention` are executable.
    pub fn is_executable(&self, extention: &str) -> (listed: bool)
        ensures
            listed == self@.executable.contains(extention@),
    {
        let mut at: usize = 0;
        while at < self.executable.len()
            invariant
                at <= self.executable.len(),
                forall|i: int| 0 <= i < at ==> self@.executable[i] != extention@,
            decreases self.executable.len() - at,
        {
            if same_text(self.executable[at].as_str(), extention) {
                assert(self@.executable[at as int] == extention@);
                return true;
            }
            at += 1;
        }
        false
    }
}

/// Once an item without a text is found, a longer list has its first such
/// item at the same place.
pub proof fn lemma_first_without_text_stays(items: Seq<Option<Seq<char>>>, upto: int)
    requires
        0 <= upto <= items.len(),
        first_without_text(items.take(upto)) is Some,
    ensures
        first_without_text(items) == first_without_text(items.take(upto)),
    decreases items.len() - upto,
{
    if upto < items.len() {
        assert(items.take(upto + 1).drop_last() =~= items.take(upto));
        lemma_first_without_text_stays(items, upto + 1);
    } else {
        assert(items.take(upto) =~= items);
    }
}

} // verus!
