//! The configuration text: a TOML table read and written as a whole, of which
//! the editor reads and replaces single fields.

use vstd::prelude::*;

verus! {

#[verifier::external_type_specification]
#[verifier::external_body]
pub struct ExTomlValue(toml::Value);

#[verifier::external_type_specification]
#[verifier::external_body]
#[verifier::reject_recursive_types(K)]
#[verifier::reject_recursive_types(V)]
pub struct ExTomlMap<K, V>(toml::map::Map<K, V>);

#[verifier::external_type_specification]
#[verifier::external_body]
pub struct ExTomlParseError(toml::de::Error);

#[verifier::external_type_specification]
#[verifier::external_body]
pub struct ExTomlWriteError(toml::ser::Error);

/// The entries of a TOML table: each key, as its characters, with the value
/// stored under it.
pub uninterp spec fn table_entries(t: toml::map::Map<String, toml::Value>) -> Map<
    Seq<char>,
    toml::Value,
>;

/// The entries of the table that `text` holds as a TOML document, or `None`
/// when `text` is not a valid TOML document.
pub uninterp spec fn toml_document_entries(text: Seq<char>) -> Option<Map<Seq<char>, toml::Value>>;

/// The TOML document that `toml::to_string` writes for the table `t`, or
/// `None` when it fails.
pub uninterp spec fn toml_table_text(t: toml::map::Map<String, toml::Value>) -> Option<Seq<char>>;

/// Parses `text` as a TOML document (`str::parse::<toml::Table>`, which calls
/// `toml::from_str`). Claimed: it succeeds exactly when `text` is a valid TOML
/// document, and the table it gives holds that document's entries.
#[verifier::external_body]
fn parse_table(text: &str) -> (r: Result<toml::Table, toml::de::Error>)
    ensures
        r is Ok <==> toml_document_entries(text@) is Some,
        r matches Ok(t) ==> toml_document_entries(text@) == Some(table_entries(t)),
{
    text.parse::<toml::Table>()
}

/// An empty table (`toml::map::Map::new`). Claimed: it has no entries.
#[verifier::external_body]
fn new_table() -> (t: toml::Table)
    ensures
        table_entries(t).dom() == Set::<Seq<char>>::empty(),
{
    toml::Table::new()
}

/// A copy of the value stored under `key` (`toml::map::Map::get`, then
/// `Clone`). Claimed: there is one exactly when the table has the key, and it
/// is the value stored there.
#[verifier::external_body]
fn table_get(t: &toml::Table, key: &str) -> (r: Option<toml::Value>)
    ensures
        r is Some <==> table_entries(*t).dom().contains(key@),
        r matches Some(v) ==> v == table_entries(*t)[key@],
{
    t.get(key).cloned()
}

/// Stores `v` under `key` (`toml::map::Map::insert`). Claimed: the entries
/// afterwards are those before, with `key` now holding `v`.
#[verifier::external_body]
fn table_insert(t: &mut toml::Table, key: String, v: toml::Value)
    ensures
        table_entries(*final(t)) == table_entries(*old(t)).insert(key@, v),
{
    t.insert(key, v);
}

/// Writes the table out as a TOML document (`toml::to_string`). Claimed: the
/// outcome is `toml_table_text` of the table.
#[verifier::external_body]
fn table_to_text(t: &toml::Table) -> (r: Result<String, toml::ser::Error>)
    ensures
        r is Ok <==> toml_table_text(*t) is Some,
        r matches Ok(s) ==> toml_table_text(*t) == Some(s@),
{
    toml::to_string(t)
}

/// Why the configuration could not be read or written.
#[derive(Debug, Clone, Copy, PartialEq, Eq, Structural)]
pub enum ConfigError {
    /// The configuration text is not a valid TOML document.
    Unparsable,
    /// The configuration could not be written out as a TOML document.
    Unwritable,
}

/// The entries that the configuration `contents` starts from: none for a
/// configuration that does not exist yet, else those of its TOML document;
/// `None` when `contents` is not a valid TOML document.
pub open spec fn starting_entries(contents: Option<&str>) -> Option<Map<Seq<char>, toml::Value>> {
    match contents {
        None => Some(Map::<Seq<char>, toml::Value>::empty()),
        Some(c) => toml_document_entries(c@),
    }
}

/// The value stored under `field` in the entries `m`, if any.
pub open spec fn entry_of(m: Map<Seq<char>, toml::Value>, field: Seq<char>) -> Option<toml::Value> {
    if m.dom().contains(field) {
        Some(m[field])
    } else {
        None
    }
}

/// The value of `field` in the configuration text `contents`, where `None`
/// stands for a configuration that does not exist yet.
pub fn config_field(contents: Option<&str>, field: &str) -> (r: Result<
    Option<toml::Value>,
    ConfigError,
>)
    ensures
        match starting_entries(contents) {
            None => r == Err::<Option<toml::Value>, ConfigError>(ConfigError::Unparsable),
            Some(m) => r == Ok::<Option<toml::Value>, ConfigError>(entry_of(m, field@)),
        },
{
    match contents {
        None => Ok(None),
        Some(text) => match parse_table(text) {
            Err(_) => Err(ConfigError::Unparsable),
            Ok(table) => Ok(table_get(&table, field)),
        },
    }
}

/// The configuration table after `field` is set to `val`, where `None` stands
/// for a configuration that does not exist yet and starts out empty.
pub fn table_with_field(contents: Option<&str>, field: &str, val: toml::Value) -> (r: Result<
    toml::Table,
    ConfigError,
>)
    ensures
        match starting_entries(contents) {
            None => r == Err::<toml::Table, ConfigError>(ConfigError::Unparsable),
            Some(m) => r matches Ok(t) && table_entries(t) == m.insert(field@, val),
        },
{
    let mut table = match contents {
        None => new_table(),
        Some(text) => match parse_table(text) {
            Err(_) => {
                return Err(ConfigError::Unparsable);
            },
            Ok(table) => table,
        },
    };
    table_insert(&mut table, field.to_owned(), val);
    Ok(table)
}

/// After `field` is set, it holds the new value and every other field keeps
/// what it held.
pub proof fn lemma_set_field_entries(
    m: Map<Seq<char>, toml::Value>,
    field: Seq<char>,
    val: toml::Value,
    other: Seq<char>,
)
    ensures
        entry_of(m.insert(field, val), field) == Some(val),
        other != field ==> entry_of(m.insert(field, val), other) == entry_of(m, other),
{
}

/// `r` is what writing out the table `t` gives: its TOML document, or
/// `Unwritable` when the writer fails.
pub open spec fn written_outcome(t: toml::Table, r: Result<String, ConfigError>) -> bool {
    match toml_table_text(t) {
        Some(text) => r matches Ok(s) && s@ == text,
        None => r == Err::<String, ConfigError>(ConfigError::Unwritable),
    }
}

/// The configuration text after `field` is set to `val`, where `None` stands
/// for a configuration that does not exist yet and starts out empty: the TOML
/// document of a table that holds the starting entries with `field` now
/// holding `val`.
pub fn config_with_field(contents: Option<&str>, field: &str, val: toml::Value) -> (r: Result<
    String,
    ConfigError,
>)
    ensures
        match starting_entries(contents) {
            None => r == Err::<String, ConfigError>(ConfigError::Unparsable),
            Some(m) => exists|t: toml::Table|
                #[trigger] table_entries(t) == m.insert(field@, val) && written_outcome(t, r),
        },
{
    let table = table_with_field(contents, field, val)?;
    let r = written_config(table_to_text(&table));
    assert(written_outcome(table, r));
    r
}

/// The outcome of writing a table out as a TOML document, as the
/// configuration sees it.
pub fn written_config(written: Result<String, toml::ser::Error>) -> (r: Result<String, ConfigError>)
    ensures
        match written {
            Ok(text) => r == Ok::<String, ConfigError>(text),
            Err(_) => r == Err::<String, ConfigError>(ConfigError::Unwritable),
        },
{
    match written {
        Ok(text) => Ok(text),
        Err(_) => Err(ConfigError::Unwritable),
    }
}

} // verus!
