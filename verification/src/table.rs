//! The tables and values of the `toml` crate, and what is taken on trust about them.
//!
//! Verus does not look into the `toml` crate. What this crate needs to know of it is stated
//! here, in the contracts of small functions that each make one call into it. Everything
//! else in this crate is proved from these contracts.

use crate::keys::lists;
use vstd::prelude::*;

verus! {

/// The map of the `toml` crate; `toml::Table` is this map from `String` to `toml::Value`.
#[verifier::external_type_specification]
#[verifier::external_body]
#[verifier::reject_recursive_types(K)]
#[verifier::reject_recursive_types(V)]
pub struct ExTomlMap<K, V>(toml::map::Map<K, V>);

/// A value of the `toml` crate.
#[verifier::external_type_specification]
#[verifier::external_body]
pub struct ExTomlValue(toml::Value);

/// The error with which the `toml` crate refuses a text.
#[verifier::external_type_specification]
#[verifier::external_body]
pub struct ExTomlDeError(toml::de::Error);

/// The error with which the `toml` crate refuses to write a value.
#[verifier::external_type_specification]
#[verifier::external_body]
pub struct ExTomlSerError(toml::ser::Error);

/// What a TOML value is, mathematically.
pub ghost enum Item {
    String(Seq<char>),
    Integer(i64),
    /// A floating-point number, by its bits.
    Float(u64),
    Boolean(bool),
    /// A date-time, by its text.
    Datetime(Seq<char>),
    Array(Seq<Item>),
    Table(Map<Seq<char>, Item>),
}

/// What a TOML table is, mathematically: a map from keys to values.
pub type Items = Map<Seq<char>, Item>;

/// What a table of the `toml` crate holds.
pub uninterp spec fn table_items(t: toml::map::Map<String, toml::Value>) -> Map<Seq<char>, Item>;

/// What a value of the `toml` crate holds.
pub uninterp spec fn value_item(v: toml::Value) -> Item;

/// The table that the `toml` crate reads from a text, where it accepts the text.
pub uninterp spec fn toml_parsed(text: Seq<char>) -> Option<Map<Seq<char>, Item>>;

/// The text that the `toml` crate writes for a table, where it writes one.
pub uninterp spec fn toml_text(items: Map<Seq<char>, Item>) -> Option<Seq<char>>;

/// The table that holds nothing.
pub open spec fn no_items() -> Items {
    Map::empty()
}

/// Trusted: calls `Map::new`, which makes an empty table.
#[verifier::external_body]
pub(crate) fn table_new() -> (r: toml::Table)
    ensures
        table_items(r) == no_items(),
{
    toml::Table::new()
}

/// The texts of some keys, as a set.
pub open spec fn key_set(keys: Seq<String>) -> Set<Seq<char>> {
    keys.map_values(|k: String| k@).to_set()
}

/// Trusted: calls `Map::keys`, which walks the keys of the table, each once.
#[verifier::external_body]
fn table_keys(t: &toml::Table) -> (r: Vec<String>)
    ensures
        table_items(*t).dom() == key_set(r@),
        forall|i: int, j: int|
            0 <= i < r@.len() && 0 <= j < r@.len() && i != j ==> (#[trigger] r@[i])@ != (
            #[trigger] r@[j])@,
{
    t.keys().cloned().collect()
}

/// The keys of a table, each once. A table has finitely many.
pub fn keys_of(t: &toml::Table) -> (r: Vec<String>)
    ensures
        lists(r@, table_items(*t).dom()),
        table_items(*t).dom().finite(),
{
    let r = table_keys(t);
    proof {
        let texts = r@.map_values(|k: String| k@);
        vstd::seq_lib::seq_to_set_is_finite(texts);
        assert forall|i: int| 0 <= i < r@.len() implies key_set(r@).contains(
            (#[trigger] r@[i])@,
        ) by {
            assert(texts[i] == r@[i]@);
            assert(texts.contains(texts[i]));
        }
        assert forall|k: Seq<char>| #[trigger] key_set(r@).contains(k) implies exists|i: int|
            0 <= i < r@.len() && (#[trigger] r@[i])@ == k by {
            assert(texts.contains(k));
            let i = choose|i: int| 0 <= i < texts.len() && texts[i] == k;
            assert(r@[i]@ == k);
        }
    }
    r
}

/// Trusted: calls `Map::get`, which returns the value under the key, if the table has the
/// key.
#[verifier::external_body]
pub(crate) fn table_get<'a>(t: &'a toml::Table, key: &str) -> (r: Option<&'a toml::Value>)
    ensures
        match r {
            Some(v) => table_items(*t).contains_key(key@) && table_items(*t)[key@] == value_item(
                *v,
            ),
            None => !table_items(*t).contains_key(key@),
        },
{
    t.get(key)
}

/// Trusted: calls `Map::insert`, which puts the value under the key, in place of the value
/// that the key had, if any, and leaves the other keys as they are.
#[verifier::external_body]
pub(crate) fn table_insert(t: &mut toml::Table, key: String, value: toml::Value)
    ensures
        table_items(*final(t)) == table_items(*old(t)).insert(key@, value_item(value)),
{
    t.insert(key, value);
}

/// Trusted: calls `Value::as_table`, which returns the table that the value is, if it is
/// one.
#[verifier::external_body]
pub(crate) fn value_as_table(v: &toml::Value) -> (r: Option<&toml::Table>)
    ensures
        match r {
            Some(t) => value_item(*v) == Item::Table(table_items(*t)),
            None => !(value_item(*v) is Table),
        },
{
    v.as_table()
}

/// Trusted: builds the variant `Value::Table`, the value that is the given table.
#[verifier::external_body]
pub(crate) fn value_from_table(t: toml::Table) -> (r: toml::Value)
    ensures
        value_item(r) == Item::Table(table_items(t)),
{
    toml::Value::Table(t)
}

/// Trusted: calls `clone` of `toml::Value`, which gives a value that holds the same.
#[verifier::external_body]
pub(crate) fn value_clone(v: &toml::Value) -> (r: toml::Value)
    ensures
        value_item(r) == value_item(*v),
{
    v.clone()
}

/// Trusted: calls `str::parse::<toml::Table>`, the TOML parser of the `toml` crate. What it
/// returns depends on the text alone.
#[verifier::external_body]
pub(crate) fn table_parse(text: &str) -> (r: Result<toml::Table, toml::de::Error>)
    ensures
        match r {
            Ok(t) => toml_parsed(text@) == Some(table_items(t)),
            Err(_) => toml_parsed(text@) is None,
        },
{
    text.parse::<toml::Table>()
}

/// Trusted: calls `toml::to_string` on a table. What it returns depends on what the table
/// holds alone.
#[verifier::external_body]
pub(crate) fn table_write(t: &toml::Table) -> (r: Result<String, toml::ser::Error>)
    ensures
        match r {
            Ok(text) => toml_text(table_items(*t)) == Some(text@),
            Err(_) => toml_text(table_items(*t)) is None,
        },
{
    toml::to_string(t)
}

} // verus!
