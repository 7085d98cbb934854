//! TOML documents, as the `toml` crate parses, holds and prints them.
//!
//! The crate's values are opaque here. Their contents are named by
//! [`value_node`] and [`table_entries`], and every contract in this file is
//! taken on trust from the crate's source.

use vstd::prelude::*;

verus! {

/// `toml::Value`: one value of a TOML document.
#[verifier::external_type_specification]
#[verifier::external_body]
pub struct ExValue(toml::Value);

/// `toml::map::Map`: a TOML table, from keys to values.
#[verifier::external_type_specification]
#[verifier::external_body]
#[verifier::reject_recursive_types(K)]
#[verifier::reject_recursive_types(V)]
pub struct ExTable<K, V>(toml::map::Map<K, V>);

/// `toml::de::Error`: why a text is not a TOML document.
#[verifier::external_type_specification]
#[verifier::external_body]
pub struct ExDeError(toml::de::Error);

/// `toml::ser::Error`: why a value could not be printed as TOML.
#[verifier::external_type_specification]
#[verifier::external_body]
pub struct ExSerError(toml::ser::Error);

/// What a TOML value holds. Floats and date-times, which no task record
/// uses, are not told apart.
pub enum Node {
    Text(Seq<char>),
    Integer(i64),
    Boolean(bool),
    Array(Seq<Node>),
    Table(Map<Seq<char>, Node>),
    Other,
}

/// What a `toml::Value` holds.
pub uninterp spec fn value_node(v: toml::Value) -> Node;

/// What a `toml::Table` holds: the value under each of its keys.
pub uninterp spec fn table_entries(t: toml::Table) -> Map<Seq<char>, Node>;

/// The table that `toml::from_str` reads from a text, or its error.
pub uninterp spec fn parsed_document(text: Seq<char>) -> Result<Map<Seq<char>, Node>, toml::de::Error>;

/// The text that `toml::to_string` prints for a table, or its error.
pub uninterp spec fn printed_document(entries: Map<Seq<char>, Node>) -> Result<Seq<char>, toml::ser::Error>;

/// The entries of a table without keys.
pub open spec fn empty_entries() -> Map<Seq<char>, Node> {
    Map::empty()
}

/// Whether a value holds no float and no date-time, at any depth.
pub open spec fn plain(node: Node) -> bool
    decreases node,
{
    match node {
        Node::Other => false,
        Node::Array(items) => forall|i: int| 0 <= i < items.len() ==> plain(#[trigger] items[i]),
        Node::Table(entries) => forall|k: Seq<char>|
            entries.contains_key(k) ==> plain(#[trigger] entries[k]),
        _ => true,
    }
}

/// Whether every value of a table is plain.
pub open spec fn plain_entries(entries: Map<Seq<char>, Node>) -> bool {
    plain(Node::Table(entries))
}

/// The nodes of a vector of values, in order.
pub open spec fn nodes_of(items: Seq<toml::Value>) -> Seq<Node> {
    items.map_values(|v: toml::Value| value_node(v))
}

/// `toml::Value::as_integer`: the integer of an integer value, and `None`
/// for a value of any other kind.
pub assume_specification[ toml::Value::as_integer ](v: &toml::Value) -> (r: Option<i64>)
    ensures
        r == (match value_node(*v) {
            Node::Integer(i) => Some(i),
            _ => None::<i64>,
        }),
;

/// `toml::Value::as_bool`: the flag of a boolean value, and `None` for a
/// value of any other kind.
pub assume_specification[ toml::Value::as_bool ](v: &toml::Value) -> (r: Option<bool>)
    ensures
        r == (match value_node(*v) {
            Node::Boolean(b) => Some(b),
            _ => None::<bool>,
        }),
;

/// `toml::Value::as_str`: the text of a string value, and `None` for a value
/// of any other kind.
pub assume_specification<'a>[ toml::Value::as_str ](v: &'a toml::Value) -> (r: Option<&'a str>)
    ensures
        match r {
            Some(s) => value_node(*v) == Node::Text(s@),
            None => !(value_node(*v) is Text),
        },
;

/// `toml::Value::as_array`: the elements of an array value, and `None` for a
/// value of any other kind.
pub assume_specification<'a>[ toml::Value::as_array ](v: &'a toml::Value) -> (r: Option<&'a Vec<toml::Value>>)
    ensures
        match r {
            Some(items) => value_node(*v) == Node::Array(nodes_of(items@)),
            None => !(value_node(*v) is Array),
        },
;

/// `toml::Value::as_table`: the table of a table value, and `None` for a
/// value of any other kind.
pub assume_specification<'a>[ toml::Value::as_table ](v: &'a toml::Value) -> (r: Option<&'a toml::Table>)
    ensures
        match r {
            Some(t) => value_node(*v) == Node::Table(table_entries(*t)),
            None => !(value_node(*v) is Table),
        },
;

/// `toml::map::Map::get`: the value under a key, and `None` where the table
/// has no such key.
#[verifier::external_body]
pub(crate) fn table_get<'a>(t: &'a toml::Table, key: &str) -> (r: Option<&'a toml::Value>)
    ensures
        match r {
            Some(v) => table_entries(*t).contains_key(key@) && table_entries(*t)[key@]
                == value_node(*v),
            None => !table_entries(*t).contains_key(key@),
        },
{
    t.get(key)
}

/// `toml::map::Map::new`: a table without keys.
#[verifier::external_body]
pub(crate) fn empty_table() -> (table: toml::Table)
    ensures
        table_entries(table) == empty_entries(),
{
    toml::Table::new()
}

/// `toml::map::Map::insert`: puts the value under the key, replacing what
/// was there, and returns what was there.
pub assume_specification[ toml::map::Map::<String, toml::Value>::insert ](
    t: &mut toml::Table,
    k: String,
    v: toml::Value,
) -> (r: Option<toml::Value>)
    ensures
        table_entries(*final(t)) == table_entries(*old(t)).insert(k@, value_node(v)),
        match r {
            Some(previous) => table_entries(*old(t)).contains_key(k@) && table_entries(
                *old(t),
            )[k@] == value_node(previous),
            None => !table_entries(*old(t)).contains_key(k@),
        },
;

/// `toml::Value::String`: the string value that holds the text.
#[verifier::external_body]
pub(crate) fn text_value(text: String) -> (v: toml::Value)
    ensures
        value_node(v) == Node::Text(text@),
{
    toml::Value::String(text)
}

/// `toml::Value::Integer`: the integer value that holds the number.
#[verifier::external_body]
pub(crate) fn integer_value(number: i64) -> (v: toml::Value)
    ensures
        value_node(v) == Node::Integer(number),
{
    toml::Value::Integer(number)
}

/// `toml::Value::Boolean`: the boolean value that holds the flag.
#[verifier::external_body]
pub(crate) fn boolean_value(flag: bool) -> (v: toml::Value)
    ensures
        value_node(v) == Node::Boolean(flag),
{
    toml::Value::Boolean(flag)
}

/// `toml::Value::Array`: the array value that holds the values, in order.
#[verifier::external_body]
pub(crate) fn array_value(items: Vec<toml::Value>) -> (v: toml::Value)
    ensures
        value_node(v) == Node::Array(nodes_of(items@)),
{
    toml::Value::Array(items)
}

/// `toml::Value::Table`: the table value that holds the table.
#[verifier::external_body]
pub(crate) fn table_value(table: toml::Table) -> (v: toml::Value)
    ensures
        value_node(v) == Node::Table(table_entries(table)),
{
    toml::Value::Table(table)
}

/// `toml::from_str`, reading a table: the outcome depends on the text alone.
#[verifier::external_body]
pub(crate) fn parse_document(text: &str) -> (r: Result<toml::Table, toml::de::Error>)
    ensures
        match r {
            Ok(t) => parsed_document(text@) is Ok && parsed_document(text@)->Ok_0
                == table_entries(t),
            Err(e) => parsed_document(text@) is Err && parsed_document(text@)->Err_0 == e,
        },
{
    toml::from_str::<toml::Table>(text)
}

/// `toml::to_string`, printing a table that holds no float and no date-time:
/// the outcome depends on what the table holds alone, since a table keeps
/// its keys sorted.
#[verifier::external_body]
pub(crate) fn print_document(table: &toml::Table) -> (r: Result<String, toml::ser::Error>)
    ensures
        plain_entries(table_entries(*table)) ==> match r {
            Ok(text) => printed_document(table_entries(*table)) is Ok && printed_document(
                table_entries(*table),
            )->Ok_0 == text@,
            Err(e) => printed_document(table_entries(*table)) is Err && printed_document(
                table_entries(*table),
            )->Err_0 == e,
        },
{
    toml::to_string(table)
}

} // verus!
