//! TOML text read into TOML values.
use vstd::prelude::*;

use crate::toml_value::{
    float_tree, lists_entries, TomlDate, TomlDatetime, TomlOffset, TomlTable, TomlTime, TomlTree,
    TomlValue,
};

verus! {

/// A value of the `toml` crate.
#[verifier::external_type_specification]
#[verifier::external_body]
pub struct ExTomlValue(toml::Value);

/// A date-time of the `toml` crate.
#[verifier::external_type_specification]
#[verifier::external_body]
pub struct ExTomlDatetime(toml::value::Datetime);

/// The error of the `toml` crate for a text that is no TOML document.
#[verifier::external_type_specification]
#[verifier::external_body]
pub struct ExTomlError(toml::de::Error);

/// What a `toml::Value` holds.
pub uninterp spec fn value_tree(value: toml::Value) -> TomlTree;

/// What the fields of a `toml::value::Datetime` hold.
pub uninterp spec fn datetime_fields(datetime: toml::value::Datetime) -> TomlDatetime;

/// What `toml::from_str` reads from a text: the document, or the error it reports.
pub uninterp spec fn document(contents: Seq<char>) -> Result<TomlTree, toml::de::Error>;

/// One layer of a `toml::Value`: its variant, with the values inside still closed.
enum TomlNode {
    String(String),
    Integer(i64),
    Float(u64),
    Boolean(bool),
    Datetime(toml::value::Datetime),
    Array(Vec<toml::Value>),
    Table(Vec<(String, toml::Value)>),
}

/// What a list of keys and closed values says, in the same order.
spec fn closed_pairs(pairs: Seq<(String, toml::Value)>) -> Seq<(Seq<char>, TomlTree)> {
    pairs.map_values(|pair: (String, toml::Value)| (pair.0@, value_tree(pair.1)))
}

/// Whether `node` is the outer layer of a value that says `tree`.
spec fn opens(node: TomlNode, tree: TomlTree) -> bool {
    match node {
        TomlNode::String(text) => tree == TomlTree::String(text@),
        TomlNode::Integer(number) => tree == TomlTree::Integer(number),
        TomlNode::Float(bits) => tree == TomlTree::Float(float_tree(bits)),
        TomlNode::Boolean(flag) => tree == TomlTree::Boolean(flag),
        TomlNode::Datetime(datetime) => tree == TomlTree::Datetime(datetime_fields(datetime)),
        TomlNode::Array(items) => tree == TomlTree::Array(
            items@.map_values(|item: toml::Value| value_tree(item)),
        ),
        TomlNode::Table(pairs) => tree is Table && lists_entries(
            closed_pairs(pairs@),
            tree->Table_0,
        ),
    }
}

/// Calls `toml::from_str`, which reads a text as a TOML document.
#[verifier::external_body]
fn toml_from_str(contents: &str) -> (read: Result<toml::Value, toml::de::Error>)
    ensures
        match read {
            Ok(value) => document(contents@) == Ok::<_, toml::de::Error>(value_tree(value)),
            Err(error) => document(contents@) == Err::<TomlTree, _>(error),
        },
{
    toml::from_str(contents)
}

/// Tells the variants of `toml::Value` apart and hands out what is inside: a float as its bits, a
/// table as its entries, each once.
#[verifier::external_body]
fn open_value(value: toml::Value) -> (node: TomlNode)
    ensures
        opens(node, value_tree(value)),
{
    match value {
        toml::Value::String(text) => TomlNode::String(text),
        toml::Value::Integer(number) => TomlNode::Integer(number),
        toml::Value::Float(number) => TomlNode::Float(number.to_bits()),
        toml::Value::Boolean(flag) => TomlNode::Boolean(flag),
        toml::Value::Datetime(datetime) => TomlNode::Datetime(datetime),
        toml::Value::Array(items) => TomlNode::Array(items),
        toml::Value::Table(table) => TomlNode::Table(table.into_iter().collect()),
    }
}

/// Takes the public fields out of a `toml::value::Datetime`, and out of the date, the time and the
/// offset in it.
#[verifier::external_body]
fn open_datetime(datetime: toml::value::Datetime) -> (fields: TomlDatetime)
    ensures
        fields == datetime_fields(datetime),
{
    let toml::value::Datetime { date, time, offset } = datetime;
    TomlDatetime {
        date: date.map(|d| TomlDate { year: d.year, month: d.month, day: d.day }),
        time: time.map(
            |t| TomlTime { hour: t.hour, minute: t.minute, second: t.second, nanosecond: t.nanosecond },
        ),
        offset: offset.map(
            |o| match o {
                toml::value::Offset::Z => TomlOffset::Z,
                toml::value::Offset::Custom { minutes } => TomlOffset::Custom { minutes },
            },
        ),
    }
}

/// Reads a value of the `toml` crate into a `TomlValue` that says the same.
pub fn read_value(value: toml::Value) -> (read: TomlValue)
    ensures
        read@ == value_tree(value),
    decreases value_tree(value),
{
    let ghost tree = value_tree(value);
    match open_value(value) {
        TomlNode::String(text) => TomlValue::String(text),
        TomlNode::Integer(number) => TomlValue::Integer(number),
        TomlNode::Float(bits) => TomlValue::Float(bits),
        TomlNode::Boolean(flag) => TomlValue::Boolean(flag),
        TomlNode::Datetime(datetime) => TomlValue::Datetime(open_datetime(datetime)),
        TomlNode::Array(items) => {
            let ghost closed = items@;
            let mut read: Vec<TomlValue> = Vec::new();
            for item in it: items
                invariant
                    it.seq() == closed,
                    tree == value_tree(value),
                    tree == TomlTree::Array(
                        closed.map_values(|item: toml::Value| value_tree(item)),
                    ),
                    read@.len() == it.index(),
                    forall|j: int| 0 <= j < read@.len() ==> (#[trigger] read@[j])@ == tree->Array_0[j],
            {
                let ghost at = it.index() as int;
                assert(tree->Array_0[at] == value_tree(item));
                assert(decreases_to!(tree => tree->Array_0));
                assert(decreases_to!(tree->Array_0 => tree->Array_0[at]));
                read.push(read_value(item));
            }
            let whole = TomlValue::Array(read);
            assert(whole@->Array_0 =~= tree->Array_0);
            whole
        },
        TomlNode::Table(pairs) => {
            let ghost entries = tree->Table_0;
            let ghost said = closed_pairs(pairs@);
            let mut table = TomlTable::new();
            for pair in it: pairs
                invariant
                    tree == value_tree(value),
                    tree == TomlTree::Table(entries),
                    said == closed_pairs(it.seq()),
                    lists_entries(said, entries),
                    forall|j: int|
                        0 <= j < it.index() ==> table@.dom().contains((#[trigger] said[j]).0)
                            && table@[said[j].0] == said[j].1,
                    forall|key: Seq<char>| #[trigger]
                        table@.dom().contains(key) ==> entries.dom().contains(key),
            {
                let ghost at = it.index() as int;
                let (key, closed) = pair;
                assert(said[at] == (key@, value_tree(closed)));
                assert(entries.dom().contains(said[at].0));
                assert(decreases_to!(tree => tree->Table_0[key@]));
                table.insert(key, read_value(closed));
            }
            assert(table@ =~= entries);
            TomlValue::Table(table)
        },
    }
}

/// Reads a text as a TOML document.
pub(crate) fn parse_document(contents: &str) -> (read: Result<TomlValue, toml::de::Error>)
    ensures
        match read {
            Ok(value) => document(contents@) == Ok::<_, toml::de::Error>(value@),
            Err(error) => document(contents@) == Err::<TomlTree, _>(error),
        },
{
    match toml_from_str(contents) {
        Ok(value) => Ok(read_value(value)),
        Err(error) => Err(error),
    }
}

} // verus!
