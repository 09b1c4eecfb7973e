//! Writing a document out as text, by `serde_json` and `serde_yaml`.

use vstd::prelude::*;
use crate::document::{entries_view, items_view, Node, Tree};
use crate::error::CliError;
use crate::format::Format;

verus! {

/// `serde_json::Value`, the tree that both serializers are handed. Nothing
/// is known of a value but what the functions below say of it.
#[verifier::external_type_specification]
#[verifier::external_body]
pub struct ExJsonValue(serde_json::Value);

/// `serde_json::Error`, the error of `serde_json::to_string_pretty`.
#[verifier::external_type_specification]
#[verifier::external_body]
pub struct ExJsonError(serde_json::Error);

/// `serde_yaml::Error`, the error of `serde_yaml::to_string`.
#[verifier::external_type_specification]
#[verifier::external_body]
pub struct ExYamlError(serde_yaml::Error);

/// The tree that a `serde_json::Value` holds. The entries of an object stand
/// in the order in which the value iterates over them.
pub uninterp spec fn json_tree(value: serde_json::Value) -> Tree;

/// The text that `serde_json::to_string_pretty` writes for a value holding
/// `tree`, or `None` where it reports an error.
pub uninterp spec fn json_text(tree: Tree) -> Option<Seq<char>>;

/// The text that `serde_yaml::to_string` writes for a value holding `tree`,
/// or `None` where it reports an error.
pub uninterp spec fn yaml_text(tree: Tree) -> Option<Seq<char>>;

/// `serde_json::Value::Null`: the value that holds the null scalar.
#[verifier::external_body]
fn json_null() -> (value: serde_json::Value)
    ensures
        json_tree(value) == Tree::Null,
{
    serde_json::Value::Null
}

/// `serde_json::Value::Bool`: the value that holds the given boolean.
#[verifier::external_body]
fn json_bool(b: bool) -> (value: serde_json::Value)
    ensures
        json_tree(value) == Tree::Bool(b),
{
    serde_json::Value::Bool(b)
}

/// `serde_json::Value::from` on an `i64`: the value that holds the given
/// integer as a number.
#[verifier::external_body]
fn json_number(n: i64) -> (value: serde_json::Value)
    ensures
        json_tree(value) == Tree::Number(n as int),
{
    serde_json::Value::from(n)
}

/// `serde_json::Value::from` on a `&str`: the value that holds a copy of the
/// given string.
#[verifier::external_body]
fn json_string(s: &str) -> (value: serde_json::Value)
    ensures
        json_tree(value) == Tree::String(s@),
{
    serde_json::Value::from(s)
}

/// `serde_json::Value::Array`: the value that holds the given values, in
/// their order.
#[verifier::external_body]
fn json_array(items: Vec<serde_json::Value>) -> (value: serde_json::Value)
    ensures
        json_tree(value) == Tree::Array(
            items@.map_values(|item: serde_json::Value| json_tree(item)),
        ),
{
    serde_json::Value::Array(items)
}

/// Collecting pairs into a `serde_json::Value`, which makes an object by
/// inserting them in their order. With the `preserve_order` feature and keys
/// that all differ, the object holds exactly the given entries in the given
/// order.
#[verifier::external_body]
fn json_object(entries: Vec<(String, serde_json::Value)>) -> (value: serde_json::Value)
    requires
        forall|i: int, j: int|
            0 <= i < j < entries.len() ==> (#[trigger] entries[i]).0@ != (#[trigger] entries[j]).0@,
    ensures
        json_tree(value) == Tree::Object(
            entries@.map_values(
                |entry: (String, serde_json::Value)| (entry.0@, json_tree(entry.1)),
            ),
        ),
{
    serde_json::Value::Object(entries.into_iter().collect())
}

/// `serde_json::to_string_pretty`: the pretty-printed JSON text of a value.
#[verifier::external_body]
fn json_pretty(value: &serde_json::Value) -> (out: Result<String, serde_json::Error>)
    ensures
        match out {
            Ok(text) => json_text(json_tree(*value)) == Some(text@),
            Err(_) => json_text(json_tree(*value)) is None,
        },
{
    serde_json::to_string_pretty(value)
}

/// `serde_yaml::to_string`: the YAML text of a value.
#[verifier::external_body]
fn yaml_block(value: &serde_json::Value) -> (out: Result<String, serde_yaml::Error>)
    ensures
        match out {
            Ok(text) => yaml_text(json_tree(*value)) == Some(text@),
            Err(_) => yaml_text(json_tree(*value)) is None,
        },
{
    serde_yaml::to_string(value)
}

/// Builds the `serde_json::Value` that holds the tree of a document.
fn to_value(node: &Node) -> (value: serde_json::Value)
    requires
        node.wf(),
    ensures
        json_tree(value) == node@,
    decreases node,
{
    match node {
        Node::Null => json_null(),
        Node::Bool(b) => json_bool(*b),
        Node::Number(n) => json_number(*n),
        Node::String(s) => json_string(s.as_str()),
        Node::Array(items) => {
            proof {
                Node::lemma_array_view(*items);
            }
            let mut values: Vec<serde_json::Value> = Vec::new();
            let mut i: usize = 0;
            while i < items.len()
                invariant
                    i <= items.len(),
                    values.len() == i,
                    node == Node::Array(*items),
                    node.wf(),
                    node@ == Tree::Array(items_view(*items)),
                    forall|j: int| 0 <= j < i ==> json_tree(#[trigger] values[j]) == items[j]@,
                decreases items.len() - i,
            {
                assert(node@->Array_0[i as int] == items[i as int]@);
                let value = to_value(&items[i]);
                values.push(value);
                i += 1;
            }
            let ghost trees = values@.map_values(|item: serde_json::Value| json_tree(item));
            assert(trees =~= items_view(*items));
            json_array(values)
        },
        Node::Object(entries) => {
            proof {
                Node::lemma_object_view(*entries);
            }
            let mut pairs: Vec<(String, serde_json::Value)> = Vec::new();
            let mut i: usize = 0;
            while i < entries.len()
                invariant
                    i <= entries.len(),
                    pairs.len() == i,
                    node == Node::Object(*entries),
                    node.wf(),
                    node@ == Tree::Object(entries_view(*entries)),
                    forall|j: int|
                        0 <= j < i ==> (#[trigger] pairs[j]).0@ == entries[j].key@ && json_tree(
                            pairs[j].1,
                        ) == entries[j].value@,
                decreases entries.len() - i,
            {
                assert(entries_view(*entries)[i as int].1.wf());
                let value = to_value(&entries[i].value);
                pairs.push((entries[i].key.clone(), value));
                i += 1;
            }
            let ghost trees = pairs@.map_values(
                |entry: (String, serde_json::Value)| (entry.0@, json_tree(entry.1)),
            );
            assert(trees =~= entries_view(*entries));
            assert forall|i: int, j: int| 0 <= i < j < pairs.len() implies (#[trigger] pairs[i]).0@
                != (#[trigger] pairs[j]).0@ by {
                assert(entries_view(*entries)[i].0 != entries_view(*entries)[j].0);
            }
            json_object(pairs)
        },
    }
}

/// The characters of a text, or the error in its place.
pub open spec fn text_of(out: Result<String, CliError>) -> Result<Seq<char>, CliError> {
    match out {
        Ok(text) => Ok(text@),
        Err(e) => Err(e),
    }
}

/// What a serializer makes of a tree.
pub open spec fn serialized(tree: Tree, format: Format) -> Option<Seq<char>> {
    match format {
        Format::Json => json_text(tree),
        Format::Yaml => yaml_text(tree),
    }
}

/// What `render` returns for a tree: the text that the serializer of the
/// format writes for it. A tree in which an object has a key twice is not
/// handed to a serializer, and where the serializer reports an error there
/// is no text either.
pub open spec fn rendering(tree: Tree, format: Format) -> Result<Seq<char>, CliError> {
    if !tree.wf() {
        Err(CliError::Serialize)
    } else {
        match serialized(tree, format) {
            Some(text) => Ok(text),
            None => Err(CliError::Serialize),
        }
    }
}

/// Takes what a serializer returned: its text as it stands, and
/// `Serialize` in place of its error, of whatever kind.
pub fn text_from<E>(written: Result<String, E>) -> (out: Result<String, CliError>)
    ensures
        match written {
            Ok(text) => out == Ok::<String, CliError>(text),
            Err(_) => out == Err::<String, CliError>(CliError::Serialize),
        },
{
    match written {
        Ok(text) => Ok(text),
        Err(_) => Err(CliError::Serialize),
    }
}

/// Writes out a document in which every object is a mapping.
pub(crate) fn render_mappings(doc: &Node, format: Format) -> (out: Result<String, CliError>)
    requires
        doc.wf(),
    ensures
        text_of(out) == rendering(doc@, format),
{
    let value = to_value(doc);
    match format {
        Format::Json => text_from(json_pretty(&value)),
        Format::Yaml => text_from(yaml_block(&value)),
    }
}

/// Writes a document out: as pretty-printed JSON with an indentation of two
/// spaces, or as a YAML document in block style. A document in which some
/// object has a key twice cannot be written out.
pub fn render(doc: &Node, format: Format) -> (out: Result<String, CliError>)
    ensures
        text_of(out) == rendering(doc@, format),
{
    if doc.check() {
        render_mappings(doc, format)
    } else {
        Err(CliError::Serialize)
    }
}

} // verus!
