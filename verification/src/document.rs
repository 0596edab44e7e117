//! Reading configuration documents. The text of a document is parsed by the
//! `toml` crate; what it gives is taken over, value by value, into the
//! library's own kind of value.

use crate::error::BuildError;
use crate::options::{
    entry_views, lemma_entry_views, lemma_views_of, view_of, views_of, ConfigValue,
    ConfigValueView,
};
use vstd::prelude::*;

verus! {

#[verifier::external_type_specification]
#[verifier::external_body]
pub struct ExTomlValue(toml::Value);

/// What a parsed value holds.
pub uninterp spec fn toml_view(value: toml::Value) -> ConfigValueView;

/// How deep the arrays and tables of a parsed value lie in one another.
pub uninterp spec fn toml_depth(value: toml::Value) -> nat;

/// The document that a text parses to; nothing for a text that is none.
pub uninterp spec fn toml_document(text: Seq<char>) -> Option<ConfigValueView>;

/// Whether a view is that of a value without parts.
pub open spec fn is_scalar(v: ConfigValueView) -> bool {
    !(v is Array) && !(v is Table)
}

/// `<toml::Table as FromStr>::from_str`: the table that the text holds as a
/// document, or what the parser says of the text where it is none.
#[verifier::external_body]
fn read_document(text: &str) -> (r: Result<toml::Value, String>)
    ensures
        match r {
            Ok(value) => toml_document(text@) == Some(toml_view(value)),
            Err(reason) => toml_document(text@) is None,
        },
{
    match text.parse::<toml::Table>() {
        Ok(table) => Ok(toml::Value::Table(table)),
        Err(e) => Err(e.to_string()),
    }
}

/// The variants of `toml::Value` without parts: a string, an integer, a
/// float, a boolean or a datetime is handed over as it is, the float and the
/// datetime as the text that `to_string` gives. An array or a table gives
/// nothing.
#[verifier::external_body]
fn scalar_of(value: &toml::Value) -> (r: Option<ConfigValue>)
    ensures
        match r {
            Some(scalar) => is_scalar(toml_view(*value)) && toml_view(*value)
                == scalar.deep_view(),
            None => !is_scalar(toml_view(*value)),
        },
{
    match value {
        toml::Value::String(text) => Some(ConfigValue::String(text.clone())),
        toml::Value::Integer(number) => Some(ConfigValue::Integer(*number)),
        toml::Value::Float(number) => Some(ConfigValue::Float(number.to_string())),
        toml::Value::Boolean(truth) => Some(ConfigValue::Boolean(*truth)),
        toml::Value::Datetime(when) => Some(ConfigValue::Datetime(when.to_string())),
        toml::Value::Array(_) | toml::Value::Table(_) => None,
    }
}

/// `toml::Value::as_array`: the items of an array, in order; nothing for a
/// value that is no array. Every item lies less deep than the array.
#[verifier::external_body]
fn items_of(value: &toml::Value) -> (r: Option<Vec<&toml::Value>>)
    ensures
        match r {
            Some(items) => toml_view(*value) matches ConfigValueView::Array(views) && views.len()
                == items.len() && forall|i: int|
                0 <= i < items.len() ==> toml_view(*#[trigger] items[i]) == views[i] && toml_depth(
                    *items[i],
                ) < toml_depth(*value),
            None => !(toml_view(*value) is Array),
        },
{
    value.as_array().map(|items| items.iter().collect())
}

/// `toml::Value::as_table`: the entries of a table, each a name and a value,
/// in the table's order; none for a value that is no table. Every value lies
/// less deep than the table.
#[verifier::external_body]
fn entries_of(value: &toml::Value) -> (r: Vec<(String, &toml::Value)>)
    ensures
        toml_view(*value) matches ConfigValueView::Table(views) ==> views.len() == r.len()
            && forall|i: int|
            0 <= i < r.len() ==> (#[trigger] r[i]).0@ == views[i].0 && toml_view(*r[i].1)
                == views[i].1 && toml_depth(*r[i].1) < toml_depth(*value),
        !(toml_view(*value) is Table) ==> r.len() == 0,
{
    match value.as_table() {
        Some(table) => table.iter().map(|(name, value)| (name.clone(), value)).collect(),
        None => Vec::new(),
    }
}

/// Takes a parsed value over into the library's kind of value.
fn convert(value: &toml::Value) -> (r: ConfigValue)
    ensures
        r.deep_view() == toml_view(*value),
    decreases toml_depth(*value),
{
    if let Some(scalar) = scalar_of(value) {
        return scalar;
    }
    if let Some(items) = items_of(value) {
        let ghost views = toml_view(*value)->Array_0;
        let mut out: Vec<ConfigValue> = Vec::new();
        let n = items.len();
        let mut i: usize = 0;
        while i < n
            invariant
                n == items.len(),
                i <= n,
                views.len() == n,
                forall|k: int|
                    0 <= k < n ==> toml_view(*#[trigger] items[k]) == views[k] && toml_depth(
                        *items[k],
                    ) < toml_depth(*value),
                out.len() == i,
                forall|k: int| 0 <= k < i ==> view_of(#[trigger] out@[k]) == views[k],
            decreases n - i,
        {
            let item = convert(items[i]);
            out.push(item);
            i += 1;
        }
        proof {
            lemma_views_of(out@);
            assert(views_of(out@) =~= views);
        }
        return ConfigValue::Array(out);
    }
    let entries = entries_of(value);
    let ghost views = toml_view(*value)->Table_0;
    let mut out: Vec<(String, ConfigValue)> = Vec::new();
    let n = entries.len();
    let mut i: usize = 0;
    while i < n
        invariant
            n == entries.len(),
            i <= n,
            views.len() == n,
            forall|k: int|
                0 <= k < n ==> (#[trigger] entries[k]).0@ == views[k].0 && toml_view(*entries[k].1)
                    == views[k].1 && toml_depth(*entries[k].1) < toml_depth(*value),
            out.len() == i,
            forall|k: int|
                0 <= k < i ==> (#[trigger] out@[k]).0@ == views[k].0 && view_of(out@[k].1)
                    == views[k].1,
        decreases n - i,
    {
        let inner = convert(entries[i].1);
        out.push((entries[i].0.clone(), inner));
        i += 1;
    }
    proof {
        lemma_entry_views(out@);
        assert(entry_views(out@) =~= views);
    }
    ConfigValue::Table(out)
}

/// Reads a configuration document. A text that is no document is
/// `InvalidDocument`, with what the parser says of it.
pub fn parse_document(text: &str) -> (r: Result<ConfigValue, BuildError>)
    ensures
        match r {
            Ok(document) => toml_document(text@) == Some(document.deep_view()),
            Err(e) => toml_document(text@) is None && e is InvalidDocument,
        },
{
    match read_document(text) {
        Ok(value) => Ok(convert(&value)),
        Err(reason) => Err(BuildError::InvalidDocument { reason }),
    }
}

} // verus!
