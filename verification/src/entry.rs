//! Entries of a plugin list and the rule by which one names a plugin.

use serde_json::Value;
use vstd::prelude::*;

verus! {

/// `serde_json::Value`, carried through without a look inside.
#[verifier::external_type_specification]
#[verifier::external_body]
pub struct ExValue(serde_json::Value);

/// The text that `serde_json::Value::as_str` gives for a value.
pub uninterp spec fn value_text(value: Value) -> Option<Seq<char>>;

/// The items that `serde_json::Value::as_array` gives for a value.
pub uninterp spec fn value_items(value: Value) -> Option<Seq<Value>>;

/// `serde_json::Value::as_str`: the text of a string value, `None` for any other kind.
pub assume_specification[ serde_json::Value::as_str ](value: &Value) -> (r: Option<&str>)
    ensures
        match r {
            Some(text) => value_text(*value) == Some(text@),
            None => value_text(*value) is None,
        },
;

/// `serde_json::Value::as_array`: the items of an array value, `None` for any other kind.
pub assume_specification[ serde_json::Value::as_array ](value: &Value) -> (r: Option<&Vec<Value>>)
    ensures
        match r {
            Some(items) => value_items(*value) == Some(items@),
            None => value_items(*value) is None,
        },
;

/// One entry of a plugin list, reduced to what the registration rule reads.
#[derive(Debug)]
pub enum PluginEntry {
    /// A string.
    Text(String),
    /// An array: for each item its text, or `None` where the item is no string.
    Items(Vec<Option<String>>),
    /// Any other value.
    Other,
}

/// The mathematical form of a [`PluginEntry`].
#[verifier::ext_equal]
pub enum EntryView {
    Text(Seq<char>),
    Items(Seq<Option<Seq<char>>>),
    Other,
}

pub open spec fn optional_text(text: Option<String>) -> Option<Seq<char>> {
    match text {
        Some(text) => Some(text@),
        None => None,
    }
}

impl View for PluginEntry {
    type V = EntryView;

    open spec fn view(&self) -> EntryView {
        match *self {
            PluginEntry::Text(text) => EntryView::Text(text@),
            PluginEntry::Items(items) => EntryView::Items(
                items@.map_values(|item: Option<String>| optional_text(item)),
            ),
            PluginEntry::Other => EntryView::Other,
        }
    }
}

/// What a JSON value is as an entry of a plugin list.
pub open spec fn value_entry(value: Value) -> EntryView {
    match value_text(value) {
        Some(text) => EntryView::Text(text),
        None => match value_items(value) {
            Some(items) => EntryView::Items(items.map_values(|item: Value| value_text(item))),
            None => EntryView::Other,
        },
    }
}

/// An entry names a plugin by being its specifier, or by being a list that starts with it.
pub open spec fn names_plugin(entry: EntryView, plugin_spec: Seq<char>) -> bool {
    match entry {
        EntryView::Text(text) => text == plugin_spec,
        EntryView::Items(items) => items.len() > 0 && items[0] == Some(plugin_spec),
        EntryView::Other => false,
    }
}

/// Reads the entry that a JSON value stands for.
pub fn read_entry(value: &Value) -> (entry: PluginEntry)
    ensures
        entry@ == value_entry(*value),
        match entry {
            PluginEntry::Text(text) => value_text(*value) == Some(text@),
            PluginEntry::Items(texts) => {
                &&& value_text(*value) is None
                &&& value_items(*value) matches Some(items)
                &&& texts@.len() == items.len()
                &&& forall|i: int|
                    0 <= i < items.len() ==> match #[trigger] texts@[i] {
                        Some(text) => value_text(items[i]) == Some(text@),
                        None => value_text(items[i]) is None,
                    }
            },
            PluginEntry::Other => value_text(*value) is None && value_items(*value) is None,
        },
{
    if let Some(text) = value.as_str() {
        return PluginEntry::Text(text.to_owned());
    }
    match value.as_array() {
        None => PluginEntry::Other,
        Some(items) => {
            let mut texts: Vec<Option<String>> = Vec::new();
            let mut i: usize = 0;
            while i < items.len()
                invariant
                    i <= items@.len(),
                    texts@.len() == i,
                    forall|j: int|
                        0 <= j < i ==> optional_text(#[trigger] texts@[j]) == value_text(items@[j]),
                decreases items@.len() - i,
            {
                let text: Option<String> = match items[i].as_str() {
                    Some(text) => Some(text.to_owned()),
                    None => None,
                };
                texts.push(text);
                i = i + 1;
            }
            assert(texts@.map_values(|item: Option<String>| optional_text(item))
                =~= items@.map_values(|item: Value| value_text(item)));
            PluginEntry::Items(texts)
        },
    }
}

/// Whether an entry registers the plugin: the entry is the specifier itself, or an array
/// whose first item is.
pub fn plugin_entry_matches(entry: &PluginEntry, plugin_spec: &str) -> (matches: bool)
    ensures
        matches == names_plugin(entry@, plugin_spec@),
        match *entry {
            PluginEntry::Text(text) => matches == (text@ == plugin_spec@),
            PluginEntry::Items(items) => matches == (items@.len() > 0 && match items@[0] {
                Some(first) => first@ == plugin_spec@,
                None => false,
            }),
            PluginEntry::Other => !matches,
        },
{
    let wanted: String = plugin_spec.to_owned();
    match entry {
        PluginEntry::Text(text) => *text == wanted,
        PluginEntry::Items(items) => {
            if items.len() == 0 {
                return false;
            }
            match &items[0] {
                Some(first) => *first == wanted,
                None => false,
            }
        },
        PluginEntry::Other => false,
    }
}

} // verus!
