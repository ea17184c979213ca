//! The plugin list of one configuration text: reading, checking and editing it.

use crate::document::{
    adds_no_comment, adds_text, append_element, append_property, clear_comments,
    document_comments, document_text, document_view, drops_inside_comments, element_count,
    element_entry, element_value, ends_apart, entries_of, fields_of, has_list, has_property,
    has_separated_list, is_bare, is_parsed, keeps_clear_comments, keeps_comments_clear,
    keeps_outside_comments, keeps_reading_back, outside_comments, parse_document, parsed_document,
    print_document, property_is_list, reads_back, remove_element, remove_property, root_is_object,
    same_elsewhere, with_element, with_property, without_element, without_property, DocumentView,
    FieldView, JsoncOptions,
};
use crate::entry::{names_plugin, plugin_entry_matches, read_entry, EntryView, PluginEntry};
use crate::error::{invalid_plugin_list, invalid_root, ConfigError, ConfigErrorView};
use crate::text::{is_empty_object, text_is_empty_object};
use jsonc_parser::cst::CstRootNode;
use serde_json::Value;
use vstd::prelude::*;

verus! {

/// The property that holds the plugin list.
pub open spec fn plugin_name() -> Seq<char> {
    "plugin"@
}

/// OpenCode takes comments and trailing commas in its settings, and nothing else beyond JSON.
pub open spec fn config_options() -> JsoncOptions {
    JsoncOptions {
        allow_comments: true,
        allow_loose_object_property_names: false,
        allow_trailing_commas: true,
        allow_missing_commas: false,
        allow_single_quoted_strings: false,
        allow_hexadecimal_numbers: false,
        allow_unary_plus_numbers: false,
    }
}

/// The options that every configuration text is parsed with.
pub fn jsonc_parse_options() -> (options: JsoncOptions)
    ensures
        options == config_options(),
{
    JsoncOptions {
        allow_comments: true,
        allow_loose_object_property_names: false,
        allow_trailing_commas: true,
        allow_missing_commas: false,
        allow_single_quoted_strings: false,
        allow_hexadecimal_numbers: false,
        allow_unary_plus_numbers: false,
    }
}

/// What a document says about plugins.
#[derive(Debug)]
pub enum PluginField {
    /// The root value is no object.
    NotObject,
    /// The root object has no plugin property.
    Absent,
    /// The plugin property is no array.
    NotList,
    /// The entries of the plugin list.
    List(Vec<PluginEntry>),
}

/// The mathematical form of a [`PluginField`].
#[verifier::ext_equal]
pub enum PluginFieldView {
    NotObject,
    Absent,
    NotList,
    List(Seq<EntryView>),
}

impl View for PluginField {
    type V = PluginFieldView;

    open spec fn view(&self) -> PluginFieldView {
        match *self {
            PluginField::NotObject => PluginFieldView::NotObject,
            PluginField::Absent => PluginFieldView::Absent,
            PluginField::NotList => PluginFieldView::NotList,
            PluginField::List(entries) => PluginFieldView::List(
                entries@.map_values(|entry: PluginEntry| entry@),
            ),
        }
    }
}

/// What the elements of a list are as entries.
pub open spec fn list_entries(values: Seq<Option<Value>>) -> Seq<EntryView> {
    values.map_values(|value: Option<Value>| element_entry(value))
}

/// The plugin field of a document: the first property of that name counts.
pub open spec fn plugin_field(document: DocumentView) -> PluginFieldView {
    match document {
        DocumentView::Other => PluginFieldView::NotObject,
        DocumentView::Object(fields) => if fields.len() == 0 {
            PluginFieldView::Absent
        } else {
            match fields[0] {
                FieldView::Other(_) => PluginFieldView::NotList,
                FieldView::List { values, separated: _ } => PluginFieldView::List(
                    list_entries(values),
                ),
            }
        },
    }
}

/// What a configuration text holds under a property name, or the parser's message.
pub open spec fn setting(text: Seq<char>, name: Seq<char>) -> Result<DocumentView, Seq<char>> {
    match parsed_document(text, config_options()) {
        Ok(root) => Ok(document_view(root, name)),
        Err(message) => Err(message),
    }
}

/// What a configuration text holds as plugins, or the parser's message.
pub open spec fn reading(text: Seq<char>) -> Result<DocumentView, Seq<char>> {
    setting(text, plugin_name())
}

/// The comments of a configuration text.
pub open spec fn text_comments(text: Seq<char>) -> Seq<Seq<char>> {
    match parsed_document(text, config_options()) {
        Ok(root) => document_comments(root),
        Err(_) => Seq::empty(),
    }
}

/// The comments of a configuration text that are not inside its plugin property.
pub open spec fn text_outside_comments(text: Seq<char>) -> Seq<Seq<char>> {
    match parsed_document(text, config_options()) {
        Ok(root) => outside_comments(root, plugin_name()),
        Err(_) => Seq::empty(),
    }
}

/// The comments of a configuration text that its plugin property does not touch.
pub open spec fn text_clear_comments(text: Seq<char>) -> Seq<Seq<char>> {
    match parsed_document(text, config_options()) {
        Ok(root) => clear_comments(root, plugin_name()),
        Err(_) => Seq::empty(),
    }
}

/// Some entry of a list names the plugin.
pub open spec fn lists_plugin(entries: Seq<EntryView>, plugin_spec: Seq<char>) -> bool {
    exists|i: int| 0 <= i < entries.len() && names_plugin(#[trigger] entries[i], plugin_spec)
}

/// The fault of a plugin field, if it has one.
pub open spec fn field_error(field: PluginFieldView, path: Seq<char>) -> Option<ConfigErrorView> {
    match field {
        PluginFieldView::NotObject => Some(ConfigErrorView::InvalidRoot { path }),
        PluginFieldView::NotList => Some(ConfigErrorView::InvalidPluginList { path }),
        _ => None,
    }
}

/// The fault of a configuration text, if it has one.
pub open spec fn text_error(text: Seq<char>, path: Seq<char>) -> Option<ConfigErrorView> {
    match reading(text) {
        Err(reason) => Some(ConfigErrorView::Unparsable { path, reason }),
        Ok(document) => field_error(plugin_field(document), path),
    }
}

/// A plugin field is a list with an entry that names the plugin.
pub open spec fn field_lists(field: PluginFieldView, plugin_spec: Seq<char>) -> bool {
    field matches PluginFieldView::List(entries) && lists_plugin(entries, plugin_spec)
}

/// A configuration text registers the plugin.
pub open spec fn text_lists(text: Seq<char>, plugin_spec: Seq<char>) -> bool {
    reading(text) matches Ok(document) && field_lists(plugin_field(document), plugin_spec)
}

/// Parses a configuration text.
pub(crate) fn parse_root(content: &str, path: &str) -> (root: Result<CstRootNode, ConfigError>)
    ensures
        match root {
            Ok(root) => {
                &&& parsed_document(content@, config_options()) == Ok::<CstRootNode, Seq<char>>(
                    root,
                )
                &&& document_text(root) == content@
                &&& is_parsed(root)
                &&& is_empty_object(content@) ==> is_bare(root)
            },
            Err(error) => {
                &&& reading(content@) matches Err(reason)
                &&& error@ == (ConfigErrorView::Unparsable { path: path@, reason })
                &&& !is_empty_object(content@)
            },
        },
{
    match parse_document(content, &jsonc_parse_options()) {
        Ok(root) => Ok(root),
        Err(reason) => Err(ConfigError::Unparsable { path: path.to_owned(), reason }),
    }
}

/// Refuses a document whose root value is no object.
pub(crate) fn root_object(root: &CstRootNode, path: &str) -> (object: Result<(), ConfigError>)
    ensures
        match object {
            Ok(()) => document_view(*root, plugin_name()) is Object,
            Err(error) => document_view(*root, plugin_name()) is Other && error@ == (
            ConfigErrorView::InvalidRoot { path: path@ }),
        },
{
    if root_is_object(root) {
        Ok(())
    } else {
        assert(document_view(*root, plugin_name()) !is Object);
        Err(invalid_root(path))
    }
}

/// Reads the plugin field of a document.
pub(crate) fn read_plugin_field(root: &CstRootNode) -> (field: PluginField)
    ensures
        field@ == plugin_field(document_view(*root, plugin_name())),
{
    let ghost document = document_view(*root, plugin_name());
    if !root_is_object(root) {
        assert(document !is Object);
        return PluginField::NotObject;
    }
    if !has_property(root, "plugin") {
        return PluginField::Absent;
    }
    if !property_is_list(root, "plugin") {
        return PluginField::NotList;
    }
    let count: usize = element_count(root, "plugin");
    let mut entries: Vec<PluginEntry> = Vec::new();
    let mut i: usize = 0;
    while i < count
        invariant
            document == document_view(*root, plugin_name()),
            has_list(document),
            count == entries_of(document).len(),
            i <= count,
            entries@.len() == i,
            forall|j: int|
                0 <= j < i ==> (#[trigger] entries@[j])@ == element_entry(entries_of(document)[j]),
        decreases count - i,
    {
        let entry: PluginEntry = match element_value(root, "plugin", i) {
            Some(value) => read_entry(&value),
            None => PluginEntry::Other,
        };
        entries.push(entry);
        i = i + 1;
    }
    assert(entries@.map_values(|entry: PluginEntry| entry@) =~= list_entries(
        entries_of(document),
    ));
    PluginField::List(entries)
}

/// Refuses a plugin field that is in no object, or is no array.
pub fn check_plugin_field(field: &PluginField, path: &str) -> (checked: Result<(), ConfigError>)
    ensures
        match checked {
            Ok(()) => field_error(field@, path@) is None,
            Err(error) => field_error(field@, path@) == Some(error@),
        },
{
    match field {
        PluginField::NotObject => Err(invalid_root(path)),
        PluginField::NotList => Err(invalid_plugin_list(path)),
        PluginField::Absent => Ok(()),
        PluginField::List(_) => Ok(()),
    }
}

/// Whether a plugin field registers the plugin.
pub fn plugin_field_lists(field: &PluginField, plugin_spec: &str) -> (listed: bool)
    ensures
        listed == field_lists(field@, plugin_spec@),
{
    match field {
        PluginField::List(entries) => {
            let ghost views = entries@.map_values(|entry: PluginEntry| entry@);
            let mut i: usize = 0;
            while i < entries.len()
                invariant
                    i <= entries@.len(),
                    views == entries@.map_values(|entry: PluginEntry| entry@),
                    field@ == PluginFieldView::List(views),
                    forall|j: int| 0 <= j < i ==> !names_plugin(#[trigger] views[j], plugin_spec@),
                decreases entries@.len() - i,
            {
                if plugin_entry_matches(&entries[i], plugin_spec) {
                    assert(names_plugin(views[i as int], plugin_spec@));
                    return true;
                }
                i = i + 1;
            }
            false
        },
        _ => false,
    }
}

/// Checks a configuration text: it parses, its root is an object, and its plugin property,
/// where it has one, is an array.
pub fn validate_text(content: &str, path: &str) -> (checked: Result<(), ConfigError>)
    ensures
        match checked {
            Ok(()) => text_error(content@, path@) is None,
            Err(error) => text_error(content@, path@) == Some(error@),
        },
{
    match parse_root(content, path) {
        Err(error) => Err(error),
        Ok(root) => check_plugin_field(&read_plugin_field(&root), path),
    }
}

/// Whether a configuration text registers the plugin. A text with a fault registers none.
pub fn text_lists_plugin(content: &str, plugin_spec: &str) -> (listed: bool)
    ensures
        listed == text_lists(content@, plugin_spec@),
{
    match parse_document(content, &jsonc_parse_options()) {
        Err(_) => false,
        Ok(root) => plugin_field_lists(&read_plugin_field(&root), plugin_spec),
    }
}

/// A tree with the plugin registered: as the last entry of its plugin list, or in a new
/// plugin list where it has none.
pub open spec fn registered_document(root: CstRootNode, plugin_spec: Seq<char>) -> CstRootNode {
    if plugin_field(document_view(root, plugin_name())) is Absent {
        with_property(root, plugin_name(), plugin_spec)
    } else {
        with_element(root, plugin_name(), plugin_spec)
    }
}

/// `after` is what a document says about plugins once the plugin is registered in `before`: its
/// entries, in their order, and the specifier after them. Further properties of that name stay
/// as they are.
pub open spec fn is_registered(
    before: DocumentView,
    plugin_spec: Seq<char>,
    after: DocumentView,
) -> bool {
    &&& has_list(after)
    &&& adds_text(entries_of(before), plugin_spec, entries_of(after))
    &&& if fields_of(before).len() == 0 {
        fields_of(after).len() == 1 && has_separated_list(after)
    } else {
        &&& fields_of(after).drop_first() == fields_of(before).drop_first()
        &&& has_separated_list(after) == has_separated_list(before)
    }
}

/// `after` is a text without a fault with the plugin registered. Other settings stay, and so
/// does every comment; those that the plugin property did not touch it still does not.
pub open spec fn is_registration(
    before: Seq<char>,
    plugin_spec: Seq<char>,
    after: Seq<char>,
) -> bool {
    &&& parsed_document(before, config_options()) matches Ok(root)
    &&& after == document_text(registered_document(root, plugin_spec))
    &&& parsed_document(after, config_options()) matches Ok(again)
    &&& is_registered(
        document_view(root, plugin_name()),
        plugin_spec,
        document_view(again, plugin_name()),
    )
    &&& same_elsewhere(again, root, plugin_name())
    &&& document_comments(again) == document_comments(root)
    &&& keeps_comments_clear(root, again, plugin_name())
    &&& has_list(document_view(root, plugin_name())) ==> outside_comments(again, plugin_name())
        == outside_comments(root, plugin_name())
    &&& ends_apart(again, plugin_name())
}

/// Registers the plugin in a configuration text. The text has to be without a fault.
pub fn register_in_text(content: &str, path: &str, plugin_spec: &str) -> (edited: Result<
    String,
    ConfigError,
>)
    ensures
        match edited {
            Ok(text) => text_error(content@, path@) is None && is_registration(
                content@,
                plugin_spec@,
                text@,
            ),
            Err(error) => text_error(content@, path@) == Some(error@),
        },
        is_empty_object(content@) ==> edited is Ok && (parsed_document(content@, config_options())
            matches Ok(root) && is_bare(root)),
{
    let mut root: CstRootNode = match parse_root(content, path) {
        Err(error) => return Err(error),
        Ok(root) => root,
    };
    match root_object(&root, path) {
        Err(error) => return Err(error),
        Ok(()) => {},
    }
    let ghost before = root;
    assert(reads_back(before, config_options()));
    if has_property(&root, "plugin") {
        if !property_is_list(&root, "plugin") {
            return Err(invalid_plugin_list(path));
        }
        append_element(&mut root, "plugin", plugin_spec);
    } else {
        append_property(&mut root, "plugin", plugin_spec);
        proof {
            let fields = fields_of(document_view(root, plugin_name()));
            assert(fields.drop_last().len() == 0);
            assert(fields[0] == fields.last());
        }
    }
    assert(reads_back(root, config_options()));
    Ok(print_document(&root))
}

/// An element of a list names the plugin.
pub open spec fn element_names(value: Option<Value>, plugin_spec: Seq<char>) -> bool {
    names_plugin(element_entry(value), plugin_spec)
}

/// Some element of a list names the plugin.
pub open spec fn holds_plugin(values: Seq<Option<Value>>, plugin_spec: Seq<char>) -> bool {
    exists|i: int| 0 <= i < values.len() && element_names(#[trigger] values[i], plugin_spec)
}

/// A list registers the plugin where some element names it.
pub proof fn lemma_list_entries(values: Seq<Option<Value>>, plugin_spec: Seq<char>)
    ensures
        lists_plugin(list_entries(values), plugin_spec) == holds_plugin(values, plugin_spec),
{
    let entries = list_entries(values);
    assert forall|i: int| 0 <= i < values.len() implies names_plugin(
        #[trigger] entries[i],
        plugin_spec,
    ) == element_names(values[i], plugin_spec) by {}
    if lists_plugin(entries, plugin_spec) {
        let i = choose|i: int|
            0 <= i < entries.len() && names_plugin(#[trigger] entries[i], plugin_spec);
        assert(element_names(values[i], plugin_spec));
    }
    if holds_plugin(values, plugin_spec) {
        let i = choose|i: int|
            0 <= i < values.len() && element_names(#[trigger] values[i], plugin_spec);
        assert(names_plugin(entries[i], plugin_spec));
    }
}

/// The entries that do not name the plugin, in their order.
pub open spec fn other_entries(values: Seq<Option<Value>>, plugin_spec: Seq<char>) -> Seq<
    Option<Value>,
> {
    values.filter(|value: Option<Value>| !element_names(value, plugin_spec))
}

/// A tree after every entry that names the plugin was taken out of its list, from the first
/// to the last. `entries` are those still to be looked at, the first of them at `index`.
pub open spec fn pruned_document(
    root: CstRootNode,
    entries: Seq<Option<Value>>,
    plugin_spec: Seq<char>,
    index: int,
) -> CstRootNode
    decreases entries.len(),
{
    if entries.len() == 0 {
        root
    } else if element_names(entries[0], plugin_spec) {
        pruned_document(
            without_element(root, plugin_name(), index),
            entries.drop_first(),
            plugin_spec,
            index,
        )
    } else {
        pruned_document(root, entries.drop_first(), plugin_spec, index + 1)
    }
}

/// A tree with the plugin taken out: its list pruned, and the list itself gone where that
/// leaves it empty.
pub open spec fn unregistered_document(root: CstRootNode, plugin_spec: Seq<char>) -> CstRootNode {
    let entries = entries_of(document_view(root, plugin_name()));
    let pruned = pruned_document(root, entries, plugin_spec, 0);
    if other_entries(entries, plugin_spec).len() == 0 {
        without_property(pruned, plugin_name())
    } else {
        pruned
    }
}

/// `after` is what a document says about plugins once the plugin is taken out of `before`:
/// the other entries in their order, kept apart where they were, or no such property where none
/// is left. Further properties of that name stay as they are.
pub open spec fn is_unregistered(
    before: DocumentView,
    plugin_spec: Seq<char>,
    after: DocumentView,
) -> bool {
    let others = other_entries(entries_of(before), plugin_spec);
    if others.len() == 0 {
        after == DocumentView::Object(fields_of(before).drop_first())
    } else {
        &&& has_list(after)
        &&& entries_of(after) == others
        &&& has_separated_list(before) ==> has_separated_list(after)
        &&& fields_of(after).drop_first() == fields_of(before).drop_first()
    }
}

/// At most the last entry of the plugin list names the plugin, and it is alone or behind a comma.
pub open spec fn goes_last(root: CstRootNode, plugin_spec: Seq<char>) -> bool {
    &&& ends_apart(root, plugin_name())
    &&& !holds_plugin(
        entries_of(document_view(root, plugin_name())).drop_last(),
        plugin_spec,
    )
}

/// The entries that name the plugin can be taken out without others running together: all
/// entries are kept apart, or only the last one goes and is alone or behind a comma.
pub open spec fn removes_readably(root: CstRootNode, plugin_spec: Seq<char>) -> bool {
    has_separated_list(document_view(root, plugin_name())) || goes_last(root, plugin_spec)
}

/// Takes every entry that names the plugin out of the plugin list of a document.
pub(crate) fn prune_document(root: &mut CstRootNode, plugin_spec: &str) -> (removed: bool)
    requires
        has_list(document_view(*old(root), plugin_name())),
    ensures
        *final(root) == pruned_document(
            *old(root),
            entries_of(document_view(*old(root), plugin_name())),
            plugin_spec@,
            0,
        ),
        removed == holds_plugin(
            entries_of(document_view(*old(root), plugin_name())),
            plugin_spec@,
        ),
        has_list(document_view(*final(root), plugin_name())),
        entries_of(document_view(*final(root), plugin_name())) == other_entries(
            entries_of(document_view(*old(root), plugin_name())),
            plugin_spec@,
        ),
        fields_of(document_view(*final(root), plugin_name())).drop_first() == fields_of(
            document_view(*old(root), plugin_name()),
        ).drop_first(),
        same_elsewhere(*final(root), *old(root), plugin_name()),
        clear_comments(*final(root), plugin_name()) == clear_comments(*old(root), plugin_name()),
        removed ==> keeps_outside_comments(*old(root), *final(root), plugin_name()),
        removed ==> keeps_clear_comments(*old(root), *final(root), plugin_name()),
        is_parsed(*old(root)) ==> is_parsed(*final(root)),
        outside_comments(*final(root), plugin_name()) == outside_comments(
            *old(root),
            plugin_name(),
        ),
        adds_no_comment(*old(root), *final(root)),
        has_separated_list(document_view(*old(root), plugin_name())) ==> has_separated_list(
            document_view(*final(root), plugin_name()),
        ),
        removes_readably(*old(root), plugin_spec@) ==> keeps_reading_back(*old(root), *final(root)),
{
    let ghost before = *root;
    let ghost entries = entries_of(document_view(before, plugin_name()));
    let mut removed: bool = false;
    let mut index: usize = 0;
    let mut left: usize = element_count(root, "plugin");
    assert(entries.skip(0) =~= entries);
    assert(entries.take(0) =~= Seq::empty());
    assert(other_entries(entries.take(0), plugin_spec@) =~= Seq::empty()) by {
        reveal(Seq::filter);
    }
    assert(entries_of(document_view(*root, plugin_name())) =~= Seq::empty() + entries);
    while left > 0
        invariant
            entries == entries_of(document_view(before, plugin_name())),
            left <= entries.len() <= usize::MAX,
            index <= entries.len() - left,
            has_list(document_view(*root, plugin_name())),
            index == other_entries(entries.take(entries.len() - left), plugin_spec@).len(),
            entries_of(document_view(*root, plugin_name())) == other_entries(
                entries.take(entries.len() - left),
                plugin_spec@,
            ) + entries.skip(entries.len() - left),
            pruned_document(*root, entries.skip(entries.len() - left), plugin_spec@, index as int)
                == pruned_document(before, entries, plugin_spec@, 0),
            removed == holds_plugin(entries.take(entries.len() - left), plugin_spec@),
            fields_of(document_view(*root, plugin_name())).drop_first() == fields_of(
                document_view(before, plugin_name()),
            ).drop_first(),
            same_elsewhere(*root, before, plugin_name()),
            clear_comments(*root, plugin_name()) == clear_comments(before, plugin_name()),
            removed ==> keeps_outside_comments(before, *root, plugin_name()),
            removed ==> keeps_clear_comments(before, *root, plugin_name()),
            is_parsed(before) ==> is_parsed(*root),
            outside_comments(*root, plugin_name()) == outside_comments(before, plugin_name()),
            adds_no_comment(before, *root),
            has_separated_list(document_view(before, plugin_name())) ==> has_separated_list(
                document_view(*root, plugin_name()),
            ) && keeps_reading_back(before, *root),
            goes_last(before, plugin_spec@) && left > 0 ==> *root == before && index
                == entries.len() - left,
            goes_last(before, plugin_spec@) ==> keeps_reading_back(before, *root),
        decreases left,
    {
        let ghost seen = entries.len() - left;
        let ghost kept = other_entries(entries.take(seen), plugin_spec@);
        let ghost current = entries_of(document_view(*root, plugin_name()));
        proof {
            assert(entries.take(seen + 1).drop_last() =~= entries.take(seen));
            assert(entries.take(seen + 1).last() == entries[seen]);
            assert(entries.skip(seen).drop_first() =~= entries.skip(seen + 1));
            assert(entries.skip(seen)[0] == entries[seen]);
            assert(current[index as int] == entries[seen]);
            if left > 1 {
                assert(entries.drop_last()[seen] == entries[seen]);
            }
            reveal(Seq::filter);
        }
        let matches: bool = match element_value(root, "plugin", index) {
            Some(value) => plugin_entry_matches(&read_entry(&value), plugin_spec),
            None => false,
        };
        if matches {
            remove_element(root, "plugin", index);
            removed = true;
            proof {
                assert(current.remove(index as int) =~= kept + entries.skip(seen + 1));
                assert(element_names(entries.take(seen + 1)[seen], plugin_spec@));
            }
        } else {
            proof {
                assert(kept.push(entries[seen]) + entries.skip(seen + 1) =~= current);
                lemma_holds_push(entries, seen, plugin_spec@);
            }
            index = index + 1;
        }
        left = left - 1;
    }
    proof {
        assert(entries.take(entries.len() as int) =~= entries);
        assert(entries.skip(entries.len() as int) =~= Seq::empty());
        assert(other_entries(entries, plugin_spec@) + Seq::<Option<Value>>::empty()
            =~= other_entries(entries, plugin_spec@));
    }
    removed
}

/// One more entry that does not name the plugin leaves open whether those before it do.
proof fn lemma_holds_push(entries: Seq<Option<Value>>, seen: int, plugin_spec: Seq<char>)
    requires
        0 <= seen < entries.len(),
        !element_names(entries[seen], plugin_spec),
    ensures
        holds_plugin(entries.take(seen + 1), plugin_spec) == holds_plugin(
            entries.take(seen),
            plugin_spec,
        ),
{
    if holds_plugin(entries.take(seen), plugin_spec) {
        let i = choose|i: int|
            0 <= i < seen && element_names(#[trigger] entries.take(seen)[i], plugin_spec);
        assert(element_names(entries.take(seen + 1)[i], plugin_spec));
    }
    if holds_plugin(entries.take(seen + 1), plugin_spec) {
        let i = choose|i: int|
            0 <= i < seen + 1 && element_names(#[trigger] entries.take(seen + 1)[i], plugin_spec);
        assert(element_names(entries.take(seen)[i], plugin_spec));
    }
}

/// What becomes of a configuration text when the plugin is taken out.
#[derive(Debug)]
pub enum Removal {
    /// The text does not register the plugin and stays as it is.
    Unchanged,
    /// Nothing but an empty object would be left: the file goes.
    Deleted,
    /// The text that takes the place of the old one.
    Rewritten(String),
}

/// The mathematical form of a [`Removal`].
#[verifier::ext_equal]
pub enum RemovalView {
    Unchanged,
    Deleted,
    Rewritten(Seq<char>),
}

impl View for Removal {
    type V = RemovalView;

    open spec fn view(&self) -> RemovalView {
        match *self {
            Removal::Unchanged => RemovalView::Unchanged,
            Removal::Deleted => RemovalView::Deleted,
            Removal::Rewritten(text) => RemovalView::Rewritten(text@),
        }
    }
}

/// `removal` takes the plugin out of a text without a fault. A text that does not register
/// it stays; else the text of the tree with the plugin taken out takes its place, or the
/// file goes where that text is an empty object, which is where the tree has no property and no
/// comment. Other settings stay. So do the comments outside the plugin property where it stays,
/// and those that it does not touch where it goes. No comment is new, and none from inside a
/// property that goes is left. Where no entries can run together, the new text reads as the tree
/// says.
pub open spec fn is_removal(
    before: Seq<char>,
    plugin_spec: Seq<char>,
    removal: RemovalView,
) -> bool {
    &&& parsed_document(before, config_options()) matches Ok(root)
    &&& if !text_lists(before, plugin_spec) {
        removal is Unchanged
    } else {
        let document = document_view(root, plugin_name());
        let left = unregistered_document(root, plugin_spec);
        &&& is_unregistered(document, plugin_spec, document_view(left, plugin_name()))
        &&& same_elsewhere(left, root, plugin_name())
        &&& other_entries(entries_of(document), plugin_spec).len() > 0 ==> keeps_outside_comments(
            root,
            left,
            plugin_name(),
        )
        &&& keeps_clear_comments(root, left, plugin_name())
        &&& adds_no_comment(root, left)
        &&& other_entries(entries_of(document), plugin_spec).len() == 0 ==> drops_inside_comments(
            root,
            left,
            plugin_name(),
        )
        &&& removal == if is_empty_object(document_text(left)) {
            RemovalView::Deleted
        } else {
            RemovalView::Rewritten(document_text(left))
        }
        &&& removal is Deleted <==> is_bare(left)
        &&& removes_readably(root, plugin_spec) ==> reads_back(left, config_options())
    }
}

/// Takes the plugin out of a configuration text. The text has to be without a fault.
pub fn unregister_in_text(content: &str, path: &str, plugin_spec: &str) -> (edited: Result<
    Removal,
    ConfigError,
>)
    ensures
        match edited {
            Ok(removal) => text_error(content@, path@) is None && is_removal(
                content@,
                plugin_spec@,
                removal@,
            ),
            Err(error) => text_error(content@, path@) == Some(error@),
        },
{
    let mut root: CstRootNode = match parse_root(content, path) {
        Err(error) => return Err(error),
        Ok(root) => root,
    };
    match root_object(&root, path) {
        Err(error) => return Err(error),
        Ok(()) => {},
    }
    if !has_property(&root, "plugin") {
        return Ok(Removal::Unchanged);
    }
    if !property_is_list(&root, "plugin") {
        return Err(invalid_plugin_list(path));
    }
    let ghost before = root;
    let ghost document = document_view(before, plugin_name());
    proof {
        assert(reads_back(before, config_options()));
        lemma_list_entries(entries_of(document), plugin_spec@);
    }
    if !prune_document(&mut root, plugin_spec) {
        return Ok(Removal::Unchanged);
    }
    if element_count(&root, "plugin") == 0 {
        remove_property(&mut root, "plugin");
    }
    let remaining: String = print_document(&root);
    assert(root == unregistered_document(before, plugin_spec@));
    assert(removes_readably(before, plugin_spec@) ==> reads_back(root, config_options()));
    if text_is_empty_object(remaining.as_str()) {
        Ok(Removal::Deleted)
    } else {
        Ok(Removal::Rewritten(remaining))
    }
}

} // verus!
