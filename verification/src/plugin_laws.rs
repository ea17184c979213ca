//! What the operations mean for the user's files, said of the JSON values in them.

use crate::config::{
    file_error, file_lists, files_error, is_addition, is_configured, is_file_removal,
    is_files_removal, Addition, ConfigFile, ConfigFiles, Removals,
};
use crate::document::{
    clear_comments, document_comments, document_text, document_view, ends_apart, outside_comments,
    parsed_document, with_element, with_property, without_element, without_property, DocumentView,
    FieldView, JsoncOptions,
};
use crate::entry::{names_plugin, value_entry, value_items, value_text, PluginEntry};
use crate::error::{ConfigError, ConfigName};
use crate::listing::{
    config_options, element_names, field_error, field_lists, holds_plugin, is_registration,
    is_removal, lemma_list_entries, other_entries, plugin_name, pruned_document, text_error,
    text_lists, unregistered_document, PluginField, Removal,
};
use crate::text::is_empty_object;
use jsonc_parser::cst::CstRootNode;
use serde_json::Value;
use vstd::prelude::*;

verus! {

/// A configuration is JSON with comments and trailing commas and no other liberty, and its
/// plugins are under `plugin`.
pub proof fn law_configurations_are_jsonc(options: JsoncOptions)
    requires
        options == config_options(),
    ensures
        options.allow_comments && options.allow_trailing_commas,
        !options.allow_loose_object_property_names && !options.allow_missing_commas,
        !options.allow_single_quoted_strings && !options.allow_hexadecimal_numbers,
        !options.allow_unary_plus_numbers,
        plugin_name() == "plugin"@,
{
}

/// A string entry names a plugin if and only if it is the specifier, letter for letter.
pub proof fn law_string_entry_names_only_itself(
    value: Value,
    text: Seq<char>,
    plugin_spec: Seq<char>,
)
    requires
        value_text(value) == Some(text),
    ensures
        element_names(Some(value), plugin_spec) <==> text == plugin_spec,
        names_plugin(value_entry(value), plugin_spec) <==> text == plugin_spec,
{
}

/// An array entry names a plugin if and only if its first item is the specifier as a string; what
/// comes behind, the options, has no say.
pub proof fn law_array_entry_names_its_first_item(
    value: Value,
    items: Seq<Value>,
    plugin_spec: Seq<char>,
)
    requires
        value_text(value) is None,
        value_items(value) == Some(items),
    ensures
        element_names(Some(value), plugin_spec) <==> items.len() > 0 && value_text(items[0])
            == Some(plugin_spec),
        names_plugin(value_entry(value), plugin_spec) <==> items.len() > 0 && value_text(items[0])
            == Some(plugin_spec),
{
}

/// Any other entry, and an element without a JSON value, names no plugin.
pub proof fn law_other_entry_names_nothing(element: Option<Value>, plugin_spec: Seq<char>)
    requires
        element matches Some(value) ==> value_text(value) is None && value_items(value) is None,
    ensures
        !element_names(element, plugin_spec),
{
}

/// No entry names two plugins.
pub proof fn law_entry_names_one_plugin(
    element: Option<Value>,
    plugin_spec: Seq<char>,
    other_spec: Seq<char>,
)
    requires
        element_names(element, plugin_spec),
        element_names(element, other_spec),
    ensures
        plugin_spec == other_spec,
{
}

/// The same rule for an entry that was read: a string by its letters, an array by its first item.
pub proof fn law_read_entry_matches_by_its_letters(entry: PluginEntry, plugin_spec: Seq<char>)
    ensures
        match entry {
            PluginEntry::Text(text) => names_plugin(entry@, plugin_spec) <==> text@ == plugin_spec,
            PluginEntry::Items(items) => names_plugin(entry@, plugin_spec) <==> items@.len() > 0
                && items@[0] is Some && items@[0]->0@ == plugin_spec,
            PluginEntry::Other => !names_plugin(entry@, plugin_spec),
        },
{
}

/// A field that was read is refused just where it is in no object or is no array, and lists a
/// plugin just where one of its entries names it.
pub proof fn law_read_field_is_checked_and_searched(
    field: PluginField,
    path: Seq<char>,
    plugin_spec: Seq<char>,
    error: ConfigError,
)
    ensures
        field is Absent || field is List <==> field_error(field@, path) is None,
        field_error(field@, path) == Some(error@) ==> match error {
            ConfigError::InvalidRoot { path: shown } => field is NotObject && shown@ == path,
            ConfigError::InvalidPluginList { path: shown } => field is NotList && shown@ == path,
            _ => false,
        },
        match field {
            PluginField::List(entries) => field_lists(field@, plugin_spec) <==> exists|i: int|
                0 <= i < entries@.len() && names_plugin((#[trigger] entries@[i])@, plugin_spec),
            _ => !field_lists(field@, plugin_spec),
        },
{
    if let PluginField::List(entries) = field {
        let views = entries@.map_values(|entry: PluginEntry| entry@);
        if field_lists(field@, plugin_spec) {
            let i = choose|i: int|
                0 <= i < views.len() && names_plugin(#[trigger] views[i], plugin_spec);
            assert(names_plugin(entries@[i]@, plugin_spec));
        }
        if exists|i: int|
            0 <= i < entries@.len() && names_plugin((#[trigger] entries@[i])@, plugin_spec) {
            let i = choose|i: int|
                0 <= i < entries@.len() && names_plugin((#[trigger] entries@[i])@, plugin_spec);
            assert(names_plugin(views[i], plugin_spec));
        }
    }
}

/// A text is without a fault just where it parses, its root is an object, and its first plugin
/// property, if it has one, is an array. Whatever else it holds has no say.
pub proof fn law_text_without_fault(text: Seq<char>, path: Seq<char>)
    ensures
        text_error(text, path) is None <==> (parsed_document(text, config_options()) matches Ok(
            root,
        ) && document_view(root, "plugin"@) matches DocumentView::Object(fields) && (fields.len()
            == 0 || fields[0] is List)),
{
}

/// Each fault of a text is reported for what it is: the parser's words, no object at the root, or
/// no array as plugin list; always with the path of the file.
pub proof fn law_text_fault_is_named(text: Seq<char>, path: Seq<char>, error: ConfigError)
    requires
        text_error(text, path) == Some(error@),
    ensures
        match error {
            ConfigError::Unreadable(_) => false,
            ConfigError::Unparsable { path: shown, reason } => shown@ == path && parsed_document(
                text,
                config_options(),
            ) == Err::<CstRootNode, Seq<char>>(reason@),
            ConfigError::InvalidRoot { path: shown } => shown@ == path && (parsed_document(
                text,
                config_options(),
            ) matches Ok(root) && document_view(root, "plugin"@) is Other),
            ConfigError::InvalidPluginList { path: shown } => shown@ == path && (parsed_document(
                text,
                config_options(),
            ) matches Ok(root) && document_view(root, "plugin"@) matches DocumentView::Object(
                fields,
            ) && fields.len() > 0 && fields[0] is Other),
        },
{
}

/// A file passes just where it is no regular file, or is read, parses, has an object at the root,
/// and has an array as its first plugin property, if it has one. Whatever other properties it
/// has have no say.
pub proof fn law_valid_file_passes(name: ConfigName, file: ConfigFile)
    ensures
        file_error(name, file@) is None <==> !file.is_file || (file.content matches Some(text)
            && parsed_document(text@, config_options()) matches Ok(root) && document_view(
            root,
            "plugin"@,
        ) matches DocumentView::Object(fields) && (fields.len() == 0 || fields[0] is List)),
{
    if let Some(text) = file.content {
        law_text_without_fault(text@, file.path@);
    }
}

/// The fault of a file: that it could not be read, or the fault of its text with its path.
pub proof fn law_file_fault_is_named(name: ConfigName, file: ConfigFile, error: ConfigError)
    requires
        file_error(name, file@) == Some(error@),
    ensures
        file.is_file,
        match error {
            ConfigError::Unreadable(unread) => unread == name && file.content is None,
            ConfigError::Unparsable { path, reason } => path@ == file.path@ && (file.content
                matches Some(text) && parsed_document(text@, config_options()) == Err::<
                CstRootNode,
                Seq<char>,
            >(reason@)),
            ConfigError::InvalidRoot { path } => path@ == file.path@ && (file.content
                matches Some(text) && parsed_document(text@, config_options()) matches Ok(root)
                && document_view(root, "plugin"@) is Other),
            ConfigError::InvalidPluginList { path } => path@ == file.path@ && (file.content
                matches Some(text) && parsed_document(text@, config_options()) matches Ok(root)
                && document_view(root, "plugin"@) matches DocumentView::Object(fields)
                && fields.len() > 0 && fields[0] is Other),
        },
{
    if let Some(text) = file.content {
        law_text_fault_is_named(text@, file.path@, error);
    }
}

/// Two files pass together just where each passes alone, and the fault that is reported is that
/// of `tui.json` if it has one, and else that of `tui.jsonc`.
pub proof fn law_first_fault_is_reported(files: ConfigFiles)
    ensures
        files_error(files@) is None <==> file_error(ConfigName::TuiJson, files.json@) is None
            && file_error(ConfigName::TuiJsonc, files.jsonc@) is None,
        file_error(ConfigName::TuiJson, files.json@) is Some ==> files_error(files@) == file_error(
            ConfigName::TuiJson,
            files.json@,
        ),
        file_error(ConfigName::TuiJson, files.json@) is None ==> files_error(files@) == file_error(
            ConfigName::TuiJsonc,
            files.jsonc@,
        ),
{
}

/// A text registers a plugin just where it parses, its root is an object, its first plugin
/// property is an array, and in that is the specifier as a string, or an array that starts with
/// it.
pub proof fn law_registered_text_holds_the_specifier(text: Seq<char>, plugin_spec: Seq<char>)
    ensures
        text_lists(text, plugin_spec) <==> ({
            &&& parsed_document(text, config_options()) matches Ok(root)
            &&& document_view(root, "plugin"@) matches DocumentView::Object(fields)
            &&& fields.len() > 0
            &&& fields[0] matches FieldView::List { values, separated: _ }
            &&& exists|i: int|
                0 <= i < values.len() && #[trigger] values[i] is Some && (value_text(values[i]->0)
                    == Some(plugin_spec) || value_text(values[i]->0) is None && value_items(
                    values[i]->0,
                ) is Some && value_items(values[i]->0)->0.len() > 0 && value_text(
                    value_items(values[i]->0)->0[0],
                ) == Some(plugin_spec))
        }),
{
    if let Ok(root) = parsed_document(text, config_options()) {
        if let DocumentView::Object(fields) = document_view(root, "plugin"@) {
            if fields.len() > 0 {
                if let FieldView::List { values, separated: _ } = fields[0] {
                    lemma_list_entries(values, plugin_spec);
                    if holds_plugin(values, plugin_spec) {
                        let i = choose|i: int|
                            0 <= i < values.len() && element_names(
                                #[trigger] values[i],
                                plugin_spec,
                            );
                        assert(values[i] is Some);
                    }
                    if exists|i: int|
                        0 <= i < values.len() && #[trigger] values[i] is Some && (value_text(
                            values[i]->0,
                        ) == Some(plugin_spec) || value_text(values[i]->0) is None && value_items(
                            values[i]->0,
                        ) is Some && value_items(values[i]->0)->0.len() > 0 && value_text(
                            value_items(values[i]->0)->0[0],
                        ) == Some(plugin_spec)) {
                        let i = choose|i: int|
                            0 <= i < values.len() && #[trigger] values[i] is Some && (value_text(
                                values[i]->0,
                            ) == Some(plugin_spec) || value_text(values[i]->0) is None
                                && value_items(values[i]->0) is Some && value_items(
                                values[i]->0,
                            )->0.len() > 0 && value_text(value_items(values[i]->0)->0[0]) == Some(
                                plugin_spec,
                            ));
                        assert(element_names(values[i], plugin_spec));
                    }
                }
            }
        }
    }
}

/// A file registers what its text registers, whether or not it is a regular file, and one that
/// could not be read registers nothing. A plugin is configured where either file registers it.
pub proof fn law_either_file_configures(files: ConfigFiles, plugin_spec: Seq<char>)
    ensures
        file_lists(files.json@, plugin_spec) <==> files.json.content is Some && text_lists(
            files.json.content->0@,
            plugin_spec,
        ),
        file_lists(files.jsonc@, plugin_spec) <==> files.jsonc.content is Some && text_lists(
            files.jsonc.content->0@,
            plugin_spec,
        ),
        is_configured(files@, plugin_spec) <==> files.json.content is Some && text_lists(
            files.json.content->0@,
            plugin_spec,
        ) || files.jsonc.content is Some && text_lists(files.jsonc.content->0@, plugin_spec),
{
}

/// An addition leaves a plugin alone that a file registers, `tui.json` before `tui.jsonc`, and
/// writes where neither does: to `tui.json` if it is the only file there, and else to
/// `tui.jsonc`.
pub proof fn law_addition_picks_the_file(
    files: ConfigFiles,
    plugin_spec: Seq<char>,
    addition: Addition,
)
    requires
        is_addition(files@, plugin_spec, addition@),
    ensures
        file_lists(files.json@, plugin_spec) ==> addition == Addition::Listed(ConfigName::TuiJson),
        !file_lists(files.json@, plugin_spec) && file_lists(files.jsonc@, plugin_spec) ==> addition
            == Addition::Listed(ConfigName::TuiJsonc),
        !file_lists(files.json@, plugin_spec) && !file_lists(files.jsonc@, plugin_spec)
            ==> addition is Written,
        addition matches Addition::Written { name, text: _ } ==> (name is TuiJson
            <==> files.json.exists && !files.jsonc.exists),
{
}

/// Registering puts the specifier behind the entries that are there, or makes the plugin property
/// where there is none. All entries, further plugin properties, other properties and comments
/// are as before, and the text is that of the tree with this one edit.
pub proof fn law_registration_adds_one_string(
    before: Seq<char>,
    plugin_spec: Seq<char>,
    after: Seq<char>,
    other: Seq<char>,
)
    requires
        is_registration(before, plugin_spec, after),
        text_error(before, before) is None,
    ensures
        ({
            &&& parsed_document(before, config_options()) matches Ok(root)
            &&& parsed_document(after, config_options()) matches Ok(again)
            &&& document_view(root, "plugin"@) matches DocumentView::Object(fields)
            &&& document_view(again, "plugin"@) matches DocumentView::Object(grown)
            &&& grown.len() > 0
            &&& grown[0] matches FieldView::List { values: entries, separated: apart }
            &&& entries.len() > 0
            &&& entries.last() is Some && value_text(entries.last()->0) == Some(plugin_spec)
            &&& if fields.len() == 0 {
                &&& after == document_text(with_property(root, "plugin"@, plugin_spec))
                &&& grown.len() == 1 && entries.len() == 1 && apart
            } else {
                &&& after == document_text(with_element(root, "plugin"@, plugin_spec))
                &&& fields[0] matches FieldView::List { values, separated }
                &&& entries.len() == values.len() + 1 && apart == separated
                &&& forall|i: int| 0 <= i < values.len() ==> entries[i] == #[trigger] values[i]
                &&& grown.len() == fields.len()
                &&& forall|i: int| 1 <= i < fields.len() ==> grown[i] == #[trigger] fields[i]
            }
            &&& other != "plugin"@ ==> document_view(again, other) == document_view(root, other)
            &&& document_comments(again) == document_comments(root)
        }),
{
    law_text_without_fault(before, before);
    let root = parsed_document(before, config_options())->Ok_0;
    let again = parsed_document(after, config_options())->Ok_0;
    let fields = document_view(root, "plugin"@)->Object_0;
    let grown = document_view(again, "plugin"@)->Object_0;
    let entries = grown[0]->values;
    if fields.len() > 0 {
        let values = fields[0]->values;
        assert forall|i: int| 0 <= i < values.len() implies entries[i] == #[trigger] values[i] by {
            assert(entries.drop_last()[i] == values[i]);
        }
        assert(grown.drop_first().len() == fields.drop_first().len());
        assert forall|i: int| 1 <= i < fields.len() implies grown[i] == #[trigger] fields[i] by {
            assert(grown.drop_first()[i - 1] == fields.drop_first()[i - 1]);
        }
    }
}

/// An addition writes to a file what that file held, with the plugin: where it is a regular file,
/// every setting, every comment and every plugin entry of its own text is in the new text.
/// `mine` is the file of the name that is written, not the other one.
pub proof fn law_written_file_keeps_its_own_text(
    files: ConfigFiles,
    plugin_spec: Seq<char>,
    name: ConfigName,
    text: String,
    mine: ConfigFile,
    other: Seq<char>,
)
    requires
        files_error(files@) is None,
        is_addition(files@, plugin_spec, (Addition::Written { name, text })@),
        name is TuiJson ==> mine == files.json,
        name is TuiJsonc ==> mine == files.jsonc,
        mine.is_file,
    ensures
        ({
            &&& mine.content matches Some(own)
            &&& parsed_document(own@, config_options()) matches Ok(root)
            &&& parsed_document(text@, config_options()) matches Ok(again)
            &&& document_view(root, "plugin"@) matches DocumentView::Object(fields)
            &&& document_view(again, "plugin"@) matches DocumentView::Object(grown)
            &&& grown.len() > 0
            &&& grown[0] matches FieldView::List { values: entries, separated: _ }
            &&& entries.len() > 0
            &&& entries.last() is Some && value_text(entries.last()->0) == Some(plugin_spec)
            &&& fields.len() == 0 ==> entries.len() == 1 && grown.len() == 1 && text@
                == document_text(with_property(root, "plugin"@, plugin_spec))
            &&& fields.len() > 0 ==> {
                &&& text@ == document_text(with_element(root, "plugin"@, plugin_spec))
                &&& fields[0] matches FieldView::List { values, separated: _ }
                &&& entries.len() == values.len() + 1
                &&& forall|i: int| 0 <= i < values.len() ==> entries[i] == #[trigger] values[i]
                &&& grown.len() == fields.len()
                &&& forall|i: int| 1 <= i < fields.len() ==> grown[i] == #[trigger] fields[i]
            }
            &&& other != "plugin"@ ==> document_view(again, other) == document_view(root, other)
            &&& document_comments(again) == document_comments(root)
            &&& forall|comment: Seq<char>| #[trigger]
                clear_comments(root, "plugin"@).contains(comment) ==> clear_comments(
                    again,
                    "plugin"@,
                ).contains(comment)
        }),
{
    law_valid_file_passes(name, mine);
    let own = mine.content->0;
    law_text_without_fault(own@, own@);
    assert(is_registration(own@, plugin_spec, text@));
    law_registration_adds_one_string(own@, plugin_spec, text@, other);
}

/// An addition to a file that is not there, or is no regular file, starts from an empty object:
/// the new text holds a plugin list with the specifier, and no other property and no comment.
pub proof fn law_new_file_holds_the_plugin_alone(
    files: ConfigFiles,
    plugin_spec: Seq<char>,
    name: ConfigName,
    text: String,
    mine: ConfigFile,
    other: Seq<char>,
)
    requires
        files_error(files@) is None,
        is_addition(files@, plugin_spec, (Addition::Written { name, text })@),
        name is TuiJson ==> mine == files.json,
        name is TuiJsonc ==> mine == files.jsonc,
        !mine.is_file,
    ensures
        ({
            &&& parsed_document(seq!['{', '}', '\n'], config_options()) matches Ok(root)
            &&& text@ == document_text(with_property(root, "plugin"@, plugin_spec))
            &&& parsed_document(text@, config_options()) matches Ok(again)
            &&& document_view(again, "plugin"@) matches DocumentView::Object(grown)
            &&& grown.len() == 1
            &&& grown[0] matches FieldView::List { values: entries, separated: _ }
            &&& entries.len() == 1
            &&& entries[0] is Some && value_text(entries[0]->0) == Some(plugin_spec)
            &&& other != "plugin"@ ==> document_view(again, other) == DocumentView::Object(
                Seq::empty(),
            )
            &&& document_comments(again).len() == 0
        }),
{
    let base = seq!['{', '}', '\n'];
    assert(is_registration(base, plugin_spec, text@));
    let root = parsed_document(base, config_options())->Ok_0;
    assert(document_view(root, "plugin"@) == DocumentView::Object(Seq::empty()));
    assert(document_view(root, other) == DocumentView::Object(Seq::empty()));
    law_text_without_fault(base, base);
    law_registration_adds_one_string(base, plugin_spec, text@, other);
}

/// The elements that stay are those that do not name the plugin, in their order: `from` gives
/// for each of them where it stood.
pub proof fn law_others_stay_in_order(values: Seq<Option<Value>>, plugin_spec: Seq<char>) -> (from:
    Seq<int>)
    ensures
        from.len() == other_entries(values, plugin_spec).len(),
        forall|k: int|
            0 <= k < from.len() ==> 0 <= #[trigger] from[k] < values.len() && other_entries(
                values,
                plugin_spec,
            )[k] == values[from[k]] && !element_names(values[from[k]], plugin_spec),
        forall|k: int, l: int| 0 <= k < l < from.len() ==> #[trigger] from[k] < #[trigger] from[l],
        forall|i: int|
            0 <= i < values.len() && !element_names(#[trigger] values[i], plugin_spec)
                ==> from.contains(i),
    decreases values.len(),
{
    reveal(Seq::filter);
    if values.len() == 0 {
        Seq::empty()
    } else {
        let front = values.drop_last();
        let last = values.len() - 1;
        let before = law_others_stay_in_order(front, plugin_spec);
        let others = other_entries(front, plugin_spec);
        assert forall|i: int| 0 <= i < last && !element_names(
            #[trigger] values[i],
            plugin_spec,
        ) implies before.contains(i) by {
            assert(front[i] == values[i]);
        }
        if element_names(values[last], plugin_spec) {
            before
        } else {
            let from = before.push(last);
            assert forall|i: int| 0 <= i < values.len() && !element_names(
                #[trigger] values[i],
                plugin_spec,
            ) implies from.contains(i) by {
                if i == last {
                    assert(from[before.len() as int] == i);
                } else {
                    let k = choose|k: int| 0 <= k < before.len() && before[k] == i;
                    assert(from[k] == i);
                }
            }
            from
        }
    }
}

/// Where the elements stand that a pruning takes out, and the trees on its way: one tree for each
/// element that goes, from the first to the last. An element has moved up by as many places as
/// elements went before it.
proof fn lemma_pruning_steps(
    root: CstRootNode,
    entries: Seq<Option<Value>>,
    plugin_spec: Seq<char>,
    index: int,
) -> (steps: (Seq<int>, Seq<CstRootNode>))
    ensures
        steps.1.len() == steps.0.len() + 1,
        steps.1[0] == root,
        steps.1.last() == pruned_document(root, entries, plugin_spec, index),
        forall|k: int|
            0 <= k < steps.0.len() ==> 0 <= #[trigger] steps.0[k] < entries.len() && element_names(
                entries[steps.0[k]],
                plugin_spec,
            ) && steps.1[k + 1] == without_element(
                steps.1[k],
                plugin_name(),
                steps.0[k] - k + index,
            ),
        forall|k: int, l: int|
            0 <= k < l < steps.0.len() ==> #[trigger] steps.0[k] < #[trigger] steps.0[l],
        forall|i: int|
            0 <= i < entries.len() && element_names(#[trigger] entries[i], plugin_spec)
                ==> steps.0.contains(i),
    decreases entries.len(),
{
    if entries.len() == 0 {
        (Seq::empty(), seq![root])
    } else {
        let rest = entries.drop_first();
        let goes = element_names(entries[0], plugin_spec);
        let (at, trees) = if goes {
            lemma_pruning_steps(
                without_element(root, plugin_name(), index),
                rest,
                plugin_spec,
                index,
            )
        } else {
            lemma_pruning_steps(root, rest, plugin_spec, index + 1)
        };
        let moved = Seq::new(at.len(), |k: int| at[k] + 1);
        assert forall|i: int| 1 <= i < entries.len() && element_names(
            #[trigger] entries[i],
            plugin_spec,
        ) implies moved.contains(i) by {
            assert(rest[i - 1] == entries[i]);
            let k = choose|k: int| 0 <= k < at.len() && at[k] == i - 1;
            assert(moved[k] == i);
        }
        if goes {
            let all = seq![0int] + moved;
            let path = seq![root] + trees;
            assert forall|k: int| 0 <= k < all.len() implies 0 <= #[trigger] all[k] < entries.len()
                && element_names(entries[all[k]], plugin_spec) && path[k + 1] == without_element(
                path[k],
                plugin_name(),
                all[k] - k + index,
            ) by {
                if k > 0 {
                    assert(all[k] == at[k - 1] + 1);
                    assert(rest[at[k - 1]] == entries[all[k]]);
                    assert(path[k] == trees[k - 1]);
                    assert(path[k + 1] == trees[k]);
                }
            }
            assert forall|k: int, l: int| 0 <= k < l < all.len() implies #[trigger] all[k]
                < #[trigger] all[l] by {
                if k > 0 {
                    assert(at[k - 1] < at[l - 1]);
                }
            }
            assert forall|i: int| 0 <= i < entries.len() && element_names(
                #[trigger] entries[i],
                plugin_spec,
            ) implies all.contains(i) by {
                if i == 0 {
                    assert(all[0] == 0);
                } else {
                    let k = choose|k: int| 0 <= k < moved.len() && moved[k] == i;
                    assert(all[k + 1] == i);
                }
            }
            assert(path.last() == trees.last());
            (all, path)
        } else {
            assert forall|k: int| 0 <= k < moved.len() implies 0 <= #[trigger] moved[k]
                < entries.len() && element_names(entries[moved[k]], plugin_spec) && trees[k + 1]
                == without_element(trees[k], plugin_name(), moved[k] - k + index) by {
                assert(rest[at[k]] == entries[moved[k]]);
            }
            (moved, trees)
        }
    }
}

/// A removal treats each of the two files for itself.
pub proof fn law_both_files_are_treated(
    files: ConfigFiles,
    plugin_spec: Seq<char>,
    removals: Removals,
)
    requires
        is_files_removal(files@, plugin_spec, removals@),
    ensures
        is_file_removal(files.json@, plugin_spec, removals.json@),
        is_file_removal(files.jsonc@, plugin_spec, removals.jsonc@),
{
}

/// A removal leaves a file alone just where that is no regular file, or its text does not
/// register the plugin. Else its text is edited.
pub proof fn law_only_a_registering_file_changes(
    name: ConfigName,
    file: ConfigFile,
    plugin_spec: Seq<char>,
    removal: Removal,
)
    requires
        file_error(name, file@) is None,
        is_file_removal(file@, plugin_spec, removal@),
    ensures
        !file.is_file ==> removal is Unchanged,
        file.is_file ==> file.content is Some && is_removal(
            file.content->0@,
            plugin_spec,
            removal@,
        ) && (removal is Unchanged <==> !text_lists(file.content->0@, plugin_spec)),
{
}

/// What a removal does to a text that registers the plugin. Every element that names the plugin
/// goes, from the first to the last: `steps.0` gives where they stand, `steps.1` the trees on the
/// way. Where none is left, the plugin property goes as well. `steps.2` gives where those that
/// are left stood. The result is the text of the tree that is left; the file goes just where
/// that tree has no property and no comment.
pub proof fn law_removal_takes_out_the_named_elements(
    before: Seq<char>,
    plugin_spec: Seq<char>,
    removal: Removal,
) -> (steps: (Seq<int>, Seq<CstRootNode>, Seq<int>, CstRootNode))
    requires
        is_removal(before, plugin_spec, removal@),
        !(removal is Unchanged),
    ensures
        ({
            let (at, trees, from, left) = steps;
            &&& parsed_document(before, config_options()) matches Ok(root)
            &&& document_view(root, "plugin"@) matches DocumentView::Object(fields)
            &&& fields.len() > 0
            &&& fields[0] matches FieldView::List { values, separated: _ }
            &&& forall|i: int|
                #![trigger values[i]]
                0 <= i < values.len() ==> (at.contains(i) <==> element_names(
                    values[i],
                    plugin_spec,
                ))
            &&& forall|k: int| 0 <= k < at.len() ==> 0 <= #[trigger] at[k] < values.len()
            &&& forall|k: int, l: int| 0 <= k < l < at.len() ==> #[trigger] at[k] < #[trigger] at[l]
            &&& at.len() > 0 && trees.len() == at.len() + 1 && trees[0] == root
            &&& forall|k: int|
                0 <= k < at.len() ==> trees[k + 1] == without_element(
                    trees[k],
                    "plugin"@,
                    #[trigger] at[k] - k,
                )
            &&& left == if forall|i: int|
                0 <= i < values.len() ==> element_names(#[trigger] values[i], plugin_spec) {
                without_property(trees.last(), "plugin"@)
            } else {
                trees.last()
            }
            &&& match removal {
                Removal::Unchanged => false,
                Removal::Deleted => is_empty_object(document_text(left)),
                Removal::Rewritten(text) => text@ == document_text(left) && !is_empty_object(text@),
            }
            &&& removal is Deleted <==> document_comments(left).len() == 0 && forall|name: Seq<
                char,
            >| #[trigger] document_view(left, name) == DocumentView::Object(Seq::empty())
            &&& document_view(left, "plugin"@) matches DocumentView::Object(rest)
            &&& if forall|i: int|
                0 <= i < values.len() ==> element_names(#[trigger] values[i], plugin_spec) {
                &&& rest.len() == fields.len() - 1
                &&& forall|i: int| 0 <= i < rest.len() ==> #[trigger] rest[i] == fields[i + 1]
            } else {
                &&& rest.len() == fields.len()
                &&& forall|i: int| 1 <= i < rest.len() ==> #[trigger] rest[i] == fields[i]
                &&& rest[0] matches FieldView::List { values: kept, separated: _ }
                &&& kept.len() == from.len()
                &&& forall|k: int|
                    0 <= k < from.len() ==> 0 <= #[trigger] from[k] < values.len() && kept[k]
                        == values[from[k]] && !element_names(values[from[k]], plugin_spec)
                &&& forall|k: int, l: int|
                    0 <= k < l < from.len() ==> #[trigger] from[k] < #[trigger] from[l]
                &&& forall|i: int|
                    0 <= i < values.len() && !element_names(#[trigger] values[i], plugin_spec)
                        ==> from.contains(i)
            }
            &&& forall|other: Seq<char>|
                other != "plugin"@ ==> #[trigger] document_view(left, other) == document_view(
                    root,
                    other,
                )
            &&& forall|comment: Seq<char>| #[trigger]
                clear_comments(root, "plugin"@).contains(comment) ==> document_comments(
                    left,
                ).contains(comment)
            &&& rest.len() == fields.len() ==> forall|comment: Seq<char>| #[trigger]
                outside_comments(root, "plugin"@).contains(comment) ==> document_comments(
                    left,
                ).contains(comment)
            &&& forall|comment: Seq<char>| #[trigger]
                document_comments(left).contains(comment) ==> document_comments(root).contains(
                    comment,
                )
            &&& rest.len() < fields.len() ==> forall|comment: Seq<char>| #[trigger]
                document_comments(left).contains(comment) ==> outside_comments(
                    root,
                    "plugin"@,
                ).contains(comment)
            &&& fields[0]->separated || ends_apart(root, "plugin"@) && (forall|i: int|
                0 <= i < values.len() - 1 ==> !element_names(#[trigger] values[i], plugin_spec))
                ==> ({
                &&& parsed_document(document_text(left), config_options()) matches Ok(again)
                &&& forall|name: Seq<char>| #[trigger]
                    document_view(again, name) == document_view(left, name)
                &&& document_comments(again) == document_comments(left)
            })
        }),
{
    let root = parsed_document(before, config_options())->Ok_0;
    let fields = document_view(root, "plugin"@)->Object_0;
    let values = fields[0]->values;
    let left = unregistered_document(root, plugin_spec);
    assert(plugin_name() == "plugin"@);
    assert(text_lists(before, plugin_spec));
    lemma_list_entries(values, plugin_spec);
    let (at, trees) = lemma_pruning_steps(root, values, plugin_spec, 0);
    let from = law_others_stay_in_order(values, plugin_spec);
    let others = other_entries(values, plugin_spec);
    let i = choose|i: int|
        0 <= i < values.len() && element_names(#[trigger] values[i], plugin_spec);
    assert(at.contains(i));
    if others.len() > 0 {
        assert(!element_names(values[from[0]], plugin_spec));
    }
    let rest = document_view(left, "plugin"@)->Object_0;
    if forall|i: int|
        0 <= i < values.len() ==> element_names(#[trigger] values[i], plugin_spec) {
        assert(others.len() == 0);
        assert forall|i: int| 0 <= i < rest.len() implies #[trigger] rest[i] == fields[i + 1] by {
            assert(rest == fields.drop_first());
        }
    } else {
        assert(rest.drop_first().len() == fields.drop_first().len());
        assert forall|i: int| 1 <= i < rest.len() implies #[trigger] rest[i] == fields[i] by {
            assert(rest.drop_first()[i - 1] == fields.drop_first()[i - 1]);
        }
    }
    if document_comments(left).len() == 0 {
        assert(document_comments(left) =~= Seq::empty());
    }
    if forall|i: int|
        0 <= i < values.len() - 1 ==> !element_names(#[trigger] values[i], plugin_spec) {
        assert forall|i: int| 0 <= i < values.drop_last().len() implies !element_names(
            #[trigger] values.drop_last()[i],
            plugin_spec,
        ) by {
            assert(values.drop_last()[i] == values[i]);
        }
        assert(!holds_plugin(values.drop_last(), plugin_spec));
    }
    (at, trees, from, left)
}

/// Removing a plugin keeps every entry that is another string: the file is not deleted, and
/// where the entries are kept apart the string is in the list of the new text.
pub proof fn law_other_strings_survive_a_removal(
    file: ConfigFile,
    plugin_spec: Seq<char>,
    removal: Removal,
    position: int,
    text: Seq<char>,
)
    requires
        is_file_removal(file@, plugin_spec, removal@),
        file.is_file,
        ({
            &&& file.content matches Some(own)
            &&& parsed_document(own@, config_options()) matches Ok(root)
            &&& document_view(root, "plugin"@) matches DocumentView::Object(fields)
            &&& fields.len() > 0
            &&& fields[0] matches FieldView::List { values, separated: _ }
            &&& 0 <= position < values.len()
            &&& values[position] is Some && value_text(values[position]->0) == Some(text)
        }),
        text != plugin_spec,
    ensures
        !(removal is Deleted),
        ({
            let root = parsed_document(file.content->0@, config_options())->Ok_0;
            let first = document_view(root, "plugin"@)->Object_0[0];
            removal is Rewritten && first->separated ==> ({
                &&& parsed_document(removal->Rewritten_0@, config_options()) matches Ok(again)
                &&& document_view(again, "plugin"@) matches DocumentView::Object(rest)
                &&& rest.len() > 0
                &&& rest[0] matches FieldView::List { values: kept, separated: _ }
                &&& kept.contains(first->values[position])
            })
        }),
{
    if !(removal is Unchanged) {
        let own = file.content->0@;
        let root = parsed_document(own, config_options())->Ok_0;
        let values = document_view(root, "plugin"@)->Object_0[0]->values;
        let (at, trees, from, left) = law_removal_takes_out_the_named_elements(
            own,
            plugin_spec,
            removal,
        );
        assert(!element_names(values[position], plugin_spec));
        let k = choose|k: int| 0 <= k < from.len() && from[k] == position;
        let kept = document_view(left, "plugin"@)->Object_0[0]->values;
        assert(kept[k] == values[position]);
        if removal is Deleted {
            assert(document_view(left, "plugin"@) == DocumentView::Object(Seq::empty()));
        }
    }
}

/// Removing a plugin keeps every entry that is an array with another first item, and every entry
/// that is neither a string nor an array, in the same way.
pub proof fn law_other_entries_survive_a_removal(
    file: ConfigFile,
    plugin_spec: Seq<char>,
    removal: Removal,
    position: int,
)
    requires
        is_file_removal(file@, plugin_spec, removal@),
        file.is_file,
        ({
            &&& file.content matches Some(own)
            &&& parsed_document(own@, config_options()) matches Ok(root)
            &&& document_view(root, "plugin"@) matches DocumentView::Object(fields)
            &&& fields.len() > 0
            &&& fields[0] matches FieldView::List { values, separated: _ }
            &&& 0 <= position < values.len()
            &&& values[position] matches Some(value) ==> value_text(value) is None && (value_items(
                value,
            ) matches Some(items) ==> items.len() == 0 || value_text(items[0]) != Some(plugin_spec))
        }),
    ensures
        !(removal is Deleted),
        ({
            let root = parsed_document(file.content->0@, config_options())->Ok_0;
            let first = document_view(root, "plugin"@)->Object_0[0];
            removal is Rewritten && first->separated ==> ({
                &&& parsed_document(removal->Rewritten_0@, config_options()) matches Ok(again)
                &&& document_view(again, "plugin"@) matches DocumentView::Object(rest)
                &&& rest.len() > 0
                &&& rest[0] matches FieldView::List { values: kept, separated: _ }
                &&& kept.contains(first->values[position])
            })
        }),
{
    if !(removal is Unchanged) {
        let own = file.content->0@;
        let root = parsed_document(own, config_options())->Ok_0;
        let values = document_view(root, "plugin"@)->Object_0[0]->values;
        let (at, trees, from, left) = law_removal_takes_out_the_named_elements(
            own,
            plugin_spec,
            removal,
        );
        assert(!element_names(values[position], plugin_spec));
        let k = choose|k: int| 0 <= k < from.len() && from[k] == position;
        let kept = document_view(left, "plugin"@)->Object_0[0]->values;
        assert(kept[k] == values[position]);
        if removal is Deleted {
            assert(document_view(left, "plugin"@) == DocumentView::Object(Seq::empty()));
        }
    }
}

/// Removing a plugin leaves no entry that names it, by its letters or as the first item of an
/// array, in the first plugin property of the new text, where the entries are kept apart and
/// another one is left.
pub proof fn law_no_entry_of_the_plugin_is_left(
    file: ConfigFile,
    plugin_spec: Seq<char>,
    text: String,
    left: CstRootNode,
    position: int,
)
    requires
        is_file_removal(file@, plugin_spec, Removal::Rewritten(text)@),
        file.is_file,
        ({
            &&& file.content matches Some(own)
            &&& parsed_document(own@, config_options()) matches Ok(root)
            &&& document_view(root, "plugin"@) matches DocumentView::Object(fields)
            &&& fields.len() > 0
            &&& fields[0] matches FieldView::List { values, separated }
            &&& separated
            &&& !forall|i: int|
                0 <= i < values.len() ==> element_names(#[trigger] values[i], plugin_spec)
        }),
        parsed_document(text@, config_options()) == Ok::<CstRootNode, Seq<char>>(left),
    ensures
        ({
            &&& document_view(left, "plugin"@) matches DocumentView::Object(rest)
            &&& rest.len() > 0
            &&& rest[0] matches FieldView::List { values: kept, separated: _ }
            &&& 0 <= position < kept.len() && kept[position] is Some ==> {
                let value = kept[position]->0;
                &&& value_text(value) != Some(plugin_spec)
                &&& value_text(value) is None ==> (value_items(value) matches Some(items)
                    ==> items.len() == 0 || value_text(items[0]) != Some(plugin_spec))
            }
        }),
{
    let own = file.content->0@;
    let root = parsed_document(own, config_options())->Ok_0;
    let values = document_view(root, "plugin"@)->Object_0[0]->values;
    let (at, trees, from, tree) = law_removal_takes_out_the_named_elements(
        own,
        plugin_spec,
        Removal::Rewritten(text),
    );
    let kept = document_view(tree, "plugin"@)->Object_0[0]->values;
    assert(document_view(left, "plugin"@) == document_view(tree, "plugin"@));
    if 0 <= position < kept.len() {
        assert(!element_names(values[from[position]], plugin_spec));
    }
}

} // verus!
