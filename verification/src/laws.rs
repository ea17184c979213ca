//! What holds of adding, looking up and removing a plugin taken together.

use crate::config::{
    any_removed, base_text, file_error, file_lists, files_error, is_addition, is_configured,
    is_file_removal, is_files_removal, named_file, AdditionView, ConfigFileView, ConfigFilesView,
    RemovalsView,
};
use crate::document::{
    adds_text, clear_comments, document_comments, document_view, element_entry, entries_of,
    fields_of, has_list, has_separated_list, is_bare, outside_comments, parsed_document,
    DocumentView,
};
use crate::entry::{names_plugin, EntryView};
use crate::error::ConfigName;
use crate::listing::{
    config_options, element_names, field_lists, goes_last, holds_plugin, is_registered,
    lemma_list_entries, list_entries, other_entries, plugin_field, plugin_name, reading,
    removes_readably, setting, text_clear_comments, text_comments, text_error, text_lists,
    text_outside_comments, unregistered_document, PluginFieldView, RemovalView,
};
use serde_json::Value;
use vstd::prelude::*;

verus! {

/// A file after a text was put in its place.
pub open spec fn file_with_text(file: ConfigFileView, text: Seq<char>) -> ConfigFileView {
    ConfigFileView { path: file.path, exists: true, is_file: true, content: Some(text) }
}

/// The files after an addition was carried out. They are different files: neither is a link to
/// the other.
pub open spec fn files_after_addition(
    files: ConfigFilesView,
    addition: AdditionView,
) -> ConfigFilesView {
    match addition {
        AdditionView::Listed(_) => files,
        AdditionView::Written { name, text } => match name {
            ConfigName::TuiJson => ConfigFilesView {
                json: file_with_text(files.json, text),
                jsonc: files.jsonc,
            },
            ConfigName::TuiJsonc => ConfigFilesView {
                json: files.json,
                jsonc: file_with_text(files.jsonc, text),
            },
        },
    }
}

/// A file after a removal was carried out.
pub open spec fn file_after_removal(file: ConfigFileView, removal: RemovalView) -> ConfigFileView {
    match removal {
        RemovalView::Unchanged => file,
        RemovalView::Deleted => ConfigFileView {
            path: file.path,
            exists: false,
            is_file: false,
            content: None,
        },
        RemovalView::Rewritten(text) => file_with_text(file, text),
    }
}

/// The files after both removals were carried out. They are different files: neither is a link
/// to the other.
pub open spec fn files_after_removal(
    files: ConfigFilesView,
    removals: RemovalsView,
) -> ConfigFilesView {
    ConfigFilesView {
        json: file_after_removal(files.json, removals.json),
        jsonc: file_after_removal(files.jsonc, removals.jsonc),
    }
}

/// Only a regular file had a text to read.
pub open spec fn is_regular(file: ConfigFileView) -> bool {
    file.content is Some ==> file.is_file
}

/// The plugin can be taken out of a text without other entries running together.
pub open spec fn text_removes_readably(text: Seq<char>, plugin_spec: Seq<char>) -> bool {
    parsed_document(text, config_options()) matches Ok(root) && removes_readably(root, plugin_spec)
}

/// What comes to light under the plugin name when the first plugin property of a text goes.
pub open spec fn covered_field(text: Seq<char>) -> PluginFieldView {
    plugin_field(DocumentView::Object(fields_of(reading(text)->Ok_0).drop_first()))
}

/// Taking the plugin out of a text empties its list.
pub open spec fn removal_empties(text: Seq<char>, plugin_spec: Seq<char>) -> bool {
    other_entries(entries_of(reading(text)->Ok_0), plugin_spec).len() == 0
}

/// The plugin can be taken out of a file without a trace: no other entries run together, and no
/// second plugin property that registers the plugin comes to light when the first one goes.
pub open spec fn file_removes_cleanly(file: ConfigFileView, plugin_spec: Seq<char>) -> bool {
    &&& is_regular(file)
    &&& file_lists(file, plugin_spec) ==> {
        &&& text_removes_readably(file.content->0, plugin_spec)
        &&& removal_empties(file.content->0, plugin_spec) ==> !field_lists(
            covered_field(file.content->0),
            plugin_spec,
        )
    }
}

/// The plugin can be taken out of a file without a fault: no other entries run together, and no
/// second plugin property that is no list comes to light when the first one goes.
pub open spec fn file_removes_soundly(file: ConfigFileView, plugin_spec: Seq<char>) -> bool {
    file_lists(file, plugin_spec) ==> {
        &&& text_removes_readably(file.content->0, plugin_spec)
        &&& removal_empties(file.content->0, plugin_spec) ==> !(covered_field(file.content->0)
            is NotList)
    }
}

/// What an addition registers is registered: once it is carried out the plugin is
/// configured, and the files are still without a fault.
pub proof fn law_added_plugin_is_configured(
    files: ConfigFilesView,
    plugin_spec: Seq<char>,
    addition: AdditionView,
)
    requires
        files_error(files) is None,
        is_addition(files, plugin_spec, addition),
    ensures
        is_configured(files_after_addition(files, addition), plugin_spec),
        files_error(files_after_addition(files, addition)) is None,
{
    if let AdditionView::Written { name, text } = addition {
        let before = reading(base_text(named_file(files, name)))->Ok_0;
        lemma_registered_lists(before, plugin_spec, reading(text)->Ok_0);
        assert(text_lists(text, plugin_spec));
        assert(text_error(text, named_file(files, name).path) is None);
    }
}

/// Adding a plugin a second time changes nothing and answers with the same file.
pub proof fn law_adding_twice_writes_once(
    files: ConfigFilesView,
    plugin_spec: Seq<char>,
    first: AdditionView,
    second: AdditionView,
)
    requires
        files_error(files) is None,
        is_addition(files, plugin_spec, first),
        is_addition(files_after_addition(files, first), plugin_spec, second),
    ensures
        second == AdditionView::Listed(
            match first {
                AdditionView::Listed(name) => name,
                AdditionView::Written { name, text: _ } => name,
            },
        ),
        files_after_addition(files_after_addition(files, first), second)
            == files_after_addition(files, first),
{
    if let AdditionView::Written { name, text } = first {
        let before = reading(base_text(named_file(files, name)))->Ok_0;
        lemma_registered_lists(before, plugin_spec, reading(text)->Ok_0);
        assert(text_lists(text, plugin_spec));
    }
}

/// An addition keeps the plugins that are there: the other file stays, and the file that is
/// written reads as before with the specifier after its entries.
pub proof fn law_addition_keeps_entries(
    files: ConfigFilesView,
    plugin_spec: Seq<char>,
    name: ConfigName,
    text: Seq<char>,
)
    requires
        files_error(files) is None,
        is_addition(files, plugin_spec, AdditionView::Written { name, text }),
    ensures
        reading(base_text(named_file(files, name))) is Ok,
        reading(text) is Ok,
        adds_text(
            entries_of(reading(base_text(named_file(files, name)))->Ok_0),
            plugin_spec,
            entries_of(reading(text)->Ok_0),
        ),
        name == ConfigName::TuiJson ==> files_after_addition(
            files,
            AdditionView::Written { name, text },
        ).jsonc == files.jsonc,
        name == ConfigName::TuiJsonc ==> files_after_addition(
            files,
            AdditionView::Written { name, text },
        ).json == files.json,
{
}

/// An addition keeps every other setting of the file that is written, and every comment; those
/// that the plugin property did not touch it still does not.
pub proof fn law_addition_keeps_settings(
    files: ConfigFilesView,
    plugin_spec: Seq<char>,
    name: ConfigName,
    text: Seq<char>,
    other: Seq<char>,
)
    requires
        is_addition(files, plugin_spec, AdditionView::Written { name, text }),
        other != plugin_name(),
    ensures
        setting(text, other) == setting(base_text(named_file(files, name)), other),
        text_comments(text) == text_comments(base_text(named_file(files, name))),
        forall|comment: Seq<char>| #[trigger]
            text_clear_comments(base_text(named_file(files, name))).contains(comment)
                ==> text_clear_comments(text).contains(comment),
{
}

/// In a directory without either file the registration goes to `tui.jsonc`, which then holds
/// the plugin and nothing else; `tui.json` stays absent.
pub proof fn law_first_registration_makes_tui_jsonc(
    files: ConfigFilesView,
    plugin_spec: Seq<char>,
    addition: AdditionView,
)
    requires
        is_absent(files.json),
        is_absent(files.jsonc),
        is_addition(files, plugin_spec, addition),
    ensures
        files_error(files) is None,
        addition matches AdditionView::Written { name, text } && {
            &&& name == ConfigName::TuiJsonc
            &&& reading(text) matches Ok(document)
            &&& fields_of(document).len() == 1
            &&& entries_of(document).len() == 1
            &&& element_entry(entries_of(document)[0]) == EntryView::Text(plugin_spec)
            &&& forall|other: Seq<char>|
                other != plugin_name() ==> #[trigger] setting(text, other) == Ok::<
                    DocumentView,
                    Seq<char>,
                >(DocumentView::Object(Seq::empty()))
        },
        files_after_addition(files, addition).json == files.json,
{
}

/// What a removal takes out is gone: once it is carried out on files that it leaves without a
/// trace, the plugin is not configured.
pub proof fn law_removed_plugin_is_not_configured(
    files: ConfigFilesView,
    plugin_spec: Seq<char>,
    removals: RemovalsView,
)
    requires
        files_error(files) is None,
        is_files_removal(files, plugin_spec, removals),
        file_removes_cleanly(files.json, plugin_spec),
        file_removes_cleanly(files.jsonc, plugin_spec),
    ensures
        !is_configured(files_after_removal(files, removals), plugin_spec),
{
    lemma_file_unregistered(files.json, plugin_spec, removals.json);
    lemma_file_unregistered(files.jsonc, plugin_spec, removals.jsonc);
}

/// Files without a fault, out of which the plugin can be taken without one, are without a fault
/// after a removal.
pub proof fn law_removal_leaves_no_fault(
    files: ConfigFilesView,
    plugin_spec: Seq<char>,
    removals: RemovalsView,
)
    requires
        files_error(files) is None,
        is_files_removal(files, plugin_spec, removals),
        file_removes_soundly(files.json, plugin_spec),
        file_removes_soundly(files.jsonc, plugin_spec),
    ensures
        files_error(files_after_removal(files, removals)) is None,
{
    lemma_no_fault_left(ConfigName::TuiJson, files.json, plugin_spec, removals.json);
    lemma_no_fault_left(ConfigName::TuiJsonc, files.jsonc, plugin_spec, removals.jsonc);
}

/// A removal reports that it took something out exactly when the plugin was configured.
pub proof fn law_removal_reports_what_was_configured(
    files: ConfigFilesView,
    plugin_spec: Seq<char>,
    removals: RemovalsView,
)
    requires
        files_error(files) is None,
        is_regular(files.json),
        is_regular(files.jsonc),
        is_files_removal(files, plugin_spec, removals),
    ensures
        any_removed(removals) == is_configured(files, plugin_spec),
{
}

/// A second removal finds nothing to do.
pub proof fn law_removing_twice_changes_once(
    files: ConfigFilesView,
    plugin_spec: Seq<char>,
    first: RemovalsView,
    second: RemovalsView,
)
    requires
        files_error(files) is None,
        is_files_removal(files, plugin_spec, first),
        file_removes_cleanly(files.json, plugin_spec),
        file_removes_cleanly(files.jsonc, plugin_spec),
        is_files_removal(files_after_removal(files, first), plugin_spec, second),
    ensures
        !any_removed(second),
{
    law_removed_plugin_is_not_configured(files, plugin_spec, first);
}

/// A removal keeps the other plugins: the entries of a file that is rewritten are those that
/// do not name the plugin, in their order. It takes a file with one plugin property, or with
/// another plugin in the first one.
pub proof fn law_removal_keeps_other_entries(
    file: ConfigFileView,
    plugin_spec: Seq<char>,
    text: Seq<char>,
)
    requires
        is_file_removal(file, plugin_spec, RemovalView::Rewritten(text)),
        text_removes_readably(file.content->0, plugin_spec),
        fields_of(reading(file.content->0)->Ok_0).len() == 1 || other_entries(
            entries_of(reading(file.content->0)->Ok_0),
            plugin_spec,
        ).len() > 0,
    ensures
        reading(text) is Ok,
        entries_of(reading(text)->Ok_0) == other_entries(
            entries_of(reading(file.content->0)->Ok_0),
            plugin_spec,
        ),
{
    let document = reading(file.content->0)->Ok_0;
    assert(text_lists(file.content->0, plugin_spec));
    if other_entries(entries_of(document), plugin_spec).len() == 0 {
        assert(other_entries(entries_of(document), plugin_spec) =~= Seq::empty());
    }
}

/// A removal keeps every other setting of a file that is rewritten, and its comments: all of
/// those outside the plugin property where another plugin is left in that, and else those that
/// it does not touch.
pub proof fn law_removal_keeps_settings(
    file: ConfigFileView,
    plugin_spec: Seq<char>,
    text: Seq<char>,
    other: Seq<char>,
)
    requires
        is_file_removal(file, plugin_spec, RemovalView::Rewritten(text)),
        text_removes_readably(file.content->0, plugin_spec),
        other != plugin_name(),
    ensures
        setting(text, other) == setting(file.content->0, other),
        forall|comment: Seq<char>| #[trigger]
            text_clear_comments(file.content->0).contains(comment) ==> text_comments(
                text,
            ).contains(comment),
        forall|comment: Seq<char>| #[trigger]
            text_outside_comments(file.content->0).contains(comment) && !removal_empties(
                file.content->0,
                plugin_spec,
            ) ==> text_comments(text).contains(comment),
{
    assert(text_lists(file.content->0, plugin_spec));
}

/// A removal deletes only a file that held the plugin and nothing else: no other plugin, no
/// other setting, and no comment that the plugin property did not touch.
pub proof fn law_deleted_file_held_nothing_else(
    file: ConfigFileView,
    plugin_spec: Seq<char>,
    other: Seq<char>,
)
    requires
        is_file_removal(file, plugin_spec, RemovalView::Deleted),
        other != plugin_name(),
    ensures
        other_entries(entries_of(reading(file.content->0)->Ok_0), plugin_spec).len() == 0,
        setting(file.content->0, other) == Ok::<DocumentView, Seq<char>>(
            DocumentView::Object(Seq::empty()),
        ),
        text_clear_comments(file.content->0).len() == 0,
{
    assert(text_lists(file.content->0, plugin_spec));
    let root = parsed_document(file.content->0, config_options())->Ok_0;
    let left = unregistered_document(root, plugin_spec);
    assert(document_view(left, other) == DocumentView::Object(Seq::empty()));
    let clear = text_clear_comments(file.content->0);
    if clear.len() > 0 {
        assert(clear.contains(clear[0]));
    }
}

/// A removal deletes a file that holds the plugin and nothing else: one plugin property, of
/// which all entries name the plugin, no other setting, and no comment outside that property.
pub proof fn law_integration_only_file_is_deleted(
    file: ConfigFileView,
    plugin_spec: Seq<char>,
    removal: RemovalView,
)
    requires
        is_file_removal(file, plugin_spec, removal),
        file.is_file,
        file_lists(file, plugin_spec),
        fields_of(reading(file.content->0)->Ok_0).len() == 1,
        other_entries(entries_of(reading(file.content->0)->Ok_0), plugin_spec).len() == 0,
        forall|other: Seq<char>|
            other != plugin_name() ==> #[trigger] setting(file.content->0, other) == Ok::<
                DocumentView,
                Seq<char>,
            >(DocumentView::Object(Seq::empty())),
        text_outside_comments(file.content->0).len() == 0,
    ensures
        removal is Deleted,
{
    let text = file.content->0;
    let root = parsed_document(text, config_options())->Ok_0;
    let left = unregistered_document(root, plugin_spec);
    assert(text_lists(text, plugin_spec));
    assert(fields_of(document_view(root, plugin_name())).drop_first() =~= Seq::empty());
    assert forall|name: Seq<char>| #[trigger]
        document_view(left, name) == DocumentView::Object(Seq::empty()) by {
        if name != plugin_name() {
            assert(setting(text, name) == Ok::<DocumentView, Seq<char>>(document_view(root, name)));
        }
    }
    let comments = document_comments(left);
    if comments.len() > 0 {
        assert(comments.contains(comments[0]));
    }
    assert(comments =~= Seq::empty());
    assert(is_bare(left));
}

/// A text is an object without properties, and without a comment anywhere.
pub open spec fn is_bare_text(text: Seq<char>) -> bool {
    parsed_document(text, config_options()) matches Ok(root) && is_bare(root)
}

/// Nothing is at the path of a file.
pub open spec fn is_absent(file: ConfigFileView) -> bool {
    !file.exists && !file.is_file && file.content is None
}

/// What becomes of the file of a name.
pub open spec fn named_removal(removals: RemovalsView, name: ConfigName) -> RemovalView {
    match name {
        ConfigName::TuiJson => removals.json,
        ConfigName::TuiJsonc => removals.jsonc,
    }
}

/// `left` is `base` again. It has the same entries and settings. Where `base` had a plugin, the
/// list and further properties of its name are there as before, and no comment outside the list
/// is lost; where it had no plugin property there is none, and no comment is lost that a
/// property put at the end does not touch.
pub open spec fn is_restored(base: Seq<char>, left: Seq<char>) -> bool {
    &&& reading(base) matches Ok(before)
    &&& reading(left) matches Ok(after)
    &&& entries_of(after) == entries_of(before)
    &&& entries_of(before).len() > 0 ==> {
        &&& has_list(after)
        &&& fields_of(after).drop_first() == fields_of(before).drop_first()
        &&& forall|comment: Seq<char>| #[trigger]
            text_outside_comments(base).contains(comment) ==> text_comments(left).contains(comment)
    }
    &&& fields_of(before).len() == 0 || entries_of(before).len() > 0 && has_separated_list(before)
        ==> after == before
    &&& forall|other: Seq<char>|
        other != plugin_name() ==> #[trigger] setting(left, other) == setting(base, other)
    &&& forall|comment: Seq<char>| #[trigger]
        text_clear_comments(base).contains(comment) ==> text_comments(left).contains(comment)
}

/// Removing takes back what adding did. It takes a file with at most one plugin property, or
/// with an entry in the first one. A file that the addition made goes, and so does one that held
/// a bare object; the directory is as it was where the file was absent. A file that goes held no
/// plugin, no setting and no comment that the plugin property did not touch. One that stays
/// holds what it held. The other file stays, and the removal reports success.
pub proof fn law_removing_undoes_adding(
    files: ConfigFilesView,
    plugin_spec: Seq<char>,
    name: ConfigName,
    text: Seq<char>,
    removals: RemovalsView,
)
    requires
        files_error(files) is None,
        is_regular(files.json),
        is_regular(files.jsonc),
        is_addition(files, plugin_spec, AdditionView::Written { name, text }),
        fields_of(reading(base_text(named_file(files, name)))->Ok_0).len() <= 1 || entries_of(
            reading(base_text(named_file(files, name)))->Ok_0,
        ).len() > 0,
        is_files_removal(
            files_after_addition(files, AdditionView::Written { name, text }),
            plugin_spec,
            removals,
        ),
    ensures
        any_removed(removals),
        name == ConfigName::TuiJson ==> removals.jsonc is Unchanged,
        name == ConfigName::TuiJsonc ==> removals.json is Unchanged,
        match named_removal(removals, name) {
            RemovalView::Unchanged => false,
            RemovalView::Deleted => {
                let base = base_text(named_file(files, name));
                &&& entries_of(reading(base)->Ok_0).len() == 0
                &&& forall|other: Seq<char>|
                    other != plugin_name() ==> #[trigger] setting(base, other) == Ok::<
                        DocumentView,
                        Seq<char>,
                    >(DocumentView::Object(Seq::empty()))
                &&& text_clear_comments(base).len() == 0
            },
            RemovalView::Rewritten(left) => is_restored(base_text(named_file(files, name)), left),
        },
        !named_file(files, name).is_file ==> named_removal(removals, name) is Deleted,
        is_bare_text(base_text(named_file(files, name))) ==> named_removal(removals, name)
            is Deleted,
        is_absent(named_file(files, name)) ==> files_after_removal(
            files_after_addition(files, AdditionView::Written { name, text }),
            removals,
        ) == files,
{
    let base = base_text(named_file(files, name));
    let before = reading(base)->Ok_0;
    let after = reading(text)->Ok_0;
    let entries = entries_of(before);
    lemma_registered_lists(before, plugin_spec, after);
    assert(text_lists(text, plugin_spec));
    assert(!holds_plugin(entries, plugin_spec)) by {
        if named_file(files, name).is_file {
            assert(!text_lists(base, plugin_spec));
            lemma_list_entries(entries, plugin_spec);
            if has_list(before) {
                assert(plugin_field(before) == PluginFieldView::List(list_entries(entries)));
            }
        }
    }
    lemma_others_of_unlisted(entries, plugin_spec);
    assert(other_entries(entries_of(after), plugin_spec) == entries) by {
        reveal(Seq::filter);
    }
    if fields_of(before).len() <= 1 {
        assert(fields_of(after).drop_first() =~= Seq::empty());
    }
    let start = parsed_document(base, config_options())->Ok_0;
    let root = parsed_document(text, config_options())->Ok_0;
    let left = unregistered_document(root, plugin_spec);
    assert(goes_last(root, plugin_spec));
    assert forall|other: Seq<char>| other != plugin_name() implies #[trigger] setting(base, other)
        == Ok::<DocumentView, Seq<char>>(document_view(left, other)) by {
        assert(setting(text, other) == setting(base, other));
    }
    if entries.len() == 0 {
        assert(entries =~= Seq::empty());
    } else if has_separated_list(before) {
        lemma_same_first_list(before, document_view(left, plugin_name()));
    }
    if fields_of(before).len() == 0 {
        assert(fields_of(before) =~= Seq::empty());
    }
    if let RemovalView::Rewritten(rest) = named_removal(removals, name) {
        assert forall|comment: Seq<char>| #[trigger]
            text_clear_comments(base).contains(comment) implies text_comments(rest).contains(
            comment,
        ) by {
            assert(clear_comments(root, plugin_name()).contains(comment));
        }
        assert forall|comment: Seq<char>| entries.len() > 0 && #[trigger] text_outside_comments(
            base,
        ).contains(comment) implies text_comments(rest).contains(comment) by {
            assert(outside_comments(root, plugin_name()).contains(comment));
        }
        assert(is_restored(base, rest));
    }
    let clear = clear_comments(start, plugin_name());
    if document_comments(left).len() == 0 && clear.len() > 0 {
        assert(clear.contains(clear[0]));
        assert(clear_comments(root, plugin_name()).contains(clear[0]));
        assert(document_comments(left).contains(clear[0]));
    }
    if is_bare_text(base) {
        assert forall|other: Seq<char>| #[trigger]
            document_view(left, other) == DocumentView::Object(Seq::empty()) by {
            if other != plugin_name() {
                assert(setting(base, other) == Ok::<DocumentView, Seq<char>>(
                    document_view(start, other),
                ));
            } else {
                assert(document_view(start, other) == DocumentView::Object(Seq::empty()));
            }
        }
        let comments = document_comments(left);
        if comments.len() > 0 {
            assert(comments.contains(comments[0]));
            assert(document_comments(root).contains(comments[0]));
        }
        assert(comments =~= Seq::empty());
        assert(is_bare(left));
    }
}

/// Documents with the same first list, kept apart in both, and the same properties behind it
/// are the same.
proof fn lemma_same_first_list(left: DocumentView, right: DocumentView)
    requires
        has_separated_list(left),
        has_separated_list(right),
        entries_of(left) == entries_of(right),
        fields_of(left).drop_first() == fields_of(right).drop_first(),
    ensures
        left == right,
{
    let fields = fields_of(left);
    let others = fields_of(right);
    assert(fields =~= seq![fields[0]] + fields.drop_first());
    assert(others =~= seq![others[0]] + others.drop_first());
}

/// A registered document lists the plugin and has no fault.
proof fn lemma_registered_lists(
    before: DocumentView,
    plugin_spec: Seq<char>,
    after: DocumentView,
)
    requires
        is_registered(before, plugin_spec, after),
    ensures
        plugin_field(after) == PluginFieldView::List(list_entries(entries_of(after))),
        field_lists(plugin_field(after), plugin_spec),
{
    let entries = list_entries(entries_of(after));
    assert(names_plugin(entries[entries.len() - 1], plugin_spec));
}

/// Elements of which none names the plugin all stay.
proof fn lemma_others_of_unlisted(values: Seq<Option<Value>>, plugin_spec: Seq<char>)
    requires
        !holds_plugin(values, plugin_spec),
    ensures
        other_entries(values, plugin_spec) == values,
    decreases values.len(),
{
    reveal(Seq::filter);
    if values.len() > 0 {
        let front = values.drop_last();
        assert forall|i: int| 0 <= i < front.len() implies !element_names(
            #[trigger] front[i],
            plugin_spec,
        ) by {
            assert(front[i] == values[i]);
        }
        lemma_others_of_unlisted(front, plugin_spec);
        assert(!element_names(values[values.len() - 1], plugin_spec));
        assert(front.push(values.last()) =~= values);
    } else {
        assert(other_entries(values, plugin_spec) =~= values);
    }
}

/// No element that stays names the plugin.
proof fn lemma_others_unlisted(values: Seq<Option<Value>>, plugin_spec: Seq<char>)
    ensures
        !holds_plugin(other_entries(values, plugin_spec), plugin_spec),
{
    let keeps = |value: Option<Value>| !element_names(value, plugin_spec);
    let others = other_entries(values, plugin_spec);
    assert forall|i: int| 0 <= i < others.len() implies !element_names(
        #[trigger] others[i],
        plugin_spec,
    ) by {
        values.lemma_filter_pred(keeps, i);
    }
}

/// One file after its removal is without a fault.
proof fn lemma_no_fault_left(
    name: ConfigName,
    file: ConfigFileView,
    plugin_spec: Seq<char>,
    removal: RemovalView,
)
    requires
        file_error(name, file) is None,
        is_file_removal(file, plugin_spec, removal),
        file_removes_soundly(file, plugin_spec),
    ensures
        file_error(name, file_after_removal(file, removal)) is None,
{
    if let RemovalView::Rewritten(text) = removal {
        assert(file_lists(file, plugin_spec));
        assert(text_error(text, file.path) is None);
    }
}

/// One file after its removal does not register the plugin.
proof fn lemma_file_unregistered(
    file: ConfigFileView,
    plugin_spec: Seq<char>,
    removal: RemovalView,
)
    requires
        is_file_removal(file, plugin_spec, removal),
        file_removes_cleanly(file, plugin_spec),
    ensures
        !file_lists(file_after_removal(file, removal), plugin_spec),
{
    if let RemovalView::Rewritten(text) = removal {
        let document = reading(file.content->0)->Ok_0;
        let others = other_entries(entries_of(document), plugin_spec);
        lemma_others_unlisted(entries_of(document), plugin_spec);
        lemma_list_entries(others, plugin_spec);
        assert(file_lists(file, plugin_spec));
    }
}

} // verus!
