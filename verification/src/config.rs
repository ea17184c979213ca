//! Looking up, adding and removing a plugin across `tui.json` and `tui.jsonc`.

use crate::document::{is_bare, parsed_document};
use crate::error::{ConfigError, ConfigErrorView, ConfigName};
use crate::listing::{
    config_options, is_registration, is_removal, register_in_text, text_error, text_lists,
    text_lists_plugin, unregister_in_text, validate_text, Removal, RemovalView,
};
use crate::text::lemma_empty_object_line;
use vstd::prelude::*;

verus! {

/// What was found at the path of a configuration file.
#[derive(Debug)]
pub struct ConfigFile {
    /// The path as messages show it.
    pub path: String,
    /// Something is there.
    pub exists: bool,
    /// What is there is a regular file, possibly behind a link.
    pub is_file: bool,
    /// The text there, `None` where reading failed.
    pub content: Option<String>,
}

/// The mathematical form of a [`ConfigFile`].
#[verifier::ext_equal]
pub struct ConfigFileView {
    pub path: Seq<char>,
    pub exists: bool,
    pub is_file: bool,
    pub content: Option<Seq<char>>,
}

impl View for ConfigFile {
    type V = ConfigFileView;

    open spec fn view(&self) -> ConfigFileView {
        ConfigFileView {
            path: self.path@,
            exists: self.exists,
            is_file: self.is_file,
            content: match self.content {
                Some(text) => Some(text@),
                None => None,
            },
        }
    }
}

/// What was found in a configuration directory, at one time.
#[derive(Debug)]
pub struct ConfigFiles {
    pub json: ConfigFile,
    pub jsonc: ConfigFile,
}

/// The mathematical form of [`ConfigFiles`].
#[verifier::ext_equal]
pub struct ConfigFilesView {
    pub json: ConfigFileView,
    pub jsonc: ConfigFileView,
}

impl View for ConfigFiles {
    type V = ConfigFilesView;

    open spec fn view(&self) -> ConfigFilesView {
        ConfigFilesView { json: self.json@, jsonc: self.jsonc@ }
    }
}

/// The file of a name.
pub open spec fn named_file(files: ConfigFilesView, name: ConfigName) -> ConfigFileView {
    match name {
        ConfigName::TuiJson => files.json,
        ConfigName::TuiJsonc => files.jsonc,
    }
}

/// The fault of a file, if it has one. What is no regular file is left alone.
pub open spec fn file_error(name: ConfigName, file: ConfigFileView) -> Option<ConfigErrorView> {
    if !file.is_file {
        None
    } else {
        match file.content {
            None => Some(ConfigErrorView::Unreadable(name)),
            Some(text) => text_error(text, file.path),
        }
    }
}

/// The first fault of the two files, `tui.json` before `tui.jsonc`.
pub open spec fn files_error(files: ConfigFilesView) -> Option<ConfigErrorView> {
    match file_error(ConfigName::TuiJson, files.json) {
        Some(error) => Some(error),
        None => file_error(ConfigName::TuiJsonc, files.jsonc),
    }
}

/// A file registers the plugin.
pub open spec fn file_lists(file: ConfigFileView, plugin_spec: Seq<char>) -> bool {
    file.content matches Some(text) && text_lists(text, plugin_spec)
}

/// One of the two files registers the plugin.
pub open spec fn is_configured(files: ConfigFilesView, plugin_spec: Seq<char>) -> bool {
    file_lists(files.json, plugin_spec) || file_lists(files.jsonc, plugin_spec)
}

/// The file that a new registration goes to: `tui.jsonc`, unless `tui.json` is the only one.
pub open spec fn registration_name(json_exists: bool, jsonc_exists: bool) -> ConfigName {
    if json_exists && !jsonc_exists {
        ConfigName::TuiJson
    } else {
        ConfigName::TuiJsonc
    }
}

/// The text that a new registration starts from: the file's own, or an empty object.
pub open spec fn base_text(file: ConfigFileView) -> Seq<char> {
    match file.content {
        Some(text) if file.is_file => text,
        _ => seq!['{', '}', '\n'],
    }
}

/// Picks the file that holds the registration, or that a new one goes to.
pub fn tui_config_path(json_exists: bool, jsonc_exists: bool) -> (name: ConfigName)
    ensures
        name == registration_name(json_exists, jsonc_exists),
        name is TuiJson <==> json_exists && !jsonc_exists,
{
    if !jsonc_exists && json_exists {
        ConfigName::TuiJson
    } else {
        ConfigName::TuiJsonc
    }
}

/// Checks one file: where it is a regular file, its text has to be readable and without a
/// fault.
pub fn validate_tui_config(name: ConfigName, file: &ConfigFile) -> (checked: Result<
    (),
    ConfigError,
>)
    ensures
        match checked {
            Ok(()) => file_error(name, file@) is None,
            Err(error) => file_error(name, file@) == Some(error@),
        },
{
    if !file.is_file {
        return Ok(());
    }
    match &file.content {
        None => Err(ConfigError::Unreadable(name)),
        Some(text) => validate_text(text.as_str(), file.path.as_str()),
    }
}

/// Checks both files and reports the first fault.
pub fn validate_tui_plugin_config(files: &ConfigFiles) -> (checked: Result<(), ConfigError>)
    ensures
        match checked {
            Ok(()) => files_error(files@) is None,
            Err(error) => files_error(files@) == Some(error@),
        },
{
    match validate_tui_config(ConfigName::TuiJson, &files.json) {
        Err(error) => Err(error),
        Ok(()) => validate_tui_config(ConfigName::TuiJsonc, &files.jsonc),
    }
}

/// Whether one file registers the plugin. A file that cannot be read or parsed does not.
pub fn tui_plugin_is_configured_at(file: &ConfigFile, plugin_spec: &str) -> (configured: bool)
    ensures
        configured == file_lists(file@, plugin_spec@),
{
    match &file.content {
        None => false,
        Some(text) => text_lists_plugin(text.as_str(), plugin_spec),
    }
}

/// Whether one of the two files registers the plugin.
pub fn tui_plugin_is_configured(files: &ConfigFiles, plugin_spec: &str) -> (configured: bool)
    ensures
        configured == is_configured(files@, plugin_spec@),
{
    tui_plugin_is_configured_at(&files.json, plugin_spec) || tui_plugin_is_configured_at(
        &files.jsonc,
        plugin_spec,
    )
}

/// How a plugin comes to be registered.
#[derive(Debug)]
pub enum Addition {
    /// This file registers it already, and nothing is written.
    Listed(ConfigName),
    /// This file is to hold this text.
    Written { name: ConfigName, text: String },
}

/// The mathematical form of an [`Addition`].
#[verifier::ext_equal]
pub enum AdditionView {
    Listed(ConfigName),
    Written { name: ConfigName, text: Seq<char> },
}

impl View for Addition {
    type V = AdditionView;

    open spec fn view(&self) -> AdditionView {
        match *self {
            Addition::Listed(name) => AdditionView::Listed(name),
            Addition::Written { name, text } => AdditionView::Written { name, text: text@ },
        }
    }
}

impl Addition {
    pub open spec fn spec_name(self) -> ConfigName {
        match self {
            Addition::Listed(name) => name,
            Addition::Written { name, text: _ } => name,
        }
    }

    /// The file that registers the plugin.
    pub fn name(&self) -> (name: ConfigName)
        ensures
            name == self.spec_name(),
            *self matches Addition::Listed(listed) ==> name == listed,
            *self matches Addition::Written { name: written, text: _ } ==> name == written,
    {
        match self {
            Addition::Listed(name) => *name,
            Addition::Written { name, text: _ } => *name,
        }
    }
}

/// `addition` registers the plugin in files without a fault: the first file that lists it is
/// left alone; where none does, the text of one file gets it. A file that is yet to be made
/// starts bare.
pub open spec fn is_addition(
    files: ConfigFilesView,
    plugin_spec: Seq<char>,
    addition: AdditionView,
) -> bool {
    if file_lists(files.json, plugin_spec) {
        addition == AdditionView::Listed(ConfigName::TuiJson)
    } else if file_lists(files.jsonc, plugin_spec) {
        addition == AdditionView::Listed(ConfigName::TuiJsonc)
    } else {
        &&& addition matches AdditionView::Written { name, text }
        &&& name == registration_name(files.json.exists, files.jsonc.exists)
        &&& is_registration(base_text(named_file(files, name)), plugin_spec, text)
        &&& !named_file(files, name).is_file ==> (parsed_document(
            base_text(named_file(files, name)),
            config_options(),
        ) matches Ok(root) && is_bare(root))
    }
}

/// Registers the plugin, unless one of the files has a fault.
pub fn add_tui_plugin(files: &ConfigFiles, plugin_spec: &str) -> (added: Result<
    Addition,
    ConfigError,
>)
    ensures
        match added {
            Ok(addition) => files_error(files@) is None && is_addition(
                files@,
                plugin_spec@,
                addition@,
            ),
            Err(error) => files_error(files@) == Some(error@),
        },
{
    match validate_tui_plugin_config(files) {
        Err(error) => return Err(error),
        Ok(()) => {},
    }
    if tui_plugin_is_configured_at(&files.json, plugin_spec) {
        return Ok(Addition::Listed(ConfigName::TuiJson));
    }
    if tui_plugin_is_configured_at(&files.jsonc, plugin_spec) {
        return Ok(Addition::Listed(ConfigName::TuiJsonc));
    }
    let name: ConfigName = tui_config_path(files.json.exists, files.jsonc.exists);
    let file: &ConfigFile = match name {
        ConfigName::TuiJson => &files.json,
        ConfigName::TuiJsonc => &files.jsonc,
    };
    assert(file_error(name, file@) is None);
    proof {
        reveal_strlit("{}\n");
        assert("{}\n"@ =~= seq!['{', '}', '\n']);
        lemma_empty_object_line();
    }
    let content: &str = if file.is_file {
        match &file.content {
            None => return Err(ConfigError::Unreadable(name)),
            Some(text) => text.as_str(),
        }
    } else {
        "{}\n"
    };
    match register_in_text(content, file.path.as_str(), plugin_spec) {
        Err(error) => Err(error),
        Ok(text) => Ok(Addition::Written { name, text }),
    }
}

/// `removal` takes the plugin out of a file without a fault. What is no regular file stays.
pub open spec fn is_file_removal(
    file: ConfigFileView,
    plugin_spec: Seq<char>,
    removal: RemovalView,
) -> bool {
    match file.content {
        Some(text) if file.is_file => is_removal(text, plugin_spec, removal),
        _ => removal is Unchanged,
    }
}

/// Takes the plugin out of one file, unless it has a fault.
pub fn remove_tui_plugin_at(name: ConfigName, file: &ConfigFile, plugin_spec: &str) -> (removed:
    Result<Removal, ConfigError>)
    ensures
        match removed {
            Ok(removal) => file_error(name, file@) is None && is_file_removal(
                file@,
                plugin_spec@,
                removal@,
            ),
            Err(error) => file_error(name, file@) == Some(error@),
        },
{
    if !file.is_file {
        return Ok(Removal::Unchanged);
    }
    match &file.content {
        None => Err(ConfigError::Unreadable(name)),
        Some(text) => unregister_in_text(text.as_str(), file.path.as_str(), plugin_spec),
    }
}

/// What becomes of both files when the plugin is taken out.
#[derive(Debug)]
pub struct Removals {
    pub json: Removal,
    pub jsonc: Removal,
}

/// The mathematical form of [`Removals`].
#[verifier::ext_equal]
pub struct RemovalsView {
    pub json: RemovalView,
    pub jsonc: RemovalView,
}

impl View for Removals {
    type V = RemovalsView;

    open spec fn view(&self) -> RemovalsView {
        RemovalsView { json: self.json@, jsonc: self.jsonc@ }
    }
}

/// `removals` takes the plugin out of both files.
pub open spec fn is_files_removal(
    files: ConfigFilesView,
    plugin_spec: Seq<char>,
    removals: RemovalsView,
) -> bool {
    &&& is_file_removal(files.json, plugin_spec, removals.json)
    &&& is_file_removal(files.jsonc, plugin_spec, removals.jsonc)
}

/// Some file does not stay as it is.
pub open spec fn any_removed(removals: RemovalsView) -> bool {
    !(removals.json is Unchanged) || !(removals.jsonc is Unchanged)
}

impl Removals {
    /// Whether the plugin was taken out of a file.
    pub fn removed(&self) -> (removed: bool)
        ensures
            removed == any_removed(self@),
            removed == !(self.json is Unchanged && self.jsonc is Unchanged),
    {
        match (&self.json, &self.jsonc) {
            (Removal::Unchanged, Removal::Unchanged) => false,
            _ => true,
        }
    }
}

/// Takes the plugin out of both files, unless one of them has a fault. They have to be different
/// files: where one is a link to the other, what is done to the first changes what is found at
/// the second, which is then to be looked at anew and handed to [`remove_tui_plugin_at`].
pub fn remove_tui_plugin(files: &ConfigFiles, plugin_spec: &str) -> (removed: Result<
    Removals,
    ConfigError,
>)
    ensures
        match removed {
            Ok(removals) => files_error(files@) is None && is_files_removal(
                files@,
                plugin_spec@,
                removals@,
            ),
            Err(error) => files_error(files@) == Some(error@),
        },
{
    match validate_tui_plugin_config(files) {
        Err(error) => return Err(error),
        Ok(()) => {},
    }
    let json: Removal = match remove_tui_plugin_at(ConfigName::TuiJson, &files.json, plugin_spec) {
        Err(error) => return Err(error),
        Ok(removal) => removal,
    };
    let jsonc: Removal = match remove_tui_plugin_at(
        ConfigName::TuiJsonc,
        &files.jsonc,
        plugin_spec,
    ) {
        Err(error) => return Err(error),
        Ok(removal) => removal,
    };
    Ok(Removals { json, jsonc })
}

} // verus!
