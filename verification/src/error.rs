//! The two configuration files and the reasons for refusing one.

use vstd::prelude::*;

verus! {

/// One of the two files that OpenCode reads its TUI settings from.
#[derive(Clone, Copy, Debug, PartialEq, Eq, Structural)]
pub enum ConfigName {
    /// `tui.json`.
    TuiJson,
    /// `tui.jsonc`.
    TuiJsonc,
}

impl ConfigName {
    pub open spec fn spec_file_name(self) -> Seq<char> {
        match self {
            ConfigName::TuiJson => "tui.json"@,
            ConfigName::TuiJsonc => "tui.jsonc"@,
        }
    }

    /// The name of the file in the configuration directory.
    pub fn file_name(self) -> (name: &'static str)
        ensures
            name@ == self.spec_file_name(),
            self is TuiJson ==> name@ == "tui.json"@,
            self is TuiJsonc ==> name@ == "tui.jsonc"@,
    {
        match self {
            ConfigName::TuiJson => "tui.json",
            ConfigName::TuiJsonc => "tui.jsonc",
        }
    }
}

/// Why a configuration file was refused.
#[derive(Debug)]
pub enum ConfigError {
    /// The file is there but could not be read as text.
    Unreadable(ConfigName),
    /// The text is no JSONC.
    Unparsable { path: String, reason: String },
    /// The root value is no object.
    InvalidRoot { path: String },
    /// The plugin list is no array.
    InvalidPluginList { path: String },
}

/// The mathematical form of a [`ConfigError`].
#[verifier::ext_equal]
pub enum ConfigErrorView {
    Unreadable(ConfigName),
    Unparsable { path: Seq<char>, reason: Seq<char> },
    InvalidRoot { path: Seq<char> },
    InvalidPluginList { path: Seq<char> },
}

impl View for ConfigError {
    type V = ConfigErrorView;

    open spec fn view(&self) -> ConfigErrorView {
        match *self {
            ConfigError::Unreadable(name) => ConfigErrorView::Unreadable(name),
            ConfigError::Unparsable { path, reason } => ConfigErrorView::Unparsable {
                path: path@,
                reason: reason@,
            },
            ConfigError::InvalidRoot { path } => ConfigErrorView::InvalidRoot { path: path@ },
            ConfigError::InvalidPluginList { path } => ConfigErrorView::InvalidPluginList {
                path: path@,
            },
        }
    }
}

/// The sentence that reports an error. A file that could not be read has none of its own:
/// the system's error speaks for it.
pub open spec fn error_message(error: ConfigErrorView) -> Option<Seq<char>> {
    match error {
        ConfigErrorView::Unreadable(_) => None,
        ConfigErrorView::Unparsable { path, reason } => Some(
            "failed to parse OpenCode TUI config at "@ + path + ": "@ + reason,
        ),
        ConfigErrorView::InvalidRoot { path } => Some(
            "OpenCode TUI config at "@ + path + " must be a JSON object"@,
        ),
        ConfigErrorView::InvalidPluginList { path } => Some(
            "OpenCode TUI config plugin list at "@ + path + " must be an array"@,
        ),
    }
}

/// Joins the parts of a sentence.
pub(crate) fn sentence(start: &str, middle: &str, end: &str) -> (text: String)
    ensures
        text@ == start@ + middle@ + end@,
{
    let mut text: String = start.to_owned();
    text.append(middle);
    text.append(end);
    text
}

impl ConfigError {
    /// The sentence that reports this error, `None` where the system's error speaks for it.
    pub fn message(&self) -> (message: Option<String>)
        ensures
            match message {
                Some(message) => error_message(self@) == Some(message@),
                None => error_message(self@) is None,
            },
            match *self {
                ConfigError::Unreadable(_) => message is None,
                ConfigError::Unparsable { path, reason } => message is Some && message->0@
                    == "failed to parse OpenCode TUI config at "@ + path@ + ": "@ + reason@,
                ConfigError::InvalidRoot { path } => message is Some && message->0@
                    == "OpenCode TUI config at "@ + path@ + " must be a JSON object"@,
                ConfigError::InvalidPluginList { path } => message is Some && message->0@
                    == "OpenCode TUI config plugin list at "@ + path@ + " must be an array"@,
            },
    {
        match self {
            ConfigError::Unreadable(_) => None,
            ConfigError::Unparsable { path, reason } => {
                let mut text: String = sentence(
                    "failed to parse OpenCode TUI config at ",
                    path.as_str(),
                    ": ",
                );
                text.append(reason.as_str());
                Some(text)
            },
            ConfigError::InvalidRoot { path } => Some(
                sentence("OpenCode TUI config at ", path.as_str(), " must be a JSON object"),
            ),
            ConfigError::InvalidPluginList { path } => Some(
                sentence(
                    "OpenCode TUI config plugin list at ",
                    path.as_str(),
                    " must be an array",
                ),
            ),
        }
    }
}

/// The error for a document whose root value is no object.
pub fn invalid_root(path: &str) -> (error: ConfigError)
    ensures
        error@ == (ConfigErrorView::InvalidRoot { path: path@ }),
        error matches ConfigError::InvalidRoot { path: shown } && shown@ == path@,
{
    ConfigError::InvalidRoot { path: path.to_owned() }
}

/// The error for a document whose plugin list is no array.
pub fn invalid_plugin_list(path: &str) -> (error: ConfigError)
    ensures
        error@ == (ConfigErrorView::InvalidPluginList { path: path@ }),
        error matches ConfigError::InvalidPluginList { path: shown } && shown@ == path@,
{
    ConfigError::InvalidPluginList { path: path.to_owned() }
}

} // verus!
