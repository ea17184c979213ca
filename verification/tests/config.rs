use jsonc_parser::cst::CstRootNode;
use jsonc_parser::ParseOptions;
use opencode_config::config::{
    add_tui_plugin, remove_tui_plugin, remove_tui_plugin_at, tui_config_path,
    tui_plugin_is_configured, tui_plugin_is_configured_at, validate_tui_config,
    validate_tui_plugin_config, Addition, ConfigFile, ConfigFiles,
};
use opencode_config::error::{invalid_plugin_list, invalid_root, ConfigError, ConfigName};
use opencode_config::listing::{
    jsonc_parse_options, register_in_text, text_lists_plugin, unregister_in_text, validate_text, Removal,
};
use opencode_config::platform::Platform;
use opencode_config::write::{write_action, write_config, Reply, WriteAction, WriteOutcome, WriteState};
use serde_json::Value;

const PLUGIN: &str = "./herdr-tui-state.js";

/// A configuration directory held in memory.
struct Dir {
    json: Option<String>,
    jsonc: Option<String>,
    stage: Option<String>,
    legacy: Option<String>,
    platform: Platform,
    replacement_held: bool,
}

impl Dir {
    fn new() -> Dir {
        Dir {
            json: None,
            jsonc: None,
            stage: None,
            legacy: None,
            platform: Platform::Other,
            replacement_held: false,
        }
    }

    fn text(&self, name: ConfigName) -> &Option<String> {
        match name {
            ConfigName::TuiJson => &self.json,
            ConfigName::TuiJsonc => &self.jsonc,
        }
    }

    fn text_mut(&mut self, name: ConfigName) -> &mut Option<String> {
        match name {
            ConfigName::TuiJson => &mut self.json,
            ConfigName::TuiJsonc => &mut self.jsonc,
        }
    }

    fn file(&self, name: ConfigName) -> ConfigFile {
        let text = self.text(name);
        ConfigFile {
            path: format!("/dir/{}", name.file_name()),
            exists: text.is_some(),
            is_file: text.is_some(),
            content: text.clone(),
        }
    }

    fn files(&self) -> ConfigFiles {
        ConfigFiles {
            json: self.file(ConfigName::TuiJson),
            jsonc: self.file(ConfigName::TuiJsonc),
        }
    }

    fn entries(&self) -> usize {
        [&self.json, &self.jsonc, &self.stage, &self.legacy].iter().filter(|text| text.is_some()).count()
    }

    /// Carries out a replacement of one file.
    fn write(&mut self, name: ConfigName, content: &str) -> WriteOutcome<&'static str> {
        let mut state: WriteState<&'static str> = WriteState::InspectLink;
        while let Some(action) = write_action(&state, self.platform) {
            let reply = match action {
                WriteAction::InspectLink => match self.text(name) {
                    Some(_) => Reply::Done,
                    None => Reply::Missing("nothing there"),
                },
                WriteAction::InspectTarget => match self.text(name) {
                    Some(_) => Reply::No,
                    None => Reply::Missing("nothing there"),
                },
                WriteAction::FindParent => Reply::Yes,
                WriteAction::CreateStage | WriteAction::OpenStage => {
                    self.stage = Some(String::new());
                    Reply::Done
                }
                WriteAction::CopyExisting => {
                    self.stage = self.text(name).clone();
                    Reply::Done
                }
                WriteAction::WriteStage => {
                    self.stage = Some(content.to_string());
                    Reply::Done
                }
                WriteAction::Replace(_) if self.replacement_held => Reply::Failed("held open"),
                WriteAction::Replace(_) => {
                    let staged = self.stage.take();
                    *self.text_mut(name) = staged;
                    Reply::Done
                }
                WriteAction::RemoveStage => {
                    self.stage = None;
                    Reply::Done
                }
                _ => Reply::Done,
            };
            state = write_config(state, reply, self.platform);
        }
        match state {
            WriteState::Finished(outcome) => outcome,
            _ => unreachable!(),
        }
    }

    fn add(&mut self, plugin_spec: &str) -> Result<ConfigName, String> {
        let addition = match add_tui_plugin(&self.files(), plugin_spec) {
            Ok(addition) => addition,
            Err(error) => return Err(error.message().unwrap()),
        };
        let name = addition.name();
        if let Addition::Written { name, text } = &addition {
            match self.write(*name, text) {
                WriteOutcome::Replaced => {}
                outcome => return Err(format!("{:?}", outcome)),
            }
        }
        Ok(name)
    }

    fn remove(&mut self, plugin_spec: &str) -> Result<bool, String> {
        let removals = match remove_tui_plugin(&self.files(), plugin_spec) {
            Ok(removals) => removals,
            Err(error) => return Err(error.message().unwrap()),
        };
        let removed = removals.removed();
        for (name, removal) in
            [(ConfigName::TuiJson, removals.json), (ConfigName::TuiJsonc, removals.jsonc)]
        {
            match removal {
                Removal::Unchanged => {}
                Removal::Deleted => *self.text_mut(name) = None,
                Removal::Rewritten(text) => assert!(matches!(
                    self.write(name, &text),
                    WriteOutcome::Replaced
                )),
            }
        }
        Ok(removed)
    }

    fn is_configured(&self, plugin_spec: &str) -> bool {
        tui_plugin_is_configured(&self.files(), plugin_spec)
    }
}

/// The parser's options as the library uses them.
fn options() -> ParseOptions {
    let options = jsonc_parse_options();
    ParseOptions {
        allow_comments: options.allow_comments,
        allow_loose_object_property_names: options.allow_loose_object_property_names,
        allow_trailing_commas: options.allow_trailing_commas,
        allow_missing_commas: options.allow_missing_commas,
        allow_single_quoted_strings: options.allow_single_quoted_strings,
        allow_hexadecimal_numbers: options.allow_hexadecimal_numbers,
        allow_unary_plus_numbers: options.allow_unary_plus_numbers,
    }
}

fn parse_config(text: &Option<String>) -> Value {
    CstRootNode::parse(text.as_ref().unwrap(), &options())
        .unwrap()
        .value()
        .and_then(|value| value.to_serde_value())
        .unwrap()
}

fn json(text: &str) -> Value {
    serde_json::from_str(text).unwrap()
}

#[test]
fn add_and_remove_tui_plugin_preserves_jsonc_config() {
    let mut dir = Dir::new();
    dir.jsonc = Some(
        [
            "{\n",
            "  // Keep this comment.\n",
            "  \"theme\": \"system\",\n",
            "  \"plugin\": [\"example\", [\"configured\", {\"enabled\": true}]],\n",
            "}\n",
        ]
        .concat(),
    );

    dir.add("./herdr-tui-state.js").unwrap();
    dir.add("./herdr-tui-state.js").unwrap();
    assert!(dir.jsonc.as_ref().unwrap().contains("// Keep this comment."));
    let installed = parse_config(&dir.jsonc);
    assert_eq!(installed["theme"], "system");
    assert_eq!(
        installed["plugin"],
        json(r#"["example", ["configured", {"enabled": true}], "./herdr-tui-state.js"]"#)
    );

    assert!(dir.remove("./herdr-tui-state.js").unwrap());
    assert!(dir.jsonc.as_ref().unwrap().contains("// Keep this comment."));
    let removed = parse_config(&dir.jsonc);
    assert_eq!(removed["theme"], "system");
    assert_eq!(removed["plugin"], json(r#"["example", ["configured", {"enabled": true}]]"#));
}

#[test]
fn rejected_config_replacement_preserves_user_bytes_and_cleans_stage() {
    let mut dir = Dir::new();
    let original = "{\n// Keep my settings.\n\"theme\":\"system\"\n}\n";
    dir.jsonc = Some(original.to_string());
    dir.platform = Platform::Windows;
    dir.replacement_held = true;
    assert!(dir.add("./herdr-tui-session.js").is_err());
    assert_eq!(dir.jsonc.as_deref(), Some(original));
    assert_eq!(dir.entries(), 1);
    dir.replacement_held = false;
    dir.add("./herdr-tui-session.js").unwrap();
    assert_eq!(parse_config(&dir.jsonc)["theme"], "system");
    assert!(dir.jsonc.as_ref().unwrap().contains("// Keep my settings."));
}

#[test]
fn managed_jsonc_leaves_opencode_migration_target_absent() {
    let mut dir = Dir::new();
    let legacy_config = "{\n  \"theme\": \"system\"\n}\n";
    dir.legacy = Some(legacy_config.to_string());

    let name = dir.add("./herdr-tui-state.js").unwrap();

    assert_eq!(name, ConfigName::TuiJsonc);
    assert_eq!(name.file_name(), "tui.jsonc");
    assert!(dir.json.is_none());
    assert_eq!(ConfigName::TuiJson.file_name(), "tui.json");
    assert_eq!(dir.legacy.as_deref(), Some(legacy_config));
    assert_eq!(parse_config(&dir.jsonc), json(r#"{ "plugin": ["./herdr-tui-state.js"] }"#));
}

#[test]
fn remove_tui_plugin_removes_empty_managed_config() {
    let mut dir = Dir::new();
    dir.add("./herdr-tui-state.js").unwrap();

    assert!(dir.remove("./herdr-tui-state.js").unwrap());
    assert!(dir.jsonc.is_none());
}

#[test]
fn configured_tui_plugin_accepts_option_tuple() {
    let mut dir = Dir::new();
    dir.jsonc = Some(r#"{"plugin":[["./herdr-tui-state.js",{"enabled":true}]]}"#.to_string());

    assert!(dir.is_configured("./herdr-tui-state.js"));
    assert!(dir.remove("./herdr-tui-state.js").unwrap());
}

#[test]
fn tui_json_registration_is_reused_without_creating_jsonc() {
    let mut dir = Dir::new();
    let content = r#"{"theme":"system","plugin":[["./herdr-tui-state.js",{"enabled":true}]]}"#;
    dir.json = Some(content.to_string());
    assert!(dir.is_configured("./herdr-tui-state.js"));
    assert_eq!(dir.add("./herdr-tui-state.js").unwrap(), ConfigName::TuiJson);
    assert_eq!(dir.json.as_deref(), Some(content));
    assert!(dir.jsonc.is_none());
    assert!(dir.remove("./herdr-tui-state.js").unwrap());
    assert_eq!(parse_config(&dir.json), json(r#"{"theme":"system"}"#));
}

#[test]
fn tui_registration_spans_both_files_without_duplication_or_comment_loss() {
    let mut dir = Dir::new();
    dir.json = Some(r#"{"plugin":["./herdr-tui-state.js"]}"#.to_string());
    dir.jsonc = Some("{\n// Keep this comment.\n}\n".to_string());
    assert_eq!(dir.add("./herdr-tui-state.js").unwrap(), ConfigName::TuiJson);
    dir.jsonc =
        Some("{\n// Keep this comment.\n\"plugin\":[\"./herdr-tui-state.js\"]\n}\n".to_string());
    assert!(dir.remove("./herdr-tui-state.js").unwrap());
    assert!(dir.json.is_none());
    assert!(dir.jsonc.as_ref().unwrap().contains("// Keep this comment."));
    assert!(!dir.is_configured("./herdr-tui-state.js"));
}

#[test]
fn existing_tui_json_receives_registration_and_invalid_json_blocks_install() {
    let mut dir = Dir::new();
    dir.json = Some(r#"{"theme":"system"}"#.to_string());
    assert_eq!(dir.add("./herdr-tui-state.js").unwrap(), ConfigName::TuiJson);
    assert_eq!(
        parse_config(&dir.json),
        json(r#"{"theme":"system","plugin":["./herdr-tui-state.js"]}"#)
    );
    assert!(dir.jsonc.is_none());
    dir.json = Some(r#"{"plugin":{}}"#.to_string());
    assert!(validate_tui_plugin_config(&dir.files()).is_err());
}

#[test]
fn first_registration_has_the_exact_text() {
    let mut dir = Dir::new();
    dir.add(PLUGIN).unwrap();
    assert_eq!(
        dir.jsonc.as_deref(),
        Some("{\n  \"plugin\": [\"./herdr-tui-state.js\"]\n}\n")
    );
}

#[test]
fn registration_is_appended_to_the_list_as_it_is_written() {
    let text = "{\"plugin\": [\"a\", /* kept */ \"b\"]} // end\n";
    assert_eq!(
        register_in_text(text, "p", "c").unwrap(),
        "{\"plugin\": [\"a\", /* kept */ \"b\", \"c\"]} // end\n"
    );
}

#[test]
fn specifier_with_quotes_and_controls_reads_back() {
    for plugin_spec in ["say \"hi\"", "back\\slash", "line\nbreak\ttab", "bell\u{7}", "\u{85}", "é✓"] {
        let mut dir = Dir::new();
        dir.add(plugin_spec).unwrap();
        assert!(dir.is_configured(plugin_spec));
        assert!(!dir.is_configured("other"));
        assert_eq!(parse_config(&dir.jsonc)["plugin"][0], plugin_spec);
        assert!(dir.remove(plugin_spec).unwrap());
        assert!(dir.jsonc.is_none());
    }
}

#[test]
fn adding_twice_writes_once() {
    let mut dir = Dir::new();
    dir.json = Some("{\n  \"plugin\": [ // list\n    \"a\", // first\n  ]\n}".to_string());
    assert_eq!(dir.add(PLUGIN).unwrap(), ConfigName::TuiJson);
    let written = dir.json.clone();
    assert!(matches!(
        add_tui_plugin(&dir.files(), PLUGIN),
        Ok(Addition::Listed(ConfigName::TuiJson))
    ));
    assert_eq!(dir.add(PLUGIN).unwrap(), ConfigName::TuiJson);
    assert_eq!(dir.json, written);
    assert_eq!(parse_config(&dir.json)["plugin"], json(r#"["a", "./herdr-tui-state.js"]"#));
    assert!(dir.json.as_ref().unwrap().contains("// list"));
    assert!(dir.json.as_ref().unwrap().contains("// first"));
}

#[test]
fn removing_twice_changes_once() {
    let mut dir = Dir::new();
    dir.jsonc = Some(r#"{"plugin": ["a", "s", ["s", 1], "b", "s"], "x": null}"#.to_string());
    assert!(dir.remove("s").unwrap());
    assert_eq!(parse_config(&dir.jsonc), json(r#"{"plugin": ["a", "b"], "x": null}"#));
    let left = dir.jsonc.clone();
    assert!(!dir.remove("s").unwrap());
    assert_eq!(dir.jsonc, left);
}

#[test]
fn removing_undoes_adding() {
    for text in [
        "{}",
        "{\n  \"theme\": \"system\"\n}\n",
        "{\"plugin\": [\"a\", [\"b\", {}], 3, null]}",
        "{\n  // one\n  \"plugin\": [\n    // two\n    \"a\",\n  ],\n}\n",
    ] {
        let mut dir = Dir::new();
        dir.jsonc = Some(text.to_string());
        let before = parse_config(&dir.jsonc);
        dir.add(PLUGIN).unwrap();
        assert!(dir.is_configured(PLUGIN));
        assert!(dir.remove(PLUGIN).unwrap());
        assert!(!dir.is_configured(PLUGIN));
        if text == "{}" {
            assert!(dir.jsonc.is_none());
        } else {
            assert_eq!(parse_config(&dir.jsonc), before);
        }
    }
}

#[test]
fn empty_list_goes_with_its_last_entry() {
    let mut dir = Dir::new();
    dir.jsonc = Some("{\"plugin\": []}".to_string());
    dir.add(PLUGIN).unwrap();
    assert!(dir.remove(PLUGIN).unwrap());
    assert!(dir.jsonc.is_none());
}

#[test]
fn absent_files_are_left_alone() {
    let mut dir = Dir::new();
    assert!(!dir.is_configured(PLUGIN));
    assert!(!dir.remove(PLUGIN).unwrap());
    assert_eq!(dir.entries(), 0);
    assert!(validate_tui_plugin_config(&dir.files()).is_ok());
}

#[test]
fn second_plugin_property_comes_to_light() {
    let text = r#"{"plugin": ["s"], "plugin": ["s"]}"#;
    match unregister_in_text(text, "p", "s").unwrap() {
        Removal::Rewritten(left) => assert!(text_lists_plugin(&left, "s")),
        _ => panic!(),
    }
}

#[test]
fn missing_comma_lets_neighbours_run_together() {
    match unregister_in_text(r#"{"plugin": [1 "s"2]}"#, "p", "s").unwrap() {
        Removal::Rewritten(left) => assert_eq!(left, r#"{"plugin": [12]}"#),
        _ => panic!(),
    }
    match unregister_in_text(r#"{"plugin": ["a" "s""b"]}"#, "p", "s").unwrap() {
        Removal::Rewritten(left) => {
            assert_eq!(json_list(&left), json(r#"["a", "b"]"#));
            assert!(!text_lists_plugin(&left, "s"));
        }
        _ => panic!(),
    }
}

fn json_list(text: &str) -> Value {
    parse_config(&Some(text.to_string()))["plugin"].clone()
}

#[test]
fn comments_and_commas_around_a_removed_entry_stay_valid() {
    for text in [
        "{\"plugin\": [\"s\" // c\n, \"b\"]}",
        "{\"plugin\": [ // c\n \"b\", \"s\" ]}",
        "{\"plugin\": [\n  \"b\", // c\n  \"s\"\n]}",
        "{\"plugin\": [\n  \"s\", // c\n  \"b\",\n]}",
        "{\"plugin\": [\n  /* c */ \"s\" /* d */, \"b\"\n]}",
        "{\r\n\"plugin\": [\r\n\"b\",\r\n\"s\"\r\n]}",
    ] {
        match unregister_in_text(text, "p", "s").unwrap() {
            Removal::Rewritten(left) => {
                assert_eq!(json_list(&left), json(r#"["b"]"#));
                assert!(validate_text(&left, "p").is_ok());
            }
            _ => panic!(),
        }
        let added = register_in_text(text, "p", "t").unwrap();
        assert!(text_lists_plugin(&added, "t"));
        assert!(text_lists_plugin(&added, "s"));
        assert!(text_lists_plugin(&added, "b"));
    }
}

#[test]
fn property_goes_from_between_others() {
    for text in [
        "{\"a\": 1, \"plugin\": [\"s\"], \"b\": 2}",
        "{\n  \"a\": 1, // one\n  \"plugin\": [\"s\"], // two\n  \"b\": 2 // three\n}",
        "{\n  \"a\": 1,\n  \"b\": 2,\n  \"plugin\": [\n    \"s\",\n  ],\n}",
    ] {
        match unregister_in_text(text, "p", "s").unwrap() {
            Removal::Rewritten(left) => {
                assert_eq!(parse_config(&Some(left)), json(r#"{"a": 1, "b": 2}"#));
            }
            _ => panic!(),
        }
    }
}

#[test]
fn registration_goes_to_tui_jsonc_unless_tui_json_is_the_only_one() {
    assert_eq!(tui_config_path(false, false), ConfigName::TuiJsonc);
    assert_eq!(tui_config_path(false, true), ConfigName::TuiJsonc);
    assert_eq!(tui_config_path(true, true), ConfigName::TuiJsonc);
    assert_eq!(tui_config_path(true, false), ConfigName::TuiJson);
}

#[test]
fn unreadable_file_blocks_but_is_not_configured() {
    let file = ConfigFile {
        path: "/dir/tui.json".to_string(),
        exists: true,
        is_file: true,
        content: None,
    };
    match validate_tui_config(ConfigName::TuiJson, &file) {
        Err(error) => {
            assert!(matches!(error, ConfigError::Unreadable(ConfigName::TuiJson)));
            assert_eq!(error.message(), None);
        }
        Ok(()) => panic!(),
    }
    assert!(!tui_plugin_is_configured_at(&file, PLUGIN));
    let files = ConfigFiles { json: Dir::new().file(ConfigName::TuiJson), jsonc: file };
    assert!(matches!(
        add_tui_plugin(&files, PLUGIN),
        Err(ConfigError::Unreadable(ConfigName::TuiJsonc))
    ));
    assert!(matches!(
        remove_tui_plugin(&files, PLUGIN),
        Err(ConfigError::Unreadable(ConfigName::TuiJsonc))
    ));
}

#[test]
fn directory_in_place_of_a_file_is_left_alone() {
    let file = ConfigFile {
        path: "/dir/tui.jsonc".to_string(),
        exists: true,
        is_file: false,
        content: None,
    };
    assert!(validate_tui_config(ConfigName::TuiJsonc, &file).is_ok());
    assert!(matches!(
        remove_tui_plugin_at(ConfigName::TuiJsonc, &file, PLUGIN),
        Ok(Removal::Unchanged)
    ));
}

#[test]
fn errors_come_in_the_order_of_the_files() {
    let mut dir = Dir::new();
    dir.json = Some("[]".to_string());
    dir.jsonc = Some("{\"plugin\": 1}".to_string());
    let message = "OpenCode TUI config at /dir/tui.json must be a JSON object";
    assert_eq!(
        validate_tui_plugin_config(&dir.files()).unwrap_err().message().as_deref(),
        Some(message)
    );
    assert_eq!(dir.add(PLUGIN), Err(message.to_string()));
    assert_eq!(dir.remove(PLUGIN), Err(message.to_string()));
    dir.json = None;
    let message = "OpenCode TUI config plugin list at /dir/tui.jsonc must be an array";
    assert_eq!(dir.add(PLUGIN), Err(message.to_string()));
    assert_eq!(dir.remove(PLUGIN), Err(message.to_string()));
    assert!(!dir.is_configured(PLUGIN));
}

#[test]
fn errors_have_their_sentences() {
    assert_eq!(
        validate_text("{", "/c").unwrap_err().message().as_deref(),
        Some("failed to parse OpenCode TUI config at /c: Unterminated object on line 1 column 1")
    );
    assert_eq!(
        invalid_root("/c").message().as_deref(),
        Some("OpenCode TUI config at /c must be a JSON object")
    );
    assert_eq!(
        invalid_plugin_list("/c").message().as_deref(),
        Some("OpenCode TUI config plugin list at /c must be an array")
    );
    assert_eq!(
        register_in_text("", "/c", "s").unwrap_err().message().as_deref(),
        Some("OpenCode TUI config at /c must be a JSON object")
    );
    assert_eq!(
        unregister_in_text("{\"plugin\": \"s\"}", "/c", "s").unwrap_err().message().as_deref(),
        Some("OpenCode TUI config plugin list at /c must be an array")
    );
}

#[test]
fn only_comments_and_trailing_commas_go_beyond_json() {
    for text in ["{}", "{ /* c */ } // d", "{\"a\": [1, 2,],}", "\u{a0}{\u{2003}}\u{85}"] {
        assert!(validate_text(text, "p").is_ok());
    }
    for text in ["{a: 1}", "{\"a\": 1 \"b\": 2}", "{'a': 1}", "{\"a\": 0x1}", "{\"a\": +1}"] {
        assert!(matches!(validate_text(text, "p"), Err(ConfigError::Unparsable { .. })));
    }
}

#[test]
fn settings_and_comments_survive_both_ways() {
    let text = [
        "// head\n",
        "{\n",
        "  // alone\n",
        "  \"theme\": \"system\", // theme\n",
        "  \"keys\": { \"quit\": [1, 2.5, null] }, /* keys */\n",
        "  // also alone\n",
        "}\n",
        "/* tail */",
    ]
    .concat();
    let mut dir = Dir::new();
    dir.jsonc = Some(text.clone());
    let before = parse_config(&dir.jsonc);
    dir.add(PLUGIN).unwrap();
    let added = dir.jsonc.clone().unwrap();
    for comment in ["// head", "// alone", "// theme", "/* keys */", "// also alone", "/* tail */"] {
        assert!(added.contains(comment));
    }
    assert_eq!(parse_config(&dir.jsonc)["keys"], before["keys"]);
    assert!(dir.remove(PLUGIN).unwrap());
    let removed = dir.jsonc.clone().unwrap();
    for comment in ["// head", "// alone", "// theme", "/* keys */", "// also alone", "/* tail */"] {
        assert!(removed.contains(comment));
    }
    assert_eq!(parse_config(&dir.jsonc), before);
}

#[test]
fn file_with_a_comment_or_a_setting_is_not_deleted() {
    for text in [
        "{\n  // alone\n  \"plugin\": [\"s\"]\n}",
        "// head\n{\"plugin\": [\"s\"]}",
        "{\"plugin\": [\"s\"], \"x\": {}}",
        "{\"plugin\": [\"s\", \"t\"]}",
    ] {
        assert!(matches!(unregister_in_text(text, "p", "s"), Ok(Removal::Rewritten(_))));
    }
    for text in ["{\"plugin\": [\"s\"]}", " {\r\n \"plugin\" : [ \"s\", [\"s\", 1], ] , } \n"] {
        assert!(matches!(unregister_in_text(text, "p", "s"), Ok(Removal::Deleted)));
    }
}

#[test]
fn options_of_other_plugins_are_kept() {
    let text = r#"{"plugin": [["a", {"deep": [1, {"b": null}]}], "s", {"c": 1e3}]}"#;
    match unregister_in_text(text, "p", "s").unwrap() {
        Removal::Rewritten(left) => {
            assert_eq!(json_list(&left), json(r#"[["a", {"deep": [1, {"b": null}]}], {"c": 1e3}]"#));
        }
        _ => panic!(),
    }
}

#[test]
fn file_made_by_an_addition_goes_with_the_removal() {
    for platform in [Platform::Windows, Platform::Other] {
        let mut dir = Dir::new();
        dir.platform = platform;
        assert_eq!(dir.add(PLUGIN), Ok(ConfigName::TuiJsonc));
        assert_eq!(dir.entries(), 1);
        assert_eq!(dir.remove(PLUGIN), Ok(true));
        assert_eq!(dir.entries(), 0);
    }
}

#[test]
fn integration_only_file_goes_with_the_comments_in_its_list() {
    for text in [
        "{\"plugin\": [ /* in */ \"s\" // in\n ]}",
        "{\n  \"plugin\" /* in */ : [\n    // in\n    \"s\",\n    [\"s\"],\n  ],\n}\n",
    ] {
        assert!(matches!(unregister_in_text(text, "p", "s"), Ok(Removal::Deleted)));
    }
    let kept = "{\n  // out\n  \"plugin\": [\"s\"]\n}\n";
    match unregister_in_text(kept, "p", "s").unwrap() {
        Removal::Rewritten(left) => assert_eq!(left, "{\n  // out\n}\n"),
        _ => panic!(),
    }
}

#[test]
fn both_files_are_handled_and_only_the_bare_one_goes() {
    let files = ConfigFiles {
        json: ConfigFile {
            path: "tui.json".to_string(),
            exists: true,
            is_file: true,
            content: Some(r#"{"plugin":["./herdr-tui-state.js"]}"#.to_string()),
        },
        jsonc: ConfigFile {
            path: "tui.jsonc".to_string(),
            exists: true,
            is_file: true,
            content: Some(
                "{\n// Keep this comment.\n\"plugin\":[\"./herdr-tui-state.js\"]\n}\n".to_string(),
            ),
        },
    };
    let removals = remove_tui_plugin(&files, PLUGIN).unwrap();
    assert!(removals.removed());
    assert!(matches!(removals.json, Removal::Deleted));
    match removals.jsonc {
        Removal::Rewritten(left) => assert!(left.contains("// Keep this comment.")),
        _ => panic!(),
    }
}

#[test]
fn comment_keeps_its_words_when_its_line_break_is_written_anew() {
    for text in ["{\n\"plugin\": [ // c\r\r\n]}", "{\n\"a\":1 // c\r\r\n}", "{// c\r\r\n\n}"] {
        let added = register_in_text(text, "p", "s").unwrap();
        assert!(added.contains("// c\r"));
        assert!(text_lists_plugin(&added, "s"));
        assert_eq!(added.matches("//").count(), 1);
    }
}

#[test]
fn nested_and_end_of_line_comments_survive_a_removal() {
    let text = [
        "{ // brace\n",
        "  \"theme\": \"system\", // mine\n",
        "  \"keys\": {\n    // leader\n    \"leader\": \"x\" /* key */\n  }, /* before */\n",
        "  /* own line */ \"plugin\" /* in name */ : [ // in list\n    \"s\",\n  ], // own line too\n",
        "  \"last\": [ /* inner */ 1 ] // last\n",
        "} // end\n",
    ]
    .concat();
    let outside = [
        "// brace", "// mine", "// leader", "/* key */", "/* before */", "/* inner */", "// last",
        "// end",
    ];
    match unregister_in_text(&text, "p", "s").unwrap() {
        Removal::Rewritten(left) => {
            for comment in outside {
                assert!(left.contains(comment), "{}", comment);
            }
            for comment in ["own line", "in name", "in list", "own line too"] {
                assert!(!left.contains(comment), "{}", comment);
            }
        }
        _ => panic!(),
    }
    // Where another entry stays, so does every comment outside the property.
    let text = text.replace("\"s\",", "\"s\", \"t\"");
    match unregister_in_text(&text, "p", "s").unwrap() {
        Removal::Rewritten(left) => {
            for comment in outside {
                assert!(left.contains(comment), "{}", comment);
            }
            for comment in ["/* own line */", "/* in name */", "// own line too"] {
                assert!(left.contains(comment), "{}", comment);
            }
        }
        _ => panic!(),
    }
}

#[test]
fn removing_undoes_adding_in_a_list_without_commas() {
    for list in ["[1 2]", "[true false\n]", "[1 \"a\"2,]", "[\n  null {}\n]", "[1]"] {
        let text = format!("{{\"plugin\": {}, \"x\": 1}}", list);
        let added = register_in_text(&text, "p", "s").unwrap();
        match unregister_in_text(&added, "p", "s").unwrap() {
            Removal::Rewritten(left) => {
                assert_eq!(parse_config(&Some(left)), parse_config(&Some(text)));
            }
            _ => panic!(),
        }
    }
}

#[test]
fn file_with_entries_that_run_together_stays() {
    for text in [r#"{"plugin":[1 "s"2]}"#, r#"{"plugin":[true "s"false]}"#] {
        assert!(matches!(unregister_in_text(text, "p", "s"), Ok(Removal::Rewritten(_))));
    }
    let covered = r#"{"plugin":[1e999 "s"]}"#;
    match unregister_in_text(covered, "p", "s").unwrap() {
        Removal::Rewritten(left) => assert!(text_lists_plugin(&left, "1e999")),
        _ => panic!(),
    }
}

#[test]
fn comment_on_the_line_of_the_closing_brace_goes_with_the_property() {
    let added = register_in_text("{\n\"a\": 1 /* y */ }", "p", "s").unwrap();
    assert!(added.contains("/* y */"));
    match unregister_in_text(&added, "p", "s").unwrap() {
        Removal::Rewritten(left) => assert!(!left.contains("/* y */")),
        _ => panic!(),
    }
}

#[test]
fn comment_before_the_next_property_on_the_line_stays() {
    let text = "{\"plugin\": [\"s\"], /* about b */ \"b\": 1}";
    match unregister_in_text(text, "p", "s").unwrap() {
        Removal::Rewritten(left) => assert!(left.contains("/* about b */")),
        _ => panic!(),
    }
}
