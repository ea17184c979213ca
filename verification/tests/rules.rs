use opencode_config::dacl::{copy_file_dacl, DaclProgress, DaclReply, DaclStep};
use opencode_config::entry::{plugin_entry_matches, read_entry, PluginEntry};
use opencode_config::listing::{
    check_plugin_field, jsonc_parse_options, plugin_field_lists, PluginField,
};
use opencode_config::error::ConfigError;
use opencode_config::platform::{replace_file, sync_parent_directory, Platform, Replacement};
use opencode_config::stage::stage_name;
use opencode_config::text::text_is_empty_object;
use opencode_config::write::{
    replace_failure_message, write_action, write_config, Refusal, Reply, WriteAction, WriteOutcome,
    WriteState,
};

fn text(value: &str) -> PluginEntry {
    PluginEntry::Text(value.to_string())
}

#[test]
fn entry_names_a_plugin_by_itself_or_by_its_first_item() {
    assert!(plugin_entry_matches(&text("s"), "s"));
    assert!(!plugin_entry_matches(&text("s"), "t"));
    let items = PluginEntry::Items(vec![Some("s".to_string()), None]);
    assert!(plugin_entry_matches(&items, "s"));
    let later = PluginEntry::Items(vec![None, Some("s".to_string())]);
    assert!(!plugin_entry_matches(&later, "s"));
    assert!(!plugin_entry_matches(&PluginEntry::Items(vec![]), "s"));
    assert!(!plugin_entry_matches(&PluginEntry::Other, "s"));
}

#[test]
fn entry_is_read_from_a_json_value() {
    let read = |json: &str| read_entry(&serde_json::from_str(json).unwrap());
    assert!(matches!(read("\"s\""), PluginEntry::Text(text) if text == "s"));
    match read("[\"s\", 1, [\"t\"]]") {
        PluginEntry::Items(items) => assert_eq!(items, vec![Some("s".to_string()), None, None]),
        _ => panic!(),
    }
    for json in ["1", "null", "true", "{\"s\": \"s\"}"] {
        assert!(matches!(read(json), PluginEntry::Other));
    }
}

#[test]
fn field_is_checked_and_searched() {
    let list = PluginField::List(vec![PluginEntry::Other, text("s")]);
    assert!(check_plugin_field(&list, "p").is_ok());
    assert!(check_plugin_field(&PluginField::Absent, "p").is_ok());
    assert!(matches!(
        check_plugin_field(&PluginField::NotObject, "p"),
        Err(ConfigError::InvalidRoot { path }) if path == "p"
    ));
    assert!(matches!(
        check_plugin_field(&PluginField::NotList, "p"),
        Err(ConfigError::InvalidPluginList { path }) if path == "p"
    ));
    assert!(plugin_field_lists(&list, "s"));
    assert!(!plugin_field_lists(&list, "t"));
    assert!(!plugin_field_lists(&PluginField::Absent, "s"));
}

#[test]
fn parse_options_are_jsonc() {
    let options = jsonc_parse_options();
    assert!(options.allow_comments);
    assert!(options.allow_trailing_commas);
    assert!(!options.allow_loose_object_property_names);
    assert!(!options.allow_missing_commas);
    assert!(!options.allow_single_quoted_strings);
    assert!(!options.allow_hexadecimal_numbers);
    assert!(!options.allow_unary_plus_numbers);
}

#[test]
fn empty_object_is_braces_and_white_space() {
    assert!(text_is_empty_object("{}"));
    assert!(text_is_empty_object(" {\n\t}\r\n\u{3000}"));
    assert!(!text_is_empty_object(""));
    assert!(!text_is_empty_object("{"));
    assert!(!text_is_empty_object("}{"));
    assert!(!text_is_empty_object("{}{}"));
    assert!(!text_is_empty_object("{} // c"));
    assert!(!text_is_empty_object("{a}"));
}

#[test]
fn white_space_is_the_unicode_property() {
    let spaces: Vec<u32> = (0..=0x10ffff)
        .filter(|code| match char::from_u32(*code) {
            Some(c) => text_is_empty_object(&format!("{{{}}}", c)),
            None => false,
        })
        .collect();
    let mut expected: Vec<u32> = vec![0x9, 0xa, 0xb, 0xc, 0xd, 0x20, 0x85, 0xa0, 0x1680];
    expected.extend(0x2000..=0x200a);
    expected.extend([0x2028, 0x2029, 0x202f, 0x205f, 0x3000]);
    assert_eq!(spaces, expected);
}

#[test]
fn staging_names_hold_process_and_sequence() {
    assert_eq!(stage_name(0, 0), ".herdr-opencode-0-0.tmp");
    assert_eq!(stage_name(4711, 10), ".herdr-opencode-4711-10.tmp");
    assert_eq!(
        stage_name(u32::MAX, u64::MAX),
        ".herdr-opencode-4294967295-18446744073709551615.tmp"
    );
    assert!(stage_name(1, 23) != stage_name(12, 3));
}

/// Runs a replacement in which one action gets a reply of its own and all others go well.
fn run(
    platform: Platform,
    existing: bool,
    special: Option<(WriteAction, Reply<&'static str>)>,
) -> (Vec<WriteAction>, WriteOutcome<&'static str>) {
    let mut special = special;
    let mut actions = Vec::new();
    let mut state = WriteState::InspectLink;
    while let Some(action) = write_action(&state, platform) {
        actions.push(action);
        let reply = match special.take() {
            Some((at, reply)) if at == action => reply,
            other => {
                special = other;
                match action {
                    WriteAction::InspectLink | WriteAction::InspectTarget if !existing => {
                        Reply::Missing("missing")
                    }
                    WriteAction::InspectTarget => Reply::No,
                    WriteAction::FindParent => Reply::Yes,
                    _ => Reply::Done,
                }
            }
        };
        state = write_config(state, reply, platform);
    }
    match state {
        WriteState::Finished(outcome) => (actions, outcome),
        _ => unreachable!(),
    }
}

#[test]
fn replacement_goes_through_its_actions() {
    let (actions, outcome) = run(Platform::Other, true, None);
    assert!(matches!(outcome, WriteOutcome::Replaced));
    assert_eq!(
        actions,
        vec![
            WriteAction::InspectLink,
            WriteAction::ResolveLink,
            WriteAction::InspectTarget,
            WriteAction::FindParent,
            WriteAction::CreateStage,
            WriteAction::CopyExisting,
            WriteAction::OpenStage,
            WriteAction::WriteStage,
            WriteAction::SyncStage,
            WriteAction::Replace(Replacement::Rename),
            WriteAction::SyncParent,
        ]
    );
    let (actions, outcome) = run(Platform::Windows, false, None);
    assert!(matches!(outcome, WriteOutcome::Replaced));
    assert_eq!(
        actions,
        vec![
            WriteAction::InspectLink,
            WriteAction::InspectTarget,
            WriteAction::FindParent,
            WriteAction::CreateStage,
            WriteAction::OpenStage,
            WriteAction::WriteStage,
            WriteAction::SyncStage,
            WriteAction::Replace(Replacement::MoveWriteThrough),
        ]
    );
}

#[test]
fn error_before_the_stage_is_passed_on() {
    for action in [
        WriteAction::InspectLink,
        WriteAction::ResolveLink,
        WriteAction::InspectTarget,
        WriteAction::CreateStage,
    ] {
        let (actions, outcome) = run(Platform::Other, true, Some((action, Reply::Failed("e"))));
        assert!(matches!(outcome, WriteOutcome::Failed("e")));
        assert!(!actions.contains(&WriteAction::RemoveStage));
    }
}

#[test]
fn dangling_link_is_an_error() {
    let special = Some((WriteAction::ResolveLink, Reply::Missing("dangling")));
    let (actions, outcome) = run(Platform::Other, true, special);
    assert!(matches!(outcome, WriteOutcome::Failed("dangling")));
    assert!(!actions.contains(&WriteAction::CreateStage));
}

#[test]
fn read_only_file_and_missing_directory_are_refused() {
    let special = Some((WriteAction::InspectTarget, Reply::Yes));
    let (actions, outcome) = run(Platform::Other, true, special);
    assert!(matches!(outcome, WriteOutcome::Refused(Refusal::ReadOnly)));
    assert!(!actions.contains(&WriteAction::CreateStage));
    let special = Some((WriteAction::FindParent, Reply::No));
    let (actions, outcome) = run(Platform::Other, true, special);
    assert!(matches!(outcome, WriteOutcome::Refused(Refusal::NoParent)));
    assert!(!actions.contains(&WriteAction::CreateStage));
    assert_eq!(Refusal::ReadOnly.message(), "OpenCode TUI config is read-only");
    assert_eq!(Refusal::NoParent.message(), "OpenCode TUI config has no parent directory");
}

#[test]
fn error_of_the_staged_part_removes_the_stage() {
    for action in [
        WriteAction::CopyExisting,
        WriteAction::OpenStage,
        WriteAction::WriteStage,
        WriteAction::SyncStage,
        WriteAction::Replace(Replacement::Rename),
        WriteAction::SyncParent,
    ] {
        let (actions, outcome) = run(Platform::Other, true, Some((action, Reply::Failed("e"))));
        assert!(matches!(outcome, WriteOutcome::ReplaceFailed("e")));
        assert_eq!(actions.last(), Some(&WriteAction::RemoveStage));
        assert_eq!(actions[actions.len() - 2], action);
    }
    assert_eq!(
        replace_failure_message("/c", "disk full"),
        "failed to replace OpenCode TUI config at /c: disk full"
    );
}

#[test]
fn replacement_lasts_on_every_platform() {
    assert_eq!(replace_file(Platform::Windows), Replacement::MoveWriteThrough);
    assert!(!sync_parent_directory(Platform::Windows));
    assert_eq!(replace_file(Platform::Other), Replacement::Rename);
    assert!(sync_parent_directory(Platform::Other));
}

fn measured(bytes: u32, code: Option<i32>) -> DaclProgress<&'static str> {
    copy_file_dacl(DaclStep::Measure, DaclReply::Measured { bytes, code, error: "measuring" })
}

#[test]
fn descriptor_is_measured_in_words() {
    for (size, count) in [(1, 1), (4, 1), (5, 2), (8, 2), (u32::MAX, 0x4000_0000)] {
        match measured(size, Some(122)) {
            DaclProgress::Next(DaclStep::Read { bytes, words }) => {
                assert_eq!((bytes, words), (size, count));
            }
            _ => panic!(),
        }
    }
    assert!(matches!(measured(0, Some(122)), DaclProgress::Failed("measuring")));
    assert!(matches!(measured(8, Some(5)), DaclProgress::Failed("measuring")));
    assert!(matches!(measured(8, None), DaclProgress::Failed("measuring")));
}

#[test]
fn access_list_is_copied_with_its_protection() {
    let read = DaclStep::Read { bytes: 8, words: 2 };
    assert!(matches!(
        copy_file_dacl(read, DaclReply::<()>::Done),
        DaclProgress::Next(DaclStep::Control)
    ));
    let applied = |control: u16| match copy_file_dacl(DaclStep::Control, DaclReply::<()>::Bits(control)) {
        DaclProgress::Next(DaclStep::Apply { information }) => information,
        _ => panic!(),
    };
    assert_eq!(applied(0x1004), 0x8000_0004);
    assert_eq!(applied(0x8004), 0x2000_0004);
    let apply = DaclStep::Apply { information: 0x2000_0004 };
    assert!(matches!(copy_file_dacl(apply, DaclReply::<()>::Done), DaclProgress::Copied));
    for step in [read, DaclStep::Control, apply] {
        assert!(matches!(copy_file_dacl(step, DaclReply::Failed("e")), DaclProgress::Failed("e")));
    }
}

/// Runs a copy in which one step gets a reply of its own and all others go well.
fn copy(control: u16, failing: Option<usize>) -> (Vec<DaclStep>, Result<(), &'static str>) {
    let mut steps = Vec::new();
    let mut step = DaclStep::Measure;
    loop {
        steps.push(step);
        let failed = failing == Some(steps.len() - 1);
        let reply = match step {
            DaclStep::Measure => DaclReply::Measured {
                bytes: 10,
                code: Some(if failed { 5 } else { 122 }),
                error: "failed",
            },
            _ if failed => DaclReply::Failed("failed"),
            DaclStep::Control => DaclReply::Bits(control),
            _ => DaclReply::Done,
        };
        match copy_file_dacl(step, reply) {
            DaclProgress::Next(next) => step = next,
            DaclProgress::Copied => return (steps, Ok(())),
            DaclProgress::Failed(error) => return (steps, Err(error)),
        }
    }
}

#[test]
fn copy_of_an_access_list_takes_four_steps() {
    let (steps, result) = copy(0x1000, None);
    assert_eq!(result, Ok(()));
    assert_eq!(
        steps,
        vec![
            DaclStep::Measure,
            DaclStep::Read { bytes: 10, words: 3 },
            DaclStep::Control,
            DaclStep::Apply { information: 0x8000_0004 },
        ]
    );
    for failing in 0..4 {
        let (steps, result) = copy(0, Some(failing));
        assert_eq!(result, Err("failed"));
        assert_eq!(steps.len(), failing + 1);
    }
}
