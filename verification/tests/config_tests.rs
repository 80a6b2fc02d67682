use lazyjj::config::{
    generate_treefmt_toml, preset_hooks_text, prune_plan, pruned_config_text, rust_edition, tool_hooks_text, validate,
    Config, ConfigError, HookEntry, HookShape, HooksConfig,
};
use lazyjj::hooks::{tool_catalog, ToolDef};

fn hook(name: &str, preset: Option<&str>, command: Option<&str>) -> HookEntry {
    HookEntry {
        name: name.to_owned(),
        preset: preset.map(|p| p.to_owned()),
        command: command.map(|c| c.to_owned()),
        timeout_secs: None,
    }
}

fn config_of(hooks: Vec<HookEntry>) -> Config {
    Config { hooks: HooksConfig { pre_push: hooks } }
}

fn pre_push_of(text: &str) -> Vec<toml::Value> {
    let table: toml::Table = toml::from_str(text).expect("valid TOML");
    table["hooks"]["pre_push"].as_array().expect("pre_push array").clone()
}

fn catalog_formatter_defs() -> Vec<ToolDef> {
    tool_catalog().into_iter().filter(|t| t.treefmt_entry.is_some()).collect()
}

#[test]
fn default_config_has_empty_hooks() {
    let config = Config::default();
    assert!(config.hooks.pre_push.is_empty());
}

#[test]
fn reject_hook_with_both_preset_and_command() {
    let hook = HookEntry {
        name: "bad".to_owned(),
        preset: Some("biome".to_owned()),
        command: Some("echo hi".to_owned()),
        timeout_secs: None,
    };
    assert!(hook.validate().is_err());
}

#[test]
fn reject_hook_with_neither_preset_nor_command() {
    let hook = HookEntry {
        name: "empty".to_owned(),
        preset: None,
        command: None,
        timeout_secs: None,
    };
    assert!(hook.validate().is_err());
}

#[test]
fn reject_unknown_preset_name() {
    let config = config_of(vec![hook("check", Some("nonexistent"), None)]);
    let err = validate(&config).unwrap_err();
    let msg = err.message();
    assert!(msg.contains("unknown preset"), "expected 'unknown preset' in error, got: {msg}");
    assert!(msg.contains("treefmt"), "expected available preset 'treefmt' listed in error, got: {msg}");
}

#[test]
fn accept_known_preset_name() {
    let config = config_of(vec![hook("check", Some("treefmt"), None)]);
    assert!(validate(&config).is_ok());
}

#[test]
fn append_preset_hooks_creates_file() {
    let text = preset_hooks_text(None, &["treefmt"]).expect("text to write");
    let entries = pre_push_of(&text);
    assert_eq!(entries.len(), 1);
    assert_eq!(entries[0]["preset"].as_str(), Some("treefmt"));
}

#[test]
fn append_preset_hooks_appends_to_existing() {
    let text = preset_hooks_text(Some("# existing\n"), &["biome"]).expect("text to append");
    let contents = format!("# existing\n{text}");
    assert!(contents.starts_with("# existing"), "existing content should be preserved at start, got: {contents}");
    assert!(contents.contains("biome"), "appended preset should appear in file, got: {contents}");
}

#[test]
fn append_preset_hooks_noop_for_empty_list() {
    assert!(preset_hooks_text(None, &[]).is_none(), "nothing is written for an empty preset list");
}

#[test]
fn write_tool_hooks_creates_command_entries() {
    let text = tool_hooks_text(None, &[("rustfmt", "cargo fmt -- --check")]).expect("text to write");
    let entries = pre_push_of(&text);
    assert_eq!(entries.len(), 1);
    assert_eq!(entries[0]["name"].as_str(), Some("rustfmt"));
    assert_eq!(entries[0]["command"].as_str(), Some("cargo fmt -- --check"));
    assert!(entries[0].get("preset").is_none());
}

#[test]
fn write_tool_hooks_appends_multiple_tools() {
    let text = tool_hooks_text(
        None,
        &[("rustfmt", "cargo fmt -- --check"), ("clippy", "cargo clippy -- -D warnings")],
    )
    .expect("text to write");
    let entries = pre_push_of(&text);
    assert_eq!(entries.len(), 2);
    assert_eq!(entries[0]["name"].as_str(), Some("rustfmt"));
    assert_eq!(entries[1]["name"].as_str(), Some("clippy"));
}

#[test]
fn write_tool_hooks_noop_for_empty_list() {
    assert!(tool_hooks_text(None, &[]).is_none(), "nothing is written for an empty tool list");
}

#[test]
fn generate_treefmt_toml_creates_file() {
    let formatters = catalog_formatter_defs();
    assert!(!formatters.is_empty(), "need at least one formatter in the catalog to run this test");
    let contents = generate_treefmt_toml(&formatters, false, None).expect("a new treefmt.toml");
    assert!(contents.contains("[global]"), "treefmt.toml must contain [global] section, got:\n{contents}");
    assert!(contents.contains("excludes"), "treefmt.toml must contain excludes key, got:\n{contents}");
    let entry = formatters[0].treefmt_entry.as_ref().unwrap();
    assert!(
        contents.contains(&format!("[formatter.{}]", entry.name)),
        "treefmt.toml must contain [formatter.{}], got:\n{contents}",
        entry.name
    );
    assert!(contents.contains("command"), "treefmt.toml must contain command key, got:\n{contents}");
    assert!(contents.contains("includes"), "treefmt.toml must contain includes key, got:\n{contents}");
    let parsed: Result<toml::Table, _> = toml::from_str(&contents);
    assert!(parsed.is_ok(), "treefmt.toml must be valid TOML, got:\n{contents}");
}

#[test]
fn generate_treefmt_toml_skips_existing() {
    let formatters = catalog_formatter_defs();
    assert!(generate_treefmt_toml(&formatters, true, None).is_none());
}

#[test]
fn generate_treefmt_toml_noop_for_empty() {
    assert!(generate_treefmt_toml(&Vec::new(), false, None).is_none());
}

#[test]
fn config_error_messages_name_the_hook() {
    let both = hook("bad", Some("biome"), Some("echo hi")).validate().unwrap_err();
    assert!(matches!(both, ConfigError::BothPresetAndCommand { .. }));
    assert_eq!(both.message(), "hook 'bad': specify either `preset` or `command`, not both");
    let neither = hook("empty", None, None).validate().unwrap_err();
    assert!(matches!(neither, ConfigError::NeitherPresetNorCommand { .. }));
    assert_eq!(neither.message(), "hook 'empty': must specify either `preset` or `command`");
    let unknown = validate(&config_of(vec![hook("check", Some("nope"), None)])).unwrap_err();
    assert!(matches!(unknown, ConfigError::UnknownPreset { .. }));
    assert_eq!(unknown.message(), "hook 'check': unknown preset 'nope'. Available: treefmt");
}

#[test]
fn validate_reports_the_first_faulty_hook() {
    let config = config_of(vec![
        hook("ok", None, Some("true")),
        hook("first", None, None),
        hook("second", Some("a"), Some("b")),
    ]);
    match validate(&config) {
        Err(ConfigError::NeitherPresetNorCommand { hook }) => assert_eq!(hook, "first"),
        other => panic!("expected the first faulty hook, got {other:?}"),
    }
}

#[test]
fn rust_edition_reads_the_package_edition() {
    assert_eq!(rust_edition("[package]\nname = \"x\"\nedition = \"2021\"\n"), Some("2021".to_owned()));
    assert_eq!(rust_edition("[package]\nname = \"x\"\n"), None);
    assert_eq!(rust_edition("not toml ["), None);
}

#[test]
fn treefmt_toml_uses_the_rust_edition() {
    let formatters: Vec<ToolDef> =
        catalog_formatter_defs().into_iter().filter(|d| d.name == "rustfmt").collect();
    assert_eq!(formatters.len(), 1);
    let contents = generate_treefmt_toml(&formatters, false, Some("2021")).unwrap();
    assert!(contents.contains("2021"), "the edition should be passed to rustfmt, got:\n{contents}");
}

#[test]
fn appended_text_starts_on_a_new_line() {
    let text = tool_hooks_text(Some("x = 1"), &[("clippy", "cargo clippy")]).unwrap();
    assert!(text.starts_with('\n'), "text after a file without final newline starts with one: {text:?}");
    let whole = format!("x = 1{text}");
    let table: toml::Table = toml::from_str(&whole).expect("valid TOML");
    assert_eq!(table["x"].as_integer(), Some(1));
}

#[test]
fn prune_plan_keeps_command_hooks() {
    let shapes = vec![
        HookShape { is_table: true, has_command: false },
        HookShape { is_table: true, has_command: true },
        HookShape { is_table: false, has_command: false },
    ];
    let plan = prune_plan(Some(&shapes), 1);
    assert_eq!(plan.keep, vec![false, true, true]);
    assert!(!plan.drop_pre_push);
    assert!(!plan.drop_hooks);
}

#[test]
fn prune_plan_drops_what_is_left_empty() {
    let shapes = vec![HookShape { is_table: true, has_command: false }];
    let plan = prune_plan(Some(&shapes), 1);
    assert_eq!(plan.keep, vec![false]);
    assert!(plan.drop_pre_push);
    assert!(plan.drop_hooks);
    let plan = prune_plan(Some(&shapes), 2);
    assert!(plan.drop_pre_push);
    assert!(!plan.drop_hooks);
    let plan = prune_plan(None, 0);
    assert!(plan.keep.is_empty());
    assert!(!plan.drop_pre_push);
    assert!(plan.drop_hooks);
}

#[test]
fn pruned_config_drops_presets_and_keeps_commands() {
    let text = "x = 1\n\n[[hooks.pre_push]]\nname = \"fmt\"\npreset = \"treefmt\"\n\n[[hooks.pre_push]]\nname = \"lint\"\ncommand = \"cargo clippy\"\n";
    let out = pruned_config_text(text).expect("parses").expect("something is left");
    let table: toml::Table = toml::from_str(&out).expect("valid TOML");
    assert_eq!(table["x"].as_integer(), Some(1));
    let entries = table["hooks"]["pre_push"].as_array().unwrap();
    assert_eq!(entries.len(), 1);
    assert_eq!(entries[0]["name"].as_str(), Some("lint"));
    assert!(!out.contains("preset"));
}

#[test]
fn pruned_config_drops_emptied_tables() {
    let only_presets = "[[hooks.pre_push]]\nname = \"fmt\"\npreset = \"treefmt\"\n";
    assert_eq!(pruned_config_text(only_presets), Ok(None), "a file left empty is removed");
    let with_other = "y = \"a\"\n[[hooks.pre_push]]\nname = \"fmt\"\npreset = \"treefmt\"\n";
    let out = pruned_config_text(with_other).unwrap().unwrap();
    let table: toml::Table = toml::from_str(&out).unwrap();
    assert!(table.get("hooks").is_none());
    assert_eq!(table["y"].as_str(), Some("a"));
}

#[test]
fn pruned_config_refuses_invalid_toml() {
    assert_eq!(pruned_config_text("[[hooks"), Err("failed to parse .lazyjj.toml".to_owned()));
}
