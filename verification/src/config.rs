//! The `.lazyjj.toml` configuration: its model, its validation, and the text
//! that the library appends to it or writes to `treefmt.toml`.
use vstd::prelude::*;

use crate::hooks::{known_preset, preset_names, preset_table, str_eq, PresetDef, ToolDef, TreefmtEntry};
use crate::text::{chars_of, is_blank, join, join_strings, to_strings, trim, views};

verus! {

/// The whole configuration.
#[derive(Debug, Clone)]
pub struct Config {
    pub hooks: HooksConfig,
}

/// The hooks section of the configuration.
#[derive(Debug, Clone)]
pub struct HooksConfig {
    pub pre_push: Vec<HookEntry>,
}

/// One `[[hooks.pre_push]]` entry.
#[derive(Debug, Clone)]
pub struct HookEntry {
    pub name: String,
    pub preset: Option<String>,
    pub command: Option<String>,
    pub timeout_secs: Option<u64>,
}


/// Why a configuration is refused.
#[derive(Debug, Clone)]
pub enum ConfigError {
    /// The hook names both a preset and a command.
    BothPresetAndCommand { hook: String },
    /// The hook names neither a preset nor a command.
    NeitherPresetNorCommand { hook: String },
    /// The hook names a preset that does not exist.
    UnknownPreset { hook: String, preset: String },
}

/// What is wrong with the shape of a hook entry, if anything: it must name
/// exactly one of a preset and a command.
pub open spec fn entry_problem(h: HookEntry) -> Option<ConfigError> {
    match (h.preset, h.command) {
        (Some(_), Some(_)) => Some(ConfigError::BothPresetAndCommand { hook: h.name }),
        (None, None) => Some(ConfigError::NeitherPresetNorCommand { hook: h.name }),
        _ => None,
    }
}

/// What is wrong with a hook entry, if anything: its shape, or a preset that
/// does not exist.
pub open spec fn hook_problem(h: HookEntry) -> Option<ConfigError> {
    match entry_problem(h) {
        Some(e) => Some(e),
        None => match h.preset {
            Some(p) => if known_preset(p@) {
                None
            } else {
                Some(ConfigError::UnknownPreset { hook: h.name, preset: p })
            },
            None => None,
        },
    }
}

/// The problem of the first hook that has one.
pub open spec fn first_problem(hooks: Seq<HookEntry>) -> Option<ConfigError>
    decreases hooks.len(),
{
    if hooks.len() == 0 {
        None
    } else {
        match hook_problem(hooks[0]) {
            Some(e) => Some(e),
            None => first_problem(hooks.drop_first()),
        }
    }
}

pub open spec fn as_result(p: Option<ConfigError>) -> Result<(), ConfigError> {
    match p {
        Some(e) => Err(e),
        None => Ok(()),
    }
}

/// The text of a configuration error.
pub open spec fn config_error_message(e: ConfigError) -> Seq<char> {
    match e {
        ConfigError::BothPresetAndCommand { hook } => "hook '"@ + hook@
            + "': specify either `preset` or `command`, not both"@,
        ConfigError::NeitherPresetNorCommand { hook } => "hook '"@ + hook@
            + "': must specify either `preset` or `command`"@,
        ConfigError::UnknownPreset { hook, preset } => "hook '"@ + hook@ + "': unknown preset '"@
            + preset@ + "'. Available: "@ + join(
            preset_table().map_values(|p: (&'static str, PresetDef)| p.0@),
            ", "@,
        ),
    }
}

impl ConfigError {
    /// The error as a sentence; an unknown preset lists the presets that exist.
    pub fn message(&self) -> (r: String)
        ensures
            r@ == config_error_message(*self),
    {
        match self {
            ConfigError::BothPresetAndCommand { hook } => {
                let mut r = String::from_str("hook '");
                r.append(hook.as_str());
                r.append("': specify either `preset` or `command`, not both");
                r
            },
            ConfigError::NeitherPresetNorCommand { hook } => {
                let mut r = String::from_str("hook '");
                r.append(hook.as_str());
                r.append("': must specify either `preset` or `command`");
                r
            },
            ConfigError::UnknownPreset { hook, preset } => {
                let names = preset_names();
                let mut owned: Vec<String> = Vec::new();
                let mut i: usize = 0;
                while i < names.len()
                    invariant
                        i <= names@.len(),
                        names@.len() == preset_table().len(),
                        forall|k: int| 0 <= k < names@.len() ==> names@[k] == preset_table()[k].0,
                        views(owned@) == preset_table().take(i as int).map_values(
                            |p: (&'static str, PresetDef)| p.0@,
                        ),
                    decreases names@.len() - i,
                {
                    let ghost before = owned@;
                    let item = names[i].to_owned();
                    owned.push(item);
                    proof {
                        let want = preset_table().take(i + 1).map_values(
                            |p: (&'static str, PresetDef)| p.0@,
                        );
                        assert(views(before).len() == before.len());
                        assert(views(owned@).len() == want.len());
                        assert forall|k: int| 0 <= k < want.len() implies views(owned@)[k]
                            == want[k] by {
                            if k < i {
                                assert(owned@[k] == before[k]);
                                assert(views(before)[k] == preset_table().take(
                                    i as int,
                                ).map_values(|p: (&'static str, PresetDef)| p.0@)[k]);
                            } else {
                                assert(owned@[k] == item);
                            }
                        }
                        assert(views(owned@) =~= want);
                    }
                    i = i + 1;
                }
                proof {
                    assert(preset_table().take(names@.len() as int) =~= preset_table());
                }
                let listed = join_strings(&owned, ", ");
                let mut r = String::from_str("hook '");
                r.append(hook.as_str());
                r.append("': unknown preset '");
                r.append(preset.as_str());
                r.append("'. Available: ");
                r.append(listed.as_str());
                r
            },
        }
    }
}

impl HookEntry {
    /// The entry names exactly one of a preset and a command.
    pub fn validate(&self) -> (r: Result<(), ConfigError>)
        ensures
            r == as_result(entry_problem(*self)),
    {
        match (&self.preset, &self.command) {
            (Some(_), Some(_)) => Err(ConfigError::BothPresetAndCommand { hook: self.name.clone() }),
            (None, None) => Err(ConfigError::NeitherPresetNorCommand { hook: self.name.clone() }),
            _ => Ok(()),
        }
    }
}

fn check_hook(h: &HookEntry) -> (r: Result<(), ConfigError>)
    ensures
        r == as_result(hook_problem(*h)),
{
    h.validate()?;
    if let Some(preset_name) = &h.preset {
        if !crate::hooks::is_known_preset(preset_name.as_str()) {
            return Err(
                ConfigError::UnknownPreset { hook: h.name.clone(), preset: preset_name.clone() },
            );
        }
    }
    Ok(())
}

/// The configuration is accepted, or the problem of its first faulty hook.
pub fn validate(config: &Config) -> (r: Result<(), ConfigError>)
    ensures
        r == as_result(first_problem(config.hooks.pre_push@)),
{
    let hooks = &config.hooks.pre_push;
    let mut i: usize = 0;
    proof {
        assert(hooks@.skip(0) =~= hooks@);
    }
    while i < hooks.len()
        invariant
            i <= hooks@.len(),
            hooks@ == config.hooks.pre_push@,
            first_problem(hooks@) == first_problem(hooks@.skip(i as int)),
        decreases hooks@.len() - i,
    {
        proof {
            let rest = hooks@.skip(i as int);
            assert(rest.len() > 0);
            assert(rest[0] == hooks@[i as int]);
            assert(first_problem(rest) == match hook_problem(rest[0]) {
                Some(e) => Some(e),
                None => first_problem(rest.drop_first()),
            });
            assert(rest.drop_first() =~= hooks@.skip(i + 1));
        }
        match check_hook(&hooks[i]) {
            Ok(()) => {},
            Err(e) => {
                return Err(e);
            },
        }
        i = i + 1;
    }
    proof {
        assert(hooks@.skip(i as int).len() == 0);
    }
    Ok(())
}

/// A configuration passes validation exactly when every hook names exactly one
/// of a preset and a command, and every preset named exists.
pub proof fn lemma_valid_iff_every_hook_valid(hooks: Seq<HookEntry>)
    ensures
        first_problem(hooks) is None <==> forall|i: int|
            0 <= i < hooks.len() ==> (#[trigger] hook_problem(hooks[i])) is None,
    decreases hooks.len(),
{
    if hooks.len() > 0 {
        let rest = hooks.drop_first();
        lemma_valid_iff_every_hook_valid(rest);
        if first_problem(hooks) is None {
            assert forall|i: int| 0 <= i < hooks.len() implies (#[trigger] hook_problem(
                hooks[i],
            )) is None by {
                if i > 0 {
                    assert(hooks[i] == rest[i - 1]);
                }
            }
        } else if hook_problem(hooks[0]) is None {
            let j = choose|j: int| 0 <= j < rest.len() && (#[trigger] hook_problem(rest[j])) is Some;
            assert(hooks[j + 1] == rest[j]);
        }
    }
}

/// The default configuration: no hooks.
impl Default for Config {
    fn default() -> (r: Self)
        ensures
            r.hooks.pre_push@.len() == 0,
    {
        Config { hooks: HooksConfig { pre_push: Vec::new() } }
    }
}

impl Default for HooksConfig {
    fn default() -> (r: Self)
        ensures
            r.pre_push@.len() == 0,
    {
        HooksConfig { pre_push: Vec::new() }
    }
}

/// Text appended after `existing` starts on a new line unless `existing` is
/// empty or already ends with one.
pub open spec fn needs_leading_newline(existing: Option<Seq<char>>) -> bool {
    existing matches Some(e) && e.len() > 0 && e.last() != '\n'
}

pub open spec fn leading_newline(existing: Option<Seq<char>>) -> Seq<char> {
    if needs_leading_newline(existing) {
        "\n"@
    } else {
        seq![]
    }
}

/// One `[[hooks.pre_push]]` entry with its name and one more key.
pub open spec fn hook_block(name: Seq<char>, key: Seq<char>, value: Seq<char>) -> Seq<char> {
    "\n[[hooks.pre_push]]\nname = \""@ + name + "\"\n"@ + key + " = \""@ + value + "\"\n"@
}

/// The entries for tools given as (name, command) pairs.
pub open spec fn tool_blocks(tools: Seq<(&str, &str)>) -> Seq<char>
    decreases tools.len(),
{
    if tools.len() == 0 {
        seq![]
    } else {
        tool_blocks(tools.drop_last()) + hook_block(tools.last().0@, "command"@, tools.last().1@)
    }
}

/// The entries for presets, each named after its preset.
pub open spec fn preset_blocks(names: Seq<&str>) -> Seq<char>
    decreases names.len(),
{
    if names.len() == 0 {
        seq![]
    } else {
        preset_blocks(names.drop_last()) + hook_block(names.last()@, "preset"@, names.last()@)
    }
}

fn leading_newline_needed(existing: Option<&str>) -> (r: bool)
    ensures
        r == needs_leading_newline(
            match existing {
                Some(e) => Some(e@),
                None => None,
            },
        ),
{
    match existing {
        Some(e) => {
            let v = chars_of(e);
            v.len() > 0 && v[v.len() - 1] != '\n'
        },
        None => false,
    }
}

fn append_block(text: &mut String, name: &str, key: &str, value: &str)
    ensures
        final(text)@ == old(text)@ + hook_block(name@, key@, value@),
{
    text.append("\n[[hooks.pre_push]]\nname = \"");
    text.append(name);
    text.append("\"\n");
    text.append(key);
    text.append(" = \"");
    text.append(value);
    text.append("\"\n");
    proof {
        assert(text@ =~= old(text)@ + hook_block(name@, key@, value@));
    }
}

/// The text that adds one command hook per (name, command) pair to a
/// configuration whose current text is `existing` (`None` when there is no
/// file); nothing when there are no tools.
pub fn tool_hooks_text(existing: Option<&str>, tools: &[(&str, &str)]) -> (r: Option<String>)
    ensures
        tools@.len() == 0 ==> r is None,
        tools@.len() > 0 ==> (r matches Some(t) && t@ == leading_newline(
            match existing {
                Some(e) => Some(e@),
                None => None,
            },
        ) + tool_blocks(tools@)),
{
    if tools.len() == 0 {
        return None;
    }
    let mut text = String::new();
    if leading_newline_needed(existing) {
        text.append("\n");
    }
    let ghost lead = text@;
    proof {
        assert(lead =~= leading_newline(
            match existing {
                Some(e) => Some(e@),
                None => None,
            },
        ));
        assert(tools@.take(0) =~= Seq::<(&str, &str)>::empty());
        assert(text@ =~= lead + tool_blocks(tools@.take(0)));
    }
    let mut i: usize = 0;
    while i < tools.len()
        invariant
            i <= tools@.len(),
            text@ == lead + tool_blocks(tools@.take(i as int)),
        decreases tools@.len() - i,
    {
        let (name, command) = tools[i];
        append_block(&mut text, name, "command", command);
        proof {
            let t = tools@.take(i + 1);
            assert(t.drop_last() =~= tools@.take(i as int));
            assert(t.last() == tools@[i as int]);
            assert(text@ =~= lead + tool_blocks(t));
        }
        i = i + 1;
    }
    proof {
        assert(tools@.take(tools@.len() as int) =~= tools@);
    }
    Some(text)
}

/// The text that adds one preset hook per name to a configuration whose
/// current text is `existing`; nothing when there are no names.
pub fn preset_hooks_text(existing: Option<&str>, preset_names: &[&str]) -> (r: Option<String>)
    ensures
        preset_names@.len() == 0 ==> r is None,
        preset_names@.len() > 0 ==> (r matches Some(t) && t@ == leading_newline(
            match existing {
                Some(e) => Some(e@),
                None => None,
            },
        ) + preset_blocks(preset_names@)),
{
    if preset_names.len() == 0 {
        return None;
    }
    let mut text = String::new();
    if leading_newline_needed(existing) {
        text.append("\n");
    }
    let ghost lead = text@;
    proof {
        assert(lead =~= leading_newline(
            match existing {
                Some(e) => Some(e@),
                None => None,
            },
        ));
        assert(preset_names@.take(0) =~= Seq::<&str>::empty());
        assert(text@ =~= lead + preset_blocks(preset_names@.take(0)));
    }
    let mut i: usize = 0;
    while i < preset_names.len()
        invariant
            i <= preset_names@.len(),
            text@ == lead + preset_blocks(preset_names@.take(i as int)),
        decreases preset_names@.len() - i,
    {
        let name = preset_names[i];
        append_block(&mut text, name, "preset", name);
        proof {
            let t = preset_names@.take(i + 1);
            assert(t.drop_last() =~= preset_names@.take(i as int));
            assert(t.last() == preset_names@[i as int]);
            assert(text@ =~= lead + preset_blocks(t));
        }
        i = i + 1;
    }
    proof {
        assert(preset_names@.take(preset_names@.len() as int) =~= preset_names@);
    }
    Some(text)
}

/// The paths that every generated `treefmt.toml` excludes.
pub open spec fn treefmt_excludes() -> Seq<&'static str> {
    seq!["node_modules/**", "target/**", ".git/**", "dist/**", "build/**", ".venv/**", "__pycache__/**"]
}

/// `s` in double quotes.
pub open spec fn quoted(s: Seq<char>) -> Seq<char> {
    "\""@ + s + "\""@
}

/// A TOML array of the strings `items`, on one line.
pub open spec fn quoted_list(items: Seq<Seq<char>>) -> Seq<char> {
    "["@ + join(items.map_values(|i: Seq<char>| quoted(i)), ", "@) + "]"@
}

/// The lines of the excludes array, one string per line.
pub open spec fn exclude_lines(items: Seq<&str>) -> Seq<char>
    decreases items.len(),
{
    if items.len() == 0 {
        seq![]
    } else {
        exclude_lines(items.drop_last()) + "  \""@ + items.last()@ + "\",\n"@
    }
}

/// The head of a generated `treefmt.toml`: a comment and the global excludes.
pub open spec fn treefmt_head() -> Seq<char> {
    "# Generated by lazyjj \u{2014} edit freely\n\n[global]\nexcludes = [\n"@ + exclude_lines(
        treefmt_excludes(),
    ) + "]\n"@
}

/// The options of a formatter; rustfmt also gets the edition of the crate.
pub open spec fn formatter_options(entry: TreefmtEntry, edition: Option<Seq<char>>) -> Seq<
    Seq<char>,
> {
    entry.options@.map_values(|o: &str| o@) + if entry.name@ == "rustfmt"@ && edition is Some {
        seq!["--edition"@, edition->0]
    } else {
        seq![]
    }
}

/// The `[formatter.<name>]` section of one formatter.
pub open spec fn formatter_section(entry: TreefmtEntry, edition: Option<Seq<char>>) -> Seq<char> {
    let options = formatter_options(entry, edition);
    "\n[formatter."@ + entry.name@ + "]\ncommand = \""@ + entry.command@ + "\"\n"@ + (if options.len()
        > 0 {
        "options = "@ + quoted_list(options) + "\n"@
    } else {
        seq![]
    }) + "includes = "@ + quoted_list(entry.includes@.map_values(|i: &str| i@)) + "\n"@
}

/// The sections of the tools that have a treefmt entry, in order.
pub open spec fn formatter_sections(tools: Seq<ToolDef>, edition: Option<Seq<char>>) -> Seq<char>
    decreases tools.len(),
{
    if tools.len() == 0 {
        seq![]
    } else {
        formatter_sections(tools.drop_last(), edition) + match tools.last().treefmt_entry {
            Some(e) => formatter_section(e, edition),
            None => seq![],
        }
    }
}

/// A whole generated `treefmt.toml`.
pub open spec fn treefmt_toml(tools: Seq<ToolDef>, edition: Option<Seq<char>>) -> Seq<char> {
    treefmt_head() + formatter_sections(tools, edition)
}

pub open spec fn opt_view(s: Option<&str>) -> Option<Seq<char>> {
    match s {
        Some(e) => Some(e@),
        None => None,
    }
}

fn quoted_list_text(items: &Vec<String>) -> (r: String)
    ensures
        r@ == quoted_list(views(items@)),
{
    let mut quoted_items: Vec<String> = Vec::new();
    let mut i: usize = 0;
    while i < items.len()
        invariant
            i <= items@.len(),
            views(quoted_items@) == views(items@).take(i as int).map_values(
                |s: Seq<char>| quoted(s),
            ),
        decreases items@.len() - i,
    {
        let mut q = String::from_str("\"");
        q.append(items[i].as_str());
        q.append("\"");
        let ghost before = quoted_items@;
        let ghost qv = q@;
        quoted_items.push(q);
        proof {
            let want = views(items@).take(i + 1).map_values(|s: Seq<char>| quoted(s));
            assert(qv =~= quoted(items@[i as int]@));
            assert(views(before).len() == before.len());
            assert(views(quoted_items@).len() == want.len());
            assert forall|k: int| 0 <= k < want.len() implies views(quoted_items@)[k]
                == want[k] by {
                if k < i {
                    assert(quoted_items@[k] == before[k]);
                    assert(views(before)[k] == views(items@).take(i as int).map_values(
                        |s: Seq<char>| quoted(s),
                    )[k]);
                }
            }
            assert(views(quoted_items@) =~= want);
        }
        i = i + 1;
    }
    proof {
        assert(views(items@).take(items@.len() as int) =~= views(items@));
    }
    let mut r = String::from_str("[");
    let inner = join_strings(&quoted_items, ", ");
    r.append(inner.as_str());
    r.append("]");
    proof {
        assert(r@ =~= quoted_list(views(items@)));
    }
    r
}

fn append_section(text: &mut String, entry: &TreefmtEntry, edition: Option<&str>)
    ensures
        final(text)@ == old(text)@ + formatter_section(*entry, opt_view(edition)),
{
    text.append("\n[formatter.");
    text.append(entry.name);
    text.append("]\ncommand = \"");
    text.append(entry.command);
    text.append("\"\n");
    let ghost mid = text@;
    let mut options = to_strings(entry.options);
    if str_eq(entry.name, "rustfmt") {
        if let Some(ed) = edition {
            let ghost before = options@;
            options.push(String::from_str("--edition"));
            options.push(ed.to_owned());
            proof {
                assert(views(options@) =~= views(before) + seq!["--edition"@, ed@]);
            }
        } else {
            proof {
                assert(views(options@) =~= views(options@) + seq![]);
            }
        }
    } else {
        proof {
            assert(views(options@) =~= views(options@) + seq![]);
        }
    }
    proof {
        assert(views(options@) =~= formatter_options(*entry, opt_view(edition)));
    }
    let ghost opts_part: Seq<char> = if options@.len() > 0 {
        "options = "@ + quoted_list(views(options@)) + "\n"@
    } else {
        seq![]
    };
    if options.len() > 0 {
        text.append("options = ");
        let list = quoted_list_text(&options);
        text.append(list.as_str());
        text.append("\n");
    }
    proof {
        assert(text@ =~= mid + opts_part);
    }
    let includes = to_strings(entry.includes);
    text.append("includes = ");
    let list = quoted_list_text(&includes);
    text.append(list.as_str());
    text.append("\n");
    proof {
        assert(text@ =~= old(text)@ + formatter_section(*entry, opt_view(edition)));
    }
}

/// The text of a `treefmt.toml` for the formatters among `tools`.
pub fn treefmt_toml_text(tools: &Vec<ToolDef>, rust_edition: Option<&str>) -> (r: String)
    ensures
        r@ == treefmt_toml(tools@, opt_view(rust_edition)),
{
    let mut text = String::from_str("# Generated by lazyjj \u{2014} edit freely\n\n[global]\nexcludes = [\n");
    let excludes: &[&str] = &[
        "node_modules/**",
        "target/**",
        ".git/**",
        "dist/**",
        "build/**",
        ".venv/**",
        "__pycache__/**",
    ];
    let ghost start = text@;
    proof {
        assert(excludes@ =~= treefmt_excludes());
        assert(excludes@.take(0) =~= Seq::<&str>::empty());
        assert(text@ =~= start + exclude_lines(excludes@.take(0)));
    }
    let mut i: usize = 0;
    while i < excludes.len()
        invariant
            i <= excludes@.len(),
            text@ == start + exclude_lines(excludes@.take(i as int)),
        decreases excludes@.len() - i,
    {
        text.append("  \"");
        text.append(excludes[i]);
        text.append("\",\n");
        proof {
            let t = excludes@.take(i + 1);
            assert(t.drop_last() =~= excludes@.take(i as int));
            assert(t.last() == excludes@[i as int]);
            assert(text@ =~= start + exclude_lines(t));
        }
        i = i + 1;
    }
    proof {
        assert(excludes@.take(excludes@.len() as int) =~= excludes@);
    }
    text.append("]\n");
    proof {
        assert(text@ =~= treefmt_head());
        assert(tools@.take(0) =~= Seq::<ToolDef>::empty());
    }
    let mut k: usize = 0;
    while k < tools.len()
        invariant
            k <= tools@.len(),
            text@ == treefmt_head() + formatter_sections(tools@.take(k as int), opt_view(rust_edition)),
        decreases tools@.len() - k,
    {
        let ghost before = text@;
        if let Some(entry) = &tools[k].treefmt_entry {
            append_section(&mut text, entry, rust_edition);
        }
        proof {
            let t = tools@.take(k + 1);
            assert(t.drop_last() =~= tools@.take(k as int));
            assert(t.last() == tools@[k as int]);
            assert(text@ =~= treefmt_head() + formatter_sections(t, opt_view(rust_edition)));
        }
        k = k + 1;
    }
    proof {
        assert(tools@.take(tools@.len() as int) =~= tools@);
    }
    text
}

/// The `treefmt.toml` to write for `formatters`, or nothing when there are no
/// formatters or the file already exists (an existing file is never replaced).
pub fn generate_treefmt_toml(formatters: &Vec<ToolDef>, file_exists: bool, rust_edition: Option<
    &str,
>) -> (r: Option<String>)
    ensures
        (formatters@.len() == 0 || file_exists) ==> r is None,
        !(formatters@.len() == 0 || file_exists) ==> (r matches Some(t) && t@ == treefmt_toml(
            formatters@,
            opt_view(rust_edition),
        )),
{
    if formatters.len() == 0 || file_exists {
        return None;
    }
    Some(treefmt_toml_text(formatters, rust_edition))
}

/// The `package.edition` string of a Cargo manifest as the toml crate reads it:
/// nothing when the text is not TOML or holds no such string.
pub uninterp spec fn toml_package_edition(text: Seq<char>) -> Option<Seq<char>>;

pub open spec fn string_opt_view(s: Option<String>) -> Option<Seq<char>> {
    match s {
        Some(e) => Some(e@),
        None => None,
    }
}

/// Parses `text` with `toml::from_str` into a `toml::Table` and reads the string
/// at `package.edition`. The contract claims only that the result is
/// `toml_package_edition` of the text, a function of the text alone; which
/// texts the toml crate accepts is not stated here.
#[verifier::external_body]
fn toml_read_package_edition(text: &str) -> (r: Option<String>)
    ensures
        string_opt_view(r) == toml_package_edition(text@),
{
    let table: toml::Table = toml::from_str(text).ok()?;
    let edition = table.get("package")?.as_table()?.get("edition")?.as_str()?;
    Some(edition.to_owned())
}

/// The Rust edition that a Cargo manifest declares, if any.
pub fn rust_edition(cargo_toml: &str) -> (r: Option<String>)
    ensures
        string_opt_view(r) == toml_package_edition(cargo_toml@),
{
    toml_read_package_edition(cargo_toml)
}

/// How a `[[hooks.pre_push]]` entry of the configuration file looks, as far as
/// removing the preset hooks reads it.
#[derive(Debug, Clone, Copy, PartialEq, Eq, Structural)]
pub struct HookShape {
    /// The entry is a table.
    pub is_table: bool,
    /// The entry is a table with a `command` key.
    pub has_command: bool,
}

/// What removing the preset hooks does to the `hooks` table of the file.
#[derive(Debug, Clone)]
pub struct PrunePlan {
    /// For each `pre_push` entry, whether it stays.
    pub keep: Vec<bool>,
    /// `pre_push` goes, since no entry stays.
    pub drop_pre_push: bool,
    /// `hooks` goes, since nothing is left in it.
    pub drop_hooks: bool,
}

/// An entry stays when it is a command hook, or not a table at all.
pub open spec fn keeps_entry(e: HookShape) -> bool {
    !e.is_table || e.has_command
}

/// The number of entries that stay.
pub open spec fn kept_count(entries: Seq<HookShape>) -> nat {
    entries.filter(|e: HookShape| keeps_entry(e)).len()
}

/// Removing the preset hooks from a `hooks` table with `key_count` keys whose
/// `pre_push` array, if it has one, holds `pre_push`: the command entries stay,
/// an array left empty goes, and a table left empty goes.
pub open spec fn prune_view(pre_push: Option<Seq<HookShape>>, key_count: nat) -> (Seq<bool>, bool, bool) {
    match pre_push {
        Some(entries) => {
            let drop = kept_count(entries) == 0;
            (
                entries.map_values(|e: HookShape| keeps_entry(e)),
                drop,
                key_count == (if drop { 1nat } else { 0nat }),
            )
        },
        None => (seq![], false, key_count == 0),
    }
}

/// Plans the removal of the preset hooks from a `hooks` table that has
/// `key_count` keys and, when it has a `pre_push` array, those entries.
pub fn prune_plan(pre_push: Option<&Vec<HookShape>>, key_count: usize) -> (r: PrunePlan)
    requires
        pre_push is Some ==> key_count >= 1,
    ensures
        (r.keep@, r.drop_pre_push, r.drop_hooks) == prune_view(
            match pre_push {
                Some(v) => Some(v@),
                None => None,
            },
            key_count as nat,
        ),
{
    match pre_push {
        None => PrunePlan { keep: Vec::new(), drop_pre_push: false, drop_hooks: key_count == 0 },
        Some(entries) => {
            let ghost pred = |e: HookShape| keeps_entry(e);
            let mut keep: Vec<bool> = Vec::new();
            let mut kept: usize = 0;
            let mut i: usize = 0;
            while i < entries.len()
                invariant
                    i <= entries@.len(),
                    pred == (|e: HookShape| keeps_entry(e)),
                    keep@ == entries@.take(i as int).map_values(|e: HookShape| keeps_entry(e)),
                    kept == entries@.take(i as int).filter(pred).len(),
                    kept <= i,
                decreases entries@.len() - i,
            {
                let k = !entries[i].is_table || entries[i].has_command;
                keep.push(k);
                proof {
                    assert(entries@.take(i + 1) =~= entries@.take(i as int).push(entries@[i as int]));
                    entries@.take(i as int).lemma_filter_push(entries@[i as int], pred);
                    assert(keep@ =~= entries@.take(i + 1).map_values(|e: HookShape| keeps_entry(e)));
                }
                if k {
                    kept = kept + 1;
                }
                i = i + 1;
            }
            proof {
                assert(entries@.take(entries@.len() as int) =~= entries@);
            }
            let drop_pre_push = kept == 0;
            let left: usize = if drop_pre_push {
                key_count - 1
            } else {
                key_count
            };
            PrunePlan { keep, drop_pre_push, drop_hooks: left == 0 }
        },
    }
}

/// Where the configuration is read from.
#[derive(Debug, Clone, Copy, PartialEq, Eq, Structural)]
pub enum ConfigSource {
    /// `.lazyjj.toml` in the repository root.
    Local,
    /// `lazyjj/config.toml` in the user's configuration directory.
    Global,
}

/// Which configuration file to read: the repository's own when it is a file,
/// else the user's (`global_is_file` is `None` when there is no configuration
/// directory), else none, and the defaults apply.
pub fn resolve_config_path(local_is_file: bool, global_is_file: Option<bool>) -> (r: Option<
    ConfigSource,
>)
    ensures
        r == (if local_is_file {
            Some(ConfigSource::Local)
        } else if global_is_file == Some(true) {
            Some(ConfigSource::Global)
        } else {
            None
        }),
{
    if local_is_file {
        Some(ConfigSource::Local)
    } else {
        match global_is_file {
            Some(true) => Some(ConfigSource::Global),
            _ => None,
        }
    }
}

/// How the toml crate reads the `hooks` table of a configuration text:
/// nothing when the text is not TOML; `Some(None)` when it has no `hooks`
/// table; else the shapes of the `pre_push` entries (when `pre_push` is an
/// array) and the number of keys of the table.
pub uninterp spec fn toml_hooks_shape(text: Seq<char>) -> Option<Option<(Option<Seq<HookShape>>, nat)>>;

/// The text that the toml crate writes back (`to_string_pretty`) once the
/// `pre_push` entries marked `false` in `keep` are removed, `pre_push` too when
/// `drop_pre_push`, and `hooks` when `drop_hooks`; nothing when the text does
/// not parse or the table cannot be written.
pub uninterp spec fn toml_pruned_text(
    text: Seq<char>,
    keep: Seq<bool>,
    drop_pre_push: bool,
    drop_hooks: bool,
) -> Option<Seq<char>>;

pub open spec fn shape_view(o: Option<(Option<Vec<HookShape>>, usize)>) -> Option<
    (Option<Seq<HookShape>>, nat),
> {
    match o {
        None => None,
        Some((entries, n)) => Some(
            (
                match entries {
                    Some(v) => Some(v@),
                    None => None,
                },
                n as nat,
            ),
        ),
    }
}

/// Parses `text` with `toml::from_str` into a `toml::Table` and reads the
/// shape of its `hooks` table: each `pre_push` entry is a table or not, and
/// has a `command` key or not (`Table::contains_key`), and the table's
/// `len()`. The contract claims that the result is `toml_hooks_shape` of the
/// text, and that a `hooks` table with a `pre_push` array has at least that
/// one key; which texts the crate accepts is not stated.
#[verifier::external_body]
fn toml_read_hooks_shape(text: &str) -> (r: Option<Option<(Option<Vec<HookShape>>, usize)>>)
    ensures
        toml_hooks_shape(text@) == match r {
            None => None,
            Some(o) => Some(shape_view(o)),
        },
        r matches Some(Some((Some(_), n))) ==> n >= 1,
{
    let doc: toml::Table = toml::from_str(text).ok()?;
    let Some(toml::Value::Table(hooks)) = doc.get("hooks") else { return Some(None) };
    let entries = match hooks.get("pre_push") {
        Some(toml::Value::Array(a)) => Some(a.iter().map(|e| match e {
            toml::Value::Table(t) => HookShape { is_table: true, has_command: t.contains_key("command") },
            _ => HookShape { is_table: false, has_command: false },
        }).collect()),
        _ => None,
    };
    Some(Some((entries, hooks.len())))
}

/// Parses `text` with `toml::from_str` into a `toml::Table`, removes what
/// `plan` marks (the `pre_push` entries whose `keep` is `false`, `pre_push`,
/// `hooks`) and writes the table with `toml::to_string_pretty`. The contract
/// claims that the result is `toml_pruned_text` of the text and the plan.
#[verifier::external_body]
fn toml_apply_prune(text: &str, plan: &PrunePlan) -> (r: Option<String>)
    ensures
        string_opt_view(r) == toml_pruned_text(text@, plan.keep@, plan.drop_pre_push, plan.drop_hooks),
{
    let mut doc: toml::Table = toml::from_str(text).ok()?;
    if let Some(toml::Value::Table(hooks)) = doc.get_mut("hooks") {
        if let Some(toml::Value::Array(pre_push)) = hooks.get_mut("pre_push") {
            let mut keep = plan.keep.iter();
            pre_push.retain(|_| *keep.next().unwrap_or(&true));
        }
        if plan.drop_pre_push {
            hooks.remove("pre_push");
        }
    }
    if plan.drop_hooks {
        doc.remove("hooks");
    }
    toml::to_string_pretty(&doc).ok()
}

/// The removal plan for a parsed `hooks` shape: nothing to remove without a
/// `hooks` table.
pub open spec fn shape_plan(shape: Option<(Option<Seq<HookShape>>, nat)>) -> (Seq<bool>, bool, bool) {
    match shape {
        Some((entries, n)) => prune_view(entries, n),
        None => (seq![], false, false),
    }
}

/// What removing the preset hooks does to a configuration text: an error
/// when it is not TOML or cannot be written back; else the text written back
/// without the preset hooks, or nothing when that text is blank (the file
/// goes).
pub open spec fn pruned_config_view(contents: Seq<char>) -> Result<Option<Seq<char>>, Seq<char>> {
    match toml_hooks_shape(contents) {
        None => Err("failed to parse .lazyjj.toml"@),
        Some(shape) => {
            let p = shape_plan(shape);
            match toml_pruned_text(contents, p.0, p.1, p.2) {
                None => Err("failed to serialize config"@),
                Some(t) => Ok(
                    if trim(t).len() == 0 {
                        None
                    } else {
                        Some(t)
                    },
                ),
            }
        },
    }
}

pub open spec fn pruned_result_view(r: Result<Option<String>, String>) -> Result<Option<Seq<char>>, Seq<char>> {
    match r {
        Ok(o) => Ok(string_opt_view(o)),
        Err(e) => Err(e@),
    }
}

/// The configuration text without its preset hooks (see `pruned_config_view`).
pub fn pruned_config_text(contents: &str) -> (r: Result<Option<String>, String>)
    ensures
        pruned_result_view(r) == pruned_config_view(contents@),
{
    let shape = match toml_read_hooks_shape(contents) {
        Some(s) => s,
        None => {
            return Err(String::from_str("failed to parse .lazyjj.toml"));
        },
    };
    let plan = match &shape {
        Some((entries, n)) => prune_plan(entries.as_ref(), *n),
        None => PrunePlan { keep: Vec::new(), drop_pre_push: false, drop_hooks: false },
    };
    proof {
        assert((plan.keep@, plan.drop_pre_push, plan.drop_hooks) == shape_plan(shape_view(shape)));
    }
    let text = match toml_apply_prune(contents, &plan) {
        Some(t) => t,
        None => {
            return Err(String::from_str("failed to serialize config"));
        },
    };
    let chars = chars_of(text.as_str());
    proof {
        assert(chars@.subrange(0, chars@.len() as int) =~= chars@);
    }
    if is_blank(&chars, 0, chars.len()) {
        Ok(None)
    } else {
        Ok(Some(text))
    }
}

} // verus!
