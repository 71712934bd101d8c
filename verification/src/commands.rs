//! Bot commands: `!`-prefixed messages the bot answers itself. The built-ins
//! are parsed, dispatched and rendered here; consumers register their own under
//! a [`CommandSpec`]. The renderers emit standard Markdown.
use vstd::prelude::*;

use crate::config::{Help, HelpRow};
use crate::event::Inbound;
use crate::text;
use crate::text::CharSet;
use crate::tools;
use crate::tools::{Skill, SkillView};

verus! {

/// Help and identity of a registered command: it is listed by `!help` and
/// matches on its name.
#[derive(Debug)]
pub struct CommandSpec {
    /// The command name, without the leading `!`.
    pub name: String,
    /// An optional argument placeholder, shown as `!name <args>` in `!help`.
    pub args: Option<String>,
    /// One-line description for the `!help` listing.
    pub description: String,
}

/// The mathematical form of a [`CommandSpec`].
pub struct SpecView {
    pub name: Seq<char>,
    pub args: Option<Seq<char>>,
    pub description: Seq<char>,
}

impl View for CommandSpec {
    type V = SpecView;

    open spec fn view(&self) -> SpecView {
        SpecView {
            name: self.name@,
            args: text::opt_text(self.args),
            description: self.description@,
        }
    }
}

impl Clone for CommandSpec {
    fn clone(&self) -> (r: CommandSpec)
        ensures
            r@ == self@,
    {
        CommandSpec {
            name: self.name.clone(),
            args: text::copy_text(&self.args),
            description: self.description.clone(),
        }
    }
}

/// The registered commands.
pub open spec fn specs_view(v: Seq<CommandSpec>) -> Seq<SpecView> {
    v.map_values(|s: CommandSpec| s@)
}

/// What a registered command sees of one invocation.
pub struct CommandContext<'a> {
    /// The text after the command name, trimmed (empty when none).
    pub arg: &'a str,
    /// The message that triggered the command.
    pub inbound: &'a Inbound,
    /// The skills provisioned for the bot.
    pub skills: &'a [Skill],
}

/// What a registered command does with an invocation.
#[derive(Debug, PartialEq, Eq)]
pub enum CommandOutcome {
    /// Post this Markdown directly, without a model turn.
    Reply(String),
    /// Run a model turn with this prompt, as if the user had typed it.
    Prompt(String),
}

/// The name and argument of a `!`-invocation: trimmed text that starts with
/// `!`; the first word is the name and the rest, trimmed, the argument. Nothing
/// for ordinary text or a bare `!`.
pub open spec fn invocation(text: Seq<char>) -> Option<(Seq<char>, Seq<char>)> {
    match text::after_prefix(text::trimmed(text), "!"@) {
        Some(rest) => {
            let parts = match text::divided(rest, CharSet::Space) {
                Some(parts) => parts,
                None => (rest, seq![]),
            };
            if parts.0.len() == 0 {
                None
            } else {
                Some((parts.0, text::trimmed(parts.1)))
            }
        },
        None => None,
    }
}

/// Parse a `!`-invocation (the mention already stripped) into its name and
/// argument.
pub fn parse_invocation(text: &str) -> (r: Option<(String, String)>)
    ensures
        match r {
            Some(parts) => invocation(text@) == Some((parts.0@, parts.1@)),
            None => invocation(text@) is None,
        },
{
    let rest = match text::strip_prefix(text::trim(text), "!") {
        Some(rest) => rest,
        None => {
            return None;
        },
    };
    match text::split_once(rest, CharSet::Space) {
        Some((name, arg)) => {
            if name.is_empty() {
                return None;
            }
            Some((name.to_owned(), text::trim(arg).to_owned()))
        },
        None => {
            if rest.is_empty() {
                return None;
            }
            assert(text::trimmed(Seq::<char>::empty()) =~= seq![]);
            let none: String = String::new();
            assert(none@ =~= text::trimmed(Seq::<char>::empty()));
            Some((rest.to_owned(), none))
        },
    }
}

/// What a `!`-invocation asks for.
#[derive(Debug, PartialEq, Eq)]
pub enum Command {
    Providers,
    Models,
    Skills,
    /// Show the conversation's model, or set it.
    Model(Option<String>),
    Forget,
    Help,
    /// The registered command at this position, with its argument.
    Registered { index: usize, arg: String },
    Unknown(String),
}

/// The mathematical form of a [`Command`].
pub enum CommandView {
    Providers,
    Models,
    Skills,
    Model(Option<Seq<char>>),
    Forget,
    Help,
    Registered { index: int, arg: Seq<char> },
    Unknown(Seq<char>),
}

impl View for Command {
    type V = CommandView;

    open spec fn view(&self) -> CommandView {
        match self {
            Command::Providers => CommandView::Providers,
            Command::Models => CommandView::Models,
            Command::Skills => CommandView::Skills,
            Command::Model(arg) => CommandView::Model(text::opt_text(*arg)),
            Command::Forget => CommandView::Forget,
            Command::Help => CommandView::Help,
            Command::Registered { index, arg } => CommandView::Registered {
                index: *index as int,
                arg: arg@,
            },
            Command::Unknown(name) => CommandView::Unknown(name@),
        }
    }
}

/// The position of the first registered command with this name, from `from` on.
pub open spec fn registered_at(specs: Seq<SpecView>, name: Seq<char>, from: int) -> Option<int>
    decreases specs.len() - from,
{
    if from < 0 || from >= specs.len() {
        None
    } else if specs[from].name == name {
        Some(from)
    } else {
        registered_at(specs, name, from + 1)
    }
}

/// What an invocation asks for: a built-in first, then a registered command,
/// else it is unknown.
pub open spec fn meant(name: Seq<char>, arg: Seq<char>, specs: Seq<SpecView>) -> CommandView {
    if name == "providers"@ {
        CommandView::Providers
    } else if name == "models"@ {
        CommandView::Models
    } else if name == "skills"@ {
        CommandView::Skills
    } else if name == "model"@ {
        CommandView::Model(
            if arg.len() == 0 {
                None
            } else {
                Some(arg)
            },
        )
    } else if name == "forget"@ {
        CommandView::Forget
    } else if name == "help"@ {
        CommandView::Help
    } else {
        match registered_at(specs, name, 0) {
            Some(index) => CommandView::Registered { index, arg },
            None => CommandView::Unknown(name),
        }
    }
}

/// Dispatch an invocation: to a built-in, then to a registered command, else it
/// is unknown.
pub fn dispatch(name: String, arg: String, registered: &[CommandSpec]) -> (r: Command)
    ensures
        r@ == meant(name@, arg@, specs_view(registered@)),
{
    let n = name.as_str();
    if text::same(n, "providers") {
        return Command::Providers;
    }
    if text::same(n, "models") {
        return Command::Models;
    }
    if text::same(n, "skills") {
        return Command::Skills;
    }
    if text::same(n, "model") {
        if arg.as_str().is_empty() {
            return Command::Model(None);
        }
        return Command::Model(Some(arg));
    }
    if text::same(n, "forget") {
        return Command::Forget;
    }
    if text::same(n, "help") {
        return Command::Help;
    }
    let ghost specs = specs_view(registered@);
    let mut i: usize = 0;
    while i < registered.len() && !text::same(registered[i].name.as_str(), n)
        invariant
            i <= registered@.len(),
            n@ == name@,
            specs == specs_view(registered@),
            registered_at(specs, name@, 0) == registered_at(specs, name@, i as int),
        decreases registered@.len() - i,
    {
        i = i + 1;
    }
    if i < registered.len() {
        Command::Registered { index: i, arg }
    } else {
        Command::Unknown(name)
    }
}

/// A bulleted list, one item per line.
pub open spec fn bullets(items: Seq<Seq<char>>) -> Seq<char> {
    text::concat(items.map_values(|item: Seq<char>| "- "@ + item + "\n"@))
}

/// A titled list without the white space it ends with.
pub open spec fn titled(title: Seq<char>, items: Seq<Seq<char>>) -> Seq<char> {
    text::strip_end(title + bullets(items), CharSet::Space)
}

/// The reply to `!providers`.
pub open spec fn providers_text(active: Seq<Seq<char>>) -> Seq<char> {
    if active.len() == 0 {
        "No active providers — set a provider API key (e.g. ANTHROPIC_API_KEY)."@
    } else {
        titled("**Active providers:**\n"@, active)
    }
}

/// A provider and one of its models.
pub open spec fn model_item(row: (&str, &str)) -> Seq<char> {
    row.0@ + "/"@ + row.1@
}

/// The rows of a model listing.
pub open spec fn model_items(rows: Seq<(&str, &str)>) -> Seq<Seq<char>> {
    rows.map_values(|row: (&str, &str)| model_item(row))
}

/// The reply to `!models`.
pub open spec fn models_text(rows: Seq<Seq<char>>) -> Seq<char> {
    if rows.len() == 0 {
        "No models available — no active providers."@
    } else {
        titled("**Available models:**\n"@, rows)
    }
}

/// A titled list without the white space it ends with.
fn render_list(title: &str, items: &Vec<String>) -> (r: String)
    ensures
        r@ == titled(title@, text::texts(items@)),
{
    let ghost all = text::texts(items@).map_values(|item: Seq<char>| "- "@ + item + "\n"@);
    let mut out: String = title.to_owned();
    let mut i: usize = 0;
    assert(out@ =~= title@ + text::concat(all.take(0)));
    while i < items.len()
        invariant
            i <= items@.len(),
            all == text::texts(items@).map_values(|item: Seq<char>| "- "@ + item + "\n"@),
            out@ == title@ + text::concat(all.take(i as int)),
        decreases items@.len() - i,
    {
        out.append("- ");
        out.append(items[i].as_str());
        out.append("\n");
        proof {
            assert(all.take(i + 1) =~= all.take(i as int).push(all[i as int]));
            text::lemma_concat_push(all.take(i as int), all[i as int]);
            assert(out@ =~= title@ + (text::concat(all.take(i as int)) + all[i as int]));
        }
        i = i + 1;
    }
    assert(all.take(i as int) =~= all);
    text::trim_end_set(out.as_str(), CharSet::Space).to_owned()
}

/// The active providers (those with an API key), one per line.
pub fn render_providers(active: &[&str]) -> (r: String)
    ensures
        r@ == providers_text(text::strs(active@)),
{
    if active.len() == 0 {
        return "No active providers — set a provider API key (e.g. ANTHROPIC_API_KEY).".to_owned();
    }
    let mut items: Vec<String> = Vec::new();
    let mut i: usize = 0;
    while i < active.len()
        invariant
            i <= active@.len(),
            items@.len() == i,
            forall|k: int| 0 <= k < i ==> (#[trigger] items@[k])@ == active@[k]@,
        decreases active@.len() - i,
    {
        items.push(active[i].to_owned());
        i = i + 1;
    }
    assert(text::texts(items@) =~= text::strs(active@));
    render_list("**Active providers:**\n", &items)
}

/// The available models, one `provider/model` per line.
pub fn render_models(rows: &[(&str, &str)]) -> (r: String)
    ensures
        r@ == models_text(model_items(rows@)),
{
    if rows.len() == 0 {
        return "No models available — no active providers.".to_owned();
    }
    let mut items: Vec<String> = Vec::new();
    let mut i: usize = 0;
    while i < rows.len()
        invariant
            i <= rows@.len(),
            items@.len() == i,
            forall|k: int| 0 <= k < i ==> (#[trigger] items@[k])@ == model_item(rows@[k]),
        decreases rows@.len() - i,
    {
        let mut item: String = rows[i].0.to_owned();
        item.append("/");
        item.append(rows[i].1);
        items.push(item);
        i = i + 1;
    }
    assert(text::texts(items@) =~= model_items(rows@));
    render_list("**Available models:**\n", &items)
}

/// A built-in command's `!help` row: its name, the command as shown, and its
/// description.
pub struct Builtin {
    pub name: &'static str,
    pub command: &'static str,
    pub description: &'static str,
}

/// The built-in commands, in listing order: name, command as shown,
/// description.
pub open spec fn builtins() -> Seq<(Seq<char>, Seq<char>, Seq<char>)> {
    seq![
        ("providers"@, "!providers"@, "active providers"@),
        ("models"@, "!models"@, "available provider/model"@),
        ("skills"@, "!skills"@, "the available skills"@),
        (
            "model"@,
            "!model [provider/model]"@,
            "show or set this conversation's model (creator only)"@,
        ),
        ("forget"@, "!forget"@, "reset this conversation (creator only)"@),
        ("help"@, "!help"@, "this list"@),
    ]
}

/// The rows of a list of built-ins.
pub open spec fn builtins_view(v: Seq<Builtin>) -> Seq<(Seq<char>, Seq<char>, Seq<char>)> {
    v.map_values(|b: Builtin| (b.name@, b.command@, b.description@))
}

/// The built-in commands, in listing order.
fn builtin_rows() -> (r: Vec<Builtin>)
    ensures
        builtins_view(r@) == builtins(),
{
    let mut out: Vec<Builtin> = Vec::new();
    out.push(
        Builtin { name: "providers", command: "!providers", description: "active providers" },
    );
    out.push(
        Builtin { name: "models", command: "!models", description: "available provider/model" },
    );
    out.push(Builtin { name: "skills", command: "!skills", description: "the available skills" });
    out.push(
        Builtin {
            name: "model",
            command: "!model [provider/model]",
            description: "show or set this conversation's model (creator only)",
        },
    );
    out.push(
        Builtin {
            name: "forget",
            command: "!forget",
            description: "reset this conversation (creator only)",
        },
    );
    out.push(Builtin { name: "help", command: "!help", description: "this list" });
    assert(builtins_view(out@) =~= builtins());
    out
}

/// A `!help` row: the command as shown, and its description.
pub open spec fn help_row(command: Seq<char>, description: Seq<char>) -> Seq<char> {
    "\n- `"@ + command + "` — "@ + description
}

/// The rows of the built-ins that are not hidden.
pub open spec fn listed(
    rows: Seq<(Seq<char>, Seq<char>, Seq<char>)>,
    hide: Seq<Seq<char>>,
) -> Seq<Seq<char>>
    decreases rows.len(),
{
    if rows.len() == 0 {
        seq![]
    } else if hide.contains(rows.last().0) {
        listed(rows.drop_last(), hide)
    } else {
        listed(rows.drop_last(), hide).push(help_row(rows.last().1, rows.last().2))
    }
}

/// A registered command as `!help` shows it.
pub open spec fn spec_row(s: SpecView) -> Seq<char> {
    let command = match s.args {
        Some(args) => "!"@ + s.name + " "@ + args,
        None => "!"@ + s.name,
    };
    help_row(command, s.description)
}

/// The rows of the registered commands.
pub open spec fn spec_rows(v: Seq<SpecView>) -> Seq<Seq<char>> {
    v.map_values(|s: SpecView| spec_row(s))
}

/// The rows that the config adds.
pub open spec fn extra_rows(v: Seq<HelpRow>) -> Seq<Seq<char>> {
    v.map_values(|row: HelpRow| help_row(row.command@, row.description@))
}

/// The reply to `!help`: the built-ins that are not hidden, the registered
/// commands, then the rows that the config adds.
pub open spec fn help_text(hide: Seq<Seq<char>>, specs: Seq<SpecView>, extra: Seq<HelpRow>) -> Seq<
    char,
> {
    "**Commands:**"@ + text::concat(listed(builtins(), hide)) + text::concat(spec_rows(specs))
        + text::concat(extra_rows(extra))
}

/// Append one `!help` row.
fn push_row(out: &mut String, command: &str, description: &str)
    ensures
        final(out)@ == old(out)@ + help_row(command@, description@),
{
    out.append("\n- `");
    out.append(command);
    out.append("` — ");
    out.append(description);
    assert(out@ =~= old(out)@ + help_row(command@, description@));
}

/// The list of commands. Built-ins whose name is in `help.hide` are omitted,
/// and the `help.extra` rows come last.
pub fn render_help(help: &Help, registered: &[CommandSpec]) -> (r: String)
    ensures
        r@ == help_text(text::texts(help.hide@), specs_view(registered@), help.extra@),
{
    let ghost hide = text::texts(help.hide@);
    let ghost title = "**Commands:**"@;
    let mut out: String = "**Commands:**".to_owned();
    let rows = builtin_rows();
    let ghost all = builtins();
    let mut i: usize = 0;
    assert(listed(all.take(0), hide) =~= seq![]);
    assert(out@ =~= title + text::concat(listed(all.take(0), hide)));
    while i < rows.len()
        invariant
            i <= rows@.len(),
            all == builtins_view(rows@),
            hide == text::texts(help.hide@),
            out@ == title + text::concat(listed(all.take(i as int), hide)),
        decreases rows@.len() - i,
    {
        assert(all.take(i + 1).drop_last() =~= all.take(i as int));
        if !text::any_same(&help.hide, rows[i].name) {
            push_row(&mut out, rows[i].command, rows[i].description);
            proof {
                let had = listed(all.take(i as int), hide);
                let row = help_row(all[i as int].1, all[i as int].2);
                text::lemma_concat_push(had, row);
                assert(title + text::concat(had) + row =~= title + (text::concat(had) + row));
            }
        }
        i = i + 1;
    }
    assert(all.take(i as int) =~= all);
    let ghost first = title + text::concat(listed(all, hide));
    let ghost specs = spec_rows(specs_view(registered@));
    let mut j: usize = 0;
    assert(out@ =~= first + text::concat(specs.take(0)));
    while j < registered.len()
        invariant
            j <= registered@.len(),
            specs == spec_rows(specs_view(registered@)),
            out@ == first + text::concat(specs.take(j as int)),
        decreases registered@.len() - j,
    {
        let mut command: String = "!".to_owned();
        command.append(registered[j].name.as_str());
        if let Some(args) = &registered[j].args {
            command.append(" ");
            command.append(args.as_str());
        }
        push_row(&mut out, command.as_str(), registered[j].description.as_str());
        proof {
            let had = specs.take(j as int);
            let row = specs[j as int];
            assert(specs.take(j + 1) =~= had.push(row));
            text::lemma_concat_push(had, row);
            assert(first + text::concat(had) + row =~= first + (text::concat(had) + row));
        }
        j = j + 1;
    }
    assert(specs.take(j as int) =~= specs);
    let ghost second = first + text::concat(specs);
    let ghost extra = extra_rows(help.extra@);
    let mut k: usize = 0;
    assert(out@ =~= second + text::concat(extra.take(0)));
    while k < help.extra.len()
        invariant
            k <= help.extra@.len(),
            extra == extra_rows(help.extra@),
            out@ == second + text::concat(extra.take(k as int)),
        decreases help.extra@.len() - k,
    {
        push_row(&mut out, help.extra[k].command.as_str(), help.extra[k].description.as_str());
        proof {
            let had = extra.take(k as int);
            let row = extra[k as int];
            assert(extra.take(k + 1) =~= had.push(row));
            text::lemma_concat_push(had, row);
            assert(second + text::concat(had) + row =~= second + (text::concat(had) + row));
        }
        k = k + 1;
    }
    assert(extra.take(k as int) =~= extra);
    out
}

/// A skill's row in the table: the name in backticks (so that an `<arg>`
/// placeholder stays literal), with its arguments when it has any.
pub open spec fn skill_row(s: SkillView) -> Seq<char> {
    let name = match s.args {
        Some(args) => "`"@ + s.name + " "@ + args + "`"@,
        None => "`"@ + s.name + "`"@,
    };
    let description = match s.description {
        Some(d) => d,
        None => ""@,
    };
    "\n| "@ + name + " | "@ + description + " |"@
}

/// The rows of the skills.
pub open spec fn skill_rows(v: Seq<SkillView>) -> Seq<Seq<char>> {
    v.map_values(|s: SkillView| skill_row(s))
}

/// The reply to `!skills`: a table, or a note when there are none.
pub open spec fn skills_text(skills: Seq<SkillView>) -> Seq<char> {
    if skills.len() == 0 {
        "No skills available."@
    } else {
        "| Skill | Description |\n| --- | --- |"@ + text::concat(skill_rows(skills))
    }
}

/// The skills as a table of names and descriptions.
pub fn render_skills(skills: &[Skill]) -> (r: String)
    ensures
        r@ == skills_text(tools::skills_view(skills@)),
{
    if skills.len() == 0 {
        return "No skills available.".to_owned();
    }
    let ghost title = "| Skill | Description |\n| --- | --- |"@;
    let ghost rows = skill_rows(tools::skills_view(skills@));
    let mut out: String = "| Skill | Description |\n| --- | --- |".to_owned();
    let mut i: usize = 0;
    assert(out@ =~= title + text::concat(rows.take(0)));
    while i < skills.len()
        invariant
            i <= skills@.len(),
            rows == skill_rows(tools::skills_view(skills@)),
            out@ == title + text::concat(rows.take(i as int)),
        decreases skills@.len() - i,
    {
        let ghost so_far = out@;
        out.append("\n| `");
        out.append(skills[i].name.as_str());
        if let Some(args) = &skills[i].args {
            out.append(" ");
            out.append(args.as_str());
        }
        out.append("` | ");
        if let Some(description) = &skills[i].description {
            out.append(description.as_str());
        }
        out.append(" |");
        proof {
            let had = rows.take(i as int);
            let row = rows[i as int];
            reveal_strlit("");
            reveal_strlit("`");
            reveal_strlit(" | ");
            reveal_strlit("\n| ");
            reveal_strlit("\n| `");
            reveal_strlit("` | ");
            assert(out@ =~= so_far + row);
            assert(rows.take(i + 1) =~= had.push(row));
            text::lemma_concat_push(had, row);
            assert(title + text::concat(had) + row =~= title + (text::concat(had) + row));
        }
        i = i + 1;
    }
    assert(rows.take(i as int) =~= rows);
    out
}

/// The reply to an unknown command.
pub open spec fn unknown_text(name: Seq<char>) -> Seq<char> {
    "Unknown command: `!"@ + name + "`. Try `!help`."@
}

/// The reply for an unrecognized `!<name>`.
pub fn render_unknown(name: &str) -> (r: String)
    ensures
        r@ == unknown_text(name@),
{
    let mut out: String = "Unknown command: `!".to_owned();
    out.append(name);
    out.append("`. Try `!help`.");
    out
}

/// White space around a message changes nothing about the command in it, and
/// the parts of a command have none around them; its name has none at all.
pub proof fn law_white_space_around_a_command_is_ignored(text: Seq<char>)
    ensures
        invocation(text::trimmed(text)) == invocation(text),
        invocation(text) matches Some(parts) ==> {
            &&& parts.0.len() > 0
            &&& forall|k: int| 0 <= k < parts.0.len() ==> !text::white_space(#[trigger] parts.0[k])
            &&& text::is_trim(parts.1)
        },
{
    text::lemma_trimmed(text);
    if let Some(rest) = text::after_prefix(text::trimmed(text), "!"@) {
        text::lemma_run_before(rest, CharSet::Space);
        if let Some(parts) = text::divided(rest, CharSet::Space) {
            text::lemma_trimmed(parts.1);
            assert forall|k: int| 0 <= k < parts.0.len() implies !text::white_space(
                #[trigger] parts.0[k],
            ) by {
                assert(parts.0[k] == rest[k]);
                assert(!CharSet::Space.contains(rest[k]));
            }
        } else {
            text::lemma_trimmed(Seq::<char>::empty());
            assert forall|k: int| 0 <= k < rest.len() implies !text::white_space(
                #[trigger] rest[k],
            ) by {
                assert(!CharSet::Space.contains(rest[k]));
            }
        }
    }
}

/// A command written out as `!name arg` is read back as that name and
/// argument.
pub proof fn law_a_written_command_is_read_back(name: Seq<char>, arg: Seq<char>)
    requires
        name.len() > 0,
        forall|k: int| 0 <= k < name.len() ==> !text::white_space(#[trigger] name[k]),
        arg.len() > 0,
        text::is_trim(arg),
    ensures
        invocation("!"@ + name + " "@ + arg) == Some((name, arg)),
        invocation("!"@ + name) == Some((name, Seq::<char>::empty())),
{
    reveal_strlit("!");
    reveal_strlit(" ");
    let text = "!"@ + name + " "@ + arg;
    text::lemma_trim_is_trimmed(text);
    let rest = name + " "@ + arg;
    assert(text.subrange(0, 1) =~= "!"@);
    assert(text.subrange(1, text.len() as int) =~= rest);
    assert forall|k: int| 0 <= k < name.len() implies !CharSet::Space.contains(#[trigger] rest[k]) by {
        assert(rest[k] == name[k]);
    }
    text::lemma_run_before_is(rest, CharSet::Space, name.len());
    assert(rest.subrange(0, name.len() as int) =~= name);
    assert(rest.subrange(name.len() as int + 1, rest.len() as int) =~= arg);
    text::lemma_trim_is_trimmed(arg);
    let bare = "!"@ + name;
    text::lemma_trim_is_trimmed(bare);
    assert(bare.subrange(0, 1) =~= "!"@);
    assert(bare.subrange(1, bare.len() as int) =~= name);
    text::lemma_run_before_is(name, CharSet::Space, name.len());
    assert(text::trimmed(Seq::<char>::empty()) =~= seq![]);
}

/// Only a message that starts with `!`, once trimmed, is a command.
pub proof fn law_ordinary_text_is_no_command(text: Seq<char>)
    requires
        !text::begins(text::trimmed(text), "!"@),
    ensures
        invocation(text) is None,
{
}

/// A registered command never takes the place of a built-in, and two of the
/// same name resolve to the one registered first.
pub proof fn law_built_ins_come_first(name: Seq<char>, arg: Seq<char>, specs: Seq<SpecView>)
    ensures
        (exists|k: int| 0 <= k < builtins().len() && (#[trigger] builtins()[k]).0 == name)
            ==> !(meant(name, arg, specs) is Registered) && !(meant(name, arg, specs) is Unknown),
        meant(name, arg, specs) matches CommandView::Registered { index, arg: given } ==> {
            &&& given == arg
            &&& 0 <= index < specs.len()
            &&& specs[index].name == name
            &&& forall|k: int| 0 <= k < index ==> (#[trigger] specs[k]).name != name
        },
        meant(name, arg, specs) matches CommandView::Unknown(given) ==> given == name && forall|
            k: int,
        |
            0 <= k < specs.len() ==> (#[trigger] specs[k]).name != name,
{
    lemma_registered_at(specs, name, 0);
}

proof fn lemma_registered_at(specs: Seq<SpecView>, name: Seq<char>, from: int)
    requires
        0 <= from <= specs.len(),
    ensures
        match registered_at(specs, name, from) {
            Some(index) => from <= index < specs.len() && specs[index].name == name && forall|k: int|
                from <= k < index ==> (#[trigger] specs[k]).name != name,
            None => forall|k: int| from <= k < specs.len() ==> (#[trigger] specs[k]).name != name,
        },
    decreases specs.len() - from,
{
    if from < specs.len() && specs[from].name != name {
        lemma_registered_at(specs, name, from + 1);
    }
}

proof fn lemma_listed(
    rows: Seq<(Seq<char>, Seq<char>, Seq<char>)>,
    hide: Seq<Seq<char>>,
    row: Seq<char>,
)
    ensures
        listed(rows, hide).contains(row) <==> exists|k: int|
            0 <= k < rows.len() && !hide.contains((#[trigger] rows[k]).0) && help_row(
                rows[k].1,
                rows[k].2,
            ) == row,
    decreases rows.len(),
{
    if rows.len() > 0 {
        let head = rows.drop_last();
        let last = rows.last();
        let n = rows.len() - 1;
        lemma_listed(head, hide, row);
        let had = listed(head, hide);
        let all = listed(rows, hide);
        if all.contains(row) {
            let at = choose|at: int| 0 <= at < all.len() && all[at] == row;
            if !hide.contains(last.0) && at == had.len() {
                assert(!hide.contains(rows[n].0) && help_row(rows[n].1, rows[n].2) == row);
            } else {
                assert(had[at] == row);
                let k = choose|k: int|
                    0 <= k < head.len() && !hide.contains((#[trigger] head[k]).0) && help_row(
                        head[k].1,
                        head[k].2,
                    ) == row;
                assert(!hide.contains(rows[k].0) && help_row(rows[k].1, rows[k].2) == row);
            }
        }
        if exists|k: int|
            0 <= k < rows.len() && !hide.contains((#[trigger] rows[k]).0) && help_row(
                rows[k].1,
                rows[k].2,
            ) == row {
            let k = choose|k: int|
                0 <= k < rows.len() && !hide.contains((#[trigger] rows[k]).0) && help_row(
                    rows[k].1,
                    rows[k].2,
                ) == row;
            if k < n {
                assert(!hide.contains(head[k].0) && help_row(head[k].1, head[k].2) == row);
                let at = choose|at: int| 0 <= at < had.len() && had[at] == row;
                assert(all[at] == row);
            } else {
                assert(all[all.len() - 1] == row);
            }
        }
    }
}

/// `!help` lists a built-in if and only if it is not hidden.
pub proof fn law_help_lists_what_is_not_hidden(hide: Seq<Seq<char>>, at: int)
    requires
        0 <= at < builtins().len(),
    ensures
        listed(builtins(), hide).contains(help_row(builtins()[at].1, builtins()[at].2))
            <==> !hide.contains(builtins()[at].0),
{
    let row = help_row(builtins()[at].1, builtins()[at].2);
    lemma_listed(builtins(), hide, row);
    if !hide.contains(builtins()[at].0) {
        assert(!hide.contains(builtins()[at].0) && help_row(builtins()[at].1, builtins()[at].2)
            == row);
    } else {
        assert forall|k: int|
            0 <= k < builtins().len() && help_row(
                (#[trigger] builtins()[k]).1,
                builtins()[k].2,
            ) == row implies k == at by {
            lemma_rows_differ(k, at);
        }
    }
}

/// No two built-ins have the same row.
proof fn lemma_rows_differ(i: int, j: int)
    requires
        0 <= i < builtins().len(),
        0 <= j < builtins().len(),
        help_row(builtins()[i].1, builtins()[i].2) == help_row(builtins()[j].1, builtins()[j].2),
    ensures
        i == j,
{
    reveal_strlit("\n- `");
    reveal_strlit("!providers");
    reveal_strlit("!models");
    reveal_strlit("!skills");
    reveal_strlit("!model [provider/model]");
    reveal_strlit("!forget");
    reveal_strlit("!help");
    reveal_strlit("` — ");
    let a = help_row(builtins()[i].1, builtins()[i].2);
    let b = help_row(builtins()[j].1, builtins()[j].2);
    assert(a[5] == b[5]);
    assert(a[6] == b[6]);
    assert(a[10] == b[10]);
    assert(a[11] == b[11]);
    assert(a[5] == builtins()[i].1[1]);
    assert(b[5] == builtins()[j].1[1]);
}

} // verus!
