//! The backend-neutral engine's decisions: what to start with, whether to
//! answer a message, what a message asks for, and what a turn or a command
//! replies. A backend supplies the I/O around them.
use vstd::prelude::*;

use crate::access;
use crate::access::{Access, AccessView, LoopGuard, LoopView};
use crate::commands;
use crate::commands::{Command, CommandOutcome, CommandSpec, CommandView, SpecView};
use crate::config::{Config, Help, ToolMode};
use crate::event::{Inbound, InboundView};
use crate::memory;
use crate::meta;
use crate::meta::{ConversationMeta, MetaView};
use crate::text;
use crate::text::CharSet;
use crate::tools;
use crate::tools::Skill;

verus! {

/// What can go wrong.
#[derive(Debug, PartialEq, Eq)]
pub enum EngineError {
    /// Neither the config nor the catalog names a model.
    NoModel { provider: String },
    /// The provider has no known API key variable.
    UnknownProvider { provider: String },
    /// The provider's API key is missing or blank.
    MissingKey { var: String, provider: String },
    /// The sandbox tool mode is asked for but not built in.
    NoSandbox,
    /// The model reported a failure.
    TurnFailed { message: String },
}

/// The mathematical form of an [`EngineError`].
pub enum ErrorView {
    NoModel { provider: Seq<char> },
    UnknownProvider { provider: Seq<char> },
    MissingKey { var: Seq<char>, provider: Seq<char> },
    NoSandbox,
    TurnFailed { message: Seq<char> },
}

impl View for EngineError {
    type V = ErrorView;

    open spec fn view(&self) -> ErrorView {
        match self {
            EngineError::NoModel { provider } => ErrorView::NoModel { provider: provider@ },
            EngineError::UnknownProvider { provider } => ErrorView::UnknownProvider {
                provider: provider@,
            },
            EngineError::MissingKey { var, provider } => ErrorView::MissingKey {
                var: var@,
                provider: provider@,
            },
            EngineError::NoSandbox => ErrorView::NoSandbox,
            EngineError::TurnFailed { message } => ErrorView::TurnFailed { message: message@ },
        }
    }
}

/// The message of an error.
pub open spec fn error_text(e: ErrorView) -> Seq<char> {
    match e {
        ErrorView::NoModel { provider } => "no model for provider "@ + text::debug_text(provider)
            + ": set [agent].model"@,
        ErrorView::UnknownProvider { provider } => "unknown provider "@ + text::debug_text(
            provider,
        ),
        ErrorView::MissingKey { var, provider } => var + " must be set for provider "@
            + text::debug_text(provider) + " (export it from your secret store)"@,
        ErrorView::NoSandbox => "[agent].tools = \"sandbox\" needs the `sandbox` feature; rebuild tapir-bot with --features sandbox"@,
        ErrorView::TurnFailed { message } => "model turn failed: "@ + message,
    }
}

impl EngineError {
    /// The message to show.
    pub fn message(&self) -> (r: String)
        ensures
            r@ == error_text(self@),
    {
        match self {
            EngineError::NoModel { provider } => {
                let mut out: String = "no model for provider ".to_owned();
                out.append(text::quoted(provider.as_str()).as_str());
                out.append(": set [agent].model");
                out
            },
            EngineError::UnknownProvider { provider } => {
                let mut out: String = "unknown provider ".to_owned();
                out.append(text::quoted(provider.as_str()).as_str());
                out
            },
            EngineError::MissingKey { var, provider } => {
                let mut out: String = var.clone();
                out.append(" must be set for provider ");
                out.append(text::quoted(provider.as_str()).as_str());
                out.append(" (export it from your secret store)");
                out
            },
            EngineError::NoSandbox => {
                "[agent].tools = \"sandbox\" needs the `sandbox` feature; rebuild tapir-bot with --features sandbox".to_owned()
            },
            EngineError::TurnFailed { message } => {
                let mut out: String = "model turn failed: ".to_owned();
                out.append(message.as_str());
                out
            },
        }
    }
}

/// Whether an optional text is there and not blank.
pub open spec fn is_set(value: Option<Seq<char>>) -> bool {
    value matches Some(v) && text::trimmed(v).len() > 0
}

/// The model to run on: the configured one, else the catalog's default.
pub open spec fn chosen_model(
    configured: Option<Seq<char>>,
    catalog_default: Option<Seq<char>>,
) -> Option<Seq<char>> {
    match configured {
        Some(model) => Some(model),
        None => catalog_default,
    }
}

/// Resolve the model id: the configured one, else the provider's catalog
/// default. A provider with neither is an error.
pub fn resolve_model(configured: Option<&str>, catalog_default: Option<&str>, provider: &str) -> (r:
    Result<String, EngineError>)
    ensures
        match r {
            Ok(model) => chosen_model(text::opt_str(configured), text::opt_str(catalog_default))
                == Some(model@),
            Err(e) => chosen_model(text::opt_str(configured), text::opt_str(catalog_default))
                is None && e@ == (ErrorView::NoModel { provider: provider@ }),
        },
{
    match configured {
        Some(model) => Ok(model.to_owned()),
        None => match catalog_default {
            Some(model) => Ok(model.to_owned()),
            None => Err(EngineError::NoModel { provider: provider.to_owned() }),
        },
    }
}

/// What is wrong with a provider's key: no variable is known for it, or the
/// variable is missing or blank.
pub open spec fn key_error(
    var: Option<Seq<char>>,
    value: Option<Seq<char>>,
    provider: Seq<char>,
) -> Option<ErrorView> {
    match var {
        None => Some(ErrorView::UnknownProvider { provider }),
        Some(var) => if is_set(value) {
            None
        } else {
            Some(ErrorView::MissingKey { var, provider })
        },
    }
}

/// Require the provider's API key. An unknown provider (no known variable) and
/// a blank or missing key are both errors.
pub fn require_provider_key(var: Option<&str>, value: Option<String>, provider: &str) -> (r: Result<
    (),
    EngineError,
>)
    ensures
        match r {
            Ok(_) => key_error(text::opt_str(var), text::opt_text(value), provider@) is None,
            Err(e) => key_error(text::opt_str(var), text::opt_text(value), provider@) == Some(e@),
        },
{
    match var {
        None => Err(EngineError::UnknownProvider { provider: provider.to_owned() }),
        Some(var) => {
            if provider_active(&value) {
                Ok(())
            } else {
                Err(EngineError::MissingKey { var: var.to_owned(), provider: provider.to_owned() })
            }
        },
    }
}

/// Whether the value of a provider's API key variable makes it usable: it is
/// there and not blank.
pub fn provider_active(key: &Option<String>) -> (r: bool)
    ensures
        r == is_set(text::opt_text(*key)),
{
    match key {
        Some(value) => !text::trim(value.as_str()).is_empty(),
        None => false,
    }
}

/// The resolved model settings that a turn runs on.
#[derive(Debug, PartialEq, Eq)]
pub struct AgentSettings {
    pub provider: String,
    pub model: String,
    pub system_prompt: Option<String>,
}

/// The shared, backend-neutral engine: the resolved settings, and what commands
/// and prompts draw on.
#[derive(Debug)]
pub struct Engine {
    pub settings: AgentSettings,
    /// Where transcripts and metadata live.
    pub data_dir: String,
    /// Where the durable facts live.
    pub memory_dir: String,
    /// How a turn's tools execute.
    pub tools: ToolMode,
    /// The provisioned skills.
    pub skills: Vec<Skill>,
    /// The notice that lists them, appended to tool-aware prompts.
    pub skills_notice: Option<String>,
    /// What `!help` hides and adds.
    pub help: Help,
    /// The registered commands.
    pub registered: Vec<CommandSpec>,
}

/// What an engine works with: the resolved settings, and what commands and
/// prompts draw on.
pub struct EngineView {
    pub provider: Seq<char>,
    pub model: Seq<char>,
    pub system_prompt: Option<Seq<char>>,
    pub data_dir: Seq<char>,
    pub memory_dir: Seq<char>,
    pub tools: ToolMode,
    pub skills: Seq<Skill>,
    pub skills_notice: Option<Seq<char>>,
    pub help: Help,
    pub registered: Seq<CommandSpec>,
}

impl View for Engine {
    type V = EngineView;

    open spec fn view(&self) -> EngineView {
        EngineView {
            provider: self.settings.provider@,
            model: self.settings.model@,
            system_prompt: text::opt_text(self.settings.system_prompt),
            data_dir: self.data_dir@,
            memory_dir: self.memory_dir@,
            tools: self.tools,
            skills: self.skills@,
            skills_notice: text::opt_text(self.skills_notice),
            help: self.help,
            registered: self.registered@,
        }
    }
}

/// The engine that a config makes, with the model that was resolved.
pub open spec fn engine_of(
    config: Config,
    skills: Seq<Skill>,
    registered: Seq<CommandSpec>,
    model: Seq<char>,
) -> EngineView {
    EngineView {
        provider: config.agent.provider@,
        model,
        system_prompt: text::opt_text(config.agent.system_prompt),
        data_dir: config.storage.dir@,
        memory_dir: match text::opt_text(config.storage.memory_dir) {
            Some(dir) => dir,
            None => config.storage.dir@,
        },
        tools: config.agent.tools,
        skills,
        skills_notice: tools::notice(tools::skills_view(skills)),
        help: config.help,
        registered,
    }
}

/// What keeps the engine from starting, if anything: a missing model first,
/// then the provider's key, then a tool mode that is not built in.
pub open spec fn startup_error(
    config: Config,
    catalog_default: Option<Seq<char>>,
    var: Option<Seq<char>>,
    value: Option<Seq<char>>,
    has_sandbox: bool,
) -> Option<ErrorView> {
    let provider = config.agent.provider@;
    if chosen_model(text::opt_text(config.agent.model), catalog_default) is None {
        Some(ErrorView::NoModel { provider })
    } else if key_error(var, value, provider) is Some {
        key_error(var, value, provider)
    } else if config.agent.tools == ToolMode::Sandbox && !has_sandbox {
        Some(ErrorView::NoSandbox)
    } else {
        None
    }
}

impl Engine {
    /// Build the engine from a config, failing on a misconfigured bot before
    /// anything runs. `skills` are the provisioned skills and `registered` the
    /// consumer's commands; `catalog_default` is the provider's default model,
    /// `var` and `value` its API key variable and what that holds, and
    /// `has_sandbox` whether the sandbox tool mode is built in.
    pub fn from_config(
        config: Config,
        skills: Vec<Skill>,
        registered: Vec<CommandSpec>,
        catalog_default: Option<&str>,
        var: Option<&str>,
        value: Option<String>,
        has_sandbox: bool,
    ) -> (r: Result<Engine, EngineError>)
        ensures
            match r {
                Ok(e) => {
                    &&& startup_error(
                        config,
                        text::opt_str(catalog_default),
                        text::opt_str(var),
                        text::opt_text(value),
                        has_sandbox,
                    ) is None
                    &&& e@ == engine_of(config, skills@, registered@, e.settings.model@)
                    &&& e.settings.provider@ == config.agent.provider@
                    &&& chosen_model(
                        text::opt_text(config.agent.model),
                        text::opt_str(catalog_default),
                    ) == Some(e.settings.model@)
                    &&& text::opt_text(e.settings.system_prompt) == text::opt_text(
                        config.agent.system_prompt,
                    )
                    &&& e.data_dir@ == config.storage.dir@
                    &&& e.memory_dir@ == match text::opt_text(config.storage.memory_dir) {
                        Some(dir) => dir,
                        None => config.storage.dir@,
                    }
                    &&& e.tools == config.agent.tools
                    &&& e.skills == skills
                    &&& text::opt_text(e.skills_notice) == tools::notice(
                        tools::skills_view(skills@),
                    )
                    &&& e.help == config.help
                    &&& e.registered == registered
                },
                Err(e) => startup_error(
                    config,
                    text::opt_str(catalog_default),
                    text::opt_str(var),
                    text::opt_text(value),
                    has_sandbox,
                ) == Some(e@),
            },
    {
        let configured: Option<&str> = match &config.agent.model {
            Some(model) => Some(model.as_str()),
            None => None,
        };
        let model = match resolve_model(
            configured,
            catalog_default,
            config.agent.provider.as_str(),
        ) {
            Ok(model) => model,
            Err(e) => {
                return Err(e);
            },
        };
        if let Err(e) = require_provider_key(var, value, config.agent.provider.as_str()) {
            return Err(e);
        }
        if config.agent.tools == ToolMode::Sandbox && !has_sandbox {
            return Err(EngineError::NoSandbox);
        }
        let memory_dir: String = match config.storage.memory_dir {
            Some(dir) => dir,
            None => config.storage.dir.clone(),
        };
        let skills_notice = tools::skills_notice(skills.as_slice());
        Ok(
            Engine {
                settings: AgentSettings {
                    provider: config.agent.provider,
                    model,
                    system_prompt: config.agent.system_prompt,
                },
                data_dir: config.storage.dir,
                memory_dir,
                tools: config.agent.tools,
                skills,
                skills_notice,
                help: config.help,
                registered,
            },
        )
    }
}

/// The bot's mention.
pub open spec fn mention(bot_id: Seq<char>) -> Seq<char> {
    "<@"@ + bot_id + ">"@
}

fn mention_of(bot_id: &str) -> (r: String)
    ensures
        r@ == mention(bot_id@),
{
    let mut out: String = "<@".to_owned();
    out.append(bot_id);
    out.append(">");
    out
}

/// Whether `text` mentions the bot (`<@bot_id>` anywhere in it).
pub fn mentions_bot(text: &str, bot_id: &str) -> (r: bool)
    ensures
        r == text::occurs(text@, mention(bot_id@)),
{
    text::contains(text, mention_of(bot_id).as_str())
}

/// A message without the mention it starts with, trimmed.
pub open spec fn unmentioned(text: Seq<char>, bot_id: Seq<char>) -> Seq<char> {
    match text::after_prefix(text::strip_start(text, CharSet::Space), mention(bot_id)) {
        Some(rest) => text::trimmed(rest),
        None => text::trimmed(text),
    }
}

/// Strip a leading `<@bot_id>` mention (and the white space around it), leaving
/// the user's actual message. A mention elsewhere, or none, leaves the text as
/// it is, just trimmed.
pub fn strip_mention(text: &str, bot_id: &str) -> (r: String)
    ensures
        r@ == unmentioned(text@, bot_id@),
{
    let token = mention_of(bot_id);
    match text::strip_prefix(text::trim_start_set(text, CharSet::Space), token.as_str()) {
        Some(rest) => text::trim(rest).to_owned(),
        None => text::trim(text).to_owned(),
    }
}

/// Whether a message gets as far as the question whether its conversation has a
/// history: a thread reply from an admitted author that does not mention the
/// bot.
pub open spec fn history_decides(access: AccessView, bot_id: Seq<char>, m: InboundView) -> bool {
    &&& m.user != bot_id
    &&& access::permits(access, m)
    &&& m.continuation
    &&& !text::occurs(m.text, mention(bot_id))
}

/// Whether a message passes every gate but the loop cap: not the bot's own,
/// admitted by the policy, and, for a thread reply, no mention (the mention
/// itself is delivered too) and in a conversation with a history.
pub open spec fn passes(
    access: AccessView,
    bot_id: Seq<char>,
    m: InboundView,
    known: bool,
) -> bool {
    &&& m.user != bot_id
    &&& access::permits(access, m)
    &&& m.continuation ==> !text::occurs(m.text, mention(bot_id)) && known
}

/// Whether a message is answered.
pub open spec fn answered(
    access: AccessView,
    guard: LoopView,
    bot_id: Seq<char>,
    m: InboundView,
    known: bool,
) -> bool {
    passes(access, bot_id, m, known) && (m.is_bot ==> access::within_limit(guard, m.thread))
}

/// The loop guard after a message was considered: only a bot's message that
/// passed the other gates is counted.
pub open spec fn guard_after(
    access: AccessView,
    guard: LoopView,
    bot_id: Seq<char>,
    m: InboundView,
    known: bool,
) -> LoopView {
    if passes(access, bot_id, m, known) && m.is_bot {
        access::recorded(guard, m.thread)
    } else {
        guard
    }
}

impl Engine {
    /// The conversation whose history decides whether `inbound` is answered;
    /// `None` when no history is needed to tell.
    pub fn needs_history(&self, access: &Access, bot_id: &str, inbound: &Inbound) -> (r: Option<String>)
        ensures
            text::opt_text(r) == if history_decides(access@, bot_id@, inbound@) {
                Some(memory::conversation(inbound@))
            } else {
                None
            },
    {
        if text::same(inbound.user.as_str(), bot_id) || !access::allows(access, inbound)
            || !inbound.continuation || mentions_bot(inbound.text.as_str(), bot_id) {
            return None;
        }
        Some(memory::conversation_id(inbound))
    }

    /// Decide whether to answer `inbound`: never the bot itself, then the access
    /// policy, then, for a channel thread reply, the continuation gate (mentions
    /// are the mention path's job; anything else, a command too, needs a
    /// conversation the bot is in, which `known` tells), and finally the
    /// per-thread bot loop cap.
    pub fn should_handle(
        &self,
        access: &Access,
        loop_guard: &mut LoopGuard,
        bot_id: &str,
        inbound: &Inbound,
        known: bool,
    ) -> (r: bool)
        ensures
            r == answered(access@, old(loop_guard)@, bot_id@, inbound@, known),
            final(loop_guard)@ == guard_after(access@, old(loop_guard)@, bot_id@, inbound@, known),
    {
        if text::same(inbound.user.as_str(), bot_id) {
            return false;
        }
        if !access::allows(access, inbound) {
            return false;
        }
        if inbound.continuation {
            if mentions_bot(inbound.text.as_str(), bot_id) || !known {
                return false;
            }
        }
        if inbound.is_bot {
            return loop_guard.allow_bot_turn(inbound.thread.as_str());
        }
        true
    }
}

/// What an admitted message asks for.
#[derive(Debug, PartialEq, Eq)]
pub enum Plan {
    /// Answer a command.
    Command(Command),
    /// Run a model turn in this conversation, with this prompt.
    Turn { id: String, prompt: String },
}

/// The mathematical form of a [`Plan`].
pub enum PlanView {
    Command(CommandView),
    Turn { id: Seq<char>, prompt: Seq<char> },
}

impl View for Plan {
    type V = PlanView;

    open spec fn view(&self) -> PlanView {
        match self {
            Plan::Command(command) => PlanView::Command(command@),
            Plan::Turn { id, prompt } => PlanView::Turn { id: id@, prompt: prompt@ },
        }
    }
}

/// The prompt for a message: the message, or a greeting when it says nothing.
pub open spec fn prompt_for(message: Seq<char>) -> Seq<char> {
    if message.len() == 0 {
        "Greet the user briefly and offer to help."@
    } else {
        message
    }
}

/// The prompt for a message: the message, or a greeting when it says nothing.
pub fn turn_prompt(message: String) -> (r: String)
    ensures
        r@ == prompt_for(message@),
{
    if message.as_str().is_empty() {
        "Greet the user briefly and offer to help.".to_owned()
    } else {
        message
    }
}

/// What a message asks for: a command when it is one, else a turn.
pub open spec fn planned(bot_id: Seq<char>, m: InboundView, specs: Seq<SpecView>) -> PlanView {
    let message = unmentioned(m.text, bot_id);
    match commands::invocation(message) {
        Some(parts) => PlanView::Command(commands::meant(parts.0, parts.1, specs)),
        None => PlanView::Turn { id: memory::conversation(m), prompt: prompt_for(message) },
    }
}

impl Engine {
    /// Decide what one admitted message asks for: a command (no model turn, no
    /// memory), or a model turn.
    pub fn handle(&self, bot_id: &str, inbound: &Inbound) -> (r: Plan)
        ensures
            r@ == planned(bot_id@, inbound@, commands::specs_view(self.registered@)),
    {
        let message = strip_mention(inbound.text.as_str(), bot_id);
        match commands::parse_invocation(message.as_str()) {
            Some((name, arg)) => Plan::Command(
                commands::dispatch(name, arg, self.registered.as_slice()),
            ),
            None => Plan::Turn {
                id: memory::conversation_id(inbound),
                prompt: turn_prompt(message),
            },
        }
    }
}

/// What follows a registered command's outcome.
#[derive(Debug, PartialEq, Eq)]
pub enum Next {
    /// Post this reply.
    Post(String),
    /// Run a turn with this prompt.
    Turn(String),
}

/// The mathematical form of a [`Next`].
pub enum NextView {
    Post(Seq<char>),
    Turn(Seq<char>),
}

impl View for Next {
    type V = NextView;

    open spec fn view(&self) -> NextView {
        match self {
            Next::Post(reply) => NextView::Post(reply@),
            Next::Turn(prompt) => NextView::Turn(prompt@),
        }
    }
}

/// What follows a registered command's outcome.
pub open spec fn next_of(outcome: CommandOutcome) -> NextView {
    match outcome {
        CommandOutcome::Reply(reply) => NextView::Post(reply@),
        CommandOutcome::Prompt(prompt) => NextView::Turn(prompt_for(prompt@)),
    }
}

/// What follows a registered command's outcome: its reply is posted, its prompt
/// is run as if the user had typed it.
pub fn after_command(outcome: CommandOutcome) -> (r: Next)
    ensures
        r@ == next_of(outcome),
        match outcome {
            CommandOutcome::Reply(reply) => r == Next::Post(reply),
            CommandOutcome::Prompt(prompt) => r matches Next::Turn(p) && p@ == prompt_for(prompt@),
        },
{
    match outcome {
        CommandOutcome::Reply(reply) => Next::Post(reply),
        CommandOutcome::Prompt(prompt) => Next::Turn(turn_prompt(prompt)),
    }
}

/// A provider on offer: its id, what its API key variable holds, and its
/// models.
#[derive(Debug)]
pub struct Provider {
    pub id: String,
    pub key: Option<String>,
    pub models: Vec<String>,
}

/// The ids of the active providers, in order.
pub open spec fn active_ids(v: Seq<Provider>) -> Seq<Seq<char>>
    decreases v.len(),
{
    if v.len() == 0 {
        seq![]
    } else if is_set(text::opt_text(v.last().key)) {
        active_ids(v.drop_last()).push(v.last().id@)
    } else {
        active_ids(v.drop_last())
    }
}

/// A provider's models, as `provider/model`.
pub open spec fn provider_models(p: Provider) -> Seq<Seq<char>> {
    text::texts(p.models@).map_values(|m: Seq<char>| meta::model_spec((p.id@, m)))
}

/// The models of the active providers, in order, as `provider/model`.
pub open spec fn active_models(v: Seq<Provider>) -> Seq<Seq<char>>
    decreases v.len(),
{
    if v.len() == 0 {
        seq![]
    } else if is_set(text::opt_text(v.last().key)) {
        active_models(v.drop_last()) + provider_models(v.last())
    } else {
        active_models(v.drop_last())
    }
}

/// The reply to `!providers`: the providers with a key.
pub fn list_providers(providers: &Vec<Provider>) -> (r: String)
    ensures
        r@ == commands::providers_text(active_ids(providers@)),
{
    let mut active: Vec<&str> = Vec::new();
    let mut i: usize = 0;
    assert(text::strs(active@) =~= active_ids(providers@.take(0)));
    while i < providers.len()
        invariant
            i <= providers@.len(),
            text::strs(active@) == active_ids(providers@.take(i as int)),
        decreases providers@.len() - i,
    {
        assert(providers@.take(i + 1).drop_last() =~= providers@.take(i as int));
        let ghost had = text::strs(active@);
        if provider_active(&providers[i].key) {
            active.push(providers[i].id.as_str());
            assert(text::strs(active@) =~= had.push(providers@[i as int].id@));
        }
        i = i + 1;
    }
    assert(providers@.take(i as int) =~= providers@);
    commands::render_providers(active.as_slice())
}

/// The reply to `!models`: every model of the providers with a key.
pub fn list_models(providers: &Vec<Provider>) -> (r: String)
    ensures
        r@ == commands::models_text(active_models(providers@)),
{
    let mut rows: Vec<(&str, &str)> = Vec::new();
    let mut i: usize = 0;
    assert(commands::model_items(rows@) =~= active_models(providers@.take(0)));
    while i < providers.len()
        invariant
            i <= providers@.len(),
            commands::model_items(rows@) == active_models(providers@.take(i as int)),
        decreases providers@.len() - i,
    {
        assert(providers@.take(i + 1).drop_last() =~= providers@.take(i as int));
        if provider_active(&providers[i].key) {
            let ghost had = commands::model_items(rows@);
            let ghost own = provider_models(providers@[i as int]);
            let mut j: usize = 0;
            assert(commands::model_items(rows@) =~= had + own.take(0));
            while j < providers[i].models.len()
                invariant
                    i < providers@.len(),
                    j <= providers@[i as int].models@.len(),
                    own == provider_models(providers@[i as int]),
                    commands::model_items(rows@) == had + own.take(j as int),
                decreases providers@[i as int].models@.len() - j,
            {
                let ghost so_far = commands::model_items(rows@);
                let row = (providers[i].id.as_str(), providers[i].models[j].as_str());
                rows.push(row);
                assert(commands::model_items(rows@) =~= so_far.push(own[j as int]));
                assert(own.take(j + 1) =~= own.take(j as int).push(own[j as int]));
                assert(so_far.push(own[j as int]) =~= had + own.take(j + 1));
                j = j + 1;
            }
            assert(own.take(j as int) =~= own);
        }
        i = i + 1;
    }
    assert(providers@.take(i as int) =~= providers@);
    commands::render_models(rows.as_slice())
}

/// What a command needs next.
#[derive(Debug, PartialEq, Eq)]
pub enum CommandStep {
    /// Post this reply.
    Reply(String),
    /// Show or set the conversation's model.
    Model(Option<String>),
    /// Reset the conversation.
    Forget,
    /// Run the registered command at this position.
    Run { index: usize, arg: String },
}

/// The mathematical form of a [`CommandStep`].
pub enum CommandStepView {
    Reply(Seq<char>),
    Model(Option<Seq<char>>),
    Forget,
    Run { index: int, arg: Seq<char> },
}

impl View for CommandStep {
    type V = CommandStepView;

    open spec fn view(&self) -> CommandStepView {
        match self {
            CommandStep::Reply(t) => CommandStepView::Reply(t@),
            CommandStep::Model(arg) => CommandStepView::Model(text::opt_text(*arg)),
            CommandStep::Forget => CommandStepView::Forget,
            CommandStep::Run { index, arg } => CommandStepView::Run {
                index: *index as int,
                arg: arg@,
            },
        }
    }
}

/// What a command needs next: a listing is answered, the rest is named.
pub open spec fn command_step(e: Engine, command: CommandView, providers: Seq<Provider>) -> CommandStepView {
    match command {
        CommandView::Providers => CommandStepView::Reply(
            commands::providers_text(active_ids(providers)),
        ),
        CommandView::Models => CommandStepView::Reply(
            commands::models_text(active_models(providers)),
        ),
        CommandView::Skills => CommandStepView::Reply(
            commands::skills_text(tools::skills_view(e.skills@)),
        ),
        CommandView::Help => CommandStepView::Reply(
            commands::help_text(
                text::texts(e.help.hide@),
                commands::specs_view(e.registered@),
                e.help.extra@,
            ),
        ),
        CommandView::Model(arg) => CommandStepView::Model(arg),
        CommandView::Forget => CommandStepView::Forget,
        CommandView::Registered { index, arg } => CommandStepView::Run { index, arg },
        CommandView::Unknown(name) => CommandStepView::Reply(commands::unknown_text(name)),
    }
}

impl Engine {
    /// Run a `!`-command as far as it goes without the conversation's state: a
    /// listing is answered, the rest is named. No model turn, no memory write.
    pub fn run_command(&self, command: Command, providers: &Vec<Provider>) -> (r: CommandStep)
        ensures
            r@ == command_step(*self, command@, providers@),
            match command@ {
                CommandView::Providers => r matches CommandStep::Reply(t) && t@
                    == commands::providers_text(active_ids(providers@)),
                CommandView::Models => r matches CommandStep::Reply(t) && t@
                    == commands::models_text(active_models(providers@)),
                CommandView::Skills => r matches CommandStep::Reply(t) && t@
                    == commands::skills_text(tools::skills_view(self.skills@)),
                CommandView::Help => r matches CommandStep::Reply(t) && t@ == commands::help_text(
                    text::texts(self.help.hide@),
                    commands::specs_view(self.registered@),
                    self.help.extra@,
                ),
                CommandView::Model(arg) => r matches CommandStep::Model(a) && text::opt_text(a)
                    == arg,
                CommandView::Forget => r is Forget,
                CommandView::Registered { index, arg } => r matches CommandStep::Run {
                    index: i,
                    arg: a,
                } && i == index && a@ == arg,
                CommandView::Unknown(name) => r matches CommandStep::Reply(t) && t@
                    == commands::unknown_text(name),
            },
    {
        match command {
            Command::Providers => CommandStep::Reply(list_providers(providers)),
            Command::Models => CommandStep::Reply(list_models(providers)),
            Command::Skills => CommandStep::Reply(commands::render_skills(self.skills.as_slice())),
            Command::Help => CommandStep::Reply(
                commands::render_help(&self.help, self.registered.as_slice()),
            ),
            Command::Model(arg) => CommandStep::Model(arg),
            Command::Forget => CommandStep::Forget,
            Command::Registered { index, arg } => CommandStep::Run { index, arg },
            Command::Unknown(name) => CommandStep::Reply(commands::render_unknown(name.as_str())),
        }
    }
}

/// Whether a user may change a conversation: its owner, or anyone while no
/// owner is recorded.
pub open spec fn may_change(meta: MetaView, user: Seq<char>) -> bool {
    meta.owner matches Some(owner) ==> owner == user
}

/// The denial that names the owner.
pub open spec fn denial_text(owner: Seq<char>) -> Seq<char> {
    "Only <@"@ + owner + ">, who started this conversation, can do that."@
}

/// A denial when `user` is not the conversation's owner, or `None` when they
/// may proceed (they are the owner, or no owner is recorded yet).
pub fn owner_denied(meta: &ConversationMeta, user: &str) -> (r: Option<String>)
    ensures
        match r {
            Some(t) => !may_change(meta@, user@) && t@ == denial_text(meta@.owner->0),
            None => may_change(meta@, user@),
        },
{
    match &meta.owner {
        Some(owner) => {
            if text::same(owner.as_str(), user) {
                return None;
            }
            let mut out: String = "Only <@".to_owned();
            out.append(owner.as_str());
            out.append(">, who started this conversation, can do that.");
            Some(out)
        },
        None => None,
    }
}

/// The metadata once a turn of `user` was recorded: its creator is the first
/// user, and stays so.
pub open spec fn owned(meta: MetaView, user: Seq<char>) -> MetaView {
    MetaView {
        owner: match meta.owner {
            Some(owner) => Some(owner),
            None => Some(user),
        },
        model: meta.model,
    }
}

/// Record `user` as the conversation's creator, unless one is recorded.
/// Whether that changed anything, so that the metadata is to be saved.
pub fn record_owner(meta: &mut ConversationMeta, user: &str) -> (changed: bool)
    ensures
        changed == (old(meta)@.owner is None),
        final(meta)@ == owned(old(meta)@, user@),
        final(meta)@ == (MetaView {
            owner: match old(meta)@.owner {
                Some(owner) => Some(owner),
                None => Some(user@),
            },
            model: old(meta)@.model,
        }),
{
    if meta.owner.is_none() {
        meta.owner = Some(user.to_owned());
        return true;
    }
    false
}

/// The provider and model of a turn: the conversation's override, or the
/// configured default.
pub open spec fn model_of_turn(meta: MetaView, provider: Seq<char>, model: Seq<char>) -> (
    Seq<char>,
    Seq<char>,
) {
    match meta.model {
        Some(spec) => meta::model_parts(spec, provider),
        None => (provider, model),
    }
}

/// The reply to `!model` without an argument.
pub open spec fn model_shown(meta: MetaView, provider: Seq<char>, model: Seq<char>) -> Seq<char> {
    let current = match meta.model {
        Some(spec) => spec,
        None => meta::model_spec((provider, model)) + " (default)"@,
    };
    "Model for this conversation: `"@ + current
        + "`.\nSet it with `!model provider/model`."@
}

/// What `!model` needs next.
#[derive(Debug, PartialEq, Eq)]
pub enum ModelStep {
    /// Post this reply.
    Reply(String),
    /// Look this model up in the catalog, then set it.
    LookUp { provider: String, model: String },
}

/// The mathematical form of a [`ModelStep`].
pub enum ModelStepView {
    Reply(Seq<char>),
    LookUp { provider: Seq<char>, model: Seq<char> },
}

impl View for ModelStep {
    type V = ModelStepView;

    open spec fn view(&self) -> ModelStepView {
        match self {
            ModelStep::Reply(t) => ModelStepView::Reply(t@),
            ModelStep::LookUp { provider, model } => ModelStepView::LookUp {
                provider: provider@,
                model: model@,
            },
        }
    }
}

/// What `!model` needs next: a denial for anyone but the owner; else the model
/// that is shown, or the one to look up.
pub open spec fn model_step(
    meta: MetaView,
    user: Seq<char>,
    arg: Option<Seq<char>>,
    provider: Seq<char>,
    model: Seq<char>,
) -> ModelStepView {
    if !may_change(meta, user) {
        ModelStepView::Reply(denial_text(meta.owner->0))
    } else {
        match arg {
            None => ModelStepView::Reply(model_shown(meta, provider, model)),
            Some(spec) => {
                let parts = meta::model_parts(spec, provider);
                ModelStepView::LookUp { provider: parts.0, model: parts.1 }
            },
        }
    }
}

/// The reply to `!forget`, and whether the conversation is to be forgotten.
pub open spec fn forget_step(meta: MetaView, user: Seq<char>) -> (Seq<char>, bool) {
    if may_change(meta, user) {
        ("Done — this conversation's history and model override were reset."@, true)
    } else {
        (denial_text(meta.owner->0), false)
    }
}

impl Engine {
    /// The provider and model that a turn of this conversation runs on.
    pub fn turn_model(&self, meta: &ConversationMeta) -> (r: (String, String))
        ensures
            (r.0@, r.1@) == model_of_turn(meta@, self.settings.provider@, self.settings.model@),
    {
        match &meta.model {
            Some(spec) => meta::split_model_spec(spec.as_str(), self.settings.provider.as_str()),
            None => (self.settings.provider.clone(), self.settings.model.clone()),
        }
    }

    /// `!model`: show the conversation's model, or name the one to look up in
    /// the catalog before it is set. Owner only.
    pub fn handle_model(&self, meta: &ConversationMeta, user: &str, arg: Option<String>) -> (r:
        ModelStep)
        ensures
            r@ == model_step(
                meta@,
                user@,
                text::opt_text(arg),
                self.settings.provider@,
                self.settings.model@,
            ),
            if !may_change(meta@, user@) {
                r matches ModelStep::Reply(t) && t@ == denial_text(meta@.owner->0)
            } else {
                match arg {
                    None => r matches ModelStep::Reply(t) && t@ == model_shown(
                        meta@,
                        self.settings.provider@,
                        self.settings.model@,
                    ),
                    Some(spec) => r matches ModelStep::LookUp { provider, model } && (
                        provider@,
                        model@,
                    ) == meta::model_parts(spec@, self.settings.provider@),
                }
            },
    {
        if let Some(denied) = owner_denied(meta, user) {
            return ModelStep::Reply(denied);
        }
        match arg {
            None => {
                let mut out: String = "Model for this conversation: `".to_owned();
                match &meta.model {
                    Some(spec) => {
                        out.append(spec.as_str());
                    },
                    None => {
                        let mut current = meta::join_model_spec(
                            self.settings.provider.as_str(),
                            self.settings.model.as_str(),
                        );
                        current.append(" (default)");
                        out.append(current.as_str());
                    },
                }
                out.append("`.\nSet it with `!model provider/model`.");
                ModelStep::Reply(out)
            },
            Some(spec) => {
                let (provider, model) = meta::split_model_spec(
                    spec.as_str(),
                    self.settings.provider.as_str(),
                );
                ModelStep::LookUp { provider, model }
            },
        }
    }

    /// `!forget`: the reply, and whether the conversation's history and metadata
    /// are to be deleted. Owner only.
    pub fn handle_forget(&self, meta: &ConversationMeta, user: &str) -> (r: (String, bool))
        ensures
            (r.0@, r.1) == forget_step(meta@, user@),
            r.1 == may_change(meta@, user@),
            r.0@ == if may_change(meta@, user@) {
                "Done — this conversation's history and model override were reset."@
            } else {
                denial_text(meta@.owner->0)
            },
    {
        match owner_denied(meta, user) {
            Some(denied) => (denied, false),
            None => (
                "Done — this conversation's history and model override were reset.".to_owned(),
                true,
            ),
        }
    }
}

/// The metadata once `!model` was finished: a model in the catalog is the
/// override, any other changes nothing.
pub open spec fn with_model(
    meta: MetaView,
    provider: Seq<char>,
    model: Seq<char>,
    in_catalog: bool,
) -> MetaView {
    if in_catalog {
        MetaView { owner: meta.owner, model: Some(meta::model_spec((provider, model))) }
    } else {
        meta
    }
}

/// The reply that finishes `!model`.
pub open spec fn model_reply(provider: Seq<char>, model: Seq<char>, in_catalog: bool) -> Seq<
    char,
> {
    if in_catalog {
        "Model set to `"@ + meta::model_spec((provider, model)) + "` for this conversation."@
    } else {
        "Unknown model `"@ + meta::model_spec((provider, model)) + "` — see `!models`."@
    }
}

/// Finish `!model` with what the catalog said: a known model becomes the
/// conversation's override, an unknown one changes nothing. The reply.
pub fn set_model(
    meta: &mut ConversationMeta,
    provider: &str,
    model: &str,
    in_catalog: bool,
) -> (r: String)
    ensures
        final(meta)@ == with_model(old(meta)@, provider@, model@, in_catalog),
        r@ == model_reply(provider@, model@, in_catalog),
        in_catalog ==> {
            &&& final(meta)@ == (MetaView {
                owner: old(meta)@.owner,
                model: Some(meta::model_spec((provider@, model@))),
            })
            &&& r@ == "Model set to `"@ + meta::model_spec((provider@, model@))
                + "` for this conversation."@
        },
        !in_catalog ==> {
            &&& final(meta)@ == old(meta)@
            &&& r@ == "Unknown model `"@ + meta::model_spec((provider@, model@))
                + "` — see `!models`."@
        },
{
    let spec = meta::join_model_spec(provider, model);
    if !in_catalog {
        let mut out: String = "Unknown model `".to_owned();
        out.append(spec.as_str());
        out.append("` — see `!models`.");
        return out;
    }
    let mut out: String = "Model set to `".to_owned();
    out.append(spec.as_str());
    out.append("` for this conversation.");
    meta.model = Some(spec);
    out
}

/// What goes into the prompt of a turn: a body in place of the default one, or
/// sections appended to it.
#[derive(Debug, PartialEq, Eq)]
pub struct PromptSpec {
    pub custom: Option<String>,
    pub append: Option<Vec<String>>,
}

/// The sections of a tool-aware prompt: the skills notice, then the system
/// prompt.
pub open spec fn appended(system: Option<Seq<char>>, skills_notice: Option<Seq<char>>) -> Seq<
    Seq<char>,
> {
    let head = match skills_notice {
        Some(notice) => seq![notice],
        None => seq![],
    };
    match system {
        Some(system) => head.push(system),
        None => head,
    }
}

/// The mathematical form of a [`PromptSpec`].
pub struct PromptView {
    pub custom: Option<Seq<char>>,
    pub append: Option<Seq<Seq<char>>>,
}

impl View for PromptSpec {
    type V = PromptView;

    open spec fn view(&self) -> PromptView {
        PromptView {
            custom: text::opt_text(self.custom),
            append: match self.append {
                Some(v) => Some(text::texts(v@)),
                None => None,
            },
        }
    }
}

/// The prompt of a turn: with tools, what there is to append to the default
/// body; without, the system prompt in its place.
pub open spec fn prompt_parts(
    tools_enabled: bool,
    system: Option<Seq<char>>,
    skills_notice: Option<Seq<char>>,
) -> PromptView {
    let sections = appended(system, skills_notice);
    if !tools_enabled {
        PromptView { custom: system, append: None }
    } else if sections.len() == 0 {
        PromptView { custom: None, append: None }
    } else {
        PromptView { custom: None, append: Some(sections) }
    }
}

/// The prompt of a turn. With tools, the skills notice and the system prompt
/// are appended to the default (tool-aware) body; without, the system prompt
/// replaces it.
pub fn prompt_spec_for(
    tools_enabled: bool,
    system: Option<&str>,
    skills_notice: Option<&str>,
) -> (r: PromptSpec)
    ensures
        r@ == prompt_parts(tools_enabled, text::opt_str(system), text::opt_str(skills_notice)),
{
    if tools_enabled {
        let mut append: Vec<String> = Vec::new();
        if let Some(notice) = skills_notice {
            append.push(notice.to_owned());
        }
        if let Some(system) = system {
            append.push(system.to_owned());
        }
        assert(text::texts(append@) =~= appended(
            text::opt_str(system),
            text::opt_str(skills_notice),
        ));
        if append.len() == 0 {
            return PromptSpec { custom: None, append: None };
        }
        PromptSpec { custom: None, append: Some(append) }
    } else {
        let custom: Option<String> = match system {
            Some(system) => Some(system.to_owned()),
            None => None,
        };
        PromptSpec { custom, append: None }
    }
}

/// Where a turn works: `here` without tools, in the channel's workspace on the
/// host, in the container's own directory in a sandbox.
pub open spec fn working_dir<P>(tools: ToolMode, workspace: Option<P>, here: P, guest: P) -> P {
    match tools {
        ToolMode::TextOnly => here,
        ToolMode::Host => workspace->0,
        ToolMode::Sandbox => guest,
    }
}

/// What a turn's session is made with; `P` is the caller's own path type.
pub struct Session<P> {
    /// The working directory.
    pub cwd: P,
    pub prompt: PromptSpec,
    /// Whether the model may use tools at all.
    pub tools_enabled: bool,
}

impl Engine {
    /// What a turn's session is made with. It works in `here` without tools, in
    /// the channel's prepared `workspace` on the host, and in `guest`, the
    /// container's own directory, in a sandbox.
    pub fn session<P>(&self, system: Option<&str>, workspace: Option<P>, here: P, guest: P) -> (r:
        Session<P>)
        requires
            self.tools == ToolMode::Host ==> workspace is Some,
        ensures
            r.cwd == working_dir(self.tools, workspace, here, guest),
            r.cwd == match self.tools {
                ToolMode::TextOnly => here,
                ToolMode::Host => workspace->0,
                ToolMode::Sandbox => guest,
            },
            r.tools_enabled == (self.tools != ToolMode::TextOnly),
            r.prompt@ == prompt_parts(
                self.tools != ToolMode::TextOnly,
                text::opt_str(system),
                text::opt_text(self.skills_notice),
            ),
    {
        let tools_enabled = self.tools != ToolMode::TextOnly;
        let notice: Option<&str> = match &self.skills_notice {
            Some(notice) => Some(notice.as_str()),
            None => None,
        };
        let prompt = prompt_spec_for(tools_enabled, system, notice);
        let cwd: P = match (self.tools, workspace) {
            (ToolMode::Host, Some(workspace)) => workspace,
            (ToolMode::Sandbox, _) => guest,
            _ => here,
        };
        Session { cwd, prompt, tools_enabled }
    }
}

/// What a running turn reports.
#[derive(Debug, PartialEq, Eq)]
pub enum TurnEvent {
    /// More of the reply.
    Text(String),
    Done,
    Error(String),
    /// Anything that the reply does not depend on.
    Other,
}

/// What a turn's event asks of the loop that runs it.
#[derive(Debug, PartialEq, Eq)]
pub enum TurnStep {
    /// Show the text so far.
    Show,
    /// Go on.
    Continue,
    /// The turn is over.
    Finish,
    /// The turn failed.
    Fail(EngineError),
}

/// The mathematical form of a [`TurnStep`].
pub enum TurnStepView {
    Show,
    Continue,
    Finish,
    Fail(ErrorView),
}

impl View for TurnStep {
    type V = TurnStepView;

    open spec fn view(&self) -> TurnStepView {
        match self {
            TurnStep::Show => TurnStepView::Show,
            TurnStep::Continue => TurnStepView::Continue,
            TurnStep::Finish => TurnStepView::Finish,
            TurnStep::Fail(e) => TurnStepView::Fail(e@),
        }
    }
}

/// What a turn's event asks of the loop that runs it.
pub open spec fn turn_step(event: TurnEvent) -> TurnStepView {
    match event {
        TurnEvent::Text(_) => TurnStepView::Show,
        TurnEvent::Done => TurnStepView::Finish,
        TurnEvent::Error(message) => TurnStepView::Fail(
            ErrorView::TurnFailed { message: message@ },
        ),
        TurnEvent::Other => TurnStepView::Continue,
    }
}

/// A turn's reply as it streams in.
#[derive(Debug)]
pub struct Turn {
    text: String,
}

impl View for Turn {
    type V = Seq<char>;

    closed spec fn view(&self) -> Seq<char> {
        self.text@
    }
}

/// The reply of a turn that streamed `text`: a turn without text still gets a
/// visible one.
pub open spec fn reply_of(text: Seq<char>) -> Seq<char> {
    if text::trimmed(text).len() == 0 {
        "(the model returned no text)"@
    } else {
        text
    }
}

/// The text after one more event.
pub open spec fn streamed(text: Seq<char>, event: TurnEvent) -> Seq<char> {
    match event {
        TurnEvent::Text(delta) => text + delta@,
        _ => text,
    }
}

impl Turn {
    /// A turn that has streamed nothing.
    pub fn new() -> (r: Turn)
        ensures
            r@ == Seq::<char>::empty(),
    {
        Turn { text: String::new() }
    }

    /// The text so far.
    pub fn text(&self) -> (r: &str)
        ensures
            r@ == self@,
    {
        self.text.as_str()
    }

    /// Take in one event: text is added to the reply and shown, an end or a
    /// failure ends the turn, anything else changes nothing.
    pub fn step(&mut self, event: TurnEvent) -> (r: TurnStep)
        ensures
            final(self)@ == streamed(old(self)@, event),
            r@ == turn_step(event),
            match event {
                TurnEvent::Text(_) => r is Show,
                TurnEvent::Done => r is Finish,
                TurnEvent::Error(message) => r matches TurnStep::Fail(e) && e@
                    == (ErrorView::TurnFailed { message: message@ }),
                TurnEvent::Other => r is Continue,
            },
    {
        match event {
            TurnEvent::Text(delta) => {
                self.text.append(delta.as_str());
                TurnStep::Show
            },
            TurnEvent::Done => TurnStep::Finish,
            TurnEvent::Error(message) => TurnStep::Fail(EngineError::TurnFailed { message }),
            TurnEvent::Other => TurnStep::Continue,
        }
    }

    /// The final reply.
    pub fn reply(&self) -> (r: String)
        ensures
            r@ == reply_of(self@),
    {
        if text::trim(self.text.as_str()).is_empty() {
            "(the model returned no text)".to_owned()
        } else {
            self.text.clone()
        }
    }
}

/// Who said a stored message.
#[derive(Debug, Clone, Copy, PartialEq, Eq, Structural)]
pub enum Role {
    User,
    Assistant,
}

/// A message of a conversation's history.
#[derive(Debug, PartialEq, Eq)]
pub struct Entry {
    pub role: Role,
    pub text: String,
}

/// Who said what in a history.
pub open spec fn entries_view(v: Seq<Entry>) -> Seq<(Role, Seq<char>)> {
    v.map_values(|e: Entry| (e.role, e.text@))
}

/// What a turn adds to the conversation's history: the prompt, then the reply.
pub open spec fn entries_of(prompt: Seq<char>, reply: Seq<char>) -> Seq<(Role, Seq<char>)> {
    seq![(Role::User, prompt), (Role::Assistant, reply)]
}

/// What a turn adds to the conversation's history: the prompt, then the reply.
pub fn turn_entries(prompt: &str, reply: &str) -> (r: Vec<Entry>)
    ensures
        entries_view(r@) == entries_of(prompt@, reply@),
        r@.len() == 2,
        r@[0].role == Role::User && r@[0].text@ == prompt@,
        r@[1].role == Role::Assistant && r@[1].text@ == reply@,
{
    let mut out: Vec<Entry> = Vec::new();
    out.push(Entry { role: Role::User, text: prompt.to_owned() });
    out.push(Entry { role: Role::Assistant, text: reply.to_owned() });
    assert(entries_view(out@) =~= entries_of(prompt@, reply@));
    out
}

} // verus!
