//! The backend-neutral config: the model settings, storage, the tool sandbox
//! and the `!help` listing. How it is obtained (a file, the environment,
//! another format) is the binary's job. What a backend needs on top of it lives
//! with that backend.
use vstd::prelude::*;

use crate::text;

verus! {

/// The backend-neutral runtime config.
#[derive(Debug)]
pub struct Config {
    /// The model settings.
    pub agent: Agent,
    /// Where the bot persists conversation history and memory files.
    pub storage: Storage,
    /// The tool sandbox.
    pub sandbox: Sandbox,
    /// What `!help` lists besides the registered commands.
    pub help: Help,
}

impl Default for Config {
    /// Every table at its defaults: a text-only bot.
    fn default() -> (r: Config)
        ensures
            r.agent.is_default(),
            r.storage.is_default(),
            r.sandbox.is_default(),
            r.help.is_default(),
    {
        Config {
            agent: Agent::default(),
            storage: Storage::default(),
            sandbox: Sandbox::default(),
            help: Help::default(),
        }
    }
}

impl Clone for Config {
    fn clone(&self) -> (r: Config)
        ensures
            r.agent == self.agent,
            r.storage == self.storage,
            r.sandbox.says(self.sandbox),
            r.help.says(self.help),
    {
        Config {
            agent: self.agent.clone(),
            storage: self.storage.clone(),
            sandbox: self.sandbox.clone(),
            help: self.help.clone(),
        }
    }
}

/// How the agent's tools are executed for a turn.
#[derive(Debug, Clone, Copy, PartialEq, Eq, Structural)]
pub enum ToolMode {
    /// Text-only: no tools run anywhere (the default).
    TextOnly,
    /// Tools run in the bot's own process. Meant for a deployment where that
    /// process is the isolation boundary.
    Host,
    /// Tools run in an isolated per-channel container.
    Sandbox,
}

impl Default for ToolMode {
    fn default() -> (r: ToolMode)
        ensures
            r == ToolMode::TextOnly,
    {
        ToolMode::TextOnly
    }
}

impl ToolMode {
    /// The mode as the config spells it.
    pub open spec fn named(self) -> Seq<char> {
        match self {
            ToolMode::TextOnly => "none"@,
            ToolMode::Host => "host"@,
            ToolMode::Sandbox => "sandbox"@,
        }
    }

    /// The mode as the config spells it.
    pub fn name(self) -> (r: &'static str)
        ensures
            r@ == self.named(),
    {
        match self {
            ToolMode::TextOnly => "none",
            ToolMode::Host => "host",
            ToolMode::Sandbox => "sandbox",
        }
    }
}

/// Which provider and model a turn runs on, an optional standing system prompt,
/// and how tools execute. The provider's API key is never part of the config.
#[derive(Debug)]
pub struct Agent {
    /// The provider id.
    pub provider: String,
    /// The model id; `None` uses the catalog's default model for the provider.
    pub model: Option<String>,
    /// An optional standing system prompt.
    pub system_prompt: Option<String>,
    /// How tools execute.
    pub tools: ToolMode,
}

impl Agent {
    /// Anthropic, the catalog's default model, no system prompt, no tools.
    pub open spec fn is_default(self) -> bool {
        &&& self.provider@ == "anthropic"@
        &&& self.model is None
        &&& self.system_prompt is None
        &&& self.tools == ToolMode::TextOnly
    }
}

impl Default for Agent {
    fn default() -> (r: Agent)
        ensures
            r.is_default(),
    {
        Agent {
            provider: "anthropic".to_owned(),
            model: None,
            system_prompt: None,
            tools: ToolMode::TextOnly,
        }
    }
}

impl Clone for Agent {
    fn clone(&self) -> (r: Agent)
        ensures
            r == *self,
    {
        Agent {
            provider: self.provider.clone(),
            model: text::copy_text(&self.model),
            system_prompt: text::copy_text(&self.system_prompt),
            tools: self.tools,
        }
    }
}

/// Where the bot keeps its on-disk state: conversation transcripts and the
/// durable facts files. Holds conversation content, so place it accordingly.
#[derive(Debug)]
pub struct Storage {
    /// The data directory.
    pub dir: String,
    /// Where the durable facts live; `None` uses `dir`.
    pub memory_dir: Option<String>,
}

impl Storage {
    /// `tapir-bot-data` in the working directory, facts included.
    pub open spec fn is_default(self) -> bool {
        self.dir@ == "tapir-bot-data"@ && self.memory_dir is None
    }
}

impl Default for Storage {
    fn default() -> (r: Storage)
        ensures
            r.is_default(),
    {
        Storage { dir: "tapir-bot-data".to_owned(), memory_dir: None }
    }
}

impl Clone for Storage {
    fn clone(&self) -> (r: Storage)
        ensures
            r == *self,
    {
        Storage { dir: self.dir.clone(), memory_dir: text::copy_text(&self.memory_dir) }
    }
}

/// The tool sandbox: one persistent container per channel. Read only when the
/// tool mode is [`ToolMode::Sandbox`].
#[derive(Debug)]
pub struct Sandbox {
    /// The container image.
    pub image: String,
    /// Memory cap, in the runtime's syntax.
    pub memory: String,
    /// CPU cap, in the runtime's syntax.
    pub cpus: String,
    /// Cap on concurrent processes.
    pub pids: u32,
    /// Container network mode. `None` is the runtime's default bridge.
    pub network: Option<String>,
    /// Minutes without a turn before a channel's sandbox is stopped.
    pub idle_minutes: u64,
    /// Names of the environment variables to pass into the container.
    pub env: Vec<String>,
}

impl Sandbox {
    /// The built-in caps, egress on, nothing passed in.
    pub open spec fn is_default(self) -> bool {
        &&& self.image@ == "alpine:3.20"@
        &&& self.memory@ == "1g"@
        &&& self.cpus@ == "2"@
        &&& self.pids == 256
        &&& self.network is None
        &&& self.idle_minutes == 30
        &&& self.env@.len() == 0
    }

    /// Whether the two say the same.
    pub open spec fn says(self, other: Sandbox) -> bool {
        &&& self.image == other.image
        &&& self.memory == other.memory
        &&& self.cpus == other.cpus
        &&& self.pids == other.pids
        &&& self.network == other.network
        &&& self.idle_minutes == other.idle_minutes
        &&& text::texts(self.env@) == text::texts(other.env@)
    }
}

impl Default for Sandbox {
    fn default() -> (r: Sandbox)
        ensures
            r.is_default(),
    {
        Sandbox {
            image: "alpine:3.20".to_owned(),
            memory: "1g".to_owned(),
            cpus: "2".to_owned(),
            pids: 256,
            network: None,
            idle_minutes: 30,
            env: Vec::new(),
        }
    }
}

impl Clone for Sandbox {
    fn clone(&self) -> (r: Sandbox)
        ensures
            r.says(*self),
            r.image@ == self.image@ && r.memory@ == self.memory@ && r.cpus@ == self.cpus@,
            r.pids == self.pids && r.idle_minutes == self.idle_minutes,
            text::opt_text(r.network) == text::opt_text(self.network),
            text::texts(r.env@) == text::texts(self.env@),
    {
        Sandbox {
            image: self.image.clone(),
            memory: self.memory.clone(),
            cpus: self.cpus.clone(),
            pids: self.pids,
            network: text::copy_text(&self.network),
            idle_minutes: self.idle_minutes,
            env: text::copy_texts(&self.env),
        }
    }
}

/// What `!help` lists: which built-ins to leave out, and rows to add.
#[derive(Debug)]
pub struct Help {
    /// Names of the built-in commands that are not listed.
    pub hide: Vec<String>,
    /// Rows listed after the commands.
    pub extra: Vec<HelpRow>,
}

impl Help {
    /// Nothing hidden, nothing added.
    pub open spec fn is_default(self) -> bool {
        self.hide@.len() == 0 && self.extra@.len() == 0
    }

    /// Whether the two say the same.
    pub open spec fn says(self, other: Help) -> bool {
        text::texts(self.hide@) == text::texts(other.hide@) && self.extra@ == other.extra@
    }
}

impl Default for Help {
    fn default() -> (r: Help)
        ensures
            r.is_default(),
    {
        Help { hide: Vec::new(), extra: Vec::new() }
    }
}

impl Clone for Help {
    fn clone(&self) -> (r: Help)
        ensures
            r.says(*self),
            text::texts(r.hide@) == text::texts(self.hide@),
            r.extra@ == self.extra@,
    {
        let mut extra: Vec<HelpRow> = Vec::new();
        let mut i: usize = 0;
        while i < self.extra.len()
            invariant
                i <= self.extra@.len(),
                extra@ == self.extra@.take(i as int),
            decreases self.extra@.len() - i,
        {
            extra.push(self.extra[i].clone());
            assert(self.extra@.take(i + 1) =~= self.extra@.take(i as int).push(
                self.extra@[i as int],
            ));
            i = i + 1;
        }
        assert(self.extra@.take(i as int) =~= self.extra@);
        Help { hide: text::copy_texts(&self.hide), extra }
    }
}

/// One added `!help` row.
#[derive(Debug)]
pub struct HelpRow {
    /// The command as shown.
    pub command: String,
    /// Its one-line description.
    pub description: String,
}

impl Clone for HelpRow {
    fn clone(&self) -> (r: HelpRow)
        ensures
            r == *self,
    {
        HelpRow { command: self.command.clone(), description: self.description.clone() }
    }
}

/// No two tool modes are spelled alike, and each is spelled as the config
/// spells it.
pub proof fn law_tool_modes_are_told_apart(mode: ToolMode, other: ToolMode)
    ensures
        mode.named() == other.named() <==> mode == other,
        mode.named() == "none"@ <==> mode is TextOnly,
        mode.named() == "host"@ <==> mode is Host,
        mode.named() == "sandbox"@ <==> mode is Sandbox,
{
    reveal_strlit("none");
    reveal_strlit("host");
    reveal_strlit("sandbox");
    assert("none"@[0] != "host"@[0]);
    assert("none"@.len() != "sandbox"@.len());
    assert("host"@.len() != "sandbox"@.len());
}

/// Left out of the config, the tools are off, the model is the catalog's for
/// its default provider, the state is kept in one directory, nothing of the
/// environment reaches a sandbox, and `!help` neither hides nor adds a row.
pub proof fn law_what_a_config_defaults_to(
    agent: Agent,
    storage: Storage,
    sandbox: Sandbox,
    help: Help,
)
    ensures
        agent.is_default() <==> agent.provider@ == "anthropic"@ && agent.model is None
            && agent.system_prompt is None && agent.tools is TextOnly,
        storage.is_default() <==> storage.dir@ == "tapir-bot-data"@ && storage.memory_dir is None,
        sandbox.is_default() <==> sandbox.image@ == "alpine:3.20"@ && sandbox.memory@ == "1g"@
            && sandbox.cpus@ == "2"@ && sandbox.pids == 256 && sandbox.network is None
            && sandbox.idle_minutes == 30 && sandbox.env@ == Seq::<String>::empty(),
        help.is_default() <==> help.hide@ == Seq::<String>::empty() && help.extra@ == Seq::<
            HelpRow,
        >::empty(),
{
    assert(sandbox.env@.len() == 0 <==> sandbox.env@ =~= Seq::<String>::empty());
    assert(help.hide@.len() == 0 <==> help.hide@ =~= Seq::<String>::empty());
    assert(help.extra@.len() == 0 <==> help.extra@ =~= Seq::<HelpRow>::empty());
}

/// Two sandboxes say the same just when every setting is the same: of each
/// variable passed in, at its place, the name; two listings just when they hide
/// the same names and add the same rows.
pub proof fn law_what_saying_the_same_takes(a: Sandbox, b: Sandbox, h: Help, g: Help)
    ensures
        a.says(b) <==> a.image == b.image && a.memory == b.memory && a.cpus == b.cpus && a.pids
            == b.pids && a.network == b.network && a.idle_minutes == b.idle_minutes
            && a.env@.len() == b.env@.len() && forall|k: int|
            0 <= k < a.env@.len() ==> (#[trigger] a.env@[k])@ == b.env@[k]@,
        h.says(g) <==> h.extra@ == g.extra@ && h.hide@.len() == g.hide@.len() && forall|k: int|
            0 <= k < h.hide@.len() ==> (#[trigger] h.hide@[k])@ == g.hide@[k]@,
{
    lemma_same_texts(a.env@, b.env@);
    lemma_same_texts(h.hide@, g.hide@);
}

proof fn lemma_same_texts(v: Seq<String>, w: Seq<String>)
    ensures
        text::texts(v) == text::texts(w) <==> v.len() == w.len() && forall|k: int|
            0 <= k < v.len() ==> (#[trigger] v[k])@ == w[k]@,
{
    if text::texts(v) == text::texts(w) {
        assert(text::texts(v).len() == v.len() && text::texts(w).len() == w.len());
        assert forall|k: int| 0 <= k < v.len() implies (#[trigger] v[k])@ == w[k]@ by {
            assert(text::texts(v)[k] == v[k]@ && text::texts(w)[k] == w[k]@);
        }
    }
    if v.len() == w.len() && forall|k: int| 0 <= k < v.len() ==> (#[trigger] v[k])@ == w[k]@ {
        assert(text::texts(v) =~= text::texts(w));
    }
}

} // verus!
