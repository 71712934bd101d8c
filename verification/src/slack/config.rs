//! The Slack side of the config: the lifecycle reaction emojis, the access
//! allowlist (keyed by Slack ids) and the reply to a denied user.
use vstd::prelude::*;

use crate::access;
use crate::access::Access;
use crate::text;

verus! {

/// The Slack backend's config.
#[derive(Debug)]
pub struct SlackConfig {
    /// The lifecycle reaction emojis.
    pub reactions: Reactions,
    /// Who may make the bot take a turn, where.
    pub access: Access,
    /// The optional reply to a denied user who addresses the bot.
    pub denial: Denial,
}

impl Default for SlackConfig {
    /// The built-in emojis, nobody admitted, silence for the denied.
    fn default() -> (r: SlackConfig)
        ensures
            r.reactions.is_default(),
            r.access@ == access::deny_all(),
            r.denial.message is None,
    {
        SlackConfig {
            reactions: Reactions::default(),
            access: Access::default(),
            denial: Denial::default(),
        }
    }
}

impl Clone for SlackConfig {
    fn clone(&self) -> (r: SlackConfig)
        ensures
            r.reactions == self.reactions,
            r.access@ == self.access@,
            r.denial == self.denial,
    {
        SlackConfig {
            reactions: self.reactions.clone(),
            access: self.access.clone(),
            denial: self.denial.clone(),
        }
    }
}

/// The reply to a denied user who addresses the bot. Without a message they are
/// met with silence.
#[derive(Debug)]
pub struct Denial {
    /// Markdown sent to a denied user. `None` sends nothing.
    pub message: Option<String>,
}

impl Default for Denial {
    fn default() -> (r: Denial)
        ensures
            r.message is None,
    {
        Denial { message: None }
    }
}

impl Clone for Denial {
    fn clone(&self) -> (r: Denial)
        ensures
            r == *self,
    {
        Denial { message: text::copy_text(&self.message) }
    }
}

/// The lifecycle reaction emojis (Slack short names, no colons). An empty one
/// is disabled.
#[derive(Debug)]
pub struct Reactions {
    /// Added while a turn is being handled.
    pub seen: String,
    /// Added when the turn succeeds.
    pub done: String,
    /// Added when the turn fails.
    pub failed: String,
}

impl Reactions {
    /// The built-in emojis.
    pub open spec fn is_default(self) -> bool {
        &&& self.seen@ == "eyes"@
        &&& self.done@ == "white_check_mark"@
        &&& self.failed@ == "x"@
    }
}

impl Default for Reactions {
    fn default() -> (r: Reactions)
        ensures
            r.is_default(),
    {
        Reactions {
            seen: "eyes".to_owned(),
            done: "white_check_mark".to_owned(),
            failed: "x".to_owned(),
        }
    }
}

impl Clone for Reactions {
    fn clone(&self) -> (r: Reactions)
        ensures
            r == *self,
    {
        Reactions {
            seen: self.seen.clone(),
            done: self.done.clone(),
            failed: self.failed.clone(),
        }
    }
}

/// Left out of the config, a turn is marked while it is handled, when it
/// succeeds and when it fails, each with an emoji of its own.
pub proof fn law_what_the_reactions_default_to(r: Reactions)
    ensures
        r.is_default() <==> r.seen@ == "eyes"@ && r.done@ == "white_check_mark"@ && r.failed@
            == "x"@,
        r.is_default() ==> r.seen@ != r.done@ && r.done@ != r.failed@ && r.seen@ != r.failed@
            && r.seen@.len() > 0 && r.done@.len() > 0 && r.failed@.len() > 0,
{
    reveal_strlit("eyes");
    reveal_strlit("white_check_mark");
    reveal_strlit("x");
    assert("eyes"@.len() == 4);
    assert("white_check_mark"@.len() == 16);
    assert("x"@.len() == 1);
}

} // verus!
