//! The bot to run: a config, and where its skills live.
use vstd::prelude::*;

use crate::config::Config;

verus! {

/// A bot to run: a [`Config`] plus where its skills live, as a path of the
/// caller's own type.
pub struct Bot<P> {
    pub config: Config,
    /// The skills directory; `None` disables skills.
    pub skills_dir: Option<P>,
}

impl<P> Bot<P> {
    /// Start from a config and the default skills directory, if there is one.
    pub fn new(config: Config, skills_dir: Option<P>) -> (r: Bot<P>)
        ensures
            r.config == config,
            r.skills_dir == skills_dir,
    {
        Bot { config, skills_dir }
    }

    /// Override the skills directory provisioned into each tool workspace.
    pub fn skills_dir(self, dir: P) -> (r: Bot<P>)
        ensures
            r.config == self.config,
            r.skills_dir == Some(dir),
    {
        Bot { config: self.config, skills_dir: Some(dir) }
    }

    /// Disable skills entirely.
    pub fn no_skills(self) -> (r: Bot<P>)
        ensures
            r.config == self.config,
            r.skills_dir is None,
    {
        Bot { config: self.config, skills_dir: None }
    }
}

} // verus!
