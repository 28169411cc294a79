//! Configuration data: the validated shape the startup code hands the app,
//! and the normalization applied to it. Reading and parsing the
//! configuration file happens outside this crate.

use vstd::prelude::*;
use vstd::string::{StrSliceExecFns, StringExecFns};
use std::collections::HashMap;

verus! {

/// The configured layout mode. Carried but without behavioral effect in
/// this core.
#[derive(Clone, Copy, PartialEq, Eq, Structural, Debug)]
pub enum LayoutConfig {
    Scroll,
    Fixed,
}

impl Default for LayoutConfig {
    fn default() -> (l: LayoutConfig)
        ensures
            l == LayoutConfig::Scroll,
    {
        LayoutConfig::Scroll
    }
}

/// One configured pane: label, optional command line, optional working
/// directory, and extra environment entries.
#[derive(Clone, Debug)]
pub struct PaneConfig {
    pub name: String,
    pub command: Option<String>,
    pub cwd: Option<String>,
    pub env: HashMap<String, String>,
}

impl PaneConfig {
    /// The "Shell" pane injected when a configuration lists no panes.
    pub fn shell_default() -> (p: PaneConfig)
        ensures
            p.name@ == "Shell"@,
            p.command is None,
            p.cwd is None,
            p.env@.len() == 0,
    {
        PaneConfig {
            name: String::from_str("Shell"),
            command: None,
            cwd: None,
            env: HashMap::new(),
        }
    }
}

/// A configured working directory resolved against the home directory: a
/// path starting with `~/` has the tilde replaced by the home path; a bare
/// leading `~` without a slash is appended to the home path as it stands;
/// without a home, or without a leading tilde, the path is kept literally.
pub open spec fn spec_resolve_cwd(s: Seq<char>, home: Option<Seq<char>>) -> Seq<char> {
    if s.len() >= 1 && s[0] == '~' {
        match home {
            Some(h) => if s.len() >= 2 && s[1] == '/' {
                h + seq!['/'] + s.skip(2)
            } else {
                h + seq!['/'] + s
            },
            None => s,
        }
    } else {
        s
    }
}

/// The validated configuration.
#[derive(Clone, Debug)]
pub struct Config {
    pub default_shell: String,
    pub layout: LayoutConfig,
    pub panes: Vec<PaneConfig>,
}

impl Config {
    /// The built-in configuration for a given default shell: scroll layout
    /// and one "Shell" pane.
    pub fn base(default_shell: String) -> (c: Config)
        ensures
            c.default_shell == default_shell,
            c.layout == LayoutConfig::Scroll,
            c.panes@.len() == 1,
            c.panes@[0].name@ == "Shell"@,
            c.panes@[0].command is None,
            c.panes@[0].cwd is None,
            c.panes@[0].env@.len() == 0,
    {
        let mut panes: Vec<PaneConfig> = Vec::new();
        panes.push(PaneConfig::shell_default());
        Config { default_shell, layout: LayoutConfig::Scroll, panes }
    }

    /// Resolve a configured working directory against the user's home
    /// directory; see [`spec_resolve_cwd`]. The host side supplies the home
    /// path and turns the result into a filesystem path.
    pub fn resolve_cwd(cwd: &Option<String>, home: &Option<String>) -> (r: Option<String>)
        ensures
            r is Some <==> cwd is Some,
            r matches Some(rs) ==> cwd matches Some(cs) && rs@ == spec_resolve_cwd(
                cs@,
                match home {
                    Some(h) => Some(h@),
                    None => None,
                },
            ),
    {
        match cwd {
            None => None,
            Some(s) => {
                let n = s.as_str().unicode_len();
                if n >= 1 && s.as_str().get_char(0) == '~' {
                    match home {
                        Some(h) => {
                            proof {
                                reveal_strlit("/");
                            }
                            let mut out = h.clone();
                            out.append("/");
                            if n >= 2 && s.as_str().get_char(1) == '/' {
                                out.append(s.as_str().substring_char(2, n));
                            } else {
                                out.append(s.as_str());
                            }
                            assert(out@ =~= spec_resolve_cwd(s@, Some(h@)));
                            Some(out)
                        },
                        None => Some(s.clone()),
                    }
                } else {
                    Some(s.clone())
                }
            },
        }
    }

    /// Normalization applied after parsing: an empty pane list receives the
    /// default "Shell" pane; everything else is left as it is.
    pub fn ensure_default_pane(&mut self)
        ensures
            old(self).panes@.len() > 0 ==> *final(self) == *old(self),
            final(self).default_shell == old(self).default_shell,
            final(self).layout == old(self).layout,
            final(self).panes@.len() > 0,
            old(self).panes@.len() == 0 ==> {
                &&& final(self).panes@.len() == 1
                &&& final(self).panes@[0].name@ == "Shell"@
                &&& final(self).panes@[0].command is None
                &&& final(self).panes@[0].cwd is None
                &&& final(self).panes@[0].env@.len() == 0
            },
    {
        if self.panes.len() == 0 {
            self.panes.push(PaneConfig::shell_default());
        }
    }
}

} // verus!
