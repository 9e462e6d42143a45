//! What a request needs of the configuration: the configured executable and
//! the working directory.

use crate::config::app_config::AppConfig;
use crate::paths::home_dir;
use vstd::prelude::*;

verus! {

/// How many recent projects are kept.
pub const MAX_RECENT_PROJECTS: usize = 10;

/// The configuration values that requests work with.
#[derive(Debug, Clone, PartialEq, Eq)]
pub struct ConfigContext {
    pub asdf_path: Option<String>,
    pub cwd: Option<String>,
}

/// What a [`ConfigContext`] holds.
pub struct ConfigContextView {
    pub asdf_path: Option<Seq<char>>,
    pub cwd: Option<Seq<char>>,
}

impl DeepView for ConfigContext {
    type V = ConfigContextView;

    open spec fn deep_view(&self) -> ConfigContextView {
        ConfigContextView { asdf_path: self.asdf_path.deep_view(), cwd: self.cwd.deep_view() }
    }
}

/// The context of a configuration; that of none is empty.
pub open spec fn context_of(config: Option<crate::config::app_config::AppConfigView>) -> ConfigContextView {
    match config {
        Some(c) => ConfigContextView { asdf_path: c.asdf_binary_path, cwd: c.working_directory },
        None => ConfigContextView { asdf_path: None, cwd: None },
    }
}

/// The working directory, else the home directory, else the empty path.
pub open spec fn cwd_or_spec(cwd: Option<Seq<char>>, home: Option<Seq<char>>) -> Seq<char> {
    match cwd {
        Some(d) => d,
        None => match home {
            Some(h) => h,
            None => Seq::empty(),
        },
    }
}

/// A copy of an optional string.
pub fn copy_of(s: &Option<String>) -> (r: Option<String>)
    ensures
        r.deep_view() == s.deep_view(),
{
    match s {
        Some(x) => Some(x.clone()),
        None => None,
    }
}

impl ConfigContext {
    /// The context of the configuration that was read, or of none where
    /// reading it failed.
    pub fn load(config: Option<&AppConfig>) -> (r: ConfigContext)
        ensures
            r.deep_view() == context_of(config.deep_view()),
    {
        match config {
            Some(c) => ConfigContext {
                asdf_path: copy_of(&c.asdf_binary_path),
                cwd: copy_of(&c.working_directory),
            },
            None => ConfigContext { asdf_path: None, cwd: None },
        }
    }

    /// The working directory, with `home` in its place where none is configured.
    pub fn cwd_or(&self, home: Option<&str>) -> (r: String)
        ensures
            r@ == cwd_or_spec(self.deep_view().cwd, home.deep_view()),
    {
        match &self.cwd {
            Some(d) => d.clone(),
            None => match home {
                Some(h) => h.to_owned(),
                None => String::new(),
            },
        }
    }

    /// The working directory, with the home directory that the environment
    /// names in its place where none is configured. Whatever it names, the
    /// result is the one for some home directory or for none.
    pub fn cwd_or_home(&self) -> (r: String)
        ensures
            exists|home: Option<Seq<char>>| r@ == cwd_or_spec(self.deep_view().cwd, home),
    {
        match &self.cwd {
            Some(d) => {
                let r = d.clone();
                assert(r@ == cwd_or_spec(self.deep_view().cwd, None));
                r
            },
            None => {
                let home = home_dir();
                let r = match &home {
                    Some(h) => self.cwd_or(Some(h.as_str())),
                    None => self.cwd_or(None),
                };
                assert(r@ == cwd_or_spec(self.deep_view().cwd, home.deep_view()));
                r
            },
        }
    }
}

} // verus!
