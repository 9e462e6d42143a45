//! The configuration record, where its file lies, and how `asdf`'s own
//! configuration file is read.

use crate::asdf::parser::{read_records, records};
use crate::error::{AppError, AppErrorView};
use crate::paths::{home_dir, join_path, joined};
use crate::text::{find_char, first_index, lines, string_of, trim, trim_of};
use vstd::prelude::*;

verus! {

/// A project directory that was opened before.
#[derive(Debug, Clone, PartialEq, Eq)]
pub struct RecentProject {
    pub path: String,
    pub name: String,
    /// Seconds since the Unix epoch.
    pub last_opened: u64,
}

/// What a [`RecentProject`] holds.
pub struct RecentProjectView {
    pub path: Seq<char>,
    pub name: Seq<char>,
    pub last_opened: u64,
}

impl DeepView for RecentProject {
    type V = RecentProjectView;

    open spec fn deep_view(&self) -> RecentProjectView {
        RecentProjectView { path: self.path@, name: self.name@, last_opened: self.last_opened }
    }
}

/// The configuration of the front end.
#[derive(Debug, Clone, PartialEq, Eq)]
pub struct AppConfig {
    pub language: String,
    pub theme: String,
    pub asdf_binary_path: Option<String>,
    pub working_directory: Option<String>,
    pub keep_downloads: bool,
    pub notifications: bool,
    pub recent_projects: Vec<RecentProject>,
}

/// What an [`AppConfig`] holds.
pub struct AppConfigView {
    pub language: Seq<char>,
    pub theme: Seq<char>,
    pub asdf_binary_path: Option<Seq<char>>,
    pub working_directory: Option<Seq<char>>,
    pub keep_downloads: bool,
    pub notifications: bool,
    pub recent_projects: Seq<RecentProjectView>,
}

impl DeepView for AppConfig {
    type V = AppConfigView;

    open spec fn deep_view(&self) -> AppConfigView {
        AppConfigView {
            language: self.language@,
            theme: self.theme@,
            asdf_binary_path: self.asdf_binary_path.deep_view(),
            working_directory: self.working_directory.deep_view(),
            keep_downloads: self.keep_downloads,
            notifications: self.notifications,
            recent_projects: self.recent_projects.deep_view(),
        }
    }
}

/// The configuration of a fresh installation.
pub open spec fn default_config() -> AppConfigView {
    AppConfigView {
        language: "en"@,
        theme: "system"@,
        asdf_binary_path: None,
        working_directory: None,
        keep_downloads: false,
        notifications: true,
        recent_projects: Seq::empty(),
    }
}

impl Default for AppConfig {
    fn default() -> (r: AppConfig)
        ensures
            r.deep_view() == default_config(),
    {
        let r = AppConfig {
            language: "en".to_owned(),
            theme: "system".to_owned(),
            asdf_binary_path: None,
            working_directory: None,
            keep_downloads: false,
            notifications: true,
            recent_projects: Vec::new(),
        };
        assert(r.recent_projects.deep_view() =~= Seq::<RecentProjectView>::empty());
        r
    }
}

/// What a path or the reason for its absence holds.
pub open spec fn path_view(r: Result<String, AppError>) -> Result<Seq<char>, AppErrorView> {
    match r {
        Ok(p) => Ok(p@),
        Err(e) => Err(e.deep_view()),
    }
}

/// The failure to name a home directory.
pub open spec fn no_home() -> AppErrorView {
    AppErrorView::ConfigError("cannot determine home directory"@)
}

/// The directory that holds the configuration: `.asdf-gui` in the home
/// directory, which must be known.
pub open spec fn config_dir_in(home: Option<Seq<char>>) -> Result<Seq<char>, AppErrorView> {
    match home {
        Some(h) => Ok(joined(h, ".asdf-gui"@)),
        None => Err(no_home()),
    }
}

/// The configuration file: `config.json` in the configuration directory.
pub open spec fn config_path_in(home: Option<Seq<char>>) -> Result<Seq<char>, AppErrorView> {
    match home {
        Some(h) => Ok(joined(joined(h, ".asdf-gui"@), "config.json"@)),
        None => Err(no_home()),
    }
}

/// `asdf`'s own configuration file: the one that `$ASDF_CONFIG_FILE` names,
/// else `.asdfrc` in the home directory, which must be known either way.
pub open spec fn asdfrc_path_in(config_file: Option<Seq<char>>, home: Option<Seq<char>>) -> Result<
    Seq<char>,
    AppErrorView,
> {
    match home {
        Some(h) => Ok(
            match config_file {
                Some(f) => f,
                None => joined(h, ".asdfrc"@),
            },
        ),
        None => Err(no_home()),
    }
}

/// The failure to name a home directory.
fn no_home_error() -> (r: AppError)
    ensures
        r.deep_view() == no_home(),
{
    AppError::ConfigError("cannot determine home directory".to_owned())
}

/// The configuration directory for a given home directory.
pub fn config_dir_for(home: Option<&str>) -> (r: Result<String, AppError>)
    ensures
        path_view(r) == config_dir_in(home.deep_view()),
{
    match home {
        Some(h) => Ok(join_path(h, ".asdf-gui")),
        None => Err(no_home_error()),
    }
}

/// The configuration file for a given home directory.
pub fn config_path_for(home: Option<&str>) -> (r: Result<String, AppError>)
    ensures
        path_view(r) == config_path_in(home.deep_view()),
{
    match config_dir_for(home) {
        Ok(dir) => Ok(join_path(dir.as_str(), "config.json")),
        Err(e) => Err(e),
    }
}

/// The configuration directory for the home directory that the environment
/// names. Whatever it names, the result is the one for some home directory
/// or for none.
pub fn config_dir() -> (r: Result<String, AppError>)
    ensures
        exists|home: Option<Seq<char>>| path_view(r) == config_dir_in(home),
{
    let home = home_dir();
    let r = match &home {
        Some(h) => config_dir_for(Some(h.as_str())),
        None => config_dir_for(None),
    };
    assert(path_view(r) == config_dir_in(home.deep_view()));
    r
}

/// The configuration file for the home directory that the environment
/// names. Whatever it names, the result is the one for some home directory
/// or for none.
pub fn config_path() -> (r: Result<String, AppError>)
    ensures
        exists|home: Option<Seq<char>>| path_view(r) == config_path_in(home),
{
    let home = home_dir();
    let r = match &home {
        Some(h) => config_path_for(Some(h.as_str())),
        None => config_path_for(None),
    };
    assert(path_view(r) == config_path_in(home.deep_view()));
    r
}

/// `asdf`'s own configuration file, given the value of `$ASDF_CONFIG_FILE`
/// and the home directory.
pub fn asdfrc_path_for(config_file: Option<&str>, home: Option<&str>) -> (r: Result<
    String,
    AppError,
>)
    ensures
        path_view(r) == asdfrc_path_in(config_file.deep_view(), home.deep_view()),
{
    match home {
        Some(h) => match config_file {
            Some(f) => Ok(f.to_owned()),
            None => Ok(join_path(h, ".asdfrc")),
        },
        None => Err(no_home_error()),
    }
}

/// `asdf`'s own configuration file, given the value of `$ASDF_CONFIG_FILE`,
/// for the home directory that the environment names. Whatever it names, the
/// result is the one for some home directory or for none.
pub fn asdfrc_path(config_file: Option<&str>) -> (r: Result<String, AppError>)
    ensures
        exists|home: Option<Seq<char>>|
            path_view(r) == asdfrc_path_in(config_file.deep_view(), home),
{
    let home = home_dir();
    let r = match &home {
        Some(h) => asdfrc_path_for(config_file, Some(h.as_str())),
        None => asdfrc_path_for(config_file, None),
    };
    assert(path_view(r) == asdfrc_path_in(config_file.deep_view(), home.deep_view()));
    r
}

/// What one line of `asdf`'s configuration file says: `key = value`, split
/// at the first `=`, both sides trimmed. Blank lines, lines that begin with
/// `#` and lines without `=` say nothing.
pub open spec fn asdfrc_record(line: Seq<char>) -> Option<(Seq<char>, Seq<char>)> {
    let t = trim(line);
    let i = first_index(t, '=');
    if t.len() == 0 || t[0] == '#' || i >= t.len() {
        None
    } else {
        Some((trim(t.take(i)), trim(t.skip(i + 1))))
    }
}

/// The settings in the text of `asdf`'s configuration file.
pub open spec fn asdfrc_records(text: Seq<char>) -> Seq<(Seq<char>, Seq<char>)> {
    records(lines(text), |l: Seq<char>| asdfrc_record(l))
}

/// Reads one line of `asdf`'s configuration file.
pub fn asdfrc_of_line(line: &[char]) -> (r: Option<(String, String)>)
    ensures
        r.deep_view() == asdfrc_record(line@),
{
    let t = trim_of(line);
    if t.len() == 0 || t[0] == '#' {
        return None;
    }
    let i = find_char(t, '=');
    if i < t.len() {
        let key = &t[0..i];
        let value = &t[i + 1..t.len()];
        assert(key@ =~= t@.take(i as int));
        assert(value@ =~= t@.skip(i + 1));
        Some((string_of(trim_of(key)), string_of(trim_of(value))))
    } else {
        None
    }
}

/// Reads the text of `asdf`'s configuration file as pairs of key and value.
pub fn parse_asdfrc(content: &str) -> (r: Vec<(String, String)>)
    ensures
        r.deep_view() == asdfrc_records(content@),
{
    read_records(content, asdfrc_of_line, Ghost(|l: Seq<char>| asdfrc_record(l)))
}

} // verus!
