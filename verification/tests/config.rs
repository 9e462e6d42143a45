use asdf_gui::commands::settings::{open_project, set_working_directory};
use asdf_gui::config::app_config::{
    asdfrc_path, asdfrc_path_for, config_dir, config_dir_for, config_path, config_path_for,
    parse_asdfrc, AppConfig, RecentProject,
};
use asdf_gui::config::context::{copy_of, ConfigContext, MAX_RECENT_PROJECTS};
use asdf_gui::error::AppError;

fn no_home() -> AppError {
    AppError::ConfigError("cannot determine home directory".to_string())
}

fn project(path: &str, name: &str, last_opened: u64) -> RecentProject {
    RecentProject { path: path.to_string(), name: name.to_string(), last_opened }
}

fn pair(k: &str, v: &str) -> (String, String) {
    (k.to_string(), v.to_string())
}

#[test]
fn default_config() {
    let c = AppConfig::default();
    assert_eq!(c.language, "en");
    assert_eq!(c.theme, "system");
    assert_eq!(c.asdf_binary_path, None);
    assert_eq!(c.working_directory, None);
    assert!(!c.keep_downloads);
    assert!(c.notifications);
    assert!(c.recent_projects.is_empty());
}

#[test]
fn config_paths_for_a_home() {
    assert_eq!(config_dir_for(Some("/home/u")), Ok("/home/u/.asdf-gui".to_string()));
    assert_eq!(config_path_for(Some("/home/u")), Ok("/home/u/.asdf-gui/config.json".to_string()));
    assert_eq!(config_dir_for(None), Err(no_home()));
    assert_eq!(config_path_for(None), Err(no_home()));
}

#[test]
fn config_paths_of_this_environment() {
    match config_dir() {
        Ok(dir) => {
            assert!(dir.ends_with(".asdf-gui"));
            assert_eq!(config_path(), Ok(format!("{}/config.json", dir)));
        }
        Err(e) => {
            assert_eq!(e, no_home());
            assert_eq!(config_path(), Err(no_home()));
        }
    }
}

#[test]
fn asdfrc_paths() {
    assert_eq!(asdfrc_path_for(None, Some("/home/u")), Ok("/home/u/.asdfrc".to_string()));
    assert_eq!(asdfrc_path_for(Some("/etc/asdfrc"), Some("/home/u")), Ok("/etc/asdfrc".to_string()));
    assert_eq!(asdfrc_path_for(Some("/etc/asdfrc"), None), Err(no_home()));
    assert_eq!(asdfrc_path_for(None, None), Err(no_home()));
    match asdfrc_path(Some("/etc/asdfrc")) {
        Ok(p) => assert_eq!(p, "/etc/asdfrc"),
        Err(e) => assert_eq!(e, no_home()),
    }
}

#[test]
fn asdfrc_pairs() {
    let text = "# settings\nlegacy_version_file = yes\n\n  always_keep_download=no  \nnot a setting\nurl = a=b\n #x=y\n=v\nk=\n";
    assert_eq!(
        parse_asdfrc(text),
        vec![
            pair("legacy_version_file", "yes"),
            pair("always_keep_download", "no"),
            pair("url", "a=b"),
            pair("", "v"),
            pair("k", ""),
        ]
    );
    assert_eq!(parse_asdfrc(""), Vec::new());
}

#[test]
fn context_of_a_configuration() {
    let mut c = AppConfig::default();
    assert_eq!(ConfigContext::load(Some(&c)), ConfigContext { asdf_path: None, cwd: None });
    c.asdf_binary_path = Some("/x/asdf".to_string());
    c.working_directory = Some("/w".to_string());
    assert_eq!(
        ConfigContext::load(Some(&c)),
        ConfigContext { asdf_path: Some("/x/asdf".to_string()), cwd: Some("/w".to_string()) }
    );
    assert_eq!(ConfigContext::load(None), ConfigContext { asdf_path: None, cwd: None });
    assert_eq!(copy_of(&Some("a".to_string())), Some("a".to_string()));
    assert_eq!(copy_of(&None), None);
}

#[test]
fn context_working_directory() {
    let with = ConfigContext { asdf_path: None, cwd: Some("/w".to_string()) };
    let without = ConfigContext { asdf_path: None, cwd: None };
    assert_eq!(with.cwd_or(Some("/h")), "/w");
    assert_eq!(with.cwd_or(None), "/w");
    assert_eq!(without.cwd_or(Some("/h")), "/h");
    assert_eq!(without.cwd_or(None), "");
    assert_eq!(with.cwd_or_home(), "/w");
    let home = without.cwd_or_home();
    match config_dir() {
        Ok(dir) => assert!(dir.starts_with(&home)),
        Err(_) => assert_eq!(home, ""),
    }
}

#[test]
fn opening_a_project_puts_it_first() {
    let mut c = AppConfig::default();
    c.recent_projects = vec![project("/a", "a", 1), project("/b", "b", 2)];
    open_project(&mut c, "/c", Some("c".to_string()), 9);
    assert_eq!(c.working_directory, Some("/c".to_string()));
    assert_eq!(c.recent_projects, vec![project("/c", "c", 9), project("/a", "a", 1), project("/b", "b", 2)]);
    assert_eq!(c.language, "en");
    assert!(c.notifications);
}

#[test]
fn opening_a_project_again_lists_it_once() {
    let mut c = AppConfig::default();
    c.recent_projects = vec![project("/a", "a", 1), project("/b", "old", 2), project("/c", "c", 3), project("/b", "older", 0)];
    open_project(&mut c, "/b", None, 9);
    assert_eq!(c.recent_projects, vec![project("/b", "/b", 9), project("/a", "a", 1), project("/c", "c", 3)]);
}

#[test]
fn recent_projects_are_capped() {
    assert_eq!(MAX_RECENT_PROJECTS, 10);
    let mut c = AppConfig::default();
    for i in 0..12u64 {
        c.recent_projects.push(project(&format!("/work/{}", i), "p", i));
    }
    open_project(&mut c, "/new", Some("new".to_string()), 99);
    assert_eq!(c.recent_projects.len(), 10);
    assert_eq!(c.recent_projects[0], project("/new", "new", 99));
    for i in 0..9u64 {
        assert_eq!(c.recent_projects[i as usize + 1], project(&format!("/work/{}", i), "p", i));
    }
    let mut c = AppConfig::default();
    for i in 0..10u64 {
        c.recent_projects.push(project(&format!("/work/{}", i), "p", i));
    }
    open_project(&mut c, "/work/9", Some("nine".to_string()), 99);
    assert_eq!(c.recent_projects.len(), 10);
    assert_eq!(c.recent_projects[0], project("/work/9", "nine", 99));
    assert_eq!(c.recent_projects[9], project("/work/8", "p", 8));
}

#[test]
fn set_working_directory_names_the_project() {
    let mut c = AppConfig::default();
    set_working_directory(&mut c, "/home/u/projects/site", 5);
    assert_eq!(c.working_directory, Some("/home/u/projects/site".to_string()));
    assert_eq!(c.recent_projects.len(), 1);
    assert_eq!(c.recent_projects[0].path, "/home/u/projects/site");
    assert_eq!(c.recent_projects[0].last_opened, 5);
    if std::path::MAIN_SEPARATOR == '/' {
        assert_eq!(c.recent_projects[0].name, "site");
        let mut c = AppConfig::default();
        set_working_directory(&mut c, "/", 5);
        assert_eq!(c.recent_projects[0].name, "/");
    }
}
