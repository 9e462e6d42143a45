use asdf_gui::commands::info::{asdf_env_request, asdf_info_request, asdf_version_request};
use asdf_gui::commands::plugin::{
    plugin_add_request, plugin_list_all_request, plugin_list_request, plugin_remove_request,
    plugin_update_request,
};
use asdf_gui::commands::shim::{reshim_request, shim_versions_request, which_command_request};
use asdf_gui::commands::version::{
    current_request, install_directory, install_request, installed_versions, latest_all_request,
    latest_request, list_all_request, list_installed_request, set_version_request,
    uninstall_request, where_installed_request,
};
use asdf_gui::commands::Invocation;
use asdf_gui::error::AppError;
use asdf_gui::types::SetScope;

fn run(args: &[&str], in_working_directory: bool) -> Invocation {
    Invocation { args: args.iter().map(|a| a.to_string()).collect(), in_working_directory }
}

#[test]
fn info_requests() {
    assert_eq!(asdf_version_request(), run(&["version"], false));
    assert_eq!(asdf_info_request(), run(&["info"], false));
    assert_eq!(asdf_env_request("node"), run(&["env", "node"], true));
}

#[test]
fn plugin_list_requests() {
    assert_eq!(plugin_list_request(false, false), run(&["plugin", "list"], false));
    assert_eq!(plugin_list_request(true, false), run(&["plugin", "list", "--urls"], false));
    assert_eq!(plugin_list_request(false, true), run(&["plugin", "list", "--refs"], false));
    assert_eq!(plugin_list_request(true, true), run(&["plugin", "list", "--urls", "--refs"], false));
    assert_eq!(plugin_list_all_request(), run(&["plugin", "list", "all"], false));
}

#[test]
fn plugin_change_requests() {
    assert_eq!(plugin_add_request("nodejs", None), run(&["plugin", "add", "nodejs"], false));
    assert_eq!(
        plugin_add_request("nodejs", Some("https://example.org/n.git")),
        run(&["plugin", "add", "nodejs", "https://example.org/n.git"], false)
    );
    assert_eq!(plugin_remove_request("nodejs"), run(&["plugin", "remove", "nodejs"], false));
}

#[test]
fn plugin_update_requests() {
    assert_eq!(plugin_update_request(None, true), Ok(run(&["plugin", "update", "--all"], false)));
    assert_eq!(plugin_update_request(Some("nodejs"), true), Ok(run(&["plugin", "update", "--all"], false)));
    assert_eq!(plugin_update_request(Some("nodejs"), false), Ok(run(&["plugin", "update", "nodejs"], false)));
    assert_eq!(
        plugin_update_request(None, false),
        Err(AppError::ParseError("either name or --all must be specified".to_string()))
    );
}

#[test]
fn shim_requests() {
    assert_eq!(which_command_request("node"), run(&["which", "node"], true));
    assert_eq!(shim_versions_request("node"), run(&["shimversions", "node"], false));
    assert_eq!(reshim_request("nodejs", "20.11.0"), run(&["reshim", "nodejs", "20.11.0"], false));
}

#[test]
fn current_and_where_requests() {
    assert_eq!(current_request(None), run(&["current"], true));
    assert_eq!(current_request(Some("nodejs")), run(&["current", "nodejs"], true));
    assert_eq!(where_installed_request("nodejs", None), run(&["where", "nodejs"], true));
    assert_eq!(where_installed_request("nodejs", Some("20.11.0")), run(&["where", "nodejs", "20.11.0"], true));
}

#[test]
fn install_requests() {
    assert_eq!(install_request(None, None, false), run(&["install"], true));
    assert_eq!(install_request(Some("nodejs"), None, false), run(&["install", "nodejs"], true));
    assert_eq!(
        install_request(Some("nodejs"), Some("20.11.0"), true),
        run(&["install", "nodejs", "20.11.0", "--keep-download"], true)
    );
    assert_eq!(install_request(None, Some("20.11.0"), true), run(&["install", "20.11.0", "--keep-download"], true));
    assert_eq!(uninstall_request("nodejs", "20.11.0"), run(&["uninstall", "nodejs", "20.11.0"], false));
}

#[test]
fn install_directory_prefers_the_request() {
    assert_eq!(install_directory(Some("/a".to_string()), Some("/b".to_string())), Some("/a".to_string()));
    assert_eq!(install_directory(None, Some("/b".to_string())), Some("/b".to_string()));
    assert_eq!(install_directory(Some("/a".to_string()), None), Some("/a".to_string()));
    assert_eq!(install_directory(None, None), None);
}

#[test]
fn set_version_requests() {
    let versions = vec!["20.11.0".to_string(), "18.17.0".to_string()];
    assert_eq!(
        set_version_request("nodejs", &versions, SetScope::Local),
        run(&["set", "nodejs", "20.11.0", "18.17.0"], true)
    );
    assert_eq!(
        set_version_request("nodejs", &versions, SetScope::Home),
        run(&["set", "--home", "nodejs", "20.11.0", "18.17.0"], true)
    );
    assert_eq!(
        set_version_request("nodejs", &versions, SetScope::Parent),
        run(&["set", "--parent", "nodejs", "20.11.0", "18.17.0"], true)
    );
    assert_eq!(set_version_request("nodejs", &Vec::new(), SetScope::Local), run(&["set", "nodejs"], true));
}

#[test]
fn latest_and_list_requests() {
    assert_eq!(latest_request("nodejs", None), run(&["latest", "nodejs"], false));
    assert_eq!(latest_request("nodejs", Some("20")), run(&["latest", "nodejs", "20"], false));
    assert_eq!(latest_all_request(), run(&["latest", "--all"], false));
    assert_eq!(list_installed_request("nodejs"), run(&["list", "nodejs"], false));
    assert_eq!(list_all_request("nodejs", None), run(&["list", "all", "nodejs"], false));
    assert_eq!(list_all_request("nodejs", Some("20")), run(&["list", "all", "nodejs", "20"], false));
}

#[test]
fn invocation_directory() {
    assert_eq!(current_request(None).directory(Some("/work")), Some("/work".to_string()));
    assert_eq!(current_request(None).directory(None), None);
    assert_eq!(latest_all_request().directory(Some("/work")), None);
    assert_eq!(latest_all_request().directory(None), None);
}

#[test]
fn installed_versions_drop_the_mark() {
    assert_eq!(installed_versions("  18.17.0\n *20.11.0\n\n  21.0.0\n"), vec!["18.17.0", "20.11.0", "21.0.0"]);
    assert_eq!(installed_versions(""), Vec::<String>::new());
    assert_eq!(installed_versions(" * \n"), vec![""]);
}
