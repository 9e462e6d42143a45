use asdf_gui::asdf::parser::{
    parse_asdf_info, parse_current, parse_env, parse_latest_all, parse_list_all,
    parse_list_installed, parse_plugin_list, parse_plugin_list_all, parse_shim_versions,
    parse_tool_versions,
};

#[test]
fn test_parse_current() {
    let input = "nodejs          20.11.0         /home/user/.tool-versions\npython          3.12.1          Not installed\n";
    let result = parse_current(input).unwrap();
    assert_eq!(result.len(), 2);
    assert_eq!(result[0].name, "nodejs");
    assert_eq!(result[0].version, "20.11.0");
    assert!(result[0].installed);
    assert_eq!(result[1].name, "python");
    assert_eq!(result[1].version, "3.12.1");
    assert!(!result[1].installed);
}

#[test]
fn test_parse_current_empty() {
    let result = parse_current("").unwrap();
    assert!(result.is_empty());
}

#[test]
fn test_parse_plugin_list() {
    let input = "nodejs  https://github.com/asdf-vm/asdf-nodejs.git  main\npython\n";
    let result = parse_plugin_list(input).unwrap();
    assert_eq!(result.len(), 2);
    assert_eq!(result[0].name, "nodejs");
    assert_eq!(
        result[0].url.as_deref(),
        Some("https://github.com/asdf-vm/asdf-nodejs.git")
    );
    assert_eq!(result[0].git_ref.as_deref(), Some("main"));
    assert_eq!(result[1].name, "python");
    assert!(result[1].url.is_none());
}

#[test]
fn test_parse_plugin_list_all() {
    let input = "nodejs  https://github.com/asdf-vm/asdf-nodejs.git\npython  https://github.com/asdf-community/asdf-python.git\n";
    let result = parse_plugin_list_all(input).unwrap();
    assert_eq!(result.len(), 2);
    assert_eq!(result[0].name, "nodejs");
    assert!(result[0].url.contains("asdf-nodejs"));
}

#[test]
fn test_parse_list_installed() {
    let input = "  18.17.0\n *20.11.0\n  21.0.0\n";
    let result = parse_list_installed(input);
    assert_eq!(result.len(), 3);
    assert_eq!(result[0], ("18.17.0".to_string(), false));
    assert_eq!(result[1], ("20.11.0".to_string(), true));
    assert_eq!(result[2], ("21.0.0".to_string(), false));
}

#[test]
fn test_parse_list_all() {
    let input = "18.0.0\n18.1.0\n20.0.0\n";
    let result = parse_list_all(input);
    assert_eq!(result, vec!["18.0.0", "18.1.0", "20.0.0"]);
}

#[test]
fn test_parse_list_all_filters_blanks() {
    let input = "18.0.0\n\n20.0.0\n  \n";
    let result = parse_list_all(input);
    assert_eq!(result, vec!["18.0.0", "20.0.0"]);
}

#[test]
fn test_parse_latest_all() {
    let input = "nodejs  20.11.0  20.11.0\npython  3.12.1\n";
    let result = parse_latest_all(input).unwrap();
    assert_eq!(result.len(), 2);
    assert_eq!(result[0].name, "nodejs");
    assert_eq!(result[0].latest, "20.11.0");
    assert!(result[0].up_to_date);
    assert_eq!(result[1].name, "python");
    assert_eq!(result[1].latest, "3.12.1");
    assert!(result[1].installed_version.is_none());
    assert!(!result[1].up_to_date);
}

#[test]
fn test_parse_shim_versions() {
    let input = "nodejs 20.11.0\nnodejs 18.17.0\n";
    let result = parse_shim_versions(input);
    assert_eq!(result.len(), 2);
    assert_eq!(result[0].plugin, "nodejs");
    assert_eq!(result[0].version, "20.11.0");
}

#[test]
fn test_parse_tool_versions() {
    let input = "nodejs 20.11.0\npython 3.12.1 3.11.7\n# comment line\nruby 3.3.0\n";
    let result = parse_tool_versions(input);
    assert_eq!(result.len(), 3);
    assert_eq!(result[0].tool, "nodejs");
    assert_eq!(result[0].versions, vec!["20.11.0"]);
    assert_eq!(result[1].tool, "python");
    assert_eq!(result[1].versions, vec!["3.12.1", "3.11.7"]);
    assert_eq!(result[2].tool, "ruby");
}

#[test]
fn test_parse_tool_versions_inline_comment() {
    let input = "nodejs 20.11.0 # LTS\n";
    let result = parse_tool_versions(input);
    assert_eq!(result.len(), 1);
    assert_eq!(result[0].versions, vec!["20.11.0"]);
}

#[test]
fn test_parse_env() {
    let input = "ASDF_DIR=/home/user/.asdf\nASDF_DATA_DIR=/home/user/.asdf\nPATH=/usr/bin\n";
    let result = parse_env(input);
    assert_eq!(result.len(), 3);
    assert_eq!(result[0].key, "ASDF_DIR");
    assert_eq!(result[0].value, "/home/user/.asdf");
}

#[test]
fn test_parse_env_with_equals_in_value() {
    let input = "FOO=bar=baz\n";
    let result = parse_env(input);
    assert_eq!(result.len(), 1);
    assert_eq!(result[0].key, "FOO");
    assert_eq!(result[0].value, "bar=baz");
}

#[test]
fn test_parse_asdf_info() {
    let input = "ASDF VERSION: 0.14.0\nOS: linux\nSHELL: /bin/bash\nASDF DIR: /home/user/.asdf\nASDF DATA DIR: /home/user/.asdf\n\nASDF INSTALLED PLUGINS:\nnodejs\npython\n";
    let result = parse_asdf_info(input).unwrap();
    assert_eq!(result.version, "0.14.0");
    assert_eq!(result.os, "linux");
    assert_eq!(result.shell, "/bin/bash");
    assert_eq!(result.asdf_dir, "/home/user/.asdf");
    assert_eq!(result.asdf_data_dir, "/home/user/.asdf");
    assert_eq!(result.plugins, vec!["nodejs", "python"]);
}

#[test]
fn test_parse_asdf_info_empty() {
    let result = parse_asdf_info("").unwrap();
    assert!(result.version.is_empty());
    assert!(result.plugins.is_empty());
}

#[test]
fn parsers_accept_crlf_and_missing_final_newline() {
    let r = parse_current("nodejs 20.11.0 /x true\r\npython 3.12.1 /y false").unwrap();
    assert_eq!(r.len(), 2);
    assert!(r[0].installed);
    assert_eq!(r[1].name, "python");
    assert_eq!(r[1].source, "/y");
    assert!(!r[1].installed);
    assert_eq!(parse_list_all("1\r\n2\r"), vec!["1", "2"]);
}

#[test]
fn parsers_skip_short_lines() {
    assert!(parse_current("lonely\n\n   \n").unwrap().is_empty());
    assert!(parse_plugin_list_all("lonely\n").unwrap().is_empty());
    assert!(parse_latest_all("lonely\n").unwrap().is_empty());
    assert!(parse_shim_versions("lonely\n\n").is_empty());
    assert!(parse_env("no equals here\n\n").is_empty());
    assert!(parse_tool_versions("# only a comment\n   \n#\n").is_empty());
    assert!(parse_plugin_list("\n  \n").unwrap().is_empty());
}

#[test]
fn plugin_list_with_url_only() {
    let r = parse_plugin_list("ruby\thttps://example.org/ruby.git\n").unwrap();
    assert_eq!(r.len(), 1);
    assert_eq!(r[0].url.as_deref(), Some("https://example.org/ruby.git"));
    assert_eq!(r[0].git_ref, None);
}

#[test]
fn latest_all_compares_exactly() {
    let r = parse_latest_all("a 1.0 1.0\nb 1.0 1.0.0\nc 2 missing extra\n").unwrap();
    assert!(r[0].up_to_date);
    assert!(!r[1].up_to_date);
    assert_eq!(r[1].installed_version.as_deref(), Some("1.0.0"));
    assert!(!r[2].up_to_date);
    assert_eq!(r[2].installed_version.as_deref(), Some("missing"));
}

#[test]
fn list_installed_keeps_inner_space_and_one_asterisk() {
    assert_eq!(
        parse_list_installed("*  1.0 beta \n**2\n*\n"),
        vec![("1.0 beta".to_string(), true), ("*2".to_string(), true), (String::new(), true)]
    );
}

#[test]
fn env_keeps_value_as_it_is() {
    let r = parse_env("  A = b c \n=x\nK=\n");
    assert_eq!(r.len(), 3);
    assert_eq!((r[0].key.as_str(), r[0].value.as_str()), ("A ", " b c"));
    assert_eq!((r[1].key.as_str(), r[1].value.as_str()), ("", "x"));
    assert_eq!((r[2].key.as_str(), r[2].value.as_str()), ("K", ""));
}

#[test]
fn tool_versions_without_versions() {
    let r = parse_tool_versions("ruby\nnode#x 1\n");
    assert_eq!(r.len(), 2);
    assert_eq!(r[0].tool, "ruby");
    assert!(r[0].versions.is_empty());
    assert_eq!(r[1].tool, "node");
    assert!(r[1].versions.is_empty());
}

#[test]
fn info_plugin_list_ends_at_blank_line_or_label() {
    let input = "ASDF INSTALLED PLUGINS: ignored\n  nodejs  abc \npython\n\nstray\nASDF INSTALLED PLUGINS:\nruby\nOS: first\nnot-a-plugin\nOS:second\nASDF VERSION:v1\nASDF VERSION: v2 \n";
    let r = parse_asdf_info(input).unwrap();
    assert_eq!(r.plugins, vec!["nodejs  abc", "python", "ruby"]);
    assert_eq!(r.os, "second");
    assert_eq!(r.version, "v2");
    assert_eq!(r.shell, "");
    assert_eq!(r.asdf_dir, "");
    assert_eq!(r.asdf_data_dir, "");
}

#[test]
fn info_labels_are_told_apart() {
    let r = parse_asdf_info("ASDF DATA DIR: /data\nASDF DIR: /dir\nSHELL: /bin/zsh -l\n").unwrap();
    assert_eq!(r.asdf_data_dir, "/data");
    assert_eq!(r.asdf_dir, "/dir");
    assert_eq!(r.shell, "/bin/zsh -l");
}
