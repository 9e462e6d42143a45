//! Readers for what the `asdf` subcommands print. Each is total: a line that
//! does not fit is left out, never an error.

use crate::error::AppError;
use crate::text::{
    chars_of, contains, contains_run, find_char, first_index, is_token, is_whitespace,
    lemma_tokens_are_tokens, lines, occurs_at, same_chars, slice_views, split_line, split_tokens,
    starts_with, string_of, tokens, trim, trim_of,
};
use crate::types::{
    AsdfInfo, AsdfInfoView, CurrentVersion, CurrentVersionView, EnvVar, EnvVarView, LatestInfo,
    LatestInfoView, Plugin, PluginRegistry, PluginRegistryView, PluginView, ShimVersion,
    ShimVersionView, ToolVersion, ToolVersionView,
};
use vstd::prelude::*;

verus! {

/// The records that `of_line` reads from the given lines, in order; a line
/// from which it reads none contributes nothing.
pub open spec fn records<T>(ls: Seq<Seq<char>>, of_line: spec_fn(Seq<char>) -> Option<T>) -> Seq<T>
    decreases ls.len(),
{
    if ls.len() == 0 {
        Seq::empty()
    } else {
        let rest = records(ls.drop_first(), of_line);
        match of_line(ls[0]) {
            Some(r) => seq![r] + rest,
            None => rest,
        }
    }
}

/// The token at position `i`, where there is one.
pub open spec fn token_at(parts: Seq<Seq<char>>, i: int) -> Option<Seq<char>> {
    if 0 <= i < parts.len() {
        Some(parts[i])
    } else {
        None
    }
}

/// What follows `prefix` in `s`, where `s` begins with it.
pub open spec fn after_prefix(s: Seq<char>, prefix: Seq<char>) -> Option<Seq<char>> {
    if prefix.is_prefix_of(s) {
        Some(s.skip(prefix.len() as int))
    } else {
        None
    }
}

/// What one line of `current` says: `name version [source] [installed]`.
/// The fourth token decides `installed` where there is one; otherwise the
/// version counts as installed unless it holds the words "Not installed".
pub open spec fn current_record(line: Seq<char>) -> Option<CurrentVersionView> {
    let parts = tokens(line);
    if parts.len() < 2 {
        None
    } else {
        Some(
            CurrentVersionView {
                name: parts[0],
                version: parts[1],
                source: if parts.len() > 2 {
                    parts[2]
                } else {
                    Seq::empty()
                },
                installed: if parts.len() > 3 {
                    parts[3] == "true"@
                } else {
                    !contains(parts[1], "Not installed"@)
                },
            },
        )
    }
}

/// What one line of `plugin list` says: `name [url] [git_ref]`.
pub open spec fn plugin_record(line: Seq<char>) -> Option<PluginView> {
    let parts = tokens(line);
    if parts.len() < 1 {
        None
    } else {
        Some(PluginView { name: parts[0], url: token_at(parts, 1), git_ref: token_at(parts, 2) })
    }
}

/// What one line of `plugin list all` says: `name url`.
pub open spec fn registry_record(line: Seq<char>) -> Option<PluginRegistryView> {
    let parts = tokens(line);
    if parts.len() < 2 {
        None
    } else {
        Some(PluginRegistryView { name: parts[0], url: parts[1] })
    }
}

/// What one line of `list <name>` says: a version, marked as the current one
/// by an asterisk before it.
pub open spec fn installed_record(line: Seq<char>) -> Option<(Seq<char>, bool)> {
    let t = trim(line);
    if t.len() == 0 {
        None
    } else if t[0] == '*' {
        Some((trim(t.drop_first()), true))
    } else {
        Some((t, false))
    }
}

/// What one line of `list all <name>` says: a version.
pub open spec fn available_record(line: Seq<char>) -> Option<Seq<char>> {
    let t = trim(line);
    if t.len() == 0 {
        None
    } else {
        Some(t)
    }
}

/// What one line of `latest --all` says: `name latest [installed]`. The tool
/// is up to date where the installed version is the latest one.
pub open spec fn latest_record(line: Seq<char>) -> Option<LatestInfoView> {
    let parts = tokens(line);
    if parts.len() < 2 {
        None
    } else {
        Some(
            LatestInfoView {
                name: parts[0],
                latest: parts[1],
                installed_version: token_at(parts, 2),
                up_to_date: token_at(parts, 2) == Some(parts[1]),
            },
        )
    }
}

/// What one line of `shimversions` says: `plugin version`.
pub open spec fn shim_record(line: Seq<char>) -> Option<ShimVersionView> {
    let parts = tokens(line);
    if parts.len() < 2 {
        None
    } else {
        Some(ShimVersionView { plugin: parts[0], version: parts[1] })
    }
}

/// What one line of a tool-versions file says: a tool and its versions. A
/// `#` starts a comment that runs to the end of the line.
pub open spec fn tool_version_record(line: Seq<char>) -> Option<ToolVersionView> {
    let parts = tokens(line.take(first_index(line, '#')));
    if parts.len() < 1 {
        None
    } else {
        Some(ToolVersionView { tool: parts[0], versions: parts.drop_first() })
    }
}

/// What one line of `env` says: `KEY=value`, split at the first `=`.
pub open spec fn env_record(line: Seq<char>) -> Option<EnvVarView> {
    let t = trim(line);
    let i = first_index(t, '=');
    if i < t.len() {
        Some(EnvVarView { key: t.take(i), value: t.skip(i + 1) })
    } else {
        None
    }
}

/// The records of `current` in `text`.
pub open spec fn current_records(text: Seq<char>) -> Seq<CurrentVersionView> {
    records(lines(text), |l: Seq<char>| current_record(l))
}

/// The records of `plugin list` in `text`.
pub open spec fn plugin_records(text: Seq<char>) -> Seq<PluginView> {
    records(lines(text), |l: Seq<char>| plugin_record(l))
}

/// The records of `plugin list all` in `text`.
pub open spec fn registry_records(text: Seq<char>) -> Seq<PluginRegistryView> {
    records(lines(text), |l: Seq<char>| registry_record(l))
}

/// The records of `list <name>` in `text`.
pub open spec fn installed_records(text: Seq<char>) -> Seq<(Seq<char>, bool)> {
    records(lines(text), |l: Seq<char>| installed_record(l))
}

/// The records of `list all <name>` in `text`.
pub open spec fn available_records(text: Seq<char>) -> Seq<Seq<char>> {
    records(lines(text), |l: Seq<char>| available_record(l))
}

/// The records of `latest --all` in `text`.
pub open spec fn latest_records(text: Seq<char>) -> Seq<LatestInfoView> {
    records(lines(text), |l: Seq<char>| latest_record(l))
}

/// The records of `shimversions` in `text`.
pub open spec fn shim_records(text: Seq<char>) -> Seq<ShimVersionView> {
    records(lines(text), |l: Seq<char>| shim_record(l))
}

/// The records of a tool-versions file.
pub open spec fn tool_version_records(text: Seq<char>) -> Seq<ToolVersionView> {
    records(lines(text), |l: Seq<char>| tool_version_record(l))
}

/// The records of `env` in `text`.
pub open spec fn env_records(text: Seq<char>) -> Seq<EnvVarView> {
    records(lines(text), |l: Seq<char>| env_record(l))
}

/// Where a reader of `info` stands: what it has read, and whether the last
/// line belonged to the list of plugins.
pub struct InfoScan {
    pub info: AsdfInfoView,
    pub in_plugins: bool,
}

/// The reader of `info` before the first line.
pub open spec fn info_start() -> InfoScan {
    InfoScan {
        info: AsdfInfoView {
            version: Seq::empty(),
            os: Seq::empty(),
            shell: Seq::empty(),
            asdf_dir: Seq::empty(),
            asdf_data_dir: Seq::empty(),
            plugins: Seq::empty(),
        },
        in_plugins: false,
    }
}

/// The reader of `info` after one more line. A line that begins with one of
/// the five labels sets that field to the trimmed rest of the line and ends
/// the list of plugins; the label of the list opens it; inside the list every
/// line that is not blank names a plugin, and a blank line ends it.
pub open spec fn info_step(st: InfoScan, line: Seq<char>) -> InfoScan {
    let l = trim(line);
    if after_prefix(l, "ASDF VERSION:"@) is Some {
        InfoScan {
            info: AsdfInfoView { version: trim(after_prefix(l, "ASDF VERSION:"@)->Some_0), ..st.info },
            in_plugins: false,
        }
    } else if after_prefix(l, "OS:"@) is Some {
        InfoScan {
            info: AsdfInfoView { os: trim(after_prefix(l, "OS:"@)->Some_0), ..st.info },
            in_plugins: false,
        }
    } else if after_prefix(l, "SHELL:"@) is Some {
        InfoScan {
            info: AsdfInfoView { shell: trim(after_prefix(l, "SHELL:"@)->Some_0), ..st.info },
            in_plugins: false,
        }
    } else if after_prefix(l, "ASDF DIR:"@) is Some {
        InfoScan {
            info: AsdfInfoView { asdf_dir: trim(after_prefix(l, "ASDF DIR:"@)->Some_0), ..st.info },
            in_plugins: false,
        }
    } else if after_prefix(l, "ASDF DATA DIR:"@) is Some {
        InfoScan {
            info: AsdfInfoView {
                asdf_data_dir: trim(after_prefix(l, "ASDF DATA DIR:"@)->Some_0),
                ..st.info
            },
            in_plugins: false,
        }
    } else if after_prefix(l, "ASDF INSTALLED PLUGINS:"@) is Some {
        InfoScan { info: st.info, in_plugins: true }
    } else if st.in_plugins && l.len() > 0 {
        InfoScan { info: AsdfInfoView { plugins: st.info.plugins.push(l), ..st.info }, in_plugins: true }
    } else if l.len() == 0 {
        InfoScan { info: st.info, in_plugins: false }
    } else {
        st
    }
}

/// The reader of `info` after the given lines.
pub open spec fn info_scan(st: InfoScan, ls: Seq<Seq<char>>) -> InfoScan
    decreases ls.len(),
{
    if ls.len() == 0 {
        st
    } else {
        info_scan(info_step(st, ls[0]), ls.drop_first())
    }
}

/// What `info` says in `text`.
pub open spec fn asdf_info_of(text: Seq<char>) -> AsdfInfoView {
    info_scan(info_start(), lines(text)).info
}

/// How a line of `current` decides whether the version is installed. With
/// four tokens or more the fourth decides: the version is installed exactly
/// where that token is `true`, so it is not where the token is `false`.
/// With two or three tokens the version is installed unless it holds the
/// words "Not installed"; a token holds no space, so it then always is.
pub proof fn lemma_current_installed(line: Seq<char>)
    ensures
        tokens(line).len() >= 2 <==> current_record(line) is Some,
        tokens(line).len() >= 4 ==> (current_record(line)->Some_0.installed <==> tokens(line)[3]
            == "true"@),
        tokens(line).len() >= 4 && tokens(line)[3] == "false"@ ==> !current_record(
            line,
        )->Some_0.installed,
        2 <= tokens(line).len() <= 3 ==> current_record(line)->Some_0.installed == !contains(
            current_record(line)->Some_0.version,
            "Not installed"@,
        ),
        2 <= tokens(line).len() <= 3 ==> current_record(line)->Some_0.installed,
{
    reveal_strlit("true");
    reveal_strlit("false");
    reveal_strlit("Not installed");
    let parts = tokens(line);
    if parts.len() >= 4 && parts[3] == "false"@ {
        assert("false"@.len() == 5);
        assert("true"@.len() == 4);
    }
    if 2 <= parts.len() <= 3 {
        let version = parts[1];
        let words = "Not installed"@;
        lemma_tokens_are_tokens(line);
        assert(is_token(version));
        if contains(version, words) {
            let i = choose|i: int| occurs_at(version, words, i);
            assert(version.subrange(i, i + words.len())[3] == words[3]);
            assert(words[3] == ' ');
            assert(is_whitespace(version[i + 3]));
        }
    }
}

/// The records of a text are those of its first line followed by those of the rest.
pub proof fn lemma_records_first<T>(
    text: Seq<char>,
    line: Seq<char>,
    rest: Seq<char>,
    of_line: spec_fn(Seq<char>) -> Option<T>,
)
    requires
        lines(text) == seq![line] + lines(rest),
    ensures
        records(lines(text), of_line) == match of_line(line) {
            Some(r) => seq![r] + records(lines(rest), of_line),
            None => records(lines(rest), of_line),
        },
{
    assert((seq![line] + lines(rest)).drop_first() =~= lines(rest));
}

/// Appending an element to a vector appends its view to the vector's view.
pub proof fn lemma_deep_view_push<T: DeepView>(before: Vec<T>, after: Vec<T>, x: T)
    requires
        after@ == before@.push(x),
    ensures
        after.deep_view() == before.deep_view().push(x.deep_view()),
{
    assert(after.deep_view() =~= before.deep_view().push(x.deep_view()));
}

/// The strings of the tokens from position `from` on.
fn strings_from(parts: &Vec<&[char]>, from: usize) -> (r: Vec<String>)
    requires
        from <= parts@.len(),
    ensures
        r.deep_view() == slice_views(parts@).skip(from as int),
{
    let mut out: Vec<String> = Vec::new();
    let mut i: usize = from;
    while i < parts.len()
        invariant
            from <= i <= parts@.len(),
            out.deep_view() == slice_views(parts@).subrange(from as int, i as int),
        decreases parts@.len() - i,
    {
        let s = string_of(parts[i]);
        let ghost before = out;
        out.push(s);
        proof {
            lemma_deep_view_push(before, out, s);
            assert(slice_views(parts@).subrange(from as int, i as int).push(s@) =~= slice_views(
                parts@,
            ).subrange(from as int, i + 1));
        }
        i += 1;
    }
    assert(slice_views(parts@).subrange(from as int, i as int) =~= slice_views(parts@).skip(
        from as int,
    ));
    out
}

/// The string of the token at position `i`, where there is one.
fn string_at(parts: &Vec<&[char]>, i: usize) -> (r: Option<String>)
    ensures
        r.deep_view() == token_at(slice_views(parts@), i as int),
{
    if i < parts.len() {
        Some(string_of(parts[i]))
    } else {
        None
    }
}

/// What follows `prefix` in `s`, where `s` begins with it.
fn strip_prefix<'a>(s: &'a [char], prefix: &[char]) -> (r: Option<&'a [char]>)
    ensures
        r is Some == after_prefix(s@, prefix@) is Some,
        r is Some ==> r->Some_0@ == after_prefix(s@, prefix@)->Some_0,
{
    if starts_with(s, prefix) {
        let tail = &s[prefix.len()..s.len()];
        assert(tail@ =~= s@.skip(prefix@.len() as int));
        Some(tail)
    } else {
        None
    }
}

/// Reads one line of `current`.
pub fn current_of_line(line: &[char]) -> (r: Option<CurrentVersion>)
    ensures
        r.deep_view() == current_record(line@),
{
    let parts = split_tokens(line);
    if parts.len() < 2 {
        return None;
    }
    let installed = if parts.len() > 3 {
        let yes = chars_of("true");
        same_chars(parts[3], yes.as_slice())
    } else {
        let absent = chars_of("Not installed");
        !contains_run(parts[1], absent.as_slice())
    };
    let source = if parts.len() > 2 {
        string_of(parts[2])
    } else {
        String::new()
    };
    Some(
        CurrentVersion {
            name: string_of(parts[0]),
            version: string_of(parts[1]),
            source,
            installed,
        },
    )
}

/// Reads one line of `plugin list`.
pub fn plugin_of_line(line: &[char]) -> (r: Option<Plugin>)
    ensures
        r.deep_view() == plugin_record(line@),
{
    let parts = split_tokens(line);
    if parts.len() < 1 {
        return None;
    }
    Some(
        Plugin {
            name: string_of(parts[0]),
            url: string_at(&parts, 1),
            git_ref: string_at(&parts, 2),
        },
    )
}

/// Reads one line of `plugin list all`.
pub fn registry_of_line(line: &[char]) -> (r: Option<PluginRegistry>)
    ensures
        r.deep_view() == registry_record(line@),
{
    let parts = split_tokens(line);
    if parts.len() < 2 {
        return None;
    }
    Some(PluginRegistry { name: string_of(parts[0]), url: string_of(parts[1]) })
}

/// Reads one line of `list <name>`.
pub fn installed_of_line(line: &[char]) -> (r: Option<(String, bool)>)
    ensures
        r.deep_view() == installed_record(line@),
{
    let t = trim_of(line);
    if t.len() == 0 {
        None
    } else if t[0] == '*' {
        let tail = &t[1..t.len()];
        assert(tail@ =~= t@.drop_first());
        Some((string_of(trim_of(tail)), true))
    } else {
        Some((string_of(t), false))
    }
}

/// Reads one line of `list all <name>`.
pub fn available_of_line(line: &[char]) -> (r: Option<String>)
    ensures
        r.deep_view() == available_record(line@),
{
    let t = trim_of(line);
    if t.len() == 0 {
        None
    } else {
        Some(string_of(t))
    }
}

/// Reads one line of `latest --all`.
pub fn latest_of_line(line: &[char]) -> (r: Option<LatestInfo>)
    ensures
        r.deep_view() == latest_record(line@),
{
    let parts = split_tokens(line);
    if parts.len() < 2 {
        return None;
    }
    let up_to_date = parts.len() > 2 && same_chars(parts[2], parts[1]);
    Some(
        LatestInfo {
            name: string_of(parts[0]),
            latest: string_of(parts[1]),
            installed_version: string_at(&parts, 2),
            up_to_date,
        },
    )
}

/// Reads one line of `shimversions`.
pub fn shim_of_line(line: &[char]) -> (r: Option<ShimVersion>)
    ensures
        r.deep_view() == shim_record(line@),
{
    let parts = split_tokens(line);
    if parts.len() < 2 {
        return None;
    }
    Some(ShimVersion { plugin: string_of(parts[0]), version: string_of(parts[1]) })
}

/// Reads one line of a tool-versions file.
pub fn tool_version_of_line(line: &[char]) -> (r: Option<ToolVersion>)
    ensures
        r.deep_view() == tool_version_record(line@),
{
    let n = find_char(line, '#');
    let code = &line[0..n];
    assert(code@ =~= line@.take(n as int));
    let parts = split_tokens(code);
    if parts.len() < 1 {
        return None;
    }
    let versions = strings_from(&parts, 1);
    assert(slice_views(parts@).skip(1) =~= slice_views(parts@).drop_first());
    Some(ToolVersion { tool: string_of(parts[0]), versions })
}

/// Reads one line of `env`.
pub fn env_of_line(line: &[char]) -> (r: Option<EnvVar>)
    ensures
        r.deep_view() == env_record(line@),
{
    let t = trim_of(line);
    let i = find_char(t, '=');
    if i < t.len() {
        let key = &t[0..i];
        let value = &t[i + 1..t.len()];
        assert(key@ =~= t@.take(i as int));
        assert(value@ =~= t@.skip(i + 1));
        Some(EnvVar { key: string_of(key), value: string_of(value) })
    } else {
        None
    }
}

/// Reads the records of `text`: what `read` reads from each of its lines, in
/// order, where `read` reads what `of_line` says.
pub(crate) fn read_records<T: DeepView, F: Fn(&[char]) -> Option<T>>(
    text: &str,
    read: F,
    Ghost(of_line): Ghost<spec_fn(Seq<char>) -> Option<T::V>>,
) -> (r: Vec<T>)
    requires
        forall|line: &[char]| call_requires(read, (line,)),
        forall|line: &[char], record: Option<T>| #[trigger]
            call_ensures(read, (line,), record) ==> record.deep_view() == of_line(line@),
    ensures
        r.deep_view() == records(lines(text@), of_line),
{
    let chars = chars_of(text);
    let mut out: Vec<T> = Vec::new();
    let mut rest: &[char] = chars.as_slice();
    assert(out.deep_view() + records(lines(rest@), of_line) =~= records(lines(text@), of_line));
    while rest.len() > 0
        invariant
            forall|line: &[char]| call_requires(read, (line,)),
            forall|line: &[char], record: Option<T>| #[trigger]
                call_ensures(read, (line,), record) ==> record.deep_view() == of_line(line@),
            records(lines(text@), of_line) == out.deep_view() + records(lines(rest@), of_line),
        decreases rest@.len(),
    {
        let (line, next) = split_line(rest);
        proof {
            lemma_records_first(rest@, line@, next@, of_line);
        }
        if let Some(record) = read(line) {
            let ghost before = out;
            out.push(record);
            proof {
                lemma_deep_view_push(before, out, record);
                assert(before.deep_view().push(record.deep_view()) + records(lines(next@), of_line)
                    =~= before.deep_view() + (seq![record.deep_view()] + records(
                    lines(next@),
                    of_line,
                )));
            }
        }
        rest = next;
    }
    out
}

/// Reads the output of `current`.
pub fn parse_current(stdout: &str) -> (r: Result<Vec<CurrentVersion>, AppError>)
    ensures
        r is Ok,
        r->Ok_0.deep_view() == current_records(stdout@),
{
    Ok(read_records(stdout, current_of_line, Ghost(|l: Seq<char>| current_record(l))))
}

/// Reads the output of `plugin list`, with or without `--urls` and `--refs`.
pub fn parse_plugin_list(stdout: &str) -> (r: Result<Vec<Plugin>, AppError>)
    ensures
        r is Ok,
        r->Ok_0.deep_view() == plugin_records(stdout@),
{
    Ok(read_records(stdout, plugin_of_line, Ghost(|l: Seq<char>| plugin_record(l))))
}

/// Reads the output of `plugin list all`.
pub fn parse_plugin_list_all(stdout: &str) -> (r: Result<Vec<PluginRegistry>, AppError>)
    ensures
        r is Ok,
        r->Ok_0.deep_view() == registry_records(stdout@),
{
    Ok(read_records(stdout, registry_of_line, Ghost(|l: Seq<char>| registry_record(l))))
}

/// Reads the output of `list <name>`: each version with whether it is the current one.
pub fn parse_list_installed(stdout: &str) -> (r: Vec<(String, bool)>)
    ensures
        r.deep_view() == installed_records(stdout@),
{
    read_records(stdout, installed_of_line, Ghost(|l: Seq<char>| installed_record(l)))
}

/// Reads the output of `list all <name>`: one version per line.
pub fn parse_list_all(stdout: &str) -> (r: Vec<String>)
    ensures
        r.deep_view() == available_records(stdout@),
{
    read_records(stdout, available_of_line, Ghost(|l: Seq<char>| available_record(l)))
}

/// Reads the output of `latest --all`.
pub fn parse_latest_all(stdout: &str) -> (r: Result<Vec<LatestInfo>, AppError>)
    ensures
        r is Ok,
        r->Ok_0.deep_view() == latest_records(stdout@),
{
    Ok(read_records(stdout, latest_of_line, Ghost(|l: Seq<char>| latest_record(l))))
}

/// Reads the output of `shimversions <command>`.
pub fn parse_shim_versions(stdout: &str) -> (r: Vec<ShimVersion>)
    ensures
        r.deep_view() == shim_records(stdout@),
{
    read_records(stdout, shim_of_line, Ghost(|l: Seq<char>| shim_record(l)))
}

/// Reads the content of a tool-versions file.
pub fn parse_tool_versions(content: &str) -> (r: Vec<ToolVersion>)
    ensures
        r.deep_view() == tool_version_records(content@),
{
    read_records(content, tool_version_of_line, Ghost(|l: Seq<char>| tool_version_record(l)))
}

/// Reads the output of `env <command>`.
pub fn parse_env(stdout: &str) -> (r: Vec<EnvVar>)
    ensures
        r.deep_view() == env_records(stdout@),
{
    read_records(stdout, env_of_line, Ghost(|l: Seq<char>| env_record(l)))
}

/// Reads the output of `info`.
pub fn parse_asdf_info(stdout: &str) -> (r: Result<AsdfInfo, AppError>)
    ensures
        r is Ok,
        r->Ok_0.deep_view() == asdf_info_of(stdout@),
{
    let text = chars_of(stdout);
    let version_label = chars_of("ASDF VERSION:");
    let os_label = chars_of("OS:");
    let shell_label = chars_of("SHELL:");
    let dir_label = chars_of("ASDF DIR:");
    let data_dir_label = chars_of("ASDF DATA DIR:");
    let plugins_label = chars_of("ASDF INSTALLED PLUGINS:");
    let mut info = AsdfInfo {
        version: String::new(),
        os: String::new(),
        shell: String::new(),
        asdf_dir: String::new(),
        asdf_data_dir: String::new(),
        plugins: Vec::new(),
    };
    let mut in_plugins = false;
    let mut rest: &[char] = text.as_slice();
    assert(info.deep_view() =~= info_start().info) by {
        assert(info.plugins.deep_view() =~= Seq::<Seq<char>>::empty());
    }
    while rest.len() > 0
        invariant
            version_label@ == "ASDF VERSION:"@,
            os_label@ == "OS:"@,
            shell_label@ == "SHELL:"@,
            dir_label@ == "ASDF DIR:"@,
            data_dir_label@ == "ASDF DATA DIR:"@,
            plugins_label@ == "ASDF INSTALLED PLUGINS:"@,
            info_scan(info_start(), lines(stdout@)) == info_scan(
                InfoScan { info: info.deep_view(), in_plugins },
                lines(rest@),
            ),
        decreases rest@.len(),
    {
        let (line, next) = split_line(rest);
        let ghost before = InfoScan { info: info.deep_view(), in_plugins };
        proof {
            assert((seq![line@] + lines(next@)).drop_first() =~= lines(next@));
        }
        let l = trim_of(line);
        if let Some(val) = strip_prefix(l, version_label.as_slice()) {
            info.version = string_of(trim_of(val));
            in_plugins = false;
        } else if let Some(val) = strip_prefix(l, os_label.as_slice()) {
            info.os = string_of(trim_of(val));
            in_plugins = false;
        } else if let Some(val) = strip_prefix(l, shell_label.as_slice()) {
            info.shell = string_of(trim_of(val));
            in_plugins = false;
        } else if let Some(val) = strip_prefix(l, dir_label.as_slice()) {
            info.asdf_dir = string_of(trim_of(val));
            in_plugins = false;
        } else if let Some(val) = strip_prefix(l, data_dir_label.as_slice()) {
            info.asdf_data_dir = string_of(trim_of(val));
            in_plugins = false;
        } else if starts_with(l, plugins_label.as_slice()) {
            in_plugins = true;
        } else if in_plugins && l.len() > 0 {
            let name = string_of(l);
            let ghost plugins_before = info.plugins;
            info.plugins.push(name);
            proof {
                lemma_deep_view_push(plugins_before, info.plugins, name);
            }
        } else if l.len() == 0 {
            in_plugins = false;
        }
        assert(InfoScan { info: info.deep_view(), in_plugins } == info_step(before, line@));
        rest = next;
    }
    Ok(info)
}

} // verus!
