//! Requests about the versions of tools.

use crate::asdf::parser::{installed_records, parse_list_installed};
use crate::commands::{push_flag, push_optional, with_flag, with_optional, Invocation, InvocationView};
use crate::text::{one_string, push_str};
use crate::types::SetScope;
use vstd::prelude::*;

verus! {

/// `asdf current [name]`, run in the working directory.
pub fn current_request(name: Option<&str>) -> (r: Invocation)
    ensures
        r.deep_view() == (InvocationView {
            args: with_optional(seq!["current"@], name.deep_view()),
            in_working_directory: true,
        }),
{
    let mut args = one_string("current");
    push_optional(&mut args, name);
    Invocation { args, in_working_directory: true }
}

/// `asdf install [name] [version] [--keep-download]`, run in the directory
/// that [`install_directory`] names.
pub fn install_request(name: Option<&str>, version: Option<&str>, keep_download: bool) -> (r:
    Invocation)
    ensures
        r.deep_view() == (InvocationView {
            args: with_flag(
                with_optional(with_optional(seq!["install"@], name.deep_view()), version.deep_view()),
                keep_download,
                "--keep-download"@,
            ),
            in_working_directory: true,
        }),
{
    let mut args = one_string("install");
    push_optional(&mut args, name);
    push_optional(&mut args, version);
    push_flag(&mut args, keep_download, "--keep-download");
    Invocation { args, in_working_directory: true }
}

/// The directory that an installation runs in: the one that the request
/// names, else the configured working directory.
pub open spec fn install_directory_spec(requested: Option<Seq<char>>, configured: Option<Seq<char>>) -> Option<
    Seq<char>,
> {
    match requested {
        Some(d) => Some(d),
        None => configured,
    }
}

/// The directory that an installation runs in.
pub fn install_directory(requested: Option<String>, configured: Option<String>) -> (r: Option<
    String,
>)
    ensures
        r.deep_view() == install_directory_spec(requested.deep_view(), configured.deep_view()),
{
    match requested {
        Some(d) => Some(d),
        None => configured,
    }
}

/// `asdf uninstall <name> <version>`.
pub fn uninstall_request(name: &str, version: &str) -> (r: Invocation)
    ensures
        r.deep_view() == (InvocationView {
            args: seq!["uninstall"@, name@, version@],
            in_working_directory: false,
        }),
{
    let mut args = one_string("uninstall");
    push_str(&mut args, name);
    push_str(&mut args, version);
    assert(args.deep_view() =~= seq!["uninstall"@, name@, version@]);
    Invocation { args, in_working_directory: false }
}

/// The flag that selects the file that `set` writes to; none for the file
/// of the working directory.
pub open spec fn scope_flag(scope: SetScope) -> Option<Seq<char>> {
    match scope {
        SetScope::Home => Some("--home"@),
        SetScope::Parent => Some("--parent"@),
        SetScope::Local => None,
    }
}

/// `asdf set [--home|--parent] <name> <versions...>`, run in the working
/// directory.
pub fn set_version_request(name: &str, versions: &Vec<String>, scope: SetScope) -> (r: Invocation)
    ensures
        r.deep_view() == (InvocationView {
            args: with_optional(seq!["set"@], scope_flag(scope)).push(name@) + versions.deep_view(),
            in_working_directory: true,
        }),
{
    let mut args = one_string("set");
    match scope {
        SetScope::Home => push_str(&mut args, "--home"),
        SetScope::Parent => push_str(&mut args, "--parent"),
        SetScope::Local => {},
    }
    push_str(&mut args, name);
    let ghost head = args.deep_view();
    let mut i: usize = 0;
    assert(head + versions.deep_view().take(0) =~= head);
    while i < versions.len()
        invariant
            i <= versions@.len(),
            args.deep_view() == head + versions.deep_view().take(i as int),
        decreases versions@.len() - i,
    {
        let ghost before = args.deep_view();
        push_str(&mut args, versions[i].as_str());
        assert(before.push(versions[i as int]@) =~= head + versions.deep_view().take(i + 1));
        i += 1;
    }
    assert(versions.deep_view().take(i as int) =~= versions.deep_view());
    Invocation { args, in_working_directory: true }
}

/// `asdf latest <name> [filter]`.
pub fn latest_request(name: &str, filter: Option<&str>) -> (r: Invocation)
    ensures
        r.deep_view() == (InvocationView {
            args: with_optional(seq!["latest"@, name@], filter.deep_view()),
            in_working_directory: false,
        }),
{
    let mut args = one_string("latest");
    push_str(&mut args, name);
    assert(args.deep_view() =~= seq!["latest"@, name@]);
    push_optional(&mut args, filter);
    Invocation { args, in_working_directory: false }
}

/// `asdf latest --all`.
pub fn latest_all_request() -> (r: Invocation)
    ensures
        r.deep_view() == (InvocationView {
            args: seq!["latest"@, "--all"@],
            in_working_directory: false,
        }),
{
    let mut args = one_string("latest");
    push_str(&mut args, "--all");
    assert(args.deep_view() =~= seq!["latest"@, "--all"@]);
    Invocation { args, in_working_directory: false }
}

/// `asdf list <name>`.
pub fn list_installed_request(name: &str) -> (r: Invocation)
    ensures
        r.deep_view() == (InvocationView {
            args: seq!["list"@, name@],
            in_working_directory: false,
        }),
{
    let mut args = one_string("list");
    push_str(&mut args, name);
    assert(args.deep_view() =~= seq!["list"@, name@]);
    Invocation { args, in_working_directory: false }
}

/// `asdf list all <name> [filter]`.
pub fn list_all_request(name: &str, filter: Option<&str>) -> (r: Invocation)
    ensures
        r.deep_view() == (InvocationView {
            args: with_optional(seq!["list"@, "all"@, name@], filter.deep_view()),
            in_working_directory: false,
        }),
{
    let mut args = one_string("list");
    push_str(&mut args, "all");
    push_str(&mut args, name);
    assert(args.deep_view() =~= seq!["list"@, "all"@, name@]);
    push_optional(&mut args, filter);
    Invocation { args, in_working_directory: false }
}

/// `asdf where <name> [version]`, run in the working directory.
pub fn where_installed_request(name: &str, version: Option<&str>) -> (r: Invocation)
    ensures
        r.deep_view() == (InvocationView {
            args: with_optional(seq!["where"@, name@], version.deep_view()),
            in_working_directory: true,
        }),
{
    let mut args = one_string("where");
    push_str(&mut args, name);
    assert(args.deep_view() =~= seq!["where"@, name@]);
    push_optional(&mut args, version);
    Invocation { args, in_working_directory: true }
}

/// The versions that `list <name>` prints, without the mark of the current one.
pub open spec fn installed_versions_spec(text: Seq<char>) -> Seq<Seq<char>> {
    Seq::new(installed_records(text).len(), |i: int| installed_records(text)[i].0)
}

/// Reads the versions that `list <name>` prints.
pub fn installed_versions(stdout: &str) -> (r: Vec<String>)
    ensures
        r.deep_view() == installed_versions_spec(stdout@),
{
    let pairs = parse_list_installed(stdout);
    let ghost goal = installed_versions_spec(stdout@);
    let mut out: Vec<String> = Vec::new();
    let mut i: usize = 0;
    assert(out.deep_view() =~= goal.take(0));
    while i < pairs.len()
        invariant
            i <= pairs@.len(),
            pairs.deep_view() == installed_records(stdout@),
            goal == installed_versions_spec(stdout@),
            out.deep_view() == goal.take(i as int),
        decreases pairs@.len() - i,
    {
        let ghost before = out.deep_view();
        assert(pairs.deep_view()[i as int] == pairs[i as int].deep_view());
        push_str(&mut out, pairs[i].0.as_str());
        assert(before.push(pairs[i as int].0@) =~= goal.take(i + 1));
        i += 1;
    }
    assert(goal.take(i as int) =~= goal);
    out
}

} // verus!
