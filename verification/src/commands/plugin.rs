//! Requests about plugins.

use crate::commands::{push_flag, push_optional, with_flag, with_optional, Invocation, InvocationView};
use crate::error::{AppError, AppErrorView};
use crate::text::{one_string, push_str};
use vstd::prelude::*;

verus! {

/// What an invocation or the reason for its refusal holds.
pub open spec fn request_view(r: Result<Invocation, AppError>) -> Result<
    InvocationView,
    AppErrorView,
> {
    match r {
        Ok(i) => Ok(i.deep_view()),
        Err(e) => Err(e.deep_view()),
    }
}

/// `asdf plugin list [--urls] [--refs]`.
pub fn plugin_list_request(urls: bool, refs: bool) -> (r: Invocation)
    ensures
        r.deep_view() == (InvocationView {
            args: with_flag(with_flag(seq!["plugin"@, "list"@], urls, "--urls"@), refs, "--refs"@),
            in_working_directory: false,
        }),
{
    let mut args = one_string("plugin");
    push_str(&mut args, "list");
    assert(args.deep_view() =~= seq!["plugin"@, "list"@]);
    push_flag(&mut args, urls, "--urls");
    push_flag(&mut args, refs, "--refs");
    Invocation { args, in_working_directory: false }
}

/// `asdf plugin list all`.
pub fn plugin_list_all_request() -> (r: Invocation)
    ensures
        r.deep_view() == (InvocationView {
            args: seq!["plugin"@, "list"@, "all"@],
            in_working_directory: false,
        }),
{
    let mut args = one_string("plugin");
    push_str(&mut args, "list");
    push_str(&mut args, "all");
    assert(args.deep_view() =~= seq!["plugin"@, "list"@, "all"@]);
    Invocation { args, in_working_directory: false }
}

/// `asdf plugin add <name> [url]`.
pub fn plugin_add_request(name: &str, git_url: Option<&str>) -> (r: Invocation)
    ensures
        r.deep_view() == (InvocationView {
            args: with_optional(seq!["plugin"@, "add"@, name@], git_url.deep_view()),
            in_working_directory: false,
        }),
{
    let mut args = one_string("plugin");
    push_str(&mut args, "add");
    push_str(&mut args, name);
    assert(args.deep_view() =~= seq!["plugin"@, "add"@, name@]);
    push_optional(&mut args, git_url);
    Invocation { args, in_working_directory: false }
}

/// `asdf plugin remove <name>`.
pub fn plugin_remove_request(name: &str) -> (r: Invocation)
    ensures
        r.deep_view() == (InvocationView {
            args: seq!["plugin"@, "remove"@, name@],
            in_working_directory: false,
        }),
{
    let mut args = one_string("plugin");
    push_str(&mut args, "remove");
    push_str(&mut args, name);
    assert(args.deep_view() =~= seq!["plugin"@, "remove"@, name@]);
    Invocation { args, in_working_directory: false }
}

/// What an update of plugins runs: all of them where `all` is set, whatever
/// `name` is; else the named one; a request that names none is refused.
pub open spec fn plugin_update_spec(name: Option<Seq<char>>, all: bool) -> Result<
    InvocationView,
    AppErrorView,
> {
    if all {
        Ok(InvocationView { args: seq!["plugin"@, "update"@, "--all"@], in_working_directory: false })
    } else {
        match name {
            Some(n) => Ok(
                InvocationView { args: seq!["plugin"@, "update"@, n], in_working_directory: false },
            ),
            None => Err(AppErrorView::ParseError("either name or --all must be specified"@)),
        }
    }
}

/// `asdf plugin update <name>` or `asdf plugin update --all`.
pub fn plugin_update_request(name: Option<&str>, all: bool) -> (r: Result<Invocation, AppError>)
    ensures
        request_view(r) == plugin_update_spec(name.deep_view(), all),
{
    let mut args = one_string("plugin");
    push_str(&mut args, "update");
    if all {
        push_str(&mut args, "--all");
        assert(args.deep_view() =~= seq!["plugin"@, "update"@, "--all"@]);
        Ok(Invocation { args, in_working_directory: false })
    } else {
        match name {
            Some(n) => {
                push_str(&mut args, n);
                assert(args.deep_view() =~= seq!["plugin"@, "update"@, n@]);
                Ok(Invocation { args, in_working_directory: false })
            },
            None => Err(
                AppError::ParseError("either name or --all must be specified".to_owned()),
            ),
        }
    }
}

} // verus!
