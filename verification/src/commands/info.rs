//! Requests about the installation of `asdf` itself.

use crate::commands::{Invocation, InvocationView};
use crate::text::{one_string, push_str};
use vstd::prelude::*;

verus! {

/// `asdf version`.
pub fn asdf_version_request() -> (r: Invocation)
    ensures
        r.deep_view() == (InvocationView { args: seq!["version"@], in_working_directory: false }),
{
    Invocation { args: one_string("version"), in_working_directory: false }
}

/// `asdf info`.
pub fn asdf_info_request() -> (r: Invocation)
    ensures
        r.deep_view() == (InvocationView { args: seq!["info"@], in_working_directory: false }),
{
    Invocation { args: one_string("info"), in_working_directory: false }
}

/// `asdf env <command>`, run in the working directory.
pub fn asdf_env_request(command: &str) -> (r: Invocation)
    ensures
        r.deep_view() == (InvocationView {
            args: seq!["env"@, command@],
            in_working_directory: true,
        }),
{
    let mut args = one_string("env");
    push_str(&mut args, command);
    assert(args.deep_view() =~= seq!["env"@, command@]);
    Invocation { args, in_working_directory: true }
}

} // verus!
