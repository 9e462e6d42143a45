//! Requests about shims.

use crate::commands::{Invocation, InvocationView};
use crate::text::{one_string, push_str};
use vstd::prelude::*;

verus! {

/// `asdf which <command>`, run in the working directory.
pub fn which_command_request(command: &str) -> (r: Invocation)
    ensures
        r.deep_view() == (InvocationView {
            args: seq!["which"@, command@],
            in_working_directory: true,
        }),
{
    let mut args = one_string("which");
    push_str(&mut args, command);
    assert(args.deep_view() =~= seq!["which"@, command@]);
    Invocation { args, in_working_directory: true }
}

/// `asdf shimversions <command>`.
pub fn shim_versions_request(command: &str) -> (r: Invocation)
    ensures
        r.deep_view() == (InvocationView {
            args: seq!["shimversions"@, command@],
            in_working_directory: false,
        }),
{
    let mut args = one_string("shimversions");
    push_str(&mut args, command);
    assert(args.deep_view() =~= seq!["shimversions"@, command@]);
    Invocation { args, in_working_directory: false }
}

/// `asdf reshim <name> <version>`.
pub fn reshim_request(name: &str, version: &str) -> (r: Invocation)
    ensures
        r.deep_view() == (InvocationView {
            args: seq!["reshim"@, name@, version@],
            in_working_directory: false,
        }),
{
    let mut args = one_string("reshim");
    push_str(&mut args, name);
    push_str(&mut args, version);
    assert(args.deep_view() =~= seq!["reshim"@, name@, version@]);
    Invocation { args, in_working_directory: false }
}

} // verus!
