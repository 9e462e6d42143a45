//! What each request to the front end asks of `asdf`: the arguments to run
//! it with, the directory to run it in, and what to make of its output.

pub mod info;
pub mod plugin;
pub mod settings;
pub mod shim;
pub mod tool_versions;
pub mod version;

use crate::text::push_str;
use vstd::prelude::*;

verus! {

/// One run of `asdf`: its arguments, and whether it runs in the configured
/// working directory or in the directory of the process.
#[derive(Debug, Clone, PartialEq, Eq)]
pub struct Invocation {
    pub args: Vec<String>,
    pub in_working_directory: bool,
}

/// What an [`Invocation`] holds.
pub struct InvocationView {
    pub args: Seq<Seq<char>>,
    pub in_working_directory: bool,
}

impl DeepView for Invocation {
    type V = InvocationView;

    open spec fn deep_view(&self) -> InvocationView {
        InvocationView {
            args: self.args.deep_view(),
            in_working_directory: self.in_working_directory,
        }
    }
}

/// `args` followed by `extra`, where there is one.
pub open spec fn with_optional(args: Seq<Seq<char>>, extra: Option<Seq<char>>) -> Seq<Seq<char>> {
    match extra {
        Some(x) => args.push(x),
        None => args,
    }
}

/// `args` followed by `flag`, where it is asked for.
pub open spec fn with_flag(args: Seq<Seq<char>>, wanted: bool, flag: Seq<char>) -> Seq<Seq<char>> {
    if wanted {
        args.push(flag)
    } else {
        args
    }
}

/// The directory that an invocation runs in: the working directory where it
/// asks for it, none otherwise.
pub open spec fn directory_spec(invocation: InvocationView, cwd: Option<Seq<char>>) -> Option<
    Seq<char>,
> {
    if invocation.in_working_directory {
        cwd
    } else {
        None
    }
}

/// Appends `extra` to `args`, where there is one.
pub(crate) fn push_optional(args: &mut Vec<String>, extra: Option<&str>)
    ensures
        final(args).deep_view() == with_optional(old(args).deep_view(), extra.deep_view()),
{
    if let Some(x) = extra {
        push_str(args, x);
    }
}

/// Appends `flag` to `args`, where it is asked for.
pub(crate) fn push_flag(args: &mut Vec<String>, wanted: bool, flag: &str)
    ensures
        final(args).deep_view() == with_flag(old(args).deep_view(), wanted, flag@),
{
    if wanted {
        push_str(args, flag);
    }
}

impl Invocation {
    /// The directory to run in, given the configured working directory.
    pub fn directory(&self, cwd: Option<&str>) -> (r: Option<String>)
        ensures
            r.deep_view() == directory_spec(self.deep_view(), cwd.deep_view()),
    {
        if self.in_working_directory {
            match cwd {
                Some(d) => Some(d.to_owned()),
                None => None,
            }
        } else {
            None
        }
    }
}

} // verus!
