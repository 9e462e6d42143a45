//! Running `asdf`: where to look for the executable, how to learn the login
//! shell's search path, what a finished run amounts to, and what a streamed
//! run sends to its listener. Nothing here starts a process; the caller does,
//! and hands back what happened.

use crate::error::{AppError, AppErrorView};
use crate::paths::{home_dir, join_path, joined};
use crate::search::{
    begin_spec, faithful, found, lemma_search_repeatable, replay, AnswerView, Probe, ProbeView,
    Search, Step,
};
use crate::text::{one_string, push_str, trim, trimmed};
use crate::types::{InstallEvent, InstallEventView};
use vstd::prelude::*;
use vstd::utf8::{decode_utf8, valid_utf8};

verus! {

/// What a finished run of `asdf` left behind.
#[derive(Debug, Clone, PartialEq, Eq)]
pub struct CommandOutput {
    pub stdout: String,
    pub stderr: String,
    pub exit_code: i32,
}

/// What a [`CommandOutput`] holds.
pub struct CommandOutputView {
    pub stdout: Seq<char>,
    pub stderr: Seq<char>,
    pub exit_code: int,
}

impl DeepView for CommandOutput {
    type V = CommandOutputView;

    open spec fn deep_view(&self) -> CommandOutputView {
        CommandOutputView {
            stdout: self.stdout@,
            stderr: self.stderr@,
            exit_code: self.exit_code as int,
        }
    }
}

/// What a command result holds.
pub open spec fn command_view(r: Result<CommandOutput, AppError>) -> Result<
    CommandOutputView,
    AppErrorView,
> {
    match r {
        Ok(o) => Ok(o.deep_view()),
        Err(e) => Err(e.deep_view()),
    }
}

/// The exit code that stands for a process that ended without one.
pub open spec fn code_or_unknown(exit_code: Option<i32>) -> int {
    match exit_code {
        Some(c) => c as int,
        None => -1,
    }
}

/// What a finished run amounts to: its output where the exit code is 0,
/// otherwise a failure that carries the exit code and the trimmed error
/// output.
pub open spec fn command_outcome(exit_code: Option<i32>, stdout: Seq<char>, stderr: Seq<char>) -> Result<
    CommandOutputView,
    AppErrorView,
> {
    if code_or_unknown(exit_code) == 0 {
        Ok(CommandOutputView { stdout, stderr, exit_code: 0 })
    } else {
        Err(AppErrorView::AsdfError { exit_code: code_or_unknown(exit_code), stderr: trim(stderr) })
    }
}

/// The text that `String::from_utf8_lossy` reads from `bytes`.
pub uninterp spec fn lossy_text(bytes: Seq<u8>) -> Seq<char>;

/// Decodes `bytes` with `String::from_utf8_lossy`, which keeps valid UTF-8
/// as it is and puts U+FFFD in the place of each invalid sequence. Believed
/// without proof: the result is the named text, and that of valid UTF-8 is
/// what the bytes encode.
#[verifier::external_body]
fn decode_lossy(bytes: &[u8]) -> (r: String)
    ensures
        r@ == lossy_text(bytes@),
        valid_utf8(bytes@) ==> r@ == decode_utf8(bytes@),
{
    String::from_utf8_lossy(bytes).into_owned()
}

impl CommandOutput {
    /// The result of a run that ended with `exit_code` after printing
    /// `stdout` and `stderr`.
    pub fn from_exit(exit_code: Option<i32>, stdout: String, stderr: String) -> (r: Result<
        CommandOutput,
        AppError,
    >)
        ensures
            command_view(r) == command_outcome(exit_code, stdout@, stderr@),
    {
        let code: i32 = match exit_code {
            Some(c) => c,
            None => -1,
        };
        if code != 0 {
            Err(AppError::AsdfError { exit_code: code, stderr: trimmed(stderr.as_str()) })
        } else {
            Ok(CommandOutput { stdout, stderr, exit_code: code })
        }
    }

    /// The result of a run that ended with `exit_code` after writing the
    /// given bytes to its two streams; bytes that are no UTF-8 are replaced,
    /// never refused.
    pub fn from_raw(exit_code: Option<i32>, stdout: &[u8], stderr: &[u8]) -> (r: Result<
        CommandOutput,
        AppError,
    >)
        ensures
            command_view(r) == command_outcome(exit_code, lossy_text(stdout@), lossy_text(stderr@)),
            valid_utf8(stdout@) && valid_utf8(stderr@) ==> command_view(r) == command_outcome(
                exit_code,
                decode_utf8(stdout@),
                decode_utf8(stderr@),
            ),
    {
        CommandOutput::from_exit(exit_code, decode_lossy(stdout), decode_lossy(stderr))
    }
}

/// The places where an installation of `asdf` usually puts the executable,
/// in the order in which they are tried: below the home directory where one
/// is known, then the fixed system-wide places.
pub open spec fn well_known_paths(home: Option<Seq<char>>) -> Seq<Seq<char>> {
    let fixed = seq!["/opt/homebrew/bin/asdf"@, "/usr/local/bin/asdf"@, "/opt/asdf-vm/bin/asdf"@];
    match home {
        Some(h) => seq![joined(joined(joined(h, ".asdf"@), "bin"@), "asdf"@)] + fixed,
        None => fixed,
    }
}

/// The well-known places for a given home directory.
pub fn well_known_asdf_paths_for(home: Option<&str>) -> (r: Vec<String>)
    ensures
        r.deep_view() == well_known_paths(home.deep_view()),
{
    let mut paths: Vec<String> = Vec::new();
    assert(paths.deep_view() =~= Seq::<Seq<char>>::empty());
    if let Some(h) = home {
        let below = join_path(join_path(join_path(h, ".asdf").as_str(), "bin").as_str(), "asdf");
        push_str(&mut paths, below.as_str());
    }
    push_str(&mut paths, "/opt/homebrew/bin/asdf");
    push_str(&mut paths, "/usr/local/bin/asdf");
    push_str(&mut paths, "/opt/asdf-vm/bin/asdf");
    assert(paths.deep_view() =~= well_known_paths(home.deep_view()));
    paths
}

/// The well-known places for the home directory that the environment names.
/// Whatever the environment says, the result is the list for some home
/// directory or for none.
pub fn well_known_asdf_paths() -> (r: Vec<String>)
    ensures
        exists|home: Option<Seq<char>>| r.deep_view() == well_known_paths(home),
{
    let home = home_dir();
    let r = match &home {
        Some(h) => well_known_asdf_paths_for(Some(h.as_str())),
        None => well_known_asdf_paths_for(None),
    };
    assert(r.deep_view() == well_known_paths(home.deep_view()));
    r
}

/// The candidates of a sequence of paths, in order.
pub open spec fn candidates(paths: Seq<Seq<char>>) -> Seq<ProbeView> {
    Seq::new(paths.len(), |i: int| ProbeView::Candidate(paths[i]))
}

/// The plan by which the executable is looked for. A configured path is the
/// only probe where there is one. Otherwise: the executable below
/// `$ASDF_DIR` where that is set, the well-known places, `which` under the
/// login shell's search path and, on Windows, `where`.
pub open spec fn asdf_binary_plan(
    config_override: Option<Seq<char>>,
    asdf_dir: Option<Seq<char>>,
    home: Option<Seq<char>>,
    windows: bool,
) -> Seq<ProbeView> {
    match config_override {
        Some(p) => seq![ProbeView::Configured(p)],
        None => {
            let below_dir = match asdf_dir {
                Some(d) => seq![ProbeView::Candidate(joined(joined(d, "bin"@), "asdf"@))],
                None => Seq::empty(),
            };
            let lookups = if windows {
                seq![ProbeView::Which, ProbeView::Where]
            } else {
                seq![ProbeView::Which]
            };
            below_dir + candidates(well_known_paths(home)) + lookups
        },
    }
}

/// How the search for the executable ends where no probe decides.
pub open spec fn asdf_not_found() -> AppErrorView {
    AppErrorView::AsdfNotFound("asdf binary not found in PATH, $ASDF_DIR, or config"@)
}

/// Starts the search for the executable, given the configured path, the
/// value of `$ASDF_DIR`, the home directory and the platform.
pub fn asdf_binary_search(
    config_override: Option<&str>,
    asdf_dir: Option<&str>,
    home: Option<&str>,
    windows: bool,
) -> (r: Step)
    ensures
        r.deep_view() == begin_spec(
            asdf_binary_plan(
                config_override.deep_view(),
                asdf_dir.deep_view(),
                home.deep_view(),
                windows,
            ),
            Err(asdf_not_found()),
        ),
{
    let ghost goal = asdf_binary_plan(
        config_override.deep_view(),
        asdf_dir.deep_view(),
        home.deep_view(),
        windows,
    );
    let mut plan: Vec<Probe> = Vec::new();
    assert(plan.deep_view() =~= Seq::<ProbeView>::empty());
    if let Some(p) = config_override {
        push_probe(&mut plan, Probe::Configured(p.to_owned()));
        assert(plan.deep_view() =~= goal);
    } else {
        if let Some(d) = asdf_dir {
            let below = join_path(join_path(d, "bin").as_str(), "asdf");
            push_probe(&mut plan, Probe::Candidate(below));
        }
        let ghost below_dir = plan.deep_view();
        let known = well_known_asdf_paths_for(home);
        let mut i: usize = 0;
        while i < known.len()
            invariant
                i <= known@.len(),
                plan.deep_view() == below_dir + candidates(known.deep_view()).take(i as int),
            decreases known@.len() - i,
        {
            let ghost before = plan.deep_view();
            push_probe(&mut plan, Probe::Candidate(known[i].clone()));
            assert(before.push(ProbeView::Candidate(known[i as int]@)) =~= below_dir + candidates(
                known.deep_view(),
            ).take(i + 1));
            i += 1;
        }
        assert(candidates(known.deep_view()).take(i as int) =~= candidates(known.deep_view()));
        push_probe(&mut plan, Probe::Which);
        if windows {
            push_probe(&mut plan, Probe::Where);
        }
        assert(plan.deep_view() =~= goal);
    }
    let otherwise = Err(
        AppError::AsdfNotFound("asdf binary not found in PATH, $ASDF_DIR, or config".to_owned()),
    );
    Search::begin(plan, otherwise)
}

/// Starts the search for the executable with the home directory that the
/// environment names. Whatever it names, the search is the one for some home
/// directory or for none.
pub fn resolve_asdf_binary(config_override: Option<&str>, asdf_dir: Option<&str>, windows: bool) -> (r:
    Step)
    ensures
        exists|home: Option<Seq<char>>|
            r.deep_view() == begin_spec(
                asdf_binary_plan(config_override.deep_view(), asdf_dir.deep_view(), home, windows),
                Err(asdf_not_found()),
            ),
{
    let home = home_dir();
    let r = match &home {
        Some(h) => asdf_binary_search(config_override, asdf_dir, Some(h.as_str()), windows),
        None => asdf_binary_search(config_override, asdf_dir, None, windows),
    };
    assert(r.deep_view() == begin_spec(
        asdf_binary_plan(
            config_override.deep_view(),
            asdf_dir.deep_view(),
            home.deep_view(),
            windows,
        ),
        Err(asdf_not_found()),
    ));
    r
}

/// A configured path decides alone: the executable is that path where the
/// environment says that it exists, and is not found otherwise, whatever
/// else the environment holds.
pub proof fn lemma_configured_path_decides(
    path: Seq<char>,
    asdf_dir: Option<Seq<char>>,
    home: Option<Seq<char>>,
    windows: bool,
    world: spec_fn(ProbeView) -> AnswerView,
)
    ensures
        found(asdf_binary_plan(Some(path), asdf_dir, home, windows), Err(asdf_not_found()), world)
            == (if world(ProbeView::Configured(path)) == AnswerView::Exists(true) {
            Ok::<Seq<char>, AppErrorView>(path)
        } else {
            Err(AppErrorView::AsdfNotFound("configured path does not exist"@))
        }),
{
}

/// Resolving the executable twice, with the same configured path and in the
/// same environment, ends the same way both times: with the same path or
/// with the same failure, which is what the plan finds in that environment.
pub proof fn lemma_resolve_repeatable(
    config_override: Option<Seq<char>>,
    asdf_dir: Option<Seq<char>>,
    home: Option<Seq<char>>,
    windows: bool,
    world: spec_fn(ProbeView) -> AnswerView,
    first: Seq<AnswerView>,
    second: Seq<AnswerView>,
)
    requires
        faithful(
            begin_spec(
                asdf_binary_plan(config_override, asdf_dir, home, windows),
                Err(asdf_not_found()),
            ),
            first,
            world,
        ),
        faithful(
            begin_spec(
                asdf_binary_plan(config_override, asdf_dir, home, windows),
                Err(asdf_not_found()),
            ),
            second,
            world,
        ),
        replay(
            begin_spec(
                asdf_binary_plan(config_override, asdf_dir, home, windows),
                Err(asdf_not_found()),
            ),
            first,
        ) is Some,
        replay(
            begin_spec(
                asdf_binary_plan(config_override, asdf_dir, home, windows),
                Err(asdf_not_found()),
            ),
            second,
        ) is Some,
    ensures
        replay(
            begin_spec(
                asdf_binary_plan(config_override, asdf_dir, home, windows),
                Err(asdf_not_found()),
            ),
            first,
        ) == replay(
            begin_spec(
                asdf_binary_plan(config_override, asdf_dir, home, windows),
                Err(asdf_not_found()),
            ),
            second,
        ),
        replay(
            begin_spec(
                asdf_binary_plan(config_override, asdf_dir, home, windows),
                Err(asdf_not_found()),
            ),
            first,
        ) == Some(
            found(
                asdf_binary_plan(config_override, asdf_dir, home, windows),
                Err(asdf_not_found()),
                world,
            ),
        ),
{
    lemma_search_repeatable(
        asdf_binary_plan(config_override, asdf_dir, home, windows),
        Err(asdf_not_found()),
        world,
        first,
        second,
    );
}

/// Appends `probe` to `plan`.
fn push_probe(plan: &mut Vec<Probe>, probe: Probe)
    ensures
        final(plan).deep_view() == old(plan).deep_view().push(probe.deep_view()),
{
    let ghost before = plan.deep_view();
    plan.push(probe);
    assert(plan.deep_view() =~= before.push(probe.deep_view()));
}

/// The shells that are asked for the search path, in order: the user's own
/// where `$SHELL` names one, then `zsh` and `bash`.
pub open spec fn login_shells(shell: Option<Seq<char>>) -> Seq<Seq<char>> {
    let fallbacks = seq!["/bin/zsh"@, "/bin/bash"@];
    match shell {
        Some(s) => if s.len() > 0 {
            seq![s] + fallbacks
        } else {
            fallbacks
        },
        None => fallbacks,
    }
}

/// The plan by which the login shell's search path is learnt.
pub open spec fn login_path_plan(shell: Option<Seq<char>>) -> Seq<ProbeView> {
    Seq::new(login_shells(shell).len(), |i: int| ProbeView::LoginShell(login_shells(shell)[i]))
}

/// The search path to use where no shell names one: the process's own, or
/// none at all.
pub open spec fn own_path(path: Option<Seq<char>>) -> Seq<char> {
    match path {
        Some(p) => p,
        None => Seq::empty(),
    }
}

/// Starts the search for the login shell's search path, given the values of
/// `$SHELL` and `$PATH`. The first shell that succeeds and prints more than
/// white space decides; where none does, the process's own path stands.
pub fn get_user_path(shell: Option<&str>, path: Option<&str>) -> (r: Step)
    ensures
        r.deep_view() == begin_spec(login_path_plan(shell.deep_view()), Ok(own_path(path.deep_view()))),
{
    let ghost goal = login_path_plan(shell.deep_view());
    let mut plan: Vec<Probe> = Vec::new();
    assert(plan.deep_view() =~= Seq::<ProbeView>::empty());
    if let Some(s) = shell {
        if !s.is_empty() {
            push_probe(&mut plan, Probe::LoginShell(s.to_owned()));
        }
    }
    push_probe(&mut plan, Probe::LoginShell("/bin/zsh".to_owned()));
    push_probe(&mut plan, Probe::LoginShell("/bin/bash".to_owned()));
    assert(plan.deep_view() =~= goal);
    let otherwise = match path {
        Some(p) => p.to_owned(),
        None => String::new(),
    };
    Search::begin(plan, Ok(otherwise))
}

/// A program to run for a probe.
#[derive(Debug, Clone, PartialEq, Eq)]
pub struct ProbeCommand {
    pub program: String,
    pub args: Vec<String>,
    /// Whether the program runs under the login shell's search path.
    pub login_path: bool,
}

/// What a [`ProbeCommand`] holds.
pub struct ProbeCommandView {
    pub program: Seq<char>,
    pub args: Seq<Seq<char>>,
    pub login_path: bool,
}

impl DeepView for ProbeCommand {
    type V = ProbeCommandView;

    open spec fn deep_view(&self) -> ProbeCommandView {
        ProbeCommandView {
            program: self.program@,
            args: self.args.deep_view(),
            login_path: self.login_path,
        }
    }
}

/// The program whose output answers `probe`; none for a probe that asks
/// whether a path exists.
pub open spec fn probe_command_spec(probe: ProbeView) -> Option<ProbeCommandView> {
    match probe {
        ProbeView::Which => Some(
            ProbeCommandView { program: "which"@, args: seq!["asdf"@], login_path: true },
        ),
        ProbeView::Where => Some(
            ProbeCommandView { program: "where"@, args: seq!["asdf"@], login_path: false },
        ),
        ProbeView::LoginShell(s) => Some(
            ProbeCommandView { program: s, args: seq!["-lc"@, "echo $PATH"@], login_path: false },
        ),
        _ => None,
    }
}

/// The program to run for `probe`.
pub fn probe_command(probe: &Probe) -> (r: Option<ProbeCommand>)
    ensures
        r.deep_view() == probe_command_spec(probe.deep_view()),
{
    match probe {
        Probe::Which => Some(
            ProbeCommand { program: "which".to_owned(), args: one_string("asdf"), login_path: true },
        ),
        Probe::Where => Some(
            ProbeCommand { program: "where".to_owned(), args: one_string("asdf"), login_path: false },
        ),
        Probe::LoginShell(s) => {
            let mut args = one_string("-lc");
            push_str(&mut args, "echo $PATH");
            assert(args.deep_view() =~= seq!["-lc"@, "echo $PATH"@]);
            Some(ProbeCommand { program: s.clone(), args, login_path: false })
        },
        _ => None,
    }
}

/// Something that happened to a streamed run.
#[derive(Debug, Clone, PartialEq, Eq)]
pub enum StreamInput {
    /// The process wrote a line to its output.
    Stdout(String),
    /// The process wrote a line to its error output.
    Stderr(String),
    /// The process ended.
    Exited { success: bool, exit_code: Option<i32> },
    /// Waiting for the process failed.
    WaitFailed(String),
}

/// What a [`StreamInput`] holds.
pub enum StreamInputView {
    Stdout(Seq<char>),
    Stderr(Seq<char>),
    Exited { success: bool, exit_code: Option<i32> },
    WaitFailed(Seq<char>),
}

impl DeepView for StreamInput {
    type V = StreamInputView;

    open spec fn deep_view(&self) -> StreamInputView {
        match self {
            StreamInput::Stdout(l) => StreamInputView::Stdout(l@),
            StreamInput::Stderr(l) => StreamInputView::Stderr(l@),
            StreamInput::Exited { success, exit_code } => StreamInputView::Exited {
                success: *success,
                exit_code: *exit_code,
            },
            StreamInput::WaitFailed(m) => StreamInputView::WaitFailed(m@),
        }
    }
}

/// What the relay does with one input: the event to send, if any, and the
/// result of the run, once it is known.
#[derive(Debug, Clone, PartialEq, Eq)]
pub struct Relayed {
    pub event: Option<InstallEvent>,
    pub outcome: Option<Result<(), AppError>>,
}

/// What a [`Relayed`] holds.
pub struct RelayedView {
    pub event: Option<InstallEventView>,
    pub outcome: Option<Result<(), AppErrorView>>,
}

/// What the result of a streamed run holds.
pub open spec fn stream_outcome_view(r: Option<Result<(), AppError>>) -> Option<
    Result<(), AppErrorView>,
> {
    match r {
        Some(Ok(_)) => Some(Ok(())),
        Some(Err(e)) => Some(Err(e.deep_view())),
        None => None,
    }
}

impl DeepView for Relayed {
    type V = RelayedView;

    open spec fn deep_view(&self) -> RelayedView {
        RelayedView { event: self.event.deep_view(), outcome: stream_outcome_view(self.outcome) }
    }
}

/// Whether an input is a line of output.
pub open spec fn is_line(input: StreamInputView) -> bool {
    input is Stdout || input is Stderr
}

/// The result of a streamed run that ended: success, or a failure with the
/// exit code. The error output is not repeated in it: it was streamed.
pub open spec fn exit_outcome(success: bool, exit_code: Option<i32>) -> Result<(), AppErrorView> {
    if success {
        Ok(())
    } else {
        Err(
            AppErrorView::AsdfError {
                exit_code: code_or_unknown(exit_code),
                stderr: "install failed (see log output above)"@,
            },
        )
    }
}

/// What the relay does with `input`. While the run goes on, every line is
/// passed on as its event; the end of the process is passed on as the one
/// `Finished` event and settles the result; a failed wait settles the result
/// and sends nothing. After that nothing is sent any more.
pub open spec fn relayed(finished: bool, input: StreamInputView) -> RelayedView {
    if finished {
        RelayedView { event: None, outcome: None }
    } else {
        match input {
            StreamInputView::Stdout(l) => RelayedView {
                event: Some(InstallEventView::Stdout(l)),
                outcome: None,
            },
            StreamInputView::Stderr(l) => RelayedView {
                event: Some(InstallEventView::Stderr(l)),
                outcome: None,
            },
            StreamInputView::Exited { success, exit_code } => RelayedView {
                event: Some(InstallEventView::Finished { success }),
                outcome: Some(exit_outcome(success, exit_code)),
            },
            StreamInputView::WaitFailed(m) => RelayedView {
                event: None,
                outcome: Some(Err(AppErrorView::ProcessError(m))),
            },
        }
    }
}

/// Whether the run is over after `input`.
pub open spec fn finished_after(finished: bool, input: StreamInputView) -> bool {
    finished || !is_line(input)
}

/// The events that the relay sends for `inputs`, in order.
pub open spec fn sent(finished: bool, inputs: Seq<StreamInputView>) -> Seq<InstallEventView>
    decreases inputs.len(),
{
    if inputs.len() == 0 {
        Seq::empty()
    } else {
        let rest = sent(finished_after(finished, inputs[0]), inputs.drop_first());
        match relayed(finished, inputs[0]).event {
            Some(e) => seq![e] + rest,
            None => rest,
        }
    }
}

/// The event that stands for a line of output.
pub open spec fn line_event(input: StreamInputView) -> InstallEventView {
    match input {
        StreamInputView::Stderr(l) => InstallEventView::Stderr(l),
        StreamInputView::Stdout(l) => InstallEventView::Stdout(l),
        StreamInputView::Exited { success, .. } => InstallEventView::Finished { success },
        StreamInputView::WaitFailed(m) => InstallEventView::Stderr(m),
    }
}

/// The events that stand for a sequence of lines.
pub open spec fn line_events(lines: Seq<StreamInputView>) -> Seq<InstallEventView> {
    Seq::new(lines.len(), |i: int| line_event(lines[i]))
}

/// How many of `events` are `Finished`.
pub open spec fn finished_count(events: Seq<InstallEventView>) -> nat
    decreases events.len(),
{
    if events.len() == 0 {
        0
    } else if events.last() is Finished {
        1 + finished_count(events.drop_last())
    } else {
        finished_count(events.drop_last())
    }
}

/// Passes the lines of a streamed run on to its listener and closes the
/// stream with the terminal event.
#[derive(Debug)]
pub struct StreamRelay {
    finished: bool,
}

impl StreamRelay {
    /// Whether the run is over.
    pub closed spec fn finished(&self) -> bool {
        self.finished
    }

    /// The relay of a run that has just started.
    pub fn new() -> (r: StreamRelay)
        ensures
            !r.finished(),
    {
        StreamRelay { finished: false }
    }

    /// Whether the run is over.
    pub fn is_finished(&self) -> (r: bool)
        ensures
            r == self.finished(),
    {
        self.finished
    }

    /// Takes one input and says what to send and whether the run is settled.
    pub fn feed(&mut self, input: StreamInput) -> (r: Relayed)
        ensures
            r.deep_view() == relayed(old(self).finished(), input.deep_view()),
            final(self).finished() == finished_after(old(self).finished(), input.deep_view()),
    {
        if self.finished {
            return Relayed { event: None, outcome: None };
        }
        match input {
            StreamInput::Stdout(line) => Relayed {
                event: Some(InstallEvent::Stdout(line)),
                outcome: None,
            },
            StreamInput::Stderr(line) => Relayed {
                event: Some(InstallEvent::Stderr(line)),
                outcome: None,
            },
            StreamInput::Exited { success, exit_code } => {
                self.finished = true;
                let outcome = if success {
                    Ok(())
                } else {
                    let code: i32 = match exit_code {
                        Some(c) => c,
                        None => -1,
                    };
                    Err(
                        AppError::AsdfError {
                            exit_code: code,
                            stderr: "install failed (see log output above)".to_owned(),
                        },
                    )
                };
                Relayed { event: Some(InstallEvent::Finished { success }), outcome: Some(outcome) }
            },
            StreamInput::WaitFailed(message) => {
                self.finished = true;
                Relayed { event: None, outcome: Some(Err(AppError::ProcessError(message))) }
            },
        }
    }
}

/// Once the run is over, nothing is sent.
pub proof fn lemma_nothing_sent_after_end(inputs: Seq<StreamInputView>)
    ensures
        sent(true, inputs) == Seq::<InstallEventView>::empty(),
    decreases inputs.len(),
{
    if inputs.len() > 0 {
        lemma_nothing_sent_after_end(inputs.drop_first());
    }
}

/// A sequence of line events holds no `Finished`.
pub proof fn lemma_lines_hold_no_finished(lines: Seq<StreamInputView>)
    requires
        forall|i: int| 0 <= i < lines.len() ==> is_line(#[trigger] lines[i]),
    ensures
        finished_count(line_events(lines)) == 0,
    decreases lines.len(),
{
    if lines.len() > 0 {
        assert(is_line(lines[lines.len() - 1]));
        assert(line_events(lines).drop_last() =~= line_events(lines.drop_last()));
        assert forall|i: int| 0 <= i < lines.drop_last().len() implies is_line(
            #[trigger] lines.drop_last()[i],
        ) by {
            assert(lines.drop_last()[i] == lines[i]);
        }
        lemma_lines_hold_no_finished(lines.drop_last());
    }
}

/// Whatever the exit status, a run that ends after some lines of output has
/// sent each line as its event, in order, and then exactly one `Finished`
/// event, which is the last event of the stream whatever comes in later.
pub proof fn lemma_finished_once_and_last(
    lines: Seq<StreamInputView>,
    success: bool,
    exit_code: Option<i32>,
    later: Seq<StreamInputView>,
)
    requires
        forall|i: int| 0 <= i < lines.len() ==> is_line(#[trigger] lines[i]),
    ensures
        sent(false, lines + seq![StreamInputView::Exited { success, exit_code }] + later)
            == line_events(lines).push(InstallEventView::Finished { success }),
        finished_count(
            sent(false, lines + seq![StreamInputView::Exited { success, exit_code }] + later),
        ) == 1,
        sent(false, lines + seq![StreamInputView::Exited { success, exit_code }] + later).last()
            == (InstallEventView::Finished { success }),
    decreases lines.len(),
{
    let exit = StreamInputView::Exited { success, exit_code };
    let all = lines + seq![exit] + later;
    let done = InstallEventView::Finished { success };
    if lines.len() == 0 {
        assert(all[0] == exit);
        assert(all.drop_first() =~= later);
        lemma_nothing_sent_after_end(later);
        assert(sent(false, all) =~= seq![done]);
        assert(line_events(lines).push(done) =~= seq![done]);
    } else {
        let tail = lines.drop_first();
        assert(is_line(lines[0]));
        assert(all[0] == lines[0]);
        assert(all.drop_first() =~= tail + seq![exit] + later);
        assert forall|i: int| 0 <= i < tail.len() implies is_line(#[trigger] tail[i]) by {
            assert(tail[i] == lines[i + 1]);
        }
        lemma_finished_once_and_last(tail, success, exit_code, later);
        assert(relayed(false, lines[0]).event == Some(line_event(lines[0])));
        assert(seq![line_event(lines[0])] + line_events(tail).push(done) =~= line_events(lines).push(
            done,
        ));
    }
    lemma_lines_hold_no_finished(lines);
    assert(line_events(lines).push(done).drop_last() =~= line_events(lines));
}

} // verus!
