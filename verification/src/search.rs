//! Finding a path by asking the environment one question at a time. A search
//! holds an ordered plan of probes; the first probe that the environment
//! answers favourably decides, and a plan that runs out ends in a fixed
//! outcome. The library decides; the caller performs each probe and hands
//! back the answer.

use crate::error::{AppError, AppErrorView};
use crate::text::{chars_of, first_line, split_line, string_of, trim, trim_of};
use vstd::prelude::*;
use vstd::string::*;

verus! {

/// One question to the environment.
#[derive(Debug, Clone, PartialEq, Eq)]
pub enum Probe {
    /// Does the configured path exist? It decides either way.
    Configured(String),
    /// Does this candidate path exist?
    Candidate(String),
    /// What does `which asdf` print under the login shell's search path?
    Which,
    /// What does `where asdf` print?
    Where,
    /// What does this shell, run as a login shell, print for its search path?
    LoginShell(String),
}

/// What a [`Probe`] holds.
pub enum ProbeView {
    Configured(Seq<char>),
    Candidate(Seq<char>),
    Which,
    Where,
    LoginShell(Seq<char>),
}

impl DeepView for Probe {
    type V = ProbeView;

    open spec fn deep_view(&self) -> ProbeView {
        match self {
            Probe::Configured(p) => ProbeView::Configured(p@),
            Probe::Candidate(p) => ProbeView::Candidate(p@),
            Probe::Which => ProbeView::Which,
            Probe::Where => ProbeView::Where,
            Probe::LoginShell(s) => ProbeView::LoginShell(s@),
        }
    }
}

/// What the environment said to a probe.
#[derive(Debug, Clone, PartialEq, Eq)]
pub enum Answer {
    /// Whether the path exists.
    Exists(bool),
    /// The program ran: whether it reported success, and what it printed.
    Output { success: bool, stdout: String },
    /// The program could not be run.
    Failed,
}

/// What an [`Answer`] holds.
pub enum AnswerView {
    Exists(bool),
    Output { success: bool, stdout: Seq<char> },
    Failed,
}

impl DeepView for Answer {
    type V = AnswerView;

    open spec fn deep_view(&self) -> AnswerView {
        match self {
            Answer::Exists(b) => AnswerView::Exists(*b),
            Answer::Output { success, stdout } => AnswerView::Output {
                success: *success,
                stdout: stdout@,
            },
            Answer::Failed => AnswerView::Failed,
        }
    }
}

/// How a search ends: with a path, or with the reason why there is none.
pub type OutcomeView = Result<Seq<char>, AppErrorView>;

/// What an outcome holds.
pub open spec fn outcome_view(r: Result<String, AppError>) -> OutcomeView {
    match r {
        Ok(p) => Ok(p@),
        Err(e) => Err(e.deep_view()),
    }
}

/// What an optional outcome holds.
pub open spec fn verdict_view(r: Option<Result<String, AppError>>) -> Option<OutcomeView> {
    match r {
        Some(o) => Some(outcome_view(o)),
        None => None,
    }
}

/// The path that a program's output names: its trimmed output, where the
/// program succeeded and printed more than white space.
pub open spec fn printed_path(answer: AnswerView, first_line_only: bool) -> Option<Seq<char>> {
    match answer {
        AnswerView::Output { success, stdout } => {
            let path = if first_line_only {
                trim(first_line(stdout))
            } else {
                trim(stdout)
            };
            if success && path.len() > 0 {
                Some(path)
            } else {
                None
            }
        },
        _ => None,
    }
}

/// What an answer to a probe settles: `Some` where the search ends with it,
/// `None` where the search goes on. A configured path ends the search either
/// way; a candidate ends it where it exists; a program ends it where it
/// names a path. `where` may print several paths, of which the first counts.
pub open spec fn verdict(probe: ProbeView, answer: AnswerView) -> Option<OutcomeView> {
    match probe {
        ProbeView::Configured(p) => if answer == AnswerView::Exists(true) {
            Some(Ok(p))
        } else {
            Some(Err(AppErrorView::AsdfNotFound("configured path does not exist"@)))
        },
        ProbeView::Candidate(p) => if answer == AnswerView::Exists(true) {
            Some(Ok(p))
        } else {
            None
        },
        ProbeView::Where => match printed_path(answer, true) {
            Some(p) => Some(Ok(p)),
            None => None,
        },
        _ => match printed_path(answer, false) {
            Some(p) => Some(Ok(p)),
            None => None,
        },
    }
}

/// What a [`Search`] holds: the plan, the position of the probe that is
/// pending, and the outcome where the plan runs out.
pub struct SearchView {
    pub plan: Seq<ProbeView>,
    pub next: int,
    pub otherwise: OutcomeView,
}

/// What a [`Step`] holds.
pub enum StepView {
    Ask(SearchView),
    Done(OutcomeView),
}

/// The first step of a search.
pub open spec fn begin_spec(plan: Seq<ProbeView>, otherwise: OutcomeView) -> StepView {
    if plan.len() == 0 {
        StepView::Done(otherwise)
    } else {
        StepView::Ask(SearchView { plan, next: 0, otherwise })
    }
}

/// The step that follows an answer to the pending probe.
pub open spec fn answer_spec(s: SearchView, a: AnswerView) -> StepView {
    match verdict(s.plan[s.next], a) {
        Some(r) => StepView::Done(r),
        None => if s.next + 1 < s.plan.len() {
            StepView::Ask(SearchView { next: s.next + 1, ..s })
        } else {
            StepView::Done(s.otherwise)
        },
    }
}

/// What a search finds in an environment that answers each probe as `world`
/// says: the verdict of the first probe that settles anything, or
/// `otherwise`.
pub open spec fn found(
    plan: Seq<ProbeView>,
    otherwise: OutcomeView,
    world: spec_fn(ProbeView) -> AnswerView,
) -> OutcomeView
    decreases plan.len(),
{
    if plan.len() == 0 {
        otherwise
    } else {
        match verdict(plan[0], world(plan[0])) {
            Some(r) => r,
            None => found(plan.drop_first(), otherwise, world),
        }
    }
}

/// What a search that stands at `step` finds in `world`.
pub open spec fn found_from(step: StepView, world: spec_fn(ProbeView) -> AnswerView) -> OutcomeView {
    match step {
        StepView::Done(r) => r,
        StepView::Ask(s) => found(s.plan.skip(s.next), s.otherwise, world),
    }
}

/// The outcome of feeding `answers` to a search that stands at `step`, one
/// per probe: `Some` where the last answer ends the search, `None` where
/// answers are missing or left over.
pub open spec fn replay(step: StepView, answers: Seq<AnswerView>) -> Option<OutcomeView>
    decreases answers.len(),
{
    match step {
        StepView::Done(r) => if answers.len() == 0 {
            Some(r)
        } else {
            None
        },
        StepView::Ask(s) => if answers.len() == 0 {
            None
        } else {
            replay(answer_spec(s, answers[0]), answers.drop_first())
        },
    }
}

/// Whether each of `answers` is what `world` says to the probe that is
/// pending when the answer is given.
pub open spec fn faithful(
    step: StepView,
    answers: Seq<AnswerView>,
    world: spec_fn(ProbeView) -> AnswerView,
) -> bool
    decreases answers.len(),
{
    match step {
        StepView::Done(_) => true,
        StepView::Ask(s) => answers.len() == 0 || (answers[0] == world(s.plan[s.next]) && faithful(
            answer_spec(s, answers[0]),
            answers.drop_first(),
            world,
        )),
    }
}

/// Whether a step can occur: the pending probe of a search lies within its plan.
pub open spec fn step_valid(step: StepView) -> bool {
    match step {
        StepView::Done(_) => true,
        StepView::Ask(s) => 0 <= s.next < s.plan.len(),
    }
}

/// A search with a probe pending.
pub struct Search {
    plan: Vec<Probe>,
    next: usize,
    otherwise: Result<String, AppError>,
}

/// Where a search stands: with a probe to perform, or at its end.
pub enum Step {
    Ask(Search),
    Done(Result<String, AppError>),
}

impl DeepView for Search {
    type V = SearchView;

    closed spec fn deep_view(&self) -> SearchView {
        SearchView {
            plan: self.plan.deep_view(),
            next: self.next as int,
            otherwise: outcome_view(self.otherwise),
        }
    }
}

impl DeepView for Step {
    type V = StepView;

    open spec fn deep_view(&self) -> StepView {
        match self {
            Step::Ask(s) => StepView::Ask(s.deep_view()),
            Step::Done(r) => StepView::Done(outcome_view(*r)),
        }
    }
}

/// The path that a probe's answer names, by the rule of [`printed_path`].
fn path_printed(answer: Answer, first_line_only: bool) -> (r: Option<String>)
    ensures
        r.deep_view() == printed_path(answer.deep_view(), first_line_only),
{
    match answer {
        Answer::Output { success, stdout } => {
            let text = chars_of(stdout.as_str());
            let whole: &[char] = text.as_slice();
            let scope = if first_line_only {
                split_line(whole).0
            } else {
                whole
            };
            let path = trim_of(scope);
            if success && path.len() > 0 {
                Some(string_of(path))
            } else {
                None
            }
        },
        _ => None,
    }
}

/// What `answer` settles for `probe`, by the rule of [`verdict`].
pub fn settle(probe: &Probe, answer: Answer) -> (r: Option<Result<String, AppError>>)
    ensures
        verdict_view(r) == verdict(probe.deep_view(), answer.deep_view()),
{
    match probe {
        Probe::Configured(p) => {
            if let Answer::Exists(true) = answer {
                Some(Ok(p.clone()))
            } else {
                Some(Err(AppError::AsdfNotFound("configured path does not exist".to_owned())))
            }
        },
        Probe::Candidate(p) => {
            if let Answer::Exists(true) = answer {
                Some(Ok(p.clone()))
            } else {
                None
            }
        },
        Probe::Where => match path_printed(answer, true) {
            Some(p) => Some(Ok(p)),
            None => None,
        },
        _ => match path_printed(answer, false) {
            Some(p) => Some(Ok(p)),
            None => None,
        },
    }
}

impl Search {
    #[verifier::type_invariant]
    spec fn pending_in_plan(&self) -> bool {
        self.next < self.plan@.len()
    }

    /// Starts a search over `plan` that ends in `otherwise` where no probe decides.
    pub fn begin(plan: Vec<Probe>, otherwise: Result<String, AppError>) -> (r: Step)
        ensures
            r.deep_view() == begin_spec(plan.deep_view(), outcome_view(otherwise)),
    {
        if plan.len() == 0 {
            Step::Done(otherwise)
        } else {
            Step::Ask(Search { plan, next: 0, otherwise })
        }
    }

    /// The probe to perform now.
    pub fn probe(&self) -> (r: &Probe)
        ensures
            0 <= self.deep_view().next < self.deep_view().plan.len(),
            r.deep_view() == self.deep_view().plan[self.deep_view().next],
    {
        proof {
            use_type_invariant(self);
        }
        &self.plan[self.next]
    }

    /// Takes the answer to the pending probe and moves on.
    pub fn answer(self, answer: Answer) -> (r: Step)
        ensures
            r.deep_view() == answer_spec(self.deep_view(), answer.deep_view()),
            step_valid(r.deep_view()),
    {
        proof {
            use_type_invariant(&self);
        }
        let at: usize = self.next;
        let end: usize = self.plan.len();
        assert(at < end);
        match settle(&self.plan[at], answer) {
            Some(r) => Step::Done(r),
            None => {
                if at + 1 < end {
                    Step::Ask(Search { plan: self.plan, next: at + 1, otherwise: self.otherwise })
                } else {
                    Step::Done(self.otherwise)
                }
            },
        }
    }
}

/// What a search finds from its pending probe on is settled by that probe or
/// found from the next one on.
pub proof fn lemma_found_unfold(s: SearchView, world: spec_fn(ProbeView) -> AnswerView)
    requires
        0 <= s.next < s.plan.len(),
    ensures
        found_from(StepView::Ask(s), world) == found_from(
            answer_spec(s, world(s.plan[s.next])),
            world,
        ),
{
    let rest = s.plan.skip(s.next);
    let later = s.plan.skip(s.next + 1);
    assert(rest[0] == s.plan[s.next]);
    assert(rest.drop_first() =~= later);
    if verdict(s.plan[s.next], world(s.plan[s.next])) is None && s.next + 1 >= s.plan.len() {
        assert(later.len() == 0);
        assert(found(later, s.otherwise, world) == s.otherwise);
    }
}

/// A search that is fed the environment's own answers until it ends, ends
/// with what the plan finds in that environment.
pub proof fn lemma_replay_finds(
    step: StepView,
    answers: Seq<AnswerView>,
    world: spec_fn(ProbeView) -> AnswerView,
)
    requires
        step_valid(step),
        faithful(step, answers, world),
        replay(step, answers) is Some,
    ensures
        replay(step, answers) == Some(found_from(step, world)),
    decreases answers.len(),
{
    match step {
        StepView::Done(_) => {},
        StepView::Ask(s) => {
            lemma_found_unfold(s, world);
            lemma_replay_finds(answer_spec(s, answers[0]), answers.drop_first(), world);
        },
    }
}

/// Searching twice over the same plan in the same environment ends the same
/// way both times: with what the plan finds in that environment.
pub proof fn lemma_search_repeatable(
    plan: Seq<ProbeView>,
    otherwise: OutcomeView,
    world: spec_fn(ProbeView) -> AnswerView,
    first: Seq<AnswerView>,
    second: Seq<AnswerView>,
)
    requires
        faithful(begin_spec(plan, otherwise), first, world),
        faithful(begin_spec(plan, otherwise), second, world),
        replay(begin_spec(plan, otherwise), first) is Some,
        replay(begin_spec(plan, otherwise), second) is Some,
    ensures
        replay(begin_spec(plan, otherwise), first) == replay(begin_spec(plan, otherwise), second),
        replay(begin_spec(plan, otherwise), first) == Some(found(plan, otherwise, world)),
{
    let start = begin_spec(plan, otherwise);
    assert(plan.skip(0) =~= plan);
    lemma_replay_finds(start, first, world);
    lemma_replay_finds(start, second, world);
}

} // verus!
