//! The execution engine: it walks a trace step by step, asks the programs
//! under test to send and to receive, and lets the policy judge after every
//! step.

use crate::algebra::{Signature, SymbolView};
use crate::evaluation::{lemma_well_typed_never_mismatches, EvalErrorView, Procedures};
use crate::execution::{
    agent_position, progress_view, puts_kept, puts_kept_but, ContextView, ExecutionState,
    FailureReason, FailureView, ProgressView, StateView, TraceContext,
};
use crate::policy::Policy;
use crate::put::{Put, PutError};
use crate::trace::{Action, ActionView, Step, StepView, Trace, TraceView};
use vstd::prelude::*;

verus! {

/// What the program under test answered to one step: to the request to
/// advance, if the step is an output step, and to the bytes that it was
/// handed, if the step is an input step.
pub struct Response {
    pub progress: Result<ProgressView, PutError>,
    pub delivery: Result<(), PutError>,
}

/// What the programs under test answered in the course of a run: to the
/// traces that run first, and to each step of the trace.
pub struct RunLog {
    pub prior_traces: Seq<RunLog>,
    pub steps: Seq<Response>,
}

impl StepView {
    /// The run after the step. A step that names no agent of the run fails
    /// the run. An output step records the answer of its agent. An input
    /// step evaluates its term: without a value the run fails; with one, the
    /// step records the answer of its agent. After a step that has reached
    /// its agent, the policy judges.
    pub open spec fn run<F: Procedures, Y: Policy>(
        self,
        cx: ContextView,
        sig: Seq<SymbolView>,
        procedures: &F,
        policy: &Y,
        response: Response,
    ) -> ContextView {
        match agent_position(cx.agents, self.agent, 0) {
            None => cx.with_state(StateView::Failed(FailureView::UnknownAgent(self.agent))),
            Some(i) => match self.action {
                ActionView::Output(id) => cx.with_progress(i, id, response.progress).judged(
                    policy,
                ),
                ActionView::Input(recipe) => match recipe.eval(sig, cx.knowledge, procedures) {
                    Err(e) => cx.with_state(StateView::Failed(FailureView::CraftingError(e))),
                    Ok(bytes) => cx.with_delivery(i, bytes, response.delivery).judged(policy),
                },
            },
        }
    }
}

impl TraceView {
    /// The run after the first `n` of the steps: each step runs where the
    /// run is still going on.
    pub open spec fn run_steps<F: Procedures, Y: Policy>(
        steps: Seq<StepView>,
        n: nat,
        cx: ContextView,
        sig: Seq<SymbolView>,
        procedures: &F,
        policy: &Y,
        responses: Seq<Response>,
    ) -> ContextView
        decreases n,
    {
        if n == 0 || n > steps.len() {
            cx
        } else {
            let before = Self::run_steps(
                steps,
                (n - 1) as nat,
                cx,
                sig,
                procedures,
                policy,
                responses,
            );
            if before.state is Running {
                steps[n - 1].run(before, sig, procedures, policy, responses[n - 1])
            } else {
                before
            }
        }
    }

    /// The run after the traces that run first, in their order, and then the
    /// steps of the trace.
    pub open spec fn run<F: Procedures, Y: Policy>(
        self,
        cx: ContextView,
        sig: Seq<SymbolView>,
        procedures: &F,
        policy: &Y,
        log: RunLog,
    ) -> ContextView
        decreases self, 0nat,
    {
        Self::run_steps(
            self.steps,
            self.steps.len(),
            Self::run_priors(
                self.prior_traces,
                self.prior_traces.len(),
                cx,
                sig,
                procedures,
                policy,
                log.prior_traces,
            ),
            sig,
            procedures,
            policy,
            log.steps,
        )
    }

    /// The run after the first `n` of the traces that run first.
    pub open spec fn run_priors<F: Procedures, Y: Policy>(
        priors: Seq<TraceView>,
        n: nat,
        cx: ContextView,
        sig: Seq<SymbolView>,
        procedures: &F,
        policy: &Y,
        logs: Seq<RunLog>,
    ) -> ContextView
        decreases priors, n,
    {
        if n == 0 || n > priors.len() {
            cx
        } else {
            let before = Self::run_priors(
                priors,
                (n - 1) as nat,
                cx,
                sig,
                procedures,
                policy,
                logs,
            );
            if before.state is Running {
                priors[n - 1].run(before, sig, procedures, policy, logs[n - 1])
            } else {
                before
            }
        }
    }

    /// What an execution of the trace makes of a run: a run that has not
    /// started fails at once where the trace is not well-typed; else it runs
    /// the trace and, where nothing has ended it, is finished. Any other run
    /// stays as it is.
    pub open spec fn outcome<F: Procedures, Y: Policy>(
        self,
        cx: ContextView,
        sig: Seq<SymbolView>,
        procedures: &F,
        policy: &Y,
        log: RunLog,
    ) -> ContextView {
        if cx.state is NotStarted {
            if !self.well_typed(sig) {
                cx.with_state(StateView::Failed(FailureView::IllTyped))
            } else {
                let after = self.run(
                    cx.with_state(StateView::Running),
                    sig,
                    procedures,
                    policy,
                    log,
                );
                if after.state is Running {
                    after.with_state(StateView::Finished)
                } else {
                    after
                }
            }
        } else {
            cx
        }
    }
}

/// The run after the first `n` steps depends on the answers to those steps
/// alone.
pub proof fn lemma_run_steps_agree<F: Procedures, Y: Policy>(
    steps: Seq<StepView>,
    n: nat,
    cx: ContextView,
    sig: Seq<SymbolView>,
    procedures: &F,
    policy: &Y,
    a: Seq<Response>,
    b: Seq<Response>,
)
    requires
        forall|k: int| 0 <= k < n ==> a[k] == b[k],
    ensures
        TraceView::run_steps(steps, n, cx, sig, procedures, policy, a) == TraceView::run_steps(
            steps,
            n,
            cx,
            sig,
            procedures,
            policy,
            b,
        ),
    decreases n,
{
    if n > 0 && n <= steps.len() {
        lemma_run_steps_agree(steps, (n - 1) as nat, cx, sig, procedures, policy, a, b);
    }
}

/// The run after the first `n` traces depends on the answers to those traces
/// alone.
pub proof fn lemma_run_priors_agree<F: Procedures, Y: Policy>(
    priors: Seq<TraceView>,
    n: nat,
    cx: ContextView,
    sig: Seq<SymbolView>,
    procedures: &F,
    policy: &Y,
    a: Seq<RunLog>,
    b: Seq<RunLog>,
)
    requires
        forall|k: int| 0 <= k < n ==> a[k] == b[k],
    ensures
        TraceView::run_priors(priors, n, cx, sig, procedures, policy, a) == TraceView::run_priors(
            priors,
            n,
            cx,
            sig,
            procedures,
            policy,
            b,
        ),
    decreases n,
{
    if n > 0 && n <= priors.len() {
        lemma_run_priors_agree(priors, (n - 1) as nat, cx, sig, procedures, policy, a, b);
    }
}

impl RunLog {
    /// The two logs hold the same answers to the steps of the trace and of
    /// the traces that run first.
    pub open spec fn same_answers(self, other: RunLog, trace: TraceView) -> bool
        decreases trace,
    {
        &&& forall|k: int| 0 <= k < trace.steps.len() ==> self.steps[k] == other.steps[k]
        &&& forall|p: int|
            0 <= p < trace.prior_traces.len() ==> (#[trigger] self.prior_traces[p]).same_answers(
                other.prior_traces[p],
                trace.prior_traces[p],
            )
    }
}

/// The first `n` traces that run first make the same of a run under the same
/// answers.
pub proof fn lemma_run_priors_deterministic<F: Procedures, Y: Policy>(
    priors: Seq<TraceView>,
    n: nat,
    cx: ContextView,
    sig: Seq<SymbolView>,
    procedures: &F,
    policy: &Y,
    a: Seq<RunLog>,
    b: Seq<RunLog>,
)
    requires
        n <= priors.len(),
        forall|p: int| 0 <= p < n ==> (#[trigger] a[p]).same_answers(b[p], priors[p]),
    ensures
        TraceView::run_priors(priors, n, cx, sig, procedures, policy, a) == TraceView::run_priors(
            priors,
            n,
            cx,
            sig,
            procedures,
            policy,
            b,
        ),
    decreases priors, n,
{
    if n > 0 {
        lemma_run_priors_deterministic(priors, (n - 1) as nat, cx, sig, procedures, policy, a, b);
        let before = TraceView::run_priors(
            priors,
            (n - 1) as nat,
            cx,
            sig,
            procedures,
            policy,
            a,
        );
        assert(a[n - 1].same_answers(b[n - 1], priors[n - 1]));
        lemma_run_deterministic(priors[n - 1], before, sig, procedures, policy, a[n - 1], b[n - 1]);
    }
}

/// Determinism: under the same answers of the programs under test, a trace
/// makes the same of a run: the same knowledge, the same claim log, the same
/// bytes delivered, the same state.
pub proof fn lemma_run_deterministic<F: Procedures, Y: Policy>(
    trace: TraceView,
    cx: ContextView,
    sig: Seq<SymbolView>,
    procedures: &F,
    policy: &Y,
    a: RunLog,
    b: RunLog,
)
    requires
        a.same_answers(b, trace),
    ensures
        trace.run(cx, sig, procedures, policy, a) == trace.run(cx, sig, procedures, policy, b),
    decreases trace, 0nat,
{
    lemma_run_priors_deterministic(
        trace.prior_traces,
        trace.prior_traces.len(),
        cx,
        sig,
        procedures,
        policy,
        a.prior_traces,
        b.prior_traces,
    );
    let middle = TraceView::run_priors(
        trace.prior_traces,
        trace.prior_traces.len(),
        cx,
        sig,
        procedures,
        policy,
        a.prior_traces,
    );
    lemma_run_steps_agree(
        trace.steps,
        trace.steps.len(),
        middle,
        sig,
        procedures,
        policy,
        a.steps,
        b.steps,
    );
}

/// Under the same answers of the programs under test, two executions of a
/// trace end in the same run.
pub proof fn lemma_outcome_deterministic<F: Procedures, Y: Policy>(
    trace: TraceView,
    cx: ContextView,
    sig: Seq<SymbolView>,
    procedures: &F,
    policy: &Y,
    a: RunLog,
    b: RunLog,
)
    requires
        a.same_answers(b, trace),
    ensures
        trace.outcome(cx, sig, procedures, policy, a) == trace.outcome(
            cx,
            sig,
            procedures,
            policy,
            b,
        ),
{
    lemma_run_deterministic(
        trace,
        cx.with_state(StateView::Running),
        sig,
        procedures,
        policy,
        a,
        b,
    );
}

/// Replay: an execution that has found a violation finds the same violation,
/// with the same description, whenever the programs under test give the
/// same answers.
pub proof fn lemma_replay<F: Procedures, Y: Policy>(
    trace: TraceView,
    cx: ContextView,
    sig: Seq<SymbolView>,
    procedures: &F,
    policy: &Y,
    stored: RunLog,
    replayed: RunLog,
)
    requires
        stored.same_answers(replayed, trace),
        trace.outcome(cx, sig, procedures, policy, stored).state is ViolationDetected,
    ensures
        trace.outcome(cx, sig, procedures, policy, replayed).state == trace.outcome(
            cx,
            sig,
            procedures,
            policy,
            stored,
        ).state,
        trace.outcome(
            cx,
            sig,
            procedures,
            policy,
            replayed,
        ).state->ViolationDetected_0.description() == trace.outcome(
            cx,
            sig,
            procedures,
            policy,
            stored,
        ).state->ViolationDetected_0.description(),
{
    lemma_outcome_deterministic(trace, cx, sig, procedures, policy, stored, replayed);
}

/// A step that has reached its agent ends the run with the violation that the
/// policy finds in the claims, and leaves it going on where the policy finds
/// none.
pub proof fn lemma_violation_detected<F: Procedures, Y: Policy>(
    step: StepView,
    cx: ContextView,
    sig: Seq<SymbolView>,
    procedures: &F,
    policy: &Y,
    response: Response,
)
    requires
        cx.state is Running,
        !(step.run(cx, sig, procedures, policy, response).state is Failed),
    ensures
        ({
            let after = step.run(cx, sig, procedures, policy, response);
            match policy.verdict(after.claims) {
                Some(violation) => after.state == StateView::ViolationDetected(violation),
                None => after.state is Running,
            }
        }),
{
}

/// A run that has ended stays as it is: the steps behind the one that ended
/// it do not run, and the outcome is the run right after that step.
pub proof fn lemma_halts<F: Procedures, Y: Policy>(
    steps: Seq<StepView>,
    n: nat,
    m: nat,
    cx: ContextView,
    sig: Seq<SymbolView>,
    procedures: &F,
    policy: &Y,
    responses: Seq<Response>,
)
    requires
        n <= m <= steps.len(),
        !(TraceView::run_steps(steps, n, cx, sig, procedures, policy, responses).state is Running),
    ensures
        TraceView::run_steps(steps, m, cx, sig, procedures, policy, responses)
            == TraceView::run_steps(steps, n, cx, sig, procedures, policy, responses),
    decreases m,
{
    if n < m {
        lemma_halts(steps, n, (m - 1) as nat, cx, sig, procedures, policy, responses);
    }
}

impl ContextView {
    /// Where the run has ended with a violation, the violation is the verdict
    /// of the policy on the claims of the run.
    pub open spec fn violation_is_verdict<Y: Policy>(self, policy: &Y) -> bool {
        self.state matches StateView::ViolationDetected(violation) ==> policy.verdict(self.claims)
            == Some(violation)
    }
}

/// A step that runs leaves the run with a violation only where the policy
/// finds it in the claims.
pub proof fn lemma_step_violation<F: Procedures, Y: Policy>(
    step: StepView,
    cx: ContextView,
    sig: Seq<SymbolView>,
    procedures: &F,
    policy: &Y,
    response: Response,
)
    requires
        cx.state is Running,
    ensures
        step.run(cx, sig, procedures, policy, response).violation_is_verdict(policy),
{
}

/// The first `n` steps leave the run with a violation only where the policy
/// finds it in the claims.
pub proof fn lemma_run_steps_violation<F: Procedures, Y: Policy>(
    steps: Seq<StepView>,
    n: nat,
    cx: ContextView,
    sig: Seq<SymbolView>,
    procedures: &F,
    policy: &Y,
    responses: Seq<Response>,
)
    requires
        cx.violation_is_verdict(policy),
    ensures
        TraceView::run_steps(steps, n, cx, sig, procedures, policy, responses).violation_is_verdict(
            policy,
        ),
    decreases n,
{
    if n > 0 && n <= steps.len() {
        lemma_run_steps_violation(steps, (n - 1) as nat, cx, sig, procedures, policy, responses);
        let before = TraceView::run_steps(
            steps,
            (n - 1) as nat,
            cx,
            sig,
            procedures,
            policy,
            responses,
        );
        if before.state is Running {
            lemma_step_violation(steps[n - 1], before, sig, procedures, policy, responses[n - 1]);
        }
    }
}

/// The first `n` traces that run first leave the run with a violation only
/// where the policy finds it in the claims.
pub proof fn lemma_run_priors_violation<F: Procedures, Y: Policy>(
    priors: Seq<TraceView>,
    n: nat,
    cx: ContextView,
    sig: Seq<SymbolView>,
    procedures: &F,
    policy: &Y,
    logs: Seq<RunLog>,
)
    requires
        cx.violation_is_verdict(policy),
    ensures
        TraceView::run_priors(priors, n, cx, sig, procedures, policy, logs).violation_is_verdict(
            policy,
        ),
    decreases priors, n,
{
    if n > 0 && n <= priors.len() {
        lemma_run_priors_violation(priors, (n - 1) as nat, cx, sig, procedures, policy, logs);
        let before = TraceView::run_priors(
            priors,
            (n - 1) as nat,
            cx,
            sig,
            procedures,
            policy,
            logs,
        );
        if before.state is Running {
            lemma_run_violation(priors[n - 1], before, sig, procedures, policy, logs[n - 1]);
        }
    }
}

/// A trace leaves the run with a violation only where the policy finds it in
/// the claims.
pub proof fn lemma_run_violation<F: Procedures, Y: Policy>(
    trace: TraceView,
    cx: ContextView,
    sig: Seq<SymbolView>,
    procedures: &F,
    policy: &Y,
    log: RunLog,
)
    requires
        cx.violation_is_verdict(policy),
    ensures
        trace.run(cx, sig, procedures, policy, log).violation_is_verdict(policy),
    decreases trace, 0nat,
{
    lemma_run_priors_violation(
        trace.prior_traces,
        trace.prior_traces.len(),
        cx,
        sig,
        procedures,
        policy,
        log.prior_traces,
    );
    lemma_run_steps_violation(
        trace.steps,
        trace.steps.len(),
        TraceView::run_priors(
            trace.prior_traces,
            trace.prior_traces.len(),
            cx,
            sig,
            procedures,
            policy,
            log.prior_traces,
        ),
        sig,
        procedures,
        policy,
        log.steps,
    );
}

/// The violation that an execution reports is the verdict of the policy on
/// the claims of the run.
pub proof fn lemma_outcome_violation<F: Procedures, Y: Policy>(
    trace: TraceView,
    cx: ContextView,
    sig: Seq<SymbolView>,
    procedures: &F,
    policy: &Y,
    log: RunLog,
)
    requires
        cx.state is NotStarted,
    ensures
        trace.outcome(cx, sig, procedures, policy, log).violation_is_verdict(policy),
{
    lemma_run_violation(trace, cx.with_state(StateView::Running), sig, procedures, policy, log);
}

impl ContextView {
    /// The run has started.
    pub open spec fn started(self) -> bool {
        !(self.state is NotStarted)
    }

    /// The run has ended: it is finished, has failed, or has shown a
    /// violation.
    pub open spec fn ended(self) -> bool {
        self.state is Finished || self.state is Failed || self.state is ViolationDetected
    }
}

/// The first `n` steps leave a run that has started started.
pub proof fn lemma_run_steps_started<F: Procedures, Y: Policy>(
    steps: Seq<StepView>,
    n: nat,
    cx: ContextView,
    sig: Seq<SymbolView>,
    procedures: &F,
    policy: &Y,
    responses: Seq<Response>,
)
    requires
        cx.started(),
    ensures
        TraceView::run_steps(steps, n, cx, sig, procedures, policy, responses).started(),
    decreases n,
{
    if n > 0 && n <= steps.len() {
        lemma_run_steps_started(steps, (n - 1) as nat, cx, sig, procedures, policy, responses);
    }
}

/// The first `n` traces that run first leave a run that has started started.
pub proof fn lemma_run_priors_started<F: Procedures, Y: Policy>(
    priors: Seq<TraceView>,
    n: nat,
    cx: ContextView,
    sig: Seq<SymbolView>,
    procedures: &F,
    policy: &Y,
    logs: Seq<RunLog>,
)
    requires
        cx.started(),
    ensures
        TraceView::run_priors(priors, n, cx, sig, procedures, policy, logs).started(),
    decreases priors, n,
{
    if n > 0 && n <= priors.len() {
        lemma_run_priors_started(priors, (n - 1) as nat, cx, sig, procedures, policy, logs);
        let before = TraceView::run_priors(
            priors,
            (n - 1) as nat,
            cx,
            sig,
            procedures,
            policy,
            logs,
        );
        lemma_run_started(priors[n - 1], before, sig, procedures, policy, logs[n - 1]);
    }
}

/// A trace leaves a run that has started started.
pub proof fn lemma_run_started<F: Procedures, Y: Policy>(
    trace: TraceView,
    cx: ContextView,
    sig: Seq<SymbolView>,
    procedures: &F,
    policy: &Y,
    log: RunLog,
)
    requires
        cx.started(),
    ensures
        trace.run(cx, sig, procedures, policy, log).started(),
    decreases trace, 0nat,
{
    lemma_run_priors_started(
        trace.prior_traces,
        trace.prior_traces.len(),
        cx,
        sig,
        procedures,
        policy,
        log.prior_traces,
    );
    lemma_run_steps_started(
        trace.steps,
        trace.steps.len(),
        TraceView::run_priors(
            trace.prior_traces,
            trace.prior_traces.len(),
            cx,
            sig,
            procedures,
            policy,
            log.prior_traces,
        ),
        sig,
        procedures,
        policy,
        log.steps,
    );
}

/// An execution ends the run that it starts: the run is finished, has
/// failed, or has shown a violation.
pub proof fn lemma_outcome_ended<F: Procedures, Y: Policy>(
    trace: TraceView,
    cx: ContextView,
    sig: Seq<SymbolView>,
    procedures: &F,
    policy: &Y,
    log: RunLog,
)
    requires
        cx.state is NotStarted,
    ensures
        trace.outcome(cx, sig, procedures, policy, log).ended(),
{
    lemma_run_started(trace, cx.with_state(StateView::Running), sig, procedures, policy, log);
}

impl ContextView {
    /// The run has not failed for a term that does not fit the signature.
    pub open spec fn no_mismatch(self) -> bool {
        self.state != StateView::Failed(FailureView::CraftingError(EvalErrorView::TypeMismatch))
    }
}

/// The first `n` steps of a well-typed trace do not fail the run for a term
/// that does not fit the signature.
pub proof fn lemma_run_steps_no_mismatch<F: Procedures, Y: Policy>(
    trace: TraceView,
    n: nat,
    cx: ContextView,
    sig: Seq<SymbolView>,
    procedures: &F,
    policy: &Y,
    responses: Seq<Response>,
)
    requires
        trace.well_typed(sig),
        cx.no_mismatch(),
    ensures
        TraceView::run_steps(trace.steps, n, cx, sig, procedures, policy, responses).no_mismatch(),
    decreases n,
{
    if n > 0 && n <= trace.steps.len() {
        lemma_run_steps_no_mismatch(trace, (n - 1) as nat, cx, sig, procedures, policy, responses);
        let before = TraceView::run_steps(
            trace.steps,
            (n - 1) as nat,
            cx,
            sig,
            procedures,
            policy,
            responses,
        );
        assert(trace.step_valid(n - 1, sig));
        match trace.steps[n - 1].action {
            ActionView::Input(recipe) => {
                lemma_well_typed_never_mismatches(recipe, sig, before.knowledge, procedures);
            },
            ActionView::Output(_) => {},
        }
    }
}

/// The first `n` traces that run first, if they are well-typed, do not fail
/// the run for a term that does not fit the signature.
pub proof fn lemma_run_priors_no_mismatch<F: Procedures, Y: Policy>(
    priors: Seq<TraceView>,
    n: nat,
    cx: ContextView,
    sig: Seq<SymbolView>,
    procedures: &F,
    policy: &Y,
    logs: Seq<RunLog>,
)
    requires
        forall|p: int| 0 <= p < priors.len() ==> (#[trigger] priors[p]).well_typed(sig),
        cx.no_mismatch(),
    ensures
        TraceView::run_priors(priors, n, cx, sig, procedures, policy, logs).no_mismatch(),
    decreases priors, n,
{
    if n > 0 && n <= priors.len() {
        lemma_run_priors_no_mismatch(priors, (n - 1) as nat, cx, sig, procedures, policy, logs);
        let before = TraceView::run_priors(
            priors,
            (n - 1) as nat,
            cx,
            sig,
            procedures,
            policy,
            logs,
        );
        lemma_run_no_mismatch(priors[n - 1], before, sig, procedures, policy, logs[n - 1]);
    }
}

/// A well-typed trace does not fail the run for a term that does not fit the
/// signature.
pub proof fn lemma_run_no_mismatch<F: Procedures, Y: Policy>(
    trace: TraceView,
    cx: ContextView,
    sig: Seq<SymbolView>,
    procedures: &F,
    policy: &Y,
    log: RunLog,
)
    requires
        trace.well_typed(sig),
        cx.no_mismatch(),
    ensures
        trace.run(cx, sig, procedures, policy, log).no_mismatch(),
    decreases trace, 0nat,
{
    lemma_run_priors_no_mismatch(
        trace.prior_traces,
        trace.prior_traces.len(),
        cx,
        sig,
        procedures,
        policy,
        log.prior_traces,
    );
    lemma_run_steps_no_mismatch(
        trace,
        trace.steps.len(),
        TraceView::run_priors(
            trace.prior_traces,
            trace.prior_traces.len(),
            cx,
            sig,
            procedures,
            policy,
            log.prior_traces,
        ),
        sig,
        procedures,
        policy,
        log.steps,
    );
}

/// A trace that is not well-typed never reaches evaluation: its execution
/// fails before any step, and no execution fails for a term that does not
/// fit the signature.
pub proof fn lemma_rejected_before_execution<F: Procedures, Y: Policy>(
    trace: TraceView,
    cx: ContextView,
    sig: Seq<SymbolView>,
    procedures: &F,
    policy: &Y,
    log: RunLog,
)
    requires
        cx.state is NotStarted,
    ensures
        !trace.well_typed(sig) ==> trace.outcome(cx, sig, procedures, policy, log)
            == cx.with_state(StateView::Failed(FailureView::IllTyped)),
        trace.outcome(cx, sig, procedures, policy, log).no_mismatch(),
{
    if trace.well_typed(sig) {
        lemma_run_no_mismatch(
            trace,
            cx.with_state(StateView::Running),
            sig,
            procedures,
            policy,
            log,
        );
    }
}

impl<P: Put> TraceContext<P> {
    /// Is the run going on?
    pub fn is_running(&self) -> (b: bool)
        ensures
            b == (self@.state is Running),
    {
        match &self.state {
            ExecutionState::Running => true,
            _ => false,
        }
    }

    /// Has the run ended with a violation? Such a run is worth keeping
    /// whatever it covered.
    pub fn is_objective(&self) -> (b: bool)
        ensures
            b == (self@.state is ViolationDetected),
    {
        match &self.state {
            ExecutionState::ViolationDetected(_) => true,
            _ => false,
        }
    }

    /// Has the run not started?
    pub fn is_fresh(&self) -> (b: bool)
        ensures
            b == (self@.state is NotStarted),
    {
        match &self.state {
            ExecutionState::NotStarted => true,
            _ => false,
        }
    }
}

impl Step {
    /// Runs the step. Returns what the program under test answered.
    pub fn execute<P: Put, F: Procedures, Y: Policy>(
        &self,
        ctx: &mut TraceContext<P>,
        sig: &Signature,
        procedures: &F,
        policy: &Y,
    ) -> (response: Ghost<Response>)
        ensures
            final(ctx)@ == self@.run(old(ctx)@, sig@, procedures, policy, response@),
            final(ctx).agents@.len() == old(ctx).agents@.len(),
            agent_position(old(ctx)@.agents, self.agent, 0) matches Some(i) ==> puts_kept_but(
                old(ctx).agents@,
                final(ctx).agents@,
                i,
            ),
            agent_position(old(ctx)@.agents, self.agent, 0) is None ==> puts_kept(
                old(ctx).agents@,
                final(ctx).agents@,
            ),
    {
        let i = match ctx.find_agent(self.agent) {
            None => {
                ctx.fail(FailureReason::UnknownAgent(self.agent));
                return Ghost(arbitrary());
            },
            Some(i) => i,
        };
        match &self.action {
            Action::Output(output) => {
                let ghost before = ctx@;
                let answer = ctx.agents[i].put.progress(self.agent);
                assert(ctx@.agents =~= before.agents);
                let ghost response = Response {
                    progress: progress_view(answer),
                    delivery: arbitrary(),
                };
                ctx.record_progress(i, output.id, answer);
                ctx.judge(policy);
                Ghost(response)
            },
            Action::Input(input) => {
                match input.recipe.evaluate(sig, &ctx.knowledge, procedures) {
                    Err(e) => {
                        ctx.fail(FailureReason::CraftingError(e));
                        Ghost(arbitrary())
                    },
                    Ok(bytes) => {
                        let ghost before = ctx@;
                        let answer = ctx.agents[i].put.deliver(self.agent, &bytes);
                        assert(ctx@.agents =~= before.agents);
                        let ghost response = Response { progress: arbitrary(), delivery: answer };
                        ctx.record_delivery(i, &bytes, answer);
                        ctx.judge(policy);
                        Ghost(response)
                    },
                }
            },
        }
    }
}

impl Trace {
    /// Runs the traces that run first, then the steps of the trace, each
    /// where the run is still going on. Returns what the programs under test
    /// answered.
    pub fn run<P: Put, F: Procedures, Y: Policy>(
        &self,
        ctx: &mut TraceContext<P>,
        sig: &Signature,
        procedures: &F,
        policy: &Y,
    ) -> (log: Ghost<RunLog>)
        ensures
            final(ctx)@ == self@.run(old(ctx)@, sig@, procedures, policy, log@),
            final(ctx).agents@.len() == old(ctx).agents@.len(),
        decreases self,
    {
        proof {
            self.lemma_view_parts();
        }
        let ghost start = ctx@;
        let ghost mut logs: Seq<RunLog> = Seq::empty();
        let mut p: usize = 0;
        while p < self.prior_traces.len()
            invariant
                p <= self.prior_traces.len(),
                self@.prior_traces.len() == self.prior_traces@.len(),
                forall|q: int|
                    0 <= q < self.prior_traces@.len() ==> #[trigger] self@.prior_traces[q]
                        == self.prior_traces@[q]@,
                logs.len() == p,
                ctx.agents@.len() == old(ctx).agents@.len(),
                ctx@ == TraceView::run_priors(
                    self@.prior_traces,
                    p as nat,
                    start,
                    sig@,
                    procedures,
                    policy,
                    logs,
                ),
            decreases self.prior_traces.len() - p,
        {
            let ghost before = logs;
            if ctx.is_running() {
                let log = self.prior_traces[p].run(ctx, sig, procedures, policy);
                proof {
                    logs = logs.push(log@);
                }
            } else {
                proof {
                    logs = logs.push(arbitrary());
                }
            }
            proof {
                lemma_run_priors_agree(
                    self@.prior_traces,
                    p as nat,
                    start,
                    sig@,
                    procedures,
                    policy,
                    before,
                    logs,
                );
            }
            p += 1;
        }
        let ghost middle = ctx@;
        let ghost mut responses: Seq<Response> = Seq::empty();
        let mut i: usize = 0;
        while i < self.steps.len()
            invariant
                i <= self.steps.len(),
                self@.steps.len() == self.steps@.len(),
                forall|k: int|
                    0 <= k < self.steps@.len() ==> #[trigger] self@.steps[k] == self.steps@[k]@,
                responses.len() == i,
                ctx.agents@.len() == old(ctx).agents@.len(),
                ctx@ == TraceView::run_steps(
                    self@.steps,
                    i as nat,
                    middle,
                    sig@,
                    procedures,
                    policy,
                    responses,
                ),
            decreases self.steps.len() - i,
        {
            let ghost before = responses;
            if ctx.is_running() {
                let response = self.steps[i].execute(ctx, sig, procedures, policy);
                proof {
                    responses = responses.push(response@);
                }
            } else {
                proof {
                    responses = responses.push(arbitrary());
                }
            }
            proof {
                lemma_run_steps_agree(
                    self@.steps,
                    i as nat,
                    middle,
                    sig@,
                    procedures,
                    policy,
                    before,
                    responses,
                );
            }
            i += 1;
        }
        Ghost(RunLog { prior_traces: logs, steps: responses })
    }

    /// Executes the trace in a run that has not started. A trace that is not
    /// well-typed fails the run before any step. Else the traces that run
    /// first are run, then the steps, until a step fails the run or the
    /// policy finds a violation; a run that nothing has ended is finished.
    /// The result is what the trace makes of the run under the answers that
    /// the programs under test gave.
    pub fn execute<P: Put, F: Procedures, Y: Policy>(
        &self,
        ctx: &mut TraceContext<P>,
        sig: &Signature,
        procedures: &F,
        policy: &Y,
    )
        ensures
            exists|log: RunLog|
                final(ctx)@ == #[trigger] self@.outcome(old(ctx)@, sig@, procedures, policy, log),
            old(ctx)@.state is NotStarted ==> final(ctx)@.ended(),
            old(ctx)@.state is NotStarted ==> final(ctx)@.violation_is_verdict(policy),
            final(ctx).agents@.len() == old(ctx).agents@.len(),
    {
        if !ctx.is_fresh() {
            assert(ctx@ == self@.outcome(
                ctx@,
                sig@,
                procedures,
                policy,
                RunLog { prior_traces: Seq::empty(), steps: Seq::empty() },
            ));
            return ;
        }
        if !self.well_typed(sig) {
            ctx.state = ExecutionState::Failed(FailureReason::IllTyped);
            assert(ctx@ == self@.outcome(
                old(ctx)@,
                sig@,
                procedures,
                policy,
                RunLog { prior_traces: Seq::empty(), steps: Seq::empty() },
            ));
            return ;
        }
        ctx.state = ExecutionState::Running;
        let log = self.run(ctx, sig, procedures, policy);
        if ctx.is_running() {
            ctx.state = ExecutionState::Finished;
        }
        proof {
            lemma_outcome_ended(self@, old(ctx)@, sig@, procedures, policy, log@);
            lemma_outcome_violation(self@, old(ctx)@, sig@, procedures, policy, log@);
        }
        assert(ctx@ == self@.outcome(old(ctx)@, sig@, procedures, policy, log@));
    }
}

} // verus!
