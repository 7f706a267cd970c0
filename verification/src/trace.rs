//! Traces: scripted exchanges between agents, as plain data.

use crate::agent::{AgentDescriptor, AgentName};
use crate::algebra::{Signature, SymbolView, Term, TermView};
use vstd::prelude::*;

verus! {

/// Asks an agent for its next outbound record. What the record holds is
/// stored as knowledge under `id`.
#[derive(Debug)]
pub struct OutputAction {
    pub id: u64,
}

/// Evaluates a term and delivers the bytes to an agent.
pub struct InputAction {
    pub recipe: Term,
}

/// What a step does.
pub enum Action {
    Input(InputAction),
    Output(OutputAction),
}

/// One step of a trace: an agent and what happens to it.
pub struct Step {
    pub agent: AgentName,
    pub action: Action,
}

/// An ordered script of steps, the agents that take part in it, and the
/// traces that run before it.
pub struct Trace {
    pub prior_traces: Vec<Trace>,
    pub descriptors: Vec<AgentDescriptor>,
    pub steps: Vec<Step>,
}

/// The mathematical model of an [`Action`].
pub enum ActionView {
    Input(TermView),
    Output(u64),
}

/// The mathematical model of a [`Step`].
pub struct StepView {
    pub agent: AgentName,
    pub action: ActionView,
}

/// The mathematical model of a [`Trace`].
pub struct TraceView {
    pub prior_traces: Seq<TraceView>,
    pub descriptors: Seq<AgentDescriptor>,
    pub steps: Seq<StepView>,
}

impl View for Action {
    type V = ActionView;

    open spec fn view(&self) -> ActionView {
        match self {
            Action::Input(input) => ActionView::Input(input.recipe@),
            Action::Output(output) => ActionView::Output(output.id),
        }
    }
}

impl View for Step {
    type V = StepView;

    open spec fn view(&self) -> StepView {
        StepView { agent: self.agent, action: self.action@ }
    }
}

impl Trace {
    /// The trace as a mathematical value.
    pub open spec fn model(&self) -> TraceView
        decreases self,
    {
        TraceView {
            prior_traces: Seq::new(
                self.prior_traces@.len(),
                |i: int|
                    if 0 <= i < self.prior_traces@.len() {
                        self.prior_traces@[i].model()
                    } else {
                        arbitrary()
                    },
            ),
            descriptors: self.descriptors@,
            steps: self.steps@.map_values(|s: Step| s@),
        }
    }
}

impl View for Trace {
    type V = TraceView;

    open spec fn view(&self) -> TraceView {
        self.model()
    }
}

impl TermView {
    /// Every variable of the term names a step in `available`.
    pub open spec fn refers_within(self, available: Set<u64>) -> bool
        decreases self,
    {
        match self {
            TermView::Variable { step, .. } => available.contains(step),
            TermView::Application { args, .. } => forall|i: int|
                0 <= i < args.len() ==> (#[trigger] args[i]).refers_within(available),
        }
    }

    /// The term holds a variable that names the step `id`.
    pub open spec fn mentions(self, id: u64) -> bool
        decreases self,
    {
        match self {
            TermView::Variable { step, .. } => step == id,
            TermView::Application { args, .. } => exists|i: int|
                0 <= i < args.len() && (#[trigger] args[i]).mentions(id),
        }
    }
}

/// The step that asks `agent` for a record and stores what it holds under `id`.
pub open spec fn output_step(agent: AgentName, id: u64) -> StepView {
    StepView { agent, action: ActionView::Output(id) }
}

/// The step that delivers the value of `recipe` to `agent`.
pub open spec fn input_step(agent: AgentName, recipe: TermView) -> StepView {
    StepView { agent, action: ActionView::Input(recipe) }
}

impl OutputAction {
    /// The step that asks `agent` for a record and stores what it holds
    /// under `id`.
    pub fn new_step(agent: AgentName, id: u64) -> (step: Step)
        ensures
            step@ == output_step(agent, id),
    {
        Step { agent, action: Action::Output(OutputAction { id }) }
    }
}

impl InputAction {
    /// The step that delivers the value of `recipe` to `agent`.
    pub fn new_step(agent: AgentName, recipe: Term) -> (step: Step)
        ensures
            step@ == input_step(agent, recipe@),
    {
        Step { agent, action: Action::Input(InputAction { recipe }) }
    }
}

impl Step {
    /// A copy of the step.
    pub fn duplicate(&self) -> (copy: Step)
        ensures
            copy@ == self@,
    {
        match &self.action {
            Action::Input(input) => InputAction::new_step(self.agent, input.recipe.duplicate()),
            Action::Output(output) => OutputAction::new_step(self.agent, output.id),
        }
    }
}

impl StepView {
    /// The step is an output step that stores its observations under `id`.
    pub open spec fn produces(self, id: u64) -> bool {
        self.action == ActionView::Output(id)
    }
}

impl TraceView {
    /// A step of the trace, or of a trace that runs before it, stores
    /// observations under `id`.
    pub open spec fn produces(self, id: u64) -> bool
        decreases self,
    {
        ||| exists|j: int| 0 <= j < self.steps.len() && (#[trigger] self.steps[j]).produces(id)
        ||| exists|p: int|
            0 <= p < self.prior_traces.len() && (#[trigger] self.prior_traces[p]).produces(id)
    }

    /// Observations are stored under `id` before step `i` runs: by an earlier
    /// step, or by a trace that runs before this one.
    pub open spec fn produced_before(self, i: int, id: u64) -> bool {
        ||| exists|j: int|
            0 <= j < i && j < self.steps.len() && (#[trigger] self.steps[j]).produces(id)
        ||| exists|p: int|
            0 <= p < self.prior_traces.len() && (#[trigger] self.prior_traces[p]).produces(id)
    }

    /// The step identifiers that a term of step `i` may name.
    pub open spec fn available(self, i: int) -> Set<u64> {
        Set::new(|id: u64| self.produced_before(i, id))
    }

    /// Step `i` is an output step, or its term fits the signature and names
    /// only what earlier steps produce.
    pub open spec fn step_valid(self, i: int, sig: Seq<SymbolView>) -> bool {
        self.steps[i].action matches ActionView::Input(recipe) ==> {
            &&& recipe.well_typed(sig)
            &&& recipe.refers_within(self.available(i))
        }
    }

    /// `step` could stand at position `at`: it is an output step, or its term
    /// fits the signature and names only what the steps before `at` produce.
    pub open spec fn step_fits(self, at: int, step: StepView, sig: Seq<SymbolView>) -> bool {
        step.action matches ActionView::Input(recipe) ==> {
            &&& recipe.well_typed(sig)
            &&& recipe.refers_within(self.available(at))
        }
    }

    /// The trace with other steps.
    pub open spec fn with_steps(self, steps: Seq<StepView>) -> TraceView {
        TraceView { prior_traces: self.prior_traces, descriptors: self.descriptors, steps }
    }

    /// The trace with `step` inserted at position `at`.
    pub open spec fn insert_step(self, at: int, step: StepView) -> TraceView {
        self.with_steps(self.steps.insert(at, step))
    }

    /// The trace with `step` as its new last step.
    pub open spec fn push_step(self, step: StepView) -> TraceView {
        self.with_steps(self.steps.push(step))
    }

    /// The trace without the step at position `at`.
    pub open spec fn remove_step(self, at: int) -> TraceView {
        self.with_steps(self.steps.remove(at))
    }

    /// The trace with `recipe` as the term of the input step at position `at`.
    pub open spec fn with_recipe(self, at: int, recipe: TermView) -> TraceView {
        self.with_steps(self.steps.update(at, input_step(self.steps[at].agent, recipe)))
    }

    /// Every term of the trace, and of the traces that run before it, fits
    /// the signature and names only knowledge that earlier steps produce.
    pub open spec fn well_typed(self, sig: Seq<SymbolView>) -> bool
        decreases self,
    {
        &&& forall|p: int|
            0 <= p < self.prior_traces.len() ==> (#[trigger] self.prior_traces[p]).well_typed(sig)
        &&& forall|i: int| 0 <= i < self.steps.len() ==> #[trigger] self.step_valid(i, sig)
    }
}

/// Pushing a value adds it to what a sequence holds, and nothing else.
pub proof fn lemma_push_contains(ids: Seq<u64>, added: u64, id: u64)
    ensures
        ids.push(added).contains(id) <==> (ids.contains(id) || id == added),
{
    if ids.contains(id) {
        let k = choose|k: int| 0 <= k < ids.len() && ids[k] == id;
        assert(ids.push(added)[k] == id);
    }
    if id == added {
        assert(ids.push(added)[ids.len() as int] == id);
    }
    if ids.push(added).contains(id) {
        let k = choose|k: int| 0 <= k < ids.push(added).len() && ids.push(added)[k] == id;
        if k < ids.len() {
            assert(ids[k] == id);
        }
    }
}

/// A term with a child that names a step outside `available` names one too.
proof fn lemma_child_refers_outside(t: TermView, available: Set<u64>, i: int)
    requires
        t is Application,
        0 <= i < t->args.len(),
        !t->args[i].refers_within(available),
    ensures
        !t.refers_within(available),
{
}

/// A term with a child that names a step names the step.
proof fn lemma_child_mentions(t: TermView, id: u64, i: int)
    requires
        t is Application,
        0 <= i < t->args.len(),
        t->args[i].mentions(id),
    ensures
        t.mentions(id),
{
}

impl Term {
    /// Does the term hold a variable that names the step `id`?
    pub fn mentions(&self, id: u64) -> (b: bool)
        ensures
            b == self@.mentions(id),
        decreases self,
    {
        proof {
            self.lemma_view_children();
        }
        match self {
            Term::Variable { step, .. } => *step == id,
            Term::Application { symbol, args } => {
                let ghost a = self@->args;
                let mut i: usize = 0;
                while i < args.len()
                    invariant
                        i <= args.len(),
                        self matches Term::Application { args: own, .. } && own == args,
                        self@ == (TermView::Application { symbol: *symbol, args: a }),
                        a.len() == args@.len(),
                        forall|k: int| 0 <= k < args@.len() ==> #[trigger] a[k] == args@[k]@,
                        forall|k: int| 0 <= k < i ==> !(#[trigger] a[k]).mentions(id),
                    decreases args.len() - i,
                {
                    if args[i].mentions(id) {
                        proof {
                            lemma_child_mentions(self@, id, i as int);
                        }
                        return true;
                    }
                    i += 1;
                }
                false
            },
        }
    }

    /// Does every variable of the term name a step in `ids`?
    pub fn refers_within(&self, ids: &Vec<u64>) -> (b: bool)
        ensures
            b == self@.refers_within(ids@.to_set()),
        decreases self,
    {
        proof {
            self.lemma_view_children();
        }
        match self {
            Term::Variable { step, .. } => {
                let mut found = false;
                let mut k: usize = 0;
                while k < ids.len()
                    invariant
                        k <= ids.len(),
                        found <==> exists|j: int| 0 <= j < k && ids@[j] == *step,
                    decreases ids.len() - k,
                {
                    if ids[k] == *step {
                        found = true;
                    }
                    k += 1;
                }
                found
            },
            Term::Application { symbol, args } => {
                let ghost a = self@->args;
                let mut i: usize = 0;
                while i < args.len()
                    invariant
                        i <= args.len(),
                        self matches Term::Application { args: own, .. } && own == args,
                        self@ == (TermView::Application { symbol: *symbol, args: a }),
                        a.len() == args@.len(),
                        forall|k: int| 0 <= k < args@.len() ==> #[trigger] a[k] == args@[k]@,
                        forall|k: int|
                            0 <= k < i ==> (#[trigger] a[k]).refers_within(ids@.to_set()),
                    decreases args.len() - i,
                {
                    if !args[i].refers_within(ids) {
                        proof {
                            lemma_child_refers_outside(self@, ids@.to_set(), i as int);
                        }
                        return false;
                    }
                    i += 1;
                }
                true
            },
        }
    }
}

/// A term that names only steps of a set names only steps of every larger
/// set.
pub proof fn lemma_refers_within_subset(t: TermView, small: Set<u64>, large: Set<u64>)
    requires
        t.refers_within(small),
        small.subset_of(large),
    ensures
        t.refers_within(large),
    decreases t,
{
    match t {
        TermView::Variable { .. } => {},
        TermView::Application { args, .. } => {
            assert forall|i: int| 0 <= i < args.len() implies (#[trigger] args[i]).refers_within(
                large,
            ) by {
                lemma_refers_within_subset(args[i], small, large);
            }
        },
    }
}

/// Inserting a step takes nothing away from what the steps of a trace may
/// name: a step keeps what was produced before it, and a step behind the new
/// one gains what the new one produces.
pub proof fn lemma_insert_step_available(trace: TraceView, at: int, step: StepView, i: int)
    requires
        0 <= at <= trace.steps.len(),
        0 <= i <= trace.steps.len(),
    ensures
        i <= at ==> trace.insert_step(at, step).available(i) =~= trace.available(i),
        i >= at ==> trace.available(i).subset_of(trace.insert_step(at, step).available(i + 1)),
{
    let after = trace.insert_step(at, step);
    assert(after.prior_traces == trace.prior_traces);
    if i <= at {
        assert forall|id: u64| after.produced_before(i, id) <==> trace.produced_before(
            i,
            id,
        ) by {
            if exists|j: int|
                0 <= j < i && j < after.steps.len() && (#[trigger] after.steps[j]).produces(id) {
                let j = choose|j: int|
                    0 <= j < i && j < after.steps.len() && (#[trigger] after.steps[j]).produces(id);
                assert(trace.steps[j].produces(id));
            }
            if exists|j: int|
                0 <= j < i && j < trace.steps.len() && (#[trigger] trace.steps[j]).produces(id) {
                let j = choose|j: int|
                    0 <= j < i && j < trace.steps.len() && (#[trigger] trace.steps[j]).produces(id);
                assert(after.steps[j].produces(id));
            }
        }
    }
    if i >= at {
        assert forall|id: u64| trace.produced_before(i, id) implies after.produced_before(
            i + 1,
            id,
        ) by {
            if exists|j: int|
                0 <= j < i && j < trace.steps.len() && (#[trigger] trace.steps[j]).produces(id) {
                let j = choose|j: int|
                    0 <= j < i && j < trace.steps.len() && (#[trigger] trace.steps[j]).produces(id);
                if j < at {
                    assert(after.steps[j].produces(id));
                } else {
                    assert(after.steps[j + 1].produces(id));
                }
            }
        }
    }
}

/// Inserting a step that could stand at its position keeps a trace
/// well-typed.
pub proof fn lemma_insert_step(trace: TraceView, at: int, step: StepView, sig: Seq<SymbolView>)
    requires
        trace.well_typed(sig),
        0 <= at <= trace.steps.len(),
        trace.step_fits(at, step, sig),
    ensures
        trace.insert_step(at, step).well_typed(sig),
{
    let after = trace.insert_step(at, step);
    assert forall|i: int| 0 <= i < after.steps.len() implies #[trigger] after.step_valid(
        i,
        sig,
    ) by {
        if i < at {
            lemma_insert_step_available(trace, at, step, i);
            assert(trace.step_valid(i, sig));
        } else if i == at {
            lemma_insert_step_available(trace, at, step, i);
        } else {
            lemma_insert_step_available(trace, at, step, i - 1);
            assert(trace.step_valid(i - 1, sig));
            match after.steps[i].action {
                ActionView::Input(recipe) => {
                    lemma_refers_within_subset(
                        recipe,
                        trace.available(i - 1),
                        after.available(i),
                    );
                },
                ActionView::Output(_) => {},
            }
        }
    }
    assert forall|p: int| 0 <= p < after.prior_traces.len() implies (
    #[trigger] after.prior_traces[p]).well_typed(sig) by {
        assert(trace.prior_traces[p].well_typed(sig));
    }
}

/// What a step may name, a later step may name.
pub proof fn lemma_available_grows(trace: TraceView, i: int, j: int)
    requires
        i <= j,
    ensures
        trace.available(i).subset_of(trace.available(j)),
{
    assert forall|id: u64| trace.produced_before(i, id) implies trace.produced_before(j, id) by {
        if exists|k: int|
            0 <= k < i && k < trace.steps.len() && (#[trigger] trace.steps[k]).produces(id) {
            let k = choose|k: int|
                0 <= k < i && k < trace.steps.len() && (#[trigger] trace.steps[k]).produces(id);
            assert(trace.steps[k].produces(id));
        }
    }
}

/// Giving an input step another term that could stand at its position keeps
/// a trace well-typed.
pub proof fn lemma_with_recipe(trace: TraceView, at: int, recipe: TermView, sig: Seq<SymbolView>)
    requires
        trace.well_typed(sig),
        0 <= at < trace.steps.len(),
        trace.steps[at].action is Input,
        recipe.well_typed(sig),
        recipe.refers_within(trace.available(at)),
    ensures
        trace.with_recipe(at, recipe).well_typed(sig),
{
    let after = trace.with_recipe(at, recipe);
    assert(after.prior_traces == trace.prior_traces);
    assert(after.steps.len() == trace.steps.len());
    assert forall|i: int| 0 <= i < after.steps.len() implies #[trigger] after.step_valid(
        i,
        sig,
    ) by {
        assert forall|id: u64| after.produced_before(i, id) <==> trace.produced_before(
            i,
            id,
        ) by {
            if exists|j: int|
                0 <= j < i && j < after.steps.len() && (#[trigger] after.steps[j]).produces(id) {
                let j = choose|j: int|
                    0 <= j < i && j < after.steps.len() && (#[trigger] after.steps[j]).produces(id);
                assert(j != at);
                assert(after.steps[j] == trace.steps[j]);
                assert(trace.steps[j].produces(id));
            }
            if exists|j: int|
                0 <= j < i && j < trace.steps.len() && (#[trigger] trace.steps[j]).produces(id) {
                let j = choose|j: int|
                    0 <= j < i && j < trace.steps.len() && (#[trigger] trace.steps[j]).produces(id);
                assert(j != at);
                assert(after.steps[j] == trace.steps[j]);
                assert(after.steps[j].produces(id));
            }
        }
        assert(after.available(i) =~= trace.available(i));
        assert(trace.step_valid(i, sig));
    }
    assert forall|p: int| 0 <= p < after.prior_traces.len() implies (
    #[trigger] after.prior_traces[p]).well_typed(sig) by {
        assert(trace.prior_traces[p].well_typed(sig));
    }
}

/// A term that does not name a step names only steps of a set without it.
pub proof fn lemma_refers_within_without(t: TermView, available: Set<u64>, id: u64)
    requires
        t.refers_within(available),
        !t.mentions(id),
    ensures
        t.refers_within(available.remove(id)),
    decreases t,
{
    match t {
        TermView::Variable { .. } => {},
        TermView::Application { args, .. } => {
            assert forall|i: int| 0 <= i < args.len() implies (#[trigger] args[i]).refers_within(
                available.remove(id),
            ) by {
                lemma_refers_within_without(args[i], available, id);
            }
        },
    }
}

impl TraceView {
    /// No step behind position `at` names what the step at `at` produces.
    pub open spec fn unused_after(self, at: int) -> bool {
        self.steps[at].action matches ActionView::Output(id) ==> forall|k: int|
            at < k < self.steps.len() ==> !(#[trigger] self.steps[k]).names(id)
    }
}

impl StepView {
    /// The step is an input step whose term names the step `id`.
    pub open spec fn names(self, id: u64) -> bool {
        self.action matches ActionView::Input(recipe) && recipe.mentions(id)
    }
}

/// A term names only steps of a set that holds every step it names.
pub proof fn lemma_named_is_available(t: TermView, available: Set<u64>, id: u64)
    requires
        t.refers_within(available),
        t.mentions(id),
    ensures
        available.contains(id),
    decreases t,
{
    match t {
        TermView::Variable { .. } => {},
        TermView::Application { args, .. } => {
            let i = choose|i: int| 0 <= i < args.len() && (#[trigger] args[i]).mentions(id);
            lemma_named_is_available(args[i], available, id);
        },
    }
}

/// The order of a well-typed trace: what the term of a step names was
/// produced before the step, by an earlier step or by a trace that runs
/// first. No term names what its own step or a later step produces.
pub proof fn lemma_ordering(trace: TraceView, sig: Seq<SymbolView>, i: int, id: u64)
    requires
        trace.well_typed(sig),
        0 <= i < trace.steps.len(),
        trace.steps[i].names(id),
    ensures
        trace.produced_before(i, id),
{
    assert(trace.step_valid(i, sig));
    lemma_named_is_available(trace.steps[i].action->Input_0, trace.available(i), id);
}

/// A trace with a term that names what is not produced before its step is
/// not well-typed.
pub proof fn lemma_forward_reference(trace: TraceView, sig: Seq<SymbolView>, i: int, id: u64)
    requires
        0 <= i < trace.steps.len(),
        trace.steps[i].names(id),
        !trace.produced_before(i, id),
    ensures
        !trace.well_typed(sig),
{
    if trace.well_typed(sig) {
        lemma_ordering(trace, sig, i, id);
    }
}

impl TraceView {
    /// The trace runs no trace first, and each of its output steps stores
    /// what it observes under its own position.
    pub open spec fn numbered_by_position(self) -> bool {
        &&& self.prior_traces.len() == 0
        &&& forall|j: int|
            0 <= j < self.steps.len() ==> ((#[trigger] self.steps[j]).action matches ActionView::Output(
                id,
            ) ==> id == j)
    }
}

/// In a well-typed trace whose output steps are numbered by their positions,
/// the term of step `i` names only steps before `i`.
pub proof fn lemma_ordering_by_position(trace: TraceView, sig: Seq<SymbolView>, i: int, id: u64)
    requires
        trace.well_typed(sig),
        trace.numbered_by_position(),
        0 <= i < trace.steps.len(),
        trace.steps[i].names(id),
    ensures
        id < i,
{
    lemma_ordering(trace, sig, i, id);
    let j = choose|j: int|
        0 <= j < i && j < trace.steps.len() && (#[trigger] trace.steps[j]).produces(id);
    assert(trace.steps[j].produces(id));
}

/// Removing a step whose product no later step names keeps a trace
/// well-typed.
pub proof fn lemma_remove_step(trace: TraceView, at: int, sig: Seq<SymbolView>)
    requires
        trace.well_typed(sig),
        0 <= at < trace.steps.len(),
        trace.unused_after(at),
    ensures
        trace.remove_step(at).well_typed(sig),
{
    let after = trace.remove_step(at);
    assert(after.prior_traces == trace.prior_traces);
    assert forall|i: int| 0 <= i < after.steps.len() implies #[trigger] after.step_valid(
        i,
        sig,
    ) by {
        if i < at {
            assert(after.steps[i] == trace.steps[i]);
            assert forall|id: u64| trace.produced_before(i, id) implies after.produced_before(
                i,
                id,
            ) by {
                if exists|j: int|
                    0 <= j < i && j < trace.steps.len() && (#[trigger] trace.steps[j]).produces(
                        id,
                    ) {
                    let j = choose|j: int|
                        0 <= j < i && j < trace.steps.len() && (
                        #[trigger] trace.steps[j]).produces(id);
                    assert(after.steps[j].produces(id));
                }
            }
            assert(trace.step_valid(i, sig));
            match after.steps[i].action {
                ActionView::Input(recipe) => {
                    lemma_refers_within_subset(recipe, trace.available(i), after.available(i));
                },
                ActionView::Output(_) => {},
            }
        } else {
            assert(after.steps[i] == trace.steps[i + 1]);
            assert(trace.step_valid(i + 1, sig));
            match after.steps[i].action {
                ActionView::Input(recipe) => {
                    match trace.steps[at].action {
                        ActionView::Output(gone) => {
                            assert(!trace.steps[i + 1].names(gone));
                            lemma_refers_within_without(recipe, trace.available(i + 1), gone);
                            assert forall|id: u64|
                                trace.produced_before(i + 1, id) && id
                                    != gone implies after.produced_before(i, id) by {
                                if exists|j: int|
                                    0 <= j < i + 1 && j < trace.steps.len() && (
                                    #[trigger] trace.steps[j]).produces(id) {
                                    let j = choose|j: int|
                                        0 <= j < i + 1 && j < trace.steps.len() && (
                                        #[trigger] trace.steps[j]).produces(id);
                                    if j < at {
                                        assert(after.steps[j].produces(id));
                                    } else {
                                        assert(j != at);
                                        assert(after.steps[j - 1].produces(id));
                                    }
                                }
                            }
                            lemma_refers_within_subset(
                                recipe,
                                trace.available(i + 1).remove(gone),
                                after.available(i),
                            );
                        },
                        ActionView::Input(_) => {
                            assert forall|id: u64|
                                trace.produced_before(i + 1, id) implies after.produced_before(
                                i,
                                id,
                            ) by {
                                if exists|j: int|
                                    0 <= j < i + 1 && j < trace.steps.len() && (
                                    #[trigger] trace.steps[j]).produces(id) {
                                    let j = choose|j: int|
                                        0 <= j < i + 1 && j < trace.steps.len() && (
                                        #[trigger] trace.steps[j]).produces(id);
                                    if j < at {
                                        assert(after.steps[j].produces(id));
                                    } else {
                                        assert(j != at);
                                        assert(after.steps[j - 1].produces(id));
                                    }
                                }
                            }
                            lemma_refers_within_subset(
                                recipe,
                                trace.available(i + 1),
                                after.available(i),
                            );
                        },
                    }
                },
                ActionView::Output(_) => {},
            }
        }
    }
    assert forall|p: int| 0 <= p < after.prior_traces.len() implies (
    #[trigger] after.prior_traces[p]).well_typed(sig) by {
        assert(trace.prior_traces[p].well_typed(sig));
    }
}

/// Appending a step that could stand behind the last one keeps a trace
/// well-typed.
pub proof fn lemma_push_step(trace: TraceView, step: StepView, sig: Seq<SymbolView>)
    requires
        trace.well_typed(sig),
        trace.step_fits(trace.steps.len() as int, step, sig),
    ensures
        trace.push_step(step).well_typed(sig),
{
    assert(trace.steps.insert(trace.steps.len() as int, step) =~= trace.steps.push(step));
    lemma_insert_step(trace, trace.steps.len() as int, step, sig);
}

/// A trace with a step that is not valid is not well-typed.
pub proof fn lemma_invalid_step(trace: TraceView, i: int, sig: Seq<SymbolView>)
    requires
        0 <= i < trace.steps.len(),
        !trace.step_valid(i, sig),
    ensures
        !trace.well_typed(sig),
{
}

/// A trace that runs after a trace that is not well-typed is not well-typed.
pub proof fn lemma_invalid_prior(trace: TraceView, p: int, sig: Seq<SymbolView>)
    requires
        0 <= p < trace.prior_traces.len(),
        !trace.prior_traces[p].well_typed(sig),
    ensures
        !trace.well_typed(sig),
{
}

/// What is produced before step `i + 1` is what is produced before step `i`
/// and what step `i` produces.
pub proof fn lemma_produced_before_next(trace: TraceView, i: int, id: u64)
    requires
        0 <= i < trace.steps.len(),
    ensures
        trace.produced_before(i + 1, id) <==> (trace.produced_before(i, id)
            || trace.steps[i].produces(id)),
{
    if trace.produced_before(i + 1, id) && !trace.produced_before(i, id) {
        let j = choose|j: int|
            0 <= j < i + 1 && j < trace.steps.len() && (#[trigger] trace.steps[j]).produces(id);
        assert(j == i);
    }
}

impl Trace {
    /// Does every term of the trace, and of the traces that run before it,
    /// fit the signature and name only knowledge that earlier steps produce?
    ///
    /// A variable names the identifier of an output step, not the position
    /// of a step: what a term of step `i` names must be the identifier of an
    /// output step before position `i`, or of an output step of a trace that
    /// runs first. Where the output steps are numbered by their positions,
    /// which `numbered_by_position` tells, a term of step `i` names only
    /// numbers below `i`.
    pub fn well_typed(&self, sig: &Signature) -> (b: bool)
        ensures
            b == self@.well_typed(sig@),
            b ==> forall|i: int, id: u64|
                0 <= i < self@.steps.len() && (#[trigger] self@.steps[i].names(id))
                    ==> self@.produced_before(i, id),
            b && self@.numbered_by_position() ==> forall|i: int, id: u64|
                0 <= i < self@.steps.len() && (#[trigger] self@.steps[i].names(id)) ==> id < i,
        decreases self,
    {
        proof {
            self.lemma_view_parts();
        }
        let mut ids: Vec<u64> = Vec::new();
        let mut p: usize = 0;
        while p < self.prior_traces.len()
            invariant
                p <= self.prior_traces.len(),
                self@.prior_traces.len() == self.prior_traces@.len(),
                forall|q: int|
                    0 <= q < self.prior_traces@.len() ==> #[trigger] self@.prior_traces[q]
                        == self.prior_traces@[q]@,
                forall|q: int| 0 <= q < p ==> (#[trigger] self@.prior_traces[q]).well_typed(sig@),
                forall|id: u64|
                    ids@.contains(id) <==> exists|q: int|
                        0 <= q < p && (#[trigger] self@.prior_traces[q]).produces(id),
            decreases self.prior_traces.len() - p,
        {
            if !self.prior_traces[p].well_typed(sig) {
                proof {
                    lemma_invalid_prior(self@, p as int, sig@);
                }
                return false;
            }
            let ghost before = ids@;
            self.prior_traces[p].collect_ids(&mut ids);
            assert forall|id: u64|
                ids@.contains(id) <==> exists|q: int|
                    0 <= q < p + 1 && (#[trigger] self@.prior_traces[q]).produces(id) by {
                if self@.prior_traces[p as int].produces(id) {
                }
                if exists|q: int|
                    0 <= q < p + 1 && (#[trigger] self@.prior_traces[q]).produces(id) {
                    let q = choose|q: int|
                        0 <= q < p + 1 && (#[trigger] self@.prior_traces[q]).produces(id);
                    if q < p {
                        assert(before.contains(id));
                    }
                }
            }
            p += 1;
        }
        let mut i: usize = 0;
        while i < self.steps.len()
            invariant
                i <= self.steps.len(),
                self@.steps.len() == self.steps@.len(),
                forall|k: int|
                    0 <= k < self.steps@.len() ==> #[trigger] self@.steps[k] == self.steps@[k]@,
                forall|q: int|
                    0 <= q < self@.prior_traces.len() ==> (#[trigger] self@.prior_traces[q]).well_typed(
                        sig@,
                    ),
                forall|id: u64| ids@.contains(id) <==> self@.produced_before(i as int, id),
                forall|k: int| 0 <= k < i ==> #[trigger] self@.step_valid(k, sig@),
            decreases self.steps.len() - i,
        {
            assert(ids@.to_set() =~= self@.available(i as int));
            match &self.steps[i].action {
                Action::Input(input) => {
                    if !input.recipe.well_typed(sig) || !input.recipe.refers_within(&ids) {
                        proof {
                            lemma_invalid_step(self@, i as int, sig@);
                        }
                        return false;
                    }
                    assert forall|id: u64|
                        ids@.contains(id) <==> self@.produced_before(i + 1, id) by {
                        lemma_produced_before_next(self@, i as int, id);
                    }
                },
                Action::Output(output) => {
                    let ghost before = ids@;
                    ids.push(output.id);
                    assert forall|id: u64|
                        ids@.contains(id) <==> self@.produced_before(i + 1, id) by {
                        lemma_produced_before_next(self@, i as int, id);
                        lemma_push_contains(before, output.id, id);
                    }
                },
            }
            i += 1;
        }
        proof {
            assert(self@.well_typed(sig@));
            assert forall|i: int, id: u64|
                0 <= i < self@.steps.len() && (#[trigger] self@.steps[i].names(
                    id,
                )) implies self@.produced_before(i, id) by {
                lemma_ordering(self@, sig@, i, id);
            }
            if self@.numbered_by_position() {
                assert forall|i: int, id: u64|
                    0 <= i < self@.steps.len() && (#[trigger] self@.steps[i].names(
                        id,
                    )) implies id < i by {
                    lemma_ordering_by_position(self@, sig@, i, id);
                }
            }
        }
        true
    }

    /// Does the trace run no trace first, and does each of its output steps
    /// store what it observes under its own position?
    pub fn numbered_by_position(&self) -> (b: bool)
        ensures
            b == self@.numbered_by_position(),
    {
        proof {
            self.lemma_view_parts();
        }
        if self.prior_traces.len() != 0 {
            return false;
        }
        let mut i: usize = 0;
        while i < self.steps.len()
            invariant
                i <= self.steps.len(),
                self@.prior_traces.len() == 0,
                self@.steps.len() == self.steps@.len(),
                forall|k: int|
                    0 <= k < self.steps@.len() ==> #[trigger] self@.steps[k] == self.steps@[k]@,
                forall|j: int|
                    0 <= j < i ==> ((#[trigger] self@.steps[j]).action matches ActionView::Output(
                        id,
                    ) ==> id == j),
            decreases self.steps.len() - i,
        {
            match &self.steps[i].action {
                Action::Output(output) => {
                    if output.id != i as u64 {
                        assert(self@.steps[i as int].action == ActionView::Output(output.id));
                        return false;
                    }
                },
                Action::Input(_) => {},
            }
            i += 1;
        }
        true
    }

    /// The parts of the trace, as the view has them.
    pub proof fn lemma_view_parts(&self)
        ensures
            self@.descriptors == self.descriptors@,
            self@.steps.len() == self.steps@.len(),
            forall|i: int|
                0 <= i < self.steps@.len() ==> #[trigger] self@.steps[i] == self.steps@[i]@,
            self@.prior_traces.len() == self.prior_traces@.len(),
            forall|p: int|
                0 <= p < self.prior_traces@.len() ==> #[trigger] self@.prior_traces[p]
                    == self.prior_traces@[p]@,
    {
    }

    /// Inserts `step` at position `at`, where the trace has that many steps.
    /// Returns whether it did.
    pub fn insert_step(&mut self, at: usize, step: Step) -> (inserted: bool)
        ensures
            inserted == (at <= old(self)@.steps.len()),
            inserted ==> final(self)@ == old(self)@.insert_step(at as int, step@),
            !inserted ==> final(self)@ == old(self)@,
    {
        proof {
            self.lemma_view_parts();
        }
        if at > self.steps.len() {
            return false;
        }
        let ghost before = self@;
        self.steps.insert(at, step);
        proof {
            self.lemma_view_parts();
            assert(self@.steps =~= before.steps.insert(at as int, step@));
            assert(self@.prior_traces =~= before.prior_traces);
        }
        true
    }

    /// Appends `step` to the trace.
    pub fn push_step(&mut self, step: Step)
        ensures
            final(self)@ == old(self)@.push_step(step@),
    {
        proof {
            self.lemma_view_parts();
        }
        let ghost before = self@;
        self.steps.push(step);
        proof {
            self.lemma_view_parts();
            assert(self@.steps =~= before.steps.push(step@));
            assert(self@.prior_traces =~= before.prior_traces);
        }
    }

    /// Removes the step at position `at`, where the trace has one there.
    /// Returns whether it did.
    pub fn remove_step(&mut self, at: usize) -> (removed: bool)
        ensures
            removed == (at < old(self)@.steps.len()),
            removed ==> final(self)@ == old(self)@.remove_step(at as int),
            !removed ==> final(self)@ == old(self)@,
    {
        proof {
            self.lemma_view_parts();
        }
        if at >= self.steps.len() {
            return false;
        }
        let ghost before = self@;
        self.steps.remove(at);
        proof {
            self.lemma_view_parts();
            assert(self@.steps =~= before.steps.remove(at as int));
            assert(self@.prior_traces =~= before.prior_traces);
        }
        true
    }

    /// Gives the input step at position `at` the term `recipe`, where the
    /// trace has an input step there. Returns whether it did.
    pub fn set_recipe(&mut self, at: usize, recipe: Term) -> (set: bool)
        ensures
            set == (at < old(self)@.steps.len() && old(self)@.steps[at as int].action is Input),
            set ==> final(self)@ == old(self)@.with_recipe(at as int, recipe@),
            !set ==> final(self)@ == old(self)@,
    {
        proof {
            self.lemma_view_parts();
        }
        if at >= self.steps.len() {
            return false;
        }
        let agent = self.steps[at].agent;
        match &self.steps[at].action {
            Action::Output(_) => {
                return false;
            },
            Action::Input(_) => {},
        }
        let ghost before = self@;
        self.steps.set(at, InputAction::new_step(agent, recipe));
        proof {
            self.lemma_view_parts();
            assert(self@.steps =~= before.steps.update(
                at as int,
                input_step(before.steps[at as int].agent, recipe@),
            ));
            assert(self@.prior_traces =~= before.prior_traces);
        }
        true
    }

    /// The identifiers that a term of step `at` may name: those of the output
    /// steps before it and of the traces that run first.
    pub fn available_ids(&self, at: usize) -> (ids: Vec<u64>)
        requires
            at <= self@.steps.len(),
        ensures
            ids@.to_set() == self@.available(at as int),
    {
        proof {
            self.lemma_view_parts();
        }
        let mut ids: Vec<u64> = Vec::new();
        let mut p: usize = 0;
        while p < self.prior_traces.len()
            invariant
                p <= self.prior_traces.len(),
                self@.prior_traces.len() == self.prior_traces@.len(),
                forall|q: int|
                    0 <= q < self.prior_traces@.len() ==> #[trigger] self@.prior_traces[q]
                        == self.prior_traces@[q]@,
                forall|id: u64|
                    ids@.contains(id) <==> exists|q: int|
                        0 <= q < p && (#[trigger] self@.prior_traces[q]).produces(id),
            decreases self.prior_traces.len() - p,
        {
            let ghost before = ids@;
            self.prior_traces[p].collect_ids(&mut ids);
            assert forall|id: u64|
                ids@.contains(id) <==> exists|q: int|
                    0 <= q < p + 1 && (#[trigger] self@.prior_traces[q]).produces(id) by {
                if self@.prior_traces[p as int].produces(id) {
                }
                if exists|q: int|
                    0 <= q < p + 1 && (#[trigger] self@.prior_traces[q]).produces(id) {
                    let q = choose|q: int|
                        0 <= q < p + 1 && (#[trigger] self@.prior_traces[q]).produces(id);
                    if q < p {
                        assert(before.contains(id));
                    }
                }
            }
            p += 1;
        }
        let mut i: usize = 0;
        while i < at
            invariant
                i <= at <= self.steps.len(),
                self@.steps.len() == self.steps@.len(),
                forall|k: int|
                    0 <= k < self.steps@.len() ==> #[trigger] self@.steps[k] == self.steps@[k]@,
                forall|id: u64| ids@.contains(id) <==> self@.produced_before(i as int, id),
            decreases at - i,
        {
            match &self.steps[i].action {
                Action::Input(_) => {
                    assert forall|id: u64|
                        ids@.contains(id) <==> self@.produced_before(i + 1, id) by {
                        lemma_produced_before_next(self@, i as int, id);
                    }
                },
                Action::Output(output) => {
                    let ghost before = ids@;
                    ids.push(output.id);
                    assert forall|id: u64|
                        ids@.contains(id) <==> self@.produced_before(i + 1, id) by {
                        lemma_produced_before_next(self@, i as int, id);
                        lemma_push_contains(before, output.id, id);
                    }
                },
            }
            i += 1;
        }
        assert(ids@.to_set() =~= self@.available(at as int));
        ids
    }

    /// A copy of the trace.
    pub fn duplicate(&self) -> (copy: Trace)
        ensures
            copy@ == self@,
        decreases self,
    {
        proof {
            self.lemma_view_parts();
        }
        let mut prior_traces: Vec<Trace> = Vec::new();
        let mut p: usize = 0;
        while p < self.prior_traces.len()
            invariant
                p <= self.prior_traces.len(),
                prior_traces@.len() == p,
                forall|q: int|
                    0 <= q < p ==> (#[trigger] prior_traces@[q])@ == self.prior_traces@[q]@,
            decreases self.prior_traces.len() - p,
        {
            prior_traces.push(self.prior_traces[p].duplicate());
            p += 1;
        }
        let mut descriptors: Vec<AgentDescriptor> = Vec::new();
        let mut d: usize = 0;
        while d < self.descriptors.len()
            invariant
                d <= self.descriptors.len(),
                descriptors@ == self.descriptors@.take(d as int),
            decreases self.descriptors.len() - d,
        {
            descriptors.push(self.descriptors[d]);
            assert(self.descriptors@.take(d + 1) =~= self.descriptors@.take(d as int).push(
                self.descriptors@[d as int],
            ));
            d += 1;
        }
        assert(self.descriptors@.take(self.descriptors@.len() as int) =~= self.descriptors@);
        let mut steps: Vec<Step> = Vec::new();
        let mut i: usize = 0;
        while i < self.steps.len()
            invariant
                i <= self.steps.len(),
                steps@.len() == i,
                forall|k: int| 0 <= k < i ==> (#[trigger] steps@[k])@ == self.steps@[k]@,
            decreases self.steps.len() - i,
        {
            steps.push(self.steps[i].duplicate());
            i += 1;
        }
        let copy = Trace { prior_traces, descriptors, steps };
        proof {
            copy.lemma_view_parts();
            assert(copy@.steps =~= self@.steps);
            assert(copy@.prior_traces =~= self@.prior_traces);
        }
        copy
    }

    /// Does a step of the trace, or of a trace that runs before it, store
    /// observations under `id`?
    pub fn produces(&self, id: u64) -> (b: bool)
        ensures
            b == self@.produces(id),
    {
        let mut ids: Vec<u64> = Vec::new();
        self.collect_ids(&mut ids);
        let mut found = false;
        let mut k: usize = 0;
        while k < ids.len()
            invariant
                k <= ids.len(),
                found <==> exists|j: int| 0 <= j < k && ids@[j] == id,
            decreases ids.len() - k,
        {
            if ids[k] == id {
                found = true;
            }
            k += 1;
        }
        found
    }

    /// The number of steps of the trace.
    pub fn len(&self) -> (n: usize)
        ensures
            n == self@.steps.len(),
    {
        proof {
            self.lemma_view_parts();
        }
        self.steps.len()
    }

    /// Appends to `out` the identifier of every output step of the trace and
    /// of the traces that run before it.
    pub fn collect_ids(&self, out: &mut Vec<u64>)
        ensures
            forall|id: u64|
                final(out)@.contains(id) <==> (old(out)@.contains(id) || self@.produces(id)),
        decreases self,
    {
        proof {
            self.lemma_view_parts();
        }
        let mut p: usize = 0;
        while p < self.prior_traces.len()
            invariant
                p <= self.prior_traces.len(),
                self@.prior_traces.len() == self.prior_traces@.len(),
                forall|q: int|
                    0 <= q < self.prior_traces@.len() ==> #[trigger] self@.prior_traces[q]
                        == self.prior_traces@[q]@,
                forall|id: u64|
                    out@.contains(id) <==> (old(out)@.contains(id) || exists|q: int|
                        0 <= q < p && (#[trigger] self@.prior_traces[q]).produces(id)),
            decreases self.prior_traces.len() - p,
        {
            let ghost before = out@;
            self.prior_traces[p].collect_ids(out);
            assert forall|id: u64|
                out@.contains(id) <==> (old(out)@.contains(id) || exists|q: int|
                    0 <= q < p + 1 && (#[trigger] self@.prior_traces[q]).produces(id)) by {
                if self@.prior_traces[p as int].produces(id) {
                }
                if exists|q: int|
                    0 <= q < p + 1 && (#[trigger] self@.prior_traces[q]).produces(id) {
                    let q = choose|q: int|
                        0 <= q < p + 1 && (#[trigger] self@.prior_traces[q]).produces(id);
                    if q < p {
                        assert(before.contains(id));
                    }
                }
            }
            p += 1;
        }
        let mut j: usize = 0;
        while j < self.steps.len()
            invariant
                j <= self.steps.len(),
                self@.steps.len() == self.steps@.len(),
                forall|i: int|
                    0 <= i < self.steps@.len() ==> #[trigger] self@.steps[i] == self.steps@[i]@,
                forall|id: u64|
                    out@.contains(id) <==> (old(out)@.contains(id) || (exists|q: int|
                        0 <= q < self@.prior_traces.len() && (
                        #[trigger] self@.prior_traces[q]).produces(id)) || exists|i: int|
                        0 <= i < j && (#[trigger] self@.steps[i]).produces(id)),
            decreases self.steps.len() - j,
        {
            let ghost before = out@;
            match &self.steps[j].action {
                Action::Output(output) => {
                    out.push(output.id);
                    assert forall|id: u64|
                        out@.contains(id) <==> (old(out)@.contains(id) || (exists|q: int|
                            0 <= q < self@.prior_traces.len() && (
                            #[trigger] self@.prior_traces[q]).produces(id)) || exists|i: int|
                            0 <= i < j + 1 && (#[trigger] self@.steps[i]).produces(id)) by {
                        lemma_push_contains(before, output.id, id);
                        if id == output.id {
                            assert(self@.steps[j as int].produces(id));
                        }
                        if exists|i: int|
                            0 <= i < j + 1 && (#[trigger] self@.steps[i]).produces(id) {
                            let i = choose|i: int|
                                0 <= i < j + 1 && (#[trigger] self@.steps[i]).produces(id);
                            if i < j {
                            }
                        }
                    }
                },
                Action::Input(_) => {
                    assert forall|id: u64|
                        out@.contains(id) <==> (old(out)@.contains(id) || (exists|q: int|
                            0 <= q < self@.prior_traces.len() && (
                            #[trigger] self@.prior_traces[q]).produces(id)) || exists|i: int|
                            0 <= i < j + 1 && (#[trigger] self@.steps[i]).produces(id)) by {
                        assert(!self@.steps[j as int].produces(id));
                        if exists|i: int|
                            0 <= i < j + 1 && (#[trigger] self@.steps[i]).produces(id) {
                            let i = choose|i: int|
                                0 <= i < j + 1 && (#[trigger] self@.steps[i]).produces(id);
                            assert(i < j);
                        }
                    }
                },
            }
            j += 1;
        }
    }
}

} // verus!
