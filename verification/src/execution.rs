//! The state of one run of a trace, and what each step does to it.

use crate::agent::{Agent, AgentName, AgentView};
use crate::evaluation::{EvalError, EvalErrorView};
use crate::knowledge::{
    copy_bytes, find_all, find_first, first_match, matching, store_view, Knowledge, KnowledgeView,
    Lookup, Observation, ObservationView,
};
use crate::policy::{claim_views, Claim, ClaimView, Policy, Violation, ViolationView};
use crate::put::{Progress, Put, PutError};
use crate::stream::MemoryStream;
use crate::tls::record::{decode, decode_flight};
use vstd::prelude::*;

verus! {

/// Why a run has failed.
pub enum FailureReason {
    /// The trace is not well-typed. None of its steps has run.
    IllTyped,
    /// The term of an input step has no value.
    CraftingError(EvalError),
    /// A step names an agent that the run does not have.
    UnknownAgent(AgentName),
}

/// The mathematical model of a [`FailureReason`].
pub enum FailureView {
    IllTyped,
    CraftingError(EvalErrorView),
    UnknownAgent(AgentName),
}

impl View for FailureReason {
    type V = FailureView;

    open spec fn view(&self) -> FailureView {
        match self {
            FailureReason::IllTyped => FailureView::IllTyped,
            FailureReason::CraftingError(e) => FailureView::CraftingError(e@),
            FailureReason::UnknownAgent(name) => FailureView::UnknownAgent(*name),
        }
    }
}

/// Where a run stands.
pub enum ExecutionState {
    NotStarted,
    Running,
    Finished,
    Failed(FailureReason),
    ViolationDetected(Violation),
}

/// The mathematical model of an [`ExecutionState`].
pub enum StateView {
    NotStarted,
    Running,
    Finished,
    Failed(FailureView),
    ViolationDetected(ViolationView),
}

impl View for ExecutionState {
    type V = StateView;

    open spec fn view(&self) -> StateView {
        match self {
            ExecutionState::NotStarted => StateView::NotStarted,
            ExecutionState::Running => StateView::Running,
            ExecutionState::Finished => StateView::Finished,
            ExecutionState::Failed(reason) => StateView::Failed(reason@),
            ExecutionState::ViolationDetected(violation) => StateView::ViolationDetected(
                violation@,
            ),
        }
    }
}

/// The mathematical model of a [`Progress`].
pub struct ProgressView {
    pub record: Seq<u8>,
    pub claims: Seq<ClaimView>,
}

impl View for Progress {
    type V = ProgressView;

    open spec fn view(&self) -> ProgressView {
        ProgressView { record: self.record@, claims: claim_views(self.claims@) }
    }
}

/// The mathematical model of what a program under test answers when it is
/// asked to advance.
pub open spec fn progress_view(response: Result<Progress, PutError>) -> Result<
    ProgressView,
    PutError,
> {
    match response {
        Ok(progress) => Ok(progress@),
        Err(e) => Err(e),
    }
}

/// The state of one run: the knowledge that its steps have produced, its
/// agents, the claims that they have made, the failures of the programs
/// under test, and where the run stands.
pub struct TraceContext<P: Put> {
    pub knowledge: Vec<Knowledge>,
    pub agents: Vec<Agent<P>>,
    pub claims: Vec<Claim>,
    pub faults: Vec<PutError>,
    pub state: ExecutionState,
}

/// The mathematical model of a [`TraceContext`].
pub struct ContextView {
    pub knowledge: Seq<KnowledgeView>,
    pub agents: Seq<AgentView>,
    pub claims: Seq<ClaimView>,
    pub faults: Seq<PutError>,
    pub state: StateView,
}

/// The mathematical models of the agents of a run.
pub open spec fn agent_views<P: Put>(agents: Seq<Agent<P>>) -> Seq<AgentView> {
    agents.map_values(|a: Agent<P>| a@)
}

impl<P: Put> View for TraceContext<P> {
    type V = ContextView;

    open spec fn view(&self) -> ContextView {
        ContextView {
            knowledge: store_view(self.knowledge@),
            agents: agent_views(self.agents@),
            claims: claim_views(self.claims@),
            faults: self.faults@,
            state: self.state@,
        }
    }
}

/// The agents are played by the same programs under test, each in the state
/// that it had.
pub open spec fn puts_kept<P: Put>(before: Seq<Agent<P>>, after: Seq<Agent<P>>) -> bool {
    &&& after.len() == before.len()
    &&& forall|k: int| 0 <= k < before.len() ==> (#[trigger] after[k]).put == before[k].put
}

/// The agents but the one at position `i` are played by the same programs
/// under test, each in the state that it had.
pub open spec fn puts_kept_but<P: Put>(
    before: Seq<Agent<P>>,
    after: Seq<Agent<P>>,
    i: int,
) -> bool {
    &&& after.len() == before.len()
    &&& forall|k: int|
        0 <= k < before.len() && k != i ==> (#[trigger] after[k]).put == before[k].put
}

/// The number of observations of type `typ` among the first `n`.
pub open spec fn count_of_type(
    observations: Seq<ObservationView>,
    typ: crate::algebra::TypeShape,
    n: nat,
) -> nat
    decreases n,
{
    if n == 0 || n > observations.len() {
        0
    } else {
        count_of_type(observations, typ, (n - 1) as nat) + if observations[n - 1].typ == typ {
            1nat
        } else {
            0nat
        }
    }
}

/// The store entry of the observation at position `k` of what the output
/// step `id` has produced. Its index counts the earlier observations of its
/// type.
pub open spec fn entry(id: u64, observations: Seq<ObservationView>, k: int) -> KnowledgeView {
    KnowledgeView {
        step: id,
        index: count_of_type(observations, observations[k].typ, k as nat) as u64,
        typ: observations[k].typ,
        data: observations[k].data,
    }
}

/// The store entries of what the output step `id` has produced.
pub open spec fn entries(id: u64, observations: Seq<ObservationView>) -> Seq<KnowledgeView> {
    Seq::new(observations.len(), |k: int| entry(id, observations, k))
}

/// The position of the first agent at or after `from` that has the name.
pub open spec fn agent_position(agents: Seq<AgentView>, name: AgentName, from: int) -> Option<
    int,
>
    decreases agents.len() - from,
{
    if from < 0 || from >= agents.len() {
        None
    } else if agents[from].name == name {
        Some(from)
    } else {
        agent_position(agents, name, from + 1)
    }
}

impl AgentView {
    /// The agent after it has sent `bytes`.
    pub open spec fn sent(self, bytes: Seq<u8>) -> AgentView {
        AgentView { name: self.name, incoming: self.incoming, outgoing: self.outgoing + bytes }
    }

    /// The agent after `bytes` were delivered to it.
    pub open spec fn received(self, bytes: Seq<u8>) -> AgentView {
        AgentView { name: self.name, incoming: self.incoming + bytes, outgoing: self.outgoing }
    }
}

impl ContextView {
    /// The run with another state.
    pub open spec fn with_state(self, state: StateView) -> ContextView {
        ContextView {
            knowledge: self.knowledge,
            agents: self.agents,
            claims: self.claims,
            faults: self.faults,
            state,
        }
    }

    /// The run after a program under test has failed with `fault`. The
    /// failure is recorded; the run goes on.
    pub open spec fn with_fault(self, fault: PutError) -> ContextView {
        ContextView {
            knowledge: self.knowledge,
            agents: self.agents,
            claims: self.claims,
            faults: self.faults.push(fault),
            state: self.state,
        }
    }

    /// The run after the agent at position `i` has answered the output step
    /// `id`: a failure is recorded; a record is added to what the agent has
    /// sent, every record in it is stored as knowledge of the step, and the
    /// claims are added to the log.
    pub open spec fn with_progress(
        self,
        i: int,
        id: u64,
        response: Result<ProgressView, PutError>,
    ) -> ContextView {
        match response {
            Err(fault) => self.with_fault(fault),
            Ok(progress) => ContextView {
                knowledge: self.knowledge + entries(id, decode(progress.record)),
                agents: self.agents.update(i, self.agents[i].sent(progress.record)),
                claims: self.claims + progress.claims,
                faults: self.faults,
                state: self.state,
            },
        }
    }

    /// The run after `bytes` were handed to the agent at position `i`: a
    /// failure is recorded; on success the bytes are added to what was
    /// delivered to the agent.
    pub open spec fn with_delivery(
        self,
        i: int,
        bytes: Seq<u8>,
        response: Result<(), PutError>,
    ) -> ContextView {
        match response {
            Err(fault) => self.with_fault(fault),
            Ok(_) => ContextView {
                knowledge: self.knowledge,
                agents: self.agents.update(i, self.agents[i].received(bytes)),
                claims: self.claims,
                faults: self.faults,
                state: self.state,
            },
        }
    }

    /// The run after the policy has judged its claims: a violation ends it.
    pub open spec fn judged<Y: Policy>(self, policy: &Y) -> ContextView {
        match policy.verdict(self.claims) {
            Some(violation) => self.with_state(StateView::ViolationDetected(violation)),
            None => self,
        }
    }

    /// No program under test has failed in the run.
    pub open spec fn productive(self) -> bool {
        self.faults.len() == 0
    }
}

/// A search for an agent may start behind the agents of other names.
pub proof fn lemma_agent_position_skips(agents: Seq<AgentView>, name: AgentName, from: int)
    requires
        0 <= from <= agents.len(),
        forall|j: int| 0 <= j < from ==> (#[trigger] agents[j]).name != name,
    ensures
        agent_position(agents, name, 0) == agent_position(agents, name, from),
    decreases from,
{
    if from > 0 {
        lemma_agent_position_skips(agents, name, from - 1);
    }
}

/// Among the first `n` observations, no more than `n` are of one type.
pub proof fn lemma_count_of_type_bound(
    observations: Seq<ObservationView>,
    typ: crate::algebra::TypeShape,
    n: nat,
)
    ensures
        count_of_type(observations, typ, n) <= n,
    decreases n,
{
    if n > 0 && n <= observations.len() {
        lemma_count_of_type_bound(observations, typ, (n - 1) as nat);
    }
}

impl<P: Put> TraceContext<P> {
    /// The state of a run that has not started: no knowledge, no agents, no
    /// claims.
    pub fn new() -> (ctx: TraceContext<P>)
        ensures
            ctx@.knowledge == Seq::<KnowledgeView>::empty(),
            ctx@.agents == Seq::<AgentView>::empty(),
            ctx@.claims == Seq::<ClaimView>::empty(),
            ctx@.faults == Seq::<PutError>::empty(),
            ctx@.state == StateView::NotStarted,
    {
        let ctx = TraceContext {
            knowledge: Vec::new(),
            agents: Vec::new(),
            claims: Vec::new(),
            faults: Vec::new(),
            state: ExecutionState::NotStarted,
        };
        assert(ctx@.knowledge =~= Seq::<KnowledgeView>::empty());
        assert(ctx@.agents =~= Seq::<AgentView>::empty());
        assert(ctx@.claims =~= Seq::<ClaimView>::empty());
        ctx
    }

    /// Adds an entry to the store. Nothing that the store holds changes.
    pub fn add_variable(&mut self, data: Knowledge)
        ensures
            final(self)@.knowledge == old(self)@.knowledge.push(data@),
            final(self).agents == old(self).agents,
            final(self)@.claims == old(self)@.claims,
            final(self)@.faults == old(self)@.faults,
            final(self)@.state == old(self)@.state,
    {
        let ghost before = self@.knowledge;
        self.knowledge.push(data);
        assert(self@.knowledge =~= before.push(data@));
    }

    /// The bytes of the entry, where it has the type asked for.
    pub fn downcast(variable: &Knowledge, typ: crate::algebra::TypeShape) -> (r: Option<&Vec<u8>>)
        ensures
            r == (if variable.typ == typ {
                Some(&variable.data)
            } else {
                None
            }),
    {
        variable.downcast(typ)
    }

    /// The first value of type `typ` that the store holds.
    pub fn get_variable(&self, typ: crate::algebra::TypeShape) -> (r: Option<&Vec<u8>>)
        ensures
            r is Some <==> first_match(self@.knowledge, Lookup::typed(typ), 0) is Some,
            r matches Some(data) ==> first_match(self@.knowledge, Lookup::typed(typ), 0) == Some(
                data@,
            ),
    {
        find_first(&self.knowledge, Lookup { at: None, typ })
    }

    /// Every value of type `typ` that the store holds, in the order of
    /// insertion.
    pub fn get_variable_set(&self, typ: crate::algebra::TypeShape) -> (r: Vec<&Vec<u8>>)
        ensures
            r@.len() == matching(self@.knowledge, Lookup::typed(typ), self@.knowledge.len()).len(),
            forall|k: int|
                0 <= k < r@.len() ==> (#[trigger] r@[k])@ == matching(
                    self@.knowledge,
                    Lookup::typed(typ),
                    self@.knowledge.len(),
                )[k],
    {
        find_all(&self.knowledge, Lookup { at: None, typ })
    }

    /// The position of the first agent of the given name.
    pub fn find_agent(&self, name: AgentName) -> (r: Option<usize>)
        ensures
            r matches Some(i) ==> agent_position(self@.agents, name, 0) == Some(i as int) && i
                < self.agents@.len(),
            r is None ==> agent_position(self@.agents, name, 0) is None,
    {
        let mut i: usize = 0;
        while i < self.agents.len()
            invariant
                i <= self.agents.len(),
                forall|j: int| 0 <= j < i ==> (#[trigger] self@.agents[j]).name != name,
            decreases self.agents.len() - i,
        {
            if self.agents[i].name == name {
                proof {
                    lemma_agent_position_skips(self@.agents, name, i as int);
                }
                return Some(i);
            }
            i += 1;
        }
        proof {
            lemma_agent_position_skips(self@.agents, name, self@.agents.len() as int);
        }
        None
    }

    /// Adds an agent with a name drawn at random, played by `put`, and
    /// returns the name.
    pub fn new_agent(&mut self, put: P) -> (name: AgentName)
        ensures
            final(self)@.agents == old(self)@.agents.push(
                AgentView { name, incoming: Seq::empty(), outgoing: Seq::empty() },
            ),
            final(self).agents@ == old(self).agents@.push(final(self).agents@.last()),
            final(self).agents@.last().put == put,
            final(self)@.knowledge == old(self)@.knowledge,
            final(self)@.claims == old(self)@.claims,
            final(self)@.faults == old(self)@.faults,
            final(self)@.state == old(self)@.state,
    {
        let agent = Agent::new(put);
        let name = agent.name;
        let ghost before = self@.agents;
        let ghost added = agent@;
        self.agents.push(agent);
        assert(self@.agents =~= before.push(added));
        name
    }

    /// Hands `data` to every agent but the one that sends it.
    pub fn publish(&mut self, sending_agent_name: AgentName, data: &Vec<u8>)
        ensures
            final(self)@.agents.len() == old(self)@.agents.len(),
            forall|i: int|
                0 <= i < old(self)@.agents.len() ==> #[trigger] final(self)@.agents[i] == (if old(
                    self,
                )@.agents[i].name != sending_agent_name {
                    old(self)@.agents[i].received(data@)
                } else {
                    old(self)@.agents[i]
                }),
            puts_kept(old(self).agents@, final(self).agents@),
            final(self)@.knowledge == old(self)@.knowledge,
            final(self)@.claims == old(self)@.claims,
            final(self)@.faults == old(self)@.faults,
            final(self)@.state == old(self)@.state,
    {
        let mut i: usize = 0;
        while i < self.agents.len()
            invariant
                i <= self.agents.len(),
                self.agents@.len() == old(self).agents@.len(),
                puts_kept(old(self).agents@, self.agents@),
                self.knowledge == old(self).knowledge,
                self.claims == old(self).claims,
                self.faults == old(self).faults,
                self.state == old(self).state,
                forall|k: int|
                    0 <= k < i ==> (#[trigger] self.agents@[k])@ == (if old(self).agents@[k].name
                        != sending_agent_name {
                        old(self).agents@[k]@.received(data@)
                    } else {
                        old(self).agents@[k]@
                    }),
                forall|k: int|
                    i <= k < self.agents@.len() ==> #[trigger] self.agents@[k] == old(
                        self,
                    ).agents@[k],
            decreases self.agents.len() - i,
        {
            if self.agents[i].name != sending_agent_name {
                let ghost before = self.agents@;
                self.agents[i].stream.extend_incoming(data);
                assert(self.agents@.len() == before.len());
                assert(forall|k: int|
                    0 <= k < before.len() && k != i ==> self.agents@[k] == before[k]);
                assert(self.agents@[i as int]@ == before[i as int]@.received(data@));
            }
            i += 1;
        }
    }

    /// Stores what the output step `id` has observed. The index of an entry
    /// counts the earlier observations of its type.
    pub fn store_observations(&mut self, id: u64, observations: &Vec<Observation>)
        ensures
            final(self)@.knowledge == old(self)@.knowledge + entries(id, observations.deep_view()),
            final(self).agents == old(self).agents,
            final(self).claims == old(self).claims,
            final(self).faults == old(self).faults,
            final(self).state == old(self).state,
    {
        let ghost seen = observations.deep_view();
        let mut k: usize = 0;
        while k < observations.len()
            invariant
                k <= observations.len(),
                seen == observations.deep_view(),
                seen.len() == observations@.len(),
                self@.knowledge == old(self)@.knowledge + entries(id, seen).take(k as int),
                self.agents == old(self).agents,
                self.claims == old(self).claims,
                self.faults == old(self).faults,
                self.state == old(self).state,
            decreases observations.len() - k,
        {
            let typ = observations[k].typ;
            let mut index: u64 = 0;
            let mut j: usize = 0;
            while j < k
                invariant
                    j <= k < observations.len(),
                    seen == observations.deep_view(),
                    seen.len() == observations@.len(),
                    typ == seen[k as int].typ,
                    index == count_of_type(seen, typ, j as nat),
                decreases k - j,
            {
                proof {
                    lemma_count_of_type_bound(seen, typ, j as nat);
                }
                if observations[j].typ == typ {
                    index += 1;
                }
                j += 1;
            }
            let ghost before = self@.knowledge;
            let entry = Knowledge { step: id, index, typ, data: copy_bytes(&observations[k].data) };
            assert(entry@ == entries(id, seen)[k as int]);
            self.knowledge.push(entry);
            assert(self@.knowledge =~= before.push(entries(id, seen)[k as int]));
            assert(entries(id, seen).take(k + 1) =~= entries(id, seen).take(k as int).push(
                entries(id, seen)[k as int],
            ));
            assert(self@.knowledge =~= old(self)@.knowledge + entries(id, seen).take(k + 1));
            k += 1;
        }
        assert(entries(id, seen).take(k as int) =~= entries(id, seen));
    }

    /// Records what the agent at position `i` has answered to the output
    /// step `id`.
    pub fn record_progress(&mut self, i: usize, id: u64, response: Result<Progress, PutError>)
        requires
            i < old(self).agents@.len(),
        ensures
            final(self)@ == old(self)@.with_progress(i as int, id, progress_view(response)),
            puts_kept(old(self).agents@, final(self).agents@),
    {
        match response {
            Err(fault) => {
                self.faults.push(fault);
            },
            Ok(progress) => {
                let ghost before = *self;
                let observations = decode_flight(&progress.record);
                self.store_observations(id, &observations);
                self.agents[i].stream.extend_outgoing(&progress.record);
                let mut claims = progress.claims;
                let ghost added = claim_views(claims@);
                self.claims.append(&mut claims);
                proof {
                    assert(self@.claims =~= before@.claims + added);
                    assert(self@.agents =~= before@.agents.update(
                        i as int,
                        before@.agents[i as int].sent(progress.record@),
                    ));
                }
            },
        }
    }

    /// Records what the agent at position `i` has answered when `bytes` were
    /// handed to it.
    pub fn record_delivery(&mut self, i: usize, bytes: &Vec<u8>, response: Result<(), PutError>)
        requires
            i < old(self).agents@.len(),
        ensures
            final(self)@ == old(self)@.with_delivery(i as int, bytes@, response),
            puts_kept(old(self).agents@, final(self).agents@),
    {
        match response {
            Err(fault) => {
                self.faults.push(fault);
            },
            Ok(_) => {
                let ghost before = *self;
                self.agents[i].stream.extend_incoming(bytes);
                proof {
                    assert(self@.agents =~= before@.agents.update(
                        i as int,
                        before@.agents[i as int].received(bytes@),
                    ));
                }
            },
        }
    }

    /// Lets the policy judge the claims of the run. A violation ends the run.
    pub fn judge<Y: Policy>(&mut self, policy: &Y)
        ensures
            final(self)@ == old(self)@.judged(policy),
            final(self).agents == old(self).agents,
    {
        match policy.check(&self.claims) {
            Some(violation) => {
                self.state = ExecutionState::ViolationDetected(violation);
            },
            None => {},
        }
    }

    /// Ends the run as failed.
    pub fn fail(&mut self, reason: FailureReason)
        ensures
            final(self)@ == old(self)@.with_state(StateView::Failed(reason@)),
            final(self).agents == old(self).agents,
    {
        self.state = ExecutionState::Failed(reason);
    }

    /// Makes the run ready to start again: every program under test is
    /// brought back to its initial state, the streams, the store, the claims
    /// and the failures are emptied. The agents keep their names.
    pub fn reset(&mut self)
        ensures
            final(self)@.knowledge == Seq::<KnowledgeView>::empty(),
            final(self)@.claims == Seq::<ClaimView>::empty(),
            final(self)@.faults == Seq::<PutError>::empty(),
            final(self)@.state == StateView::NotStarted,
            final(self)@.agents.len() == old(self)@.agents.len(),
            forall|k: int|
                0 <= k < old(self)@.agents.len() ==> #[trigger] final(self)@.agents[k] == (AgentView {
                    name: old(self)@.agents[k].name,
                    incoming: Seq::empty(),
                    outgoing: Seq::empty(),
                }),
    {
        self.knowledge = Vec::new();
        self.claims = Vec::new();
        self.faults = Vec::new();
        self.state = ExecutionState::NotStarted;
        let mut i: usize = 0;
        while i < self.agents.len()
            invariant
                i <= self.agents.len(),
                self.agents@.len() == old(self).agents@.len(),
                self.knowledge@.len() == 0,
                self.claims@.len() == 0,
                self.faults@.len() == 0,
                self.state == ExecutionState::NotStarted,
                forall|k: int|
                    0 <= k < self.agents@.len() ==> (#[trigger] self.agents@[k]).name == old(
                        self,
                    ).agents@[k].name,
                forall|k: int|
                    0 <= k < i ==> (#[trigger] self.agents@[k]).stream.incoming@.len() == 0
                        && self.agents@[k].stream.outgoing@.len() == 0,
            decreases self.agents.len() - i,
        {
            let ghost before = self.agents@;
            self.agents[i].put.reset();
            self.agents[i].stream = MemoryStream::new();
            assert(self.agents@.len() == before.len());
            assert(forall|k: int| 0 <= k < before.len() && k != i ==> self.agents@[k] == before[k]);
            i += 1;
        }
        assert(self@.knowledge =~= Seq::<KnowledgeView>::empty());
        assert(self@.claims =~= Seq::<ClaimView>::empty());
        assert(self@.faults =~= Seq::<PutError>::empty());
        assert forall|k: int| 0 <= k < old(self)@.agents.len() implies #[trigger] self@.agents[k]
            == (AgentView {
            name: old(self)@.agents[k].name,
            incoming: Seq::empty(),
            outgoing: Seq::empty(),
        }) by {
            assert(self.agents@[k].stream.incoming@ =~= Seq::<u8>::empty());
            assert(self.agents@[k].stream.outgoing@ =~= Seq::<u8>::empty());
        }
    }

    /// Has no program under test failed in the run?
    pub fn is_productive(&self) -> (b: bool)
        ensures
            b == self@.productive(),
    {
        self.faults.len() == 0
    }
}

} // verus!
