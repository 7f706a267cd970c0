//! Claims and the policy that judges them.

use crate::agent::AgentName;
use crate::knowledge::copy_bytes;
use crate::text::{hex_encode, hex_of};
use vstd::string::StringExecFns;
use vstd::prelude::*;

verus! {

/// A fact that an agent asserts about its state: a kind, such as the hash of
/// the transcript or the negotiated version, and the value.
pub struct Claim {
    pub agent: AgentName,
    pub kind: u32,
    pub data: Vec<u8>,
}

/// The mathematical model of a [`Claim`].
pub struct ClaimView {
    pub agent: AgentName,
    pub kind: u32,
    pub data: Seq<u8>,
}

impl View for Claim {
    type V = ClaimView;

    open spec fn view(&self) -> ClaimView {
        ClaimView { agent: self.agent, kind: self.kind, data: self.data@ }
    }
}

/// The mathematical model of a claim log.
pub open spec fn claim_views(claims: Seq<Claim>) -> Seq<ClaimView> {
    claims.map_values(|c: Claim| c@)
}

/// Two agents disagree on a value that should match. The violation names
/// both values.
pub struct Violation {
    pub kind: u32,
    pub first_agent: AgentName,
    pub first_value: Vec<u8>,
    pub second_agent: AgentName,
    pub second_value: Vec<u8>,
}

/// The mathematical model of a [`Violation`].
pub struct ViolationView {
    pub kind: u32,
    pub first_agent: AgentName,
    pub first_value: Seq<u8>,
    pub second_agent: AgentName,
    pub second_value: Seq<u8>,
}

impl View for Violation {
    type V = ViolationView;

    open spec fn view(&self) -> ViolationView {
        ViolationView {
            kind: self.kind,
            first_agent: self.first_agent,
            first_value: self.first_value@,
            second_agent: self.second_agent,
            second_value: self.second_value@,
        }
    }
}

impl ViolationView {
    /// The violation in words: the two values, in hexadecimal.
    pub open spec fn description(self) -> Seq<char> {
        hex_of(self.first_value) + " != "@ + hex_of(self.second_value)
    }
}

impl Violation {
    /// The violation in words. It names both values.
    pub fn describe(&self) -> (text: String)
        ensures
            text@ == self@.description(),
    {
        let mut text = hex_encode(&self.first_value);
        text.append(" != ");
        let second = hex_encode(&self.second_value);
        text.append(second.as_str());
        text
    }
}

/// The mathematical model of what a policy returns.
pub open spec fn verdict_view(verdict: Option<Violation>) -> Option<ViolationView> {
    match verdict {
        Some(violation) => Some(violation@),
        None => None,
    }
}

/// A predicate over the claims of a run. What it returns depends on the
/// claim log alone.
pub trait Policy {
    /// The violation that the claim log shows, if it shows one.
    open spec fn verdict(&self, claims: Seq<ClaimView>) -> Option<ViolationView> {
        arbitrary()
    }

    /// Judges the claim log.
    fn check(&self, claims: &Vec<Claim>) -> (r: Option<Violation>)
        ensures
            verdict_view(r) == self.verdict(claim_views(claims@)),
    ;
}

/// The policy of agreement: where two agents each make a claim of a kind
/// that the policy watches, the two values are equal.
pub struct Agreement {
    pub kinds: Vec<u32>,
}

/// The later claim contradicts the earlier one: they are of the same watched
/// kind and come from two agents, and their values differ.
pub open spec fn contradicts(kinds: Seq<u32>, earlier: ClaimView, later: ClaimView) -> bool {
    &&& earlier.kind == later.kind
    &&& kinds.contains(later.kind)
    &&& earlier.agent != later.agent
    &&& earlier.data != later.data
}

/// The position of the first claim at or after `from`, and before `j`, that
/// the claim at `j` contradicts.
pub open spec fn first_contradicted(
    kinds: Seq<u32>,
    claims: Seq<ClaimView>,
    j: int,
    from: int,
) -> Option<int>
    decreases j - from,
{
    if from < 0 || from >= j || j >= claims.len() {
        None
    } else if contradicts(kinds, claims[from], claims[j]) {
        Some(from)
    } else {
        first_contradicted(kinds, claims, j, from + 1)
    }
}

/// The violation that two contradicting claims make.
pub open spec fn disagreement(earlier: ClaimView, later: ClaimView) -> ViolationView {
    ViolationView {
        kind: later.kind,
        first_agent: earlier.agent,
        first_value: earlier.data,
        second_agent: later.agent,
        second_value: later.data,
    }
}

/// The disagreement of the first claim at or after `from` that contradicts
/// an earlier claim, with the first claim that it contradicts.
pub open spec fn first_disagreement(
    kinds: Seq<u32>,
    claims: Seq<ClaimView>,
    from: int,
) -> Option<ViolationView>
    decreases claims.len() - from,
{
    if from < 0 || from >= claims.len() {
        None
    } else {
        match first_contradicted(kinds, claims, from, 0) {
            Some(i) => Some(disagreement(claims[i], claims[from])),
            None => first_disagreement(kinds, claims, from + 1),
        }
    }
}

/// A search for a contradicted claim may start behind the claims that are not
/// contradicted.
pub proof fn lemma_first_contradicted_skips(
    kinds: Seq<u32>,
    claims: Seq<ClaimView>,
    j: int,
    from: int,
)
    requires
        0 <= from <= j < claims.len(),
        forall|i: int| 0 <= i < from ==> !contradicts(kinds, #[trigger] claims[i], claims[j]),
    ensures
        first_contradicted(kinds, claims, j, 0) == first_contradicted(kinds, claims, j, from),
    decreases from,
{
    if from > 0 {
        lemma_first_contradicted_skips(kinds, claims, j, from - 1);
    }
}

/// A search for a disagreement may start behind the claims that contradict
/// no earlier claim.
pub proof fn lemma_first_disagreement_skips(kinds: Seq<u32>, claims: Seq<ClaimView>, from: int)
    requires
        0 <= from <= claims.len(),
        forall|j: int|
            0 <= j < from ==> (#[trigger] first_contradicted(kinds, claims, j, 0)) is None,
    ensures
        first_disagreement(kinds, claims, 0) == first_disagreement(kinds, claims, from),
    decreases from,
{
    if from > 0 {
        lemma_first_disagreement_skips(kinds, claims, from - 1);
    }
}

/// A claim that contradicts an earlier one has a first claim that it
/// contradicts.
pub proof fn lemma_contradicted_is_found(
    kinds: Seq<u32>,
    claims: Seq<ClaimView>,
    i: int,
    j: int,
    from: int,
)
    requires
        0 <= from <= i < j < claims.len(),
        contradicts(kinds, claims[i], claims[j]),
    ensures
        first_contradicted(kinds, claims, j, from) is Some,
    decreases i - from,
{
    if from < i && !contradicts(kinds, claims[from], claims[j]) {
        lemma_contradicted_is_found(kinds, claims, i, j, from + 1);
    }
}

/// Differing claims are a violation: where two agents make claims of a
/// watched kind with different values, the policy of agreement finds a
/// disagreement.
pub proof fn lemma_differing_claims_are_found(
    kinds: Seq<u32>,
    claims: Seq<ClaimView>,
    i: int,
    j: int,
    from: int,
)
    requires
        0 <= from <= j,
        0 <= i < j < claims.len(),
        contradicts(kinds, claims[i], claims[j]),
    ensures
        first_disagreement(kinds, claims, from) is Some,
    decreases j - from,
{
    if from < j {
        if first_contradicted(kinds, claims, from, 0) is None {
            lemma_differing_claims_are_found(kinds, claims, i, j, from + 1);
        }
    } else {
        lemma_contradicted_is_found(kinds, claims, i, j, 0);
    }
}

/// Are the two byte strings equal?
pub fn bytes_equal(a: &Vec<u8>, b: &Vec<u8>) -> (equal: bool)
    ensures
        equal == (a@ == b@),
{
    if a.len() != b.len() {
        return false;
    }
    let mut i: usize = 0;
    while i < a.len()
        invariant
            i <= a.len(),
            a.len() == b.len(),
            forall|k: int| 0 <= k < i ==> a@[k] == b@[k],
        decreases a.len() - i,
    {
        if a[i] != b[i] {
            return false;
        }
        i += 1;
    }
    assert(a@ =~= b@);
    true
}

impl Agreement {
    /// Does the policy watch claims of this kind?
    pub fn watches(&self, kind: u32) -> (b: bool)
        ensures
            b == self.kinds@.contains(kind),
    {
        let mut found = false;
        let mut i: usize = 0;
        while i < self.kinds.len()
            invariant
                i <= self.kinds.len(),
                found <==> exists|k: int| 0 <= k < i && self.kinds@[k] == kind,
            decreases self.kinds.len() - i,
        {
            if self.kinds[i] == kind {
                found = true;
            }
            i += 1;
        }
        found
    }

    /// Does the later claim contradict the earlier one?
    pub fn contradiction(&self, earlier: &Claim, later: &Claim) -> (b: bool)
        ensures
            b == contradicts(self.kinds@, earlier@, later@),
    {
        earlier.kind == later.kind && earlier.agent != later.agent && self.watches(later.kind)
            && !bytes_equal(&earlier.data, &later.data)
    }
}

impl Policy for Agreement {
    open spec fn verdict(&self, claims: Seq<ClaimView>) -> Option<ViolationView> {
        first_disagreement(self.kinds@, claims, 0)
    }

    fn check(&self, claims: &Vec<Claim>) -> (r: Option<Violation>) {
        let ghost log = claim_views(claims@);
        let mut j: usize = 0;
        while j < claims.len()
            invariant
                j <= claims.len(),
                log == claim_views(claims@),
                forall|k: int|
                    0 <= k < j ==> (#[trigger] first_contradicted(self.kinds@, log, k, 0)) is None,
            decreases claims.len() - j,
        {
            let mut i: usize = 0;
            while i < j
                invariant
                    i <= j < claims.len(),
                    log == claim_views(claims@),
                    forall|k: int|
                        0 <= k < i ==> !contradicts(self.kinds@, #[trigger] log[k], log[j as int]),
                    forall|k: int|
                        0 <= k < j ==> (#[trigger] first_contradicted(self.kinds@, log, k, 0))
                            is None,
                decreases j - i,
            {
                if self.contradiction(&claims[i], &claims[j]) {
                    proof {
                        lemma_first_contradicted_skips(self.kinds@, log, j as int, i as int);
                        lemma_first_disagreement_skips(self.kinds@, log, j as int);
                    }
                    return Some(
                        Violation {
                            kind: claims[j].kind,
                            first_agent: claims[i].agent,
                            first_value: copy_bytes(&claims[i].data),
                            second_agent: claims[j].agent,
                            second_value: copy_bytes(&claims[j].data),
                        },
                    );
                }
                i += 1;
            }
            proof {
                lemma_first_contradicted_skips(self.kinds@, log, j as int, j as int);
            }
            j += 1;
        }
        proof {
            lemma_first_disagreement_skips(self.kinds@, log, log.len() as int);
        }
        None
    }
}

} // verus!
