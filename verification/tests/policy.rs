use tlspuffin::agent::AgentName;
use tlspuffin::policy::{bytes_equal, Agreement, Claim, Policy, Violation};

const TRANSCRIPT_HASH: u32 = 1;
const VERSION: u32 = 2;

fn claim(agent: u128, kind: u32, data: &[u8]) -> Claim {
    Claim { agent: AgentName(agent), kind, data: data.to_vec() }
}

fn policy() -> Agreement {
    Agreement { kinds: vec![TRANSCRIPT_HASH] }
}

#[test]
fn agreeing_claims_are_no_violation() {
    let log = vec![
        claim(1, TRANSCRIPT_HASH, &[0xaa]),
        claim(2, TRANSCRIPT_HASH, &[0xaa]),
        claim(1, VERSION, &[3]),
        claim(2, VERSION, &[4]),
    ];
    assert!(policy().check(&log).is_none());
    assert!(policy().check(&vec![]).is_none());
}

#[test]
fn differing_transcript_hashes_are_a_violation_that_names_both() {
    let log = vec![
        claim(1, TRANSCRIPT_HASH, &[0xaa, 0x01]),
        claim(2, TRANSCRIPT_HASH, &[0xbb, 0x02]),
    ];
    let v = policy().check(&log).unwrap();
    assert_eq!(v.kind, TRANSCRIPT_HASH);
    assert_eq!(v.first_agent, AgentName(1));
    assert_eq!(v.first_value, vec![0xaa, 0x01]);
    assert_eq!(v.second_agent, AgentName(2));
    assert_eq!(v.second_value, vec![0xbb, 0x02]);
    assert_eq!(v.describe(), "aa01 != bb02");
}

#[test]
fn an_agent_may_contradict_itself() {
    let log = vec![claim(1, TRANSCRIPT_HASH, &[1]), claim(1, TRANSCRIPT_HASH, &[2])];
    assert!(policy().check(&log).is_none());
}

#[test]
fn kinds_that_are_not_watched_may_differ() {
    let log = vec![claim(1, VERSION, &[3]), claim(2, VERSION, &[4])];
    assert!(policy().check(&log).is_none());
    assert!(policy().watches(TRANSCRIPT_HASH));
    assert!(!policy().watches(VERSION));
}

#[test]
fn the_first_contradicting_claim_and_the_first_it_contradicts_are_reported() {
    let log = vec![
        claim(1, TRANSCRIPT_HASH, &[1]),
        claim(2, TRANSCRIPT_HASH, &[1]),
        claim(3, TRANSCRIPT_HASH, &[2]),
        claim(4, TRANSCRIPT_HASH, &[3]),
    ];
    let v = policy().check(&log).unwrap();
    assert_eq!((v.first_agent, v.second_agent), (AgentName(1), AgentName(3)));
    assert_eq!((v.first_value, v.second_value), (vec![1u8], vec![2u8]));
}

#[test]
fn contradiction_needs_kind_agents_and_values() {
    let p = policy();
    let a = claim(1, TRANSCRIPT_HASH, &[1]);
    assert!(p.contradiction(&a, &claim(2, TRANSCRIPT_HASH, &[2])));
    assert!(!p.contradiction(&a, &claim(2, TRANSCRIPT_HASH, &[1])));
    assert!(!p.contradiction(&a, &claim(1, TRANSCRIPT_HASH, &[2])));
    assert!(!p.contradiction(&a, &claim(2, VERSION, &[2])));
}

#[test]
fn the_policy_is_deterministic() {
    let log = vec![claim(1, TRANSCRIPT_HASH, &[1]), claim(2, TRANSCRIPT_HASH, &[2])];
    let a = policy().check(&log).unwrap().describe();
    let b = policy().check(&log).unwrap().describe();
    assert_eq!(a, b);
}

#[test]
fn description_is_hexadecimal_in_lower_case() {
    let v = Violation {
        kind: 0,
        first_agent: AgentName(1),
        first_value: vec![0x00, 0x0f, 0xf0, 0xff],
        second_agent: AgentName(2),
        second_value: vec![],
    };
    assert_eq!(v.describe(), "000ff0ff != ");
}

#[test]
fn bytes_are_compared_by_content() {
    assert!(bytes_equal(&vec![], &vec![]));
    assert!(bytes_equal(&vec![1, 2], &vec![1, 2]));
    assert!(!bytes_equal(&vec![1, 2], &vec![1, 3]));
    assert!(!bytes_equal(&vec![1, 2], &vec![1]));
}
