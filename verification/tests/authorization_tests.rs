use finalize_core::authorization::{Authorization, Request, Transition};
use finalize_core::ident::{Identifier, ProgramId};
use finalize_core::VmError;

fn ident(s: &str) -> Identifier {
    Identifier::from_bytes(s.as_bytes().to_vec()).unwrap()
}

fn pid(name: &str) -> ProgramId {
    ProgramId { name: ident(name), network: ident("aleo") }
}

fn request(name: &str) -> Request {
    Request { program_id: pid(name), function_name: ident("main") }
}

fn transition(id: u64, name: &str) -> Transition {
    Transition { id, program_id: pid(name), function_name: ident("main") }
}

#[test]
fn sort_orders_transitions_by_request_order() {
    let mut auth = Authorization {
        requests: vec![request("alpha"), request("beta"), request("gamma")],
        transitions: vec![
            transition(30, "gamma"),
            transition(10, "alpha"),
            transition(20, "beta"),
        ],
    };
    auth.sort_transitions().unwrap();
    let ids: Vec<u64> = auth.transitions.iter().map(|t| t.id).collect();
    assert_eq!(vec![10, 20, 30], ids);
    for (req, tr) in auth.requests.iter().zip(auth.transitions.iter()) {
        assert_eq!(req.program_id, tr.program_id);
    }
}

#[test]
fn sort_is_idempotent() {
    let mut auth = Authorization {
        requests: vec![request("alpha"), request("beta"), request("gamma")],
        transitions: vec![
            transition(30, "gamma"),
            transition(10, "alpha"),
            transition(20, "beta"),
        ],
    };
    auth.sort_transitions().unwrap();
    let once: Vec<u64> = auth.transitions.iter().map(|t| t.id).collect();
    auth.sort_transitions().unwrap();
    let twice: Vec<u64> = auth.transitions.iter().map(|t| t.id).collect();
    assert_eq!(once, twice);
}

#[test]
fn sort_is_a_total_reordering() {
    let mut auth = Authorization {
        requests: vec![request("beta"), request("alpha")],
        transitions: vec![transition(1, "alpha"), transition(2, "beta")],
    };
    auth.sort_transitions().unwrap();
    assert_eq!(2, auth.transitions.len());
    let mut ids: Vec<u64> = auth.transitions.iter().map(|t| t.id).collect();
    assert_eq!(vec![2, 1], ids);
    ids.sort();
    assert_eq!(vec![1, 2], ids);
}

#[test]
fn a_request_without_a_transition_is_a_consistency_error() {
    let mut auth = Authorization {
        requests: vec![request("alpha"), request("delta")],
        transitions: vec![transition(1, "alpha"), transition(2, "beta")],
    };
    let r = auth.sort_transitions();
    assert_eq!(Err(VmError::ConsistencyError), r);
    // The authorization is left as it was.
    let ids: Vec<u64> = auth.transitions.iter().map(|t| t.id).collect();
    assert_eq!(vec![1, 2], ids);
}

#[test]
fn the_last_transition_of_a_program_wins() {
    // With duplicated program identities the bijection assumption is
    // violated; the ordering still deterministically takes the latest
    // transition stamped with the request's program.
    let mut auth = Authorization {
        requests: vec![request("alpha")],
        transitions: vec![transition(1, "alpha"), transition(2, "alpha")],
    };
    auth.sort_transitions().unwrap();
    let ids: Vec<u64> = auth.transitions.iter().map(|t| t.id).collect();
    assert_eq!(vec![2], ids);
}

#[test]
fn empty_authorization_sorts_to_empty() {
    let mut auth = Authorization { requests: vec![], transitions: vec![] };
    auth.sort_transitions().unwrap();
    assert!(auth.transitions.is_empty());
}
