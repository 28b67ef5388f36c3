//! Authorizations: an ordered list of caller requests plus the transitions
//! they produced, and the canonical reordering of the transitions to match
//! the request order, keyed by invoked program identity.

use vstd::prelude::*;

use crate::ident::{Identifier, ProgramId, ProgramIdV};
use crate::VmError;

verus! {

/// One caller request: the program and function it asks to run.
#[derive(Debug, PartialEq, Eq)]
pub struct Request {
    /// The program the request targets.
    pub program_id: ProgramId,
    /// The function the request targets.
    pub function_name: Identifier,
}

/// The mathematical value of a [`Request`].
#[verifier::ext_equal]
pub ghost struct RequestV {
    /// The program the request targets.
    pub program_id: ProgramIdV,
    /// The function the request targets.
    pub function_name: Seq<u8>,
}

impl View for Request {
    type V = RequestV;

    open spec fn view(&self) -> RequestV {
        RequestV { program_id: self.program_id@, function_name: self.function_name@ }
    }
}

impl Clone for Request {
    fn clone(&self) -> (r: Self)
        ensures
            r@ == self@,
    {
        Request {
            program_id: self.program_id.clone(),
            function_name: self.function_name.clone(),
        }
    }
}

/// The record of one function invocation inside an execution: its unique
/// identifier, and the program and function it ran under.
#[derive(Debug, PartialEq, Eq)]
pub struct Transition {
    /// The unique transition identifier.
    pub id: u64,
    /// The program the transition executed under.
    pub program_id: ProgramId,
    /// The function the transition invoked.
    pub function_name: Identifier,
}

/// The mathematical value of a [`Transition`].
#[verifier::ext_equal]
pub ghost struct TransitionV {
    /// The unique transition identifier.
    pub id: u64,
    /// The program the transition executed under.
    pub program_id: ProgramIdV,
    /// The function the transition invoked.
    pub function_name: Seq<u8>,
}

impl View for Transition {
    type V = TransitionV;

    open spec fn view(&self) -> TransitionV {
        TransitionV {
            id: self.id,
            program_id: self.program_id@,
            function_name: self.function_name@,
        }
    }
}

impl Clone for Transition {
    fn clone(&self) -> (r: Self)
        ensures
            r@ == self@,
    {
        Transition {
            id: self.id,
            program_id: self.program_id.clone(),
            function_name: self.function_name.clone(),
        }
    }
}

/// The views of a sequence of transitions.
pub open spec fn spec_view_transitions(ts: Seq<Transition>) -> Seq<TransitionV> {
    ts.map_values(|t: Transition| t@)
}

/// The views of a sequence of requests.
pub open spec fn spec_view_requests(rs: Seq<Request>) -> Seq<RequestV> {
    rs.map_values(|r: Request| r@)
}

/// The index of the last transition executed under `pid`, or `-1`.
pub open spec fn spec_last_match(ts: Seq<TransitionV>, pid: ProgramIdV) -> int
    decreases ts.len(),
{
    if ts.len() == 0 {
        -1
    } else if ts.last().program_id == pid {
        ts.len() - 1
    } else {
        spec_last_match(ts.drop_last(), pid)
    }
}

/// What [`spec_last_match`] returns: the largest matching index, or `-1`
/// when no transition ran under the identity.
pub proof fn lemma_last_match(ts: Seq<TransitionV>, pid: ProgramIdV)
    ensures
        ({
            let r = spec_last_match(ts, pid);
            &&& r == -1 ==> forall|j: int|
                0 <= j < ts.len() ==> (#[trigger] ts[j]).program_id != pid
            &&& r != -1 ==> {
                &&& 0 <= r < ts.len()
                &&& ts[r].program_id == pid
                &&& forall|j: int| r < j < ts.len() ==> (#[trigger] ts[j]).program_id != pid
            }
        }),
    decreases ts.len(),
{
    if ts.len() > 0 && ts.last().program_id != pid {
        lemma_last_match(ts.drop_last(), pid);
        assert forall|j: int| 0 <= j < ts.len() - 1 implies ts.drop_last()[j] == #[trigger] ts[j] by {}
    }
}

/// If position `i` matches and no later position does, the last match is `i`.
proof fn lemma_last_match_is(ts: Seq<TransitionV>, pid: ProgramIdV, i: int)
    requires
        0 <= i < ts.len(),
        ts[i].program_id == pid,
        forall|j: int| i < j < ts.len() ==> (#[trigger] ts[j]).program_id != pid,
    ensures
        spec_last_match(ts, pid) == i,
{
    lemma_last_match(ts, pid);
}

/// Whether every request has a transition executed under its program.
pub open spec fn spec_all_match(rs: Seq<RequestV>, ts: Seq<TransitionV>) -> bool {
    forall|i: int| 0 <= i < rs.len() ==> spec_last_match(ts, (#[trigger] rs[i]).program_id) >= 0
}

/// The canonical transition order: for each request in order, the last
/// transition executed under the request's program identity.
pub open spec fn spec_sorted_transitions(rs: Seq<RequestV>, ts: Seq<TransitionV>) -> Seq<
    TransitionV,
> {
    Seq::new(rs.len(), |i: int| ts[spec_last_match(ts, rs[i].program_id)])
}

/// A signed bundle prior to ledger inclusion: the ordered caller requests
/// and the transitions those requests produced.
#[derive(Debug, PartialEq, Eq)]
pub struct Authorization {
    /// The ordered caller requests.
    pub requests: Vec<Request>,
    /// The transitions the requests produced.
    pub transitions: Vec<Transition>,
}

impl Authorization {
    /// Finds the last transition executed under `pid`.
    fn find_last_by_program(transitions: &Vec<Transition>, pid: &ProgramId) -> (r: Option<usize>)
        ensures
            match r {
                Some(k) => k < transitions@.len() && spec_last_match(
                    spec_view_transitions(transitions@),
                    pid@,
                ) == k as int,
                None => spec_last_match(spec_view_transitions(transitions@), pid@) == -1,
            },
    {
        let ghost tv = spec_view_transitions(transitions@);
        let n = transitions.len();
        let mut k: usize = n;
        while k > 0
            invariant
                0 <= k <= n,
                n == transitions@.len(),
                tv == spec_view_transitions(transitions@),
                forall|j: int| k <= j < n ==> (#[trigger] tv[j]).program_id != pid@,
            decreases k,
        {
            k = k - 1;
            if transitions[k].program_id.eq_id(pid) {
                proof {
                    lemma_last_match_is(tv, pid@, k as int);
                }
                return Some(k);
            }
        }
        proof {
            lemma_last_match(tv, pid@);
        }
        None
    }

    /// Reorders the transitions canonically: transition `i` of the result is
    /// the one produced under request `i`'s program identity. A request
    /// without a matching transition is an internal-consistency error of the
    /// caller-built bundle; the authorization is then left unchanged.
    #[verifier::loop_isolation(false)]
    pub fn sort_transitions(&mut self) -> (r: Result<(), VmError>)
        ensures
            ({
                let rv = spec_view_requests(old(self).requests@);
                let tv = spec_view_transitions(old(self).transitions@);
                match r {
                    Ok(()) => {
                        &&& spec_all_match(rv, tv)
                        &&& spec_view_requests(final(self).requests@) == rv
                        &&& spec_view_transitions(final(self).transitions@)
                            == spec_sorted_transitions(rv, tv)
                    },
                    Err(e) => {
                        &&& e == VmError::ConsistencyError
                        &&& !spec_all_match(rv, tv)
                        &&& spec_view_requests(final(self).requests@) == rv
                        &&& spec_view_transitions(final(self).transitions@) == tv
                    },
                }
            }),
    {
        let ghost rv = spec_view_requests(self.requests@);
        let ghost tv = spec_view_transitions(self.transitions@);
        let mut ordered: Vec<Transition> = Vec::new();
        let n = self.requests.len();
        let mut i: usize = 0;
        while i < n
            invariant
                0 <= i <= n,
                ordered@.len() == i,
                forall|j: int|
                    0 <= j < i ==> spec_last_match(tv, (#[trigger] rv[j]).program_id) >= 0,
                spec_view_transitions(ordered@) == spec_sorted_transitions(rv, tv).subrange(
                    0,
                    i as int,
                ),
            decreases n - i,
        {
            let request = &self.requests[i];
            proof {
                assert(rv[i as int] == self.requests@[i as int]@);
            }
            match Self::find_last_by_program(&self.transitions, &request.program_id) {
                Some(k) => {
                    ordered.push(self.transitions[k].clone());
                    proof {
                        assert(tv[k as int] == self.transitions@[k as int]@);
                        assert(ordered@[i as int]@ == tv[spec_last_match(
                            tv,
                            rv[i as int].program_id,
                        )]);
                        assert(spec_view_transitions(ordered@) =~= spec_sorted_transitions(
                            rv,
                            tv,
                        ).subrange(0, i as int + 1));
                    }
                },
                None => {
                    proof {
                        assert(spec_last_match(tv, rv[i as int].program_id) == -1);
                    }
                    return Err(VmError::ConsistencyError);
                },
            }
            i = i + 1;
        }
        self.transitions = ordered;
        proof {
            assert(spec_sorted_transitions(rv, tv).subrange(0, n as int) =~= spec_sorted_transitions(
                rv,
                tv,
            ));
        }
        Ok(())
    }
}

/// Sorting is idempotent: once the transitions stand in request order,
/// sorting them again returns the same sequence, provided no two requests
/// name the same program.
pub proof fn lemma_sort_transitions_idempotent(rs: Seq<RequestV>, ts: Seq<TransitionV>)
    requires
        spec_all_match(rs, ts),
        forall|i: int, j: int|
            0 <= i < rs.len() && 0 <= j < rs.len() && i != j ==> (#[trigger] rs[i]).program_id
                != (#[trigger] rs[j]).program_id,
    ensures
        spec_all_match(rs, spec_sorted_transitions(rs, ts)),
        spec_sorted_transitions(rs, spec_sorted_transitions(rs, ts)) == spec_sorted_transitions(
            rs,
            ts,
        ),
{
    let s = spec_sorted_transitions(rs, ts);
    assert forall|i: int| #![trigger rs[i]] 0 <= i < rs.len() implies {
        &&& spec_last_match(s, rs[i].program_id) == i
        &&& s[i] == ts[spec_last_match(ts, rs[i].program_id)]
    } by {
        lemma_last_match(ts, rs[i].program_id);
        assert forall|j: int| 0 <= j < s.len() && j != i implies (#[trigger] s[j]).program_id
            != rs[i].program_id by {
            lemma_last_match(ts, rs[j].program_id);
        }
        lemma_last_match_is(s, rs[i].program_id, i);
    }
    assert(spec_sorted_transitions(rs, s) =~= s);
}

/// Sorting is a total reordering: when requests and transitions pair up
/// one-to-one by program identity, the result has the same length, carries
/// request `i`'s program identity at position `i`, and holds exactly the
/// input transitions.
pub proof fn lemma_sort_transitions_total_reordering(rs: Seq<RequestV>, ts: Seq<TransitionV>)
    requires
        spec_all_match(rs, ts),
        rs.len() == ts.len(),
        forall|i: int, j: int|
            0 <= i < rs.len() && 0 <= j < rs.len() && i != j ==> (#[trigger] rs[i]).program_id
                != (#[trigger] rs[j]).program_id,
        forall|i: int, j: int|
            0 <= i < ts.len() && 0 <= j < ts.len() && i != j ==> (#[trigger] ts[i]).program_id
                != (#[trigger] ts[j]).program_id,
    ensures
        spec_sorted_transitions(rs, ts).len() == ts.len(),
        forall|i: int|
            0 <= i < rs.len() ==> (#[trigger] spec_sorted_transitions(rs, ts)[i]).program_id
                == rs[i].program_id,
        spec_sorted_transitions(rs, ts).to_set() == ts.to_set(),
{
    let s = spec_sorted_transitions(rs, ts);
    assert forall|i: int| 0 <= i < rs.len() implies (#[trigger] s[i]).program_id
        == rs[i].program_id by {
        lemma_last_match(ts, rs[i].program_id);
    }
    assert forall|x: TransitionV| s.to_set().contains(x) implies ts.to_set().contains(x) by {
        let i = choose|i: int| 0 <= i < s.len() && s[i] == x;
        lemma_last_match(ts, rs[i].program_id);
        assert(ts[spec_last_match(ts, rs[i].program_id)] == x);
    }
    assert forall|x: TransitionV| ts.to_set().contains(x) implies s.to_set().contains(x) by {
        let k = choose|k: int| 0 <= k < ts.len() && ts[k] == x;
        // Some request names this transition's program; its last match can
        // only be position `k`, because transition identities are unique.
        lemma_injective_full_range(rs, ts, k);
        let i = choose|i: int| 0 <= i < rs.len() && rs[i].program_id == ts[k].program_id;
        lemma_last_match(ts, rs[i].program_id);
        let m = spec_last_match(ts, rs[i].program_id);
        assert(ts[m].program_id == ts[k].program_id);
        assert(m == k);
        assert(s[i] == x);
        assert(s.to_set().contains(x));
    }
    assert(s.to_set() =~= ts.to_set());
}

/// Under the one-to-one pairing, every transition's program identity is
/// named by some request.
proof fn lemma_injective_full_range(rs: Seq<RequestV>, ts: Seq<TransitionV>, k: int)
    requires
        spec_all_match(rs, ts),
        rs.len() == ts.len(),
        0 <= k < ts.len(),
        forall|i: int, j: int|
            0 <= i < rs.len() && 0 <= j < rs.len() && i != j ==> (#[trigger] rs[i]).program_id
                != (#[trigger] rs[j]).program_id,
        forall|i: int, j: int|
            0 <= i < ts.len() && 0 <= j < ts.len() && i != j ==> (#[trigger] ts[i]).program_id
                != (#[trigger] ts[j]).program_id,
    ensures
        exists|i: int| 0 <= i < rs.len() && (#[trigger] rs[i]).program_id == ts[k].program_id,
{
    // The map from request index to its last-matching transition index is
    // injective into the transition indices; since the sequences have equal
    // length, it is onto, so index `k` is hit by some request.
    let f = |i: int| spec_last_match(ts, rs[i].program_id);
    assert forall|i: int| 0 <= i < rs.len() implies 0 <= #[trigger] f(i) < ts.len() && ts[f(
        i,
    )].program_id == rs[i].program_id by {
        lemma_last_match(ts, rs[i].program_id);
    }
    assert forall|i: int, j: int|
        0 <= i < rs.len() && 0 <= j < rs.len() && i != j implies #[trigger] f(i) != #[trigger] f(
        j,
    ) by {
        lemma_last_match(ts, rs[i].program_id);
        lemma_last_match(ts, rs[j].program_id);
    }
    lemma_injective_map_is_onto(rs.len() as int, ts.len() as int, f, k);
    let i = choose|i: int| 0 <= i < rs.len() && #[trigger] f(i) == k;
    lemma_last_match(ts, rs[i].program_id);
    assert(rs[i].program_id == ts[k].program_id);
}

/// An injective map from `0..n` into `0..n` hits every target index.
proof fn lemma_injective_map_is_onto(n: int, m: int, f: spec_fn(int) -> int, k: int)
    requires
        n == m,
        0 <= k < m,
        forall|i: int| 0 <= i < n ==> 0 <= #[trigger] f(i) < m,
        forall|i: int, j: int| 0 <= i < n && 0 <= j < n && i != j ==> #[trigger] f(i) != #[trigger] f(j),
    ensures
        exists|i: int| 0 <= i < n && #[trigger] f(i) == k,
{
    let image = Set::new(|x: int| exists|i: int| 0 <= i < n && #[trigger] f(i) == x);
    let range = vstd::set_lib::set_int_range(0, m);
    assert(image.subset_of(range));
    lemma_injective_image_card(n, f);
    vstd::set_lib::lemma_int_range(0, m);
    vstd::set_lib::lemma_len_subset(image, range);
    if !image.contains(k) {
        assert(image.insert(k).subset_of(range));
        vstd::set_lib::lemma_len_subset(image.insert(k), range);
        assert(image.insert(k).len() == image.len() + 1);
    }
    assert(image.contains(k));
}

/// The image of `0..n` under an injective map has exactly `n` elements.
proof fn lemma_injective_image_card(n: int, f: spec_fn(int) -> int)
    requires
        0 <= n,
        forall|i: int, j: int| 0 <= i < n && 0 <= j < n && i != j ==> #[trigger] f(i) != #[trigger] f(j),
    ensures
        Set::new(|k: int| exists|i: int| 0 <= i < n && #[trigger] f(i) == k).finite(),
        Set::new(|k: int| exists|i: int| 0 <= i < n && #[trigger] f(i) == k).len() == n,
    decreases n,
{
    let image = Set::new(|k: int| exists|i: int| 0 <= i < n && #[trigger] f(i) == k);
    if n == 0 {
        assert(image =~= Set::empty());
    } else {
        lemma_injective_image_card(n - 1, f);
        let prev = Set::new(|k: int| exists|i: int| 0 <= i < n - 1 && #[trigger] f(i) == k);
        assert(!prev.contains(f(n - 1)));
        assert(image =~= prev.insert(f(n - 1)));
    }
}

} // verus!
