use vstd::prelude::*;

use crate::error::GateError;
use crate::multisig::{carried_approvals, sign_step, GateState, Proposal, SignOutcome};

verus! {

/// The state after `actors` sign the fingerprint `fp` one after another.
pub open spec fn state_after(s: GateState, actors: Seq<Seq<u8>>, fp: Seq<u8>) -> GateState
    decreases actors.len(),
{
    if actors.len() == 0 {
        s
    } else {
        sign_step(state_after(s, actors.drop_last(), fp), actors.last(), fp).0
    }
}

/// What the `k`-th of `actors` (counting from one) gets back when they sign
/// `fp` one after another.
pub open spec fn outcome_at(s: GateState, actors: Seq<Seq<u8>>, fp: Seq<u8>, k: int) -> Result<
    SignOutcome,
    GateError,
> {
    sign_step(state_after(s, actors.take(k - 1), fp), actors[k - 1], fp).1
}

/// Every signature keeps the multisig state valid and its configuration fixed.
pub proof fn lemma_sign_step_valid(s: GateState, actor: Seq<u8>, fp: Seq<u8>)
    requires
        s.valid(),
    ensures
        sign_step(s, actor, fp).0.valid(),
        sign_step(s, actor, fp).0.signers == s.signers,
        sign_step(s, actor, fp).0.threshold == s.threshold,
{
    if s.signers.contains(actor) {
        let c = carried_approvals(s, fp);
        assert(c.finite() && c.subset_of(s.signers.to_set()));
        assert(c.insert(actor).subset_of(s.signers.to_set()));
    }
}

/// A caller who is not a signer is always refused, whatever is pending, and
/// the state stays as it was.
pub proof fn lemma_outsider_is_refused(s: GateState, actor: Seq<u8>, fp: Seq<u8>)
    requires
        !s.signers.contains(actor),
    ensures
        sign_step(s, actor, fp) == (s, Err::<SignOutcome, GateError>(GateError::Unauthorized)),
{
}

/// A signer who approves again the proposal they already approved changes
/// nothing: the state and the number of missing approvals stay as they were.
pub proof fn lemma_repeat_approval_is_idempotent(s: GateState, actor: Seq<u8>, fp: Seq<u8>)
    requires
        s.valid(),
        s.pending matches Some(p) && p.fingerprint == fp && p.approvals.contains(actor),
    ensures
        sign_step(s, actor, fp) == (s, Ok::<SignOutcome, GateError>(
            SignOutcome::Pending((s.threshold - s.pending->0.approvals.len()) as u8),
        )),
{
    let p = s.pending->0;
    assert(p.approvals.insert(actor) =~= p.approvals);
    assert(s.signers.to_set().contains(actor));
}

/// A signature on a fingerprint other than the pending one drops every
/// earlier approval: the new proposal holds the new caller's approval alone,
/// and runs at once only when one approval is enough.
pub proof fn lemma_new_fingerprint_starts_afresh(s: GateState, actor: Seq<u8>, fp: Seq<u8>)
    requires
        s.valid(),
        s.signers.contains(actor),
        s.pending matches Some(p) && p.fingerprint != fp,
    ensures
        s.threshold > 1 ==> sign_step(s, actor, fp) == (GateState {
            signers: s.signers,
            threshold: s.threshold,
            pending: Some(Proposal { fingerprint: fp, approvals: set![actor] }),
        }, Ok::<SignOutcome, GateError>(SignOutcome::Pending((s.threshold - 1) as u8))),
        s.threshold == 1 ==> sign_step(s, actor, fp) == (GateState {
            signers: s.signers,
            threshold: s.threshold,
            pending: None,
        }, Ok::<SignOutcome, GateError>(SignOutcome::Executed)),
{
    assert(Set::<Seq<u8>>::empty().insert(actor) == set![actor]);
    assert(set![actor].len() == 1);
}

/// Once a signature makes the action run the multisig is idle again, and the next
/// signature by a signer, on any fingerprint, starts a proposal with that
/// signer's approval alone.
pub proof fn lemma_execution_resets(
    s: GateState,
    first: Seq<u8>,
    fp: Seq<u8>,
    next: Seq<u8>,
    next_fp: Seq<u8>,
)
    requires
        s.valid(),
        sign_step(s, first, fp).1 == Ok::<SignOutcome, GateError>(SignOutcome::Executed),
        s.signers.contains(next),
    ensures
        sign_step(s, first, fp).0.is_idle(),
        ({
            let t = sign_step(s, first, fp).0;
            &&& s.threshold > 1 ==> sign_step(t, next, next_fp) == (GateState {
                signers: s.signers,
                threshold: s.threshold,
                pending: Some(Proposal { fingerprint: next_fp, approvals: set![next] }),
            }, Ok::<SignOutcome, GateError>(SignOutcome::Pending((s.threshold - 1) as u8)))
            &&& s.threshold == 1 ==> sign_step(t, next, next_fp) == (t, Ok::<SignOutcome, GateError>(
                SignOutcome::Executed,
            ))
        }),
{
    lemma_sign_step_valid(s, first, fp);
    assert(Set::<Seq<u8>>::empty().insert(next) == set![next]);
    assert(set![next].len() == 1);
}

proof fn lemma_prefix_collects(s: GateState, actors: Seq<Seq<u8>>, fp: Seq<u8>, j: int)
    requires
        s.valid(),
        carried_approvals(s, fp) == Set::<Seq<u8>>::empty(),
        actors.no_duplicates(),
        forall|i: int| 0 <= i < actors.len() ==> s.signers.contains(actors[i]),
        0 <= j <= actors.len(),
        j < s.threshold,
    ensures
        ({
            let t = state_after(s, actors.take(j), fp);
            &&& t.valid()
            &&& t.signers == s.signers
            &&& t.threshold == s.threshold
            &&& carried_approvals(t, fp) == actors.take(j).to_set()
            &&& actors.take(j).to_set().len() == j
        }),
    decreases j,
{
    if j == 0 {
        assert(actors.take(0) =~= Seq::<Seq<u8>>::empty());
        assert(actors.take(0).to_set() =~= Set::<Seq<u8>>::empty());
    } else {
        lemma_prefix_collects(s, actors, fp, j - 1);
        let prev = actors.take(j - 1);
        let t0 = state_after(s, prev, fp);
        assert(actors.take(j).drop_last() =~= prev);
        assert(actors.take(j) =~= prev.push(actors[j - 1]));
        prev.lemma_push_to_set_commute(actors[j - 1]);
        assert(!prev.to_set().contains(actors[j - 1]));
        lemma_sign_step_valid(t0, actors[j - 1], fp);
    }
}

/// When distinct signers approve the same fingerprint one after another,
/// with no proposal for it pending at the start, the `k`-th of them is told
/// that threshold minus `k` approvals are missing, and the one who makes up
/// the threshold sees the action run.
pub proof fn lemma_distinct_signers_reach_threshold(
    s: GateState,
    actors: Seq<Seq<u8>>,
    fp: Seq<u8>,
)
    requires
        s.valid(),
        s.pending matches Some(p) ==> p.fingerprint != fp,
        actors.no_duplicates(),
        actors.len() <= s.threshold,
        forall|i: int| 0 <= i < actors.len() ==> s.signers.contains(actors[i]),
    ensures
        forall|k: int|
            1 <= k <= actors.len() ==> outcome_at(s, actors, fp, k) == (if k < s.threshold {
                Ok::<SignOutcome, GateError>(SignOutcome::Pending((s.threshold - k) as u8))
            } else {
                Ok::<SignOutcome, GateError>(SignOutcome::Executed)
            }),
{
    assert(carried_approvals(s, fp) =~= Set::<Seq<u8>>::empty());
    assert forall|k: int| 1 <= k <= actors.len() implies outcome_at(s, actors, fp, k) == (if k
        < s.threshold {
        Ok::<SignOutcome, GateError>(SignOutcome::Pending((s.threshold - k) as u8))
    } else {
        Ok::<SignOutcome, GateError>(SignOutcome::Executed)
    }) by {
        lemma_prefix_collects(s, actors, fp, k - 1);
        let prev = actors.take(k - 1);
        assert(actors.take(k) =~= prev.push(actors[k - 1]));
        prev.lemma_push_to_set_commute(actors[k - 1]);
        assert(!prev.to_set().contains(actors[k - 1]));
    }
}

} // verus!
