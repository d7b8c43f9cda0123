use vstd::prelude::*;

use crate::bytes::bytes32_eq;
use crate::error::GateError;

verus! {

/// A proposal in flight: the fingerprint being approved and the signers
/// who have approved it so far.
pub struct Proposal {
    pub fingerprint: Seq<u8>,
    pub approvals: Set<Seq<u8>>,
}

/// The abstract state of the multisig: the fixed signer list, the number of
/// distinct approvals an action needs, and the proposal in flight, if any.
pub struct GateState {
    pub signers: Seq<Seq<u8>>,
    pub threshold: nat,
    pub pending: Option<Proposal>,
}

/// What a successful signature yields: either the number of approvals
/// still missing, or the signal that the action is to run now.
#[derive(Clone, Copy, Debug, PartialEq, Eq, Structural)]
pub enum SignOutcome {
    Pending(u8),
    Executed,
}

impl GateState {
    /// Signers are distinct, the threshold lies between one and their
    /// number, and a pending proposal holds fewer approvals than the
    /// threshold, all of them from signers.
    pub open spec fn valid(self) -> bool {
        &&& self.signers.no_duplicates()
        &&& 1 <= self.threshold <= self.signers.len()
        &&& self.threshold < 256
        &&& match self.pending {
            None => true,
            Some(p) => {
                &&& p.approvals.finite()
                &&& p.approvals.subset_of(self.signers.to_set())
                &&& p.approvals.len() < self.threshold
            },
        }
    }

    pub open spec fn is_idle(self) -> bool {
        self.pending is None
    }
}

/// The approvals that a signature on `fp` builds on: those of the pending
/// proposal when it is for the same fingerprint, none otherwise.
pub open spec fn carried_approvals(s: GateState, fp: Seq<u8>) -> Set<Seq<u8>> {
    match s.pending {
        Some(p) => if p.fingerprint == fp {
            p.approvals
        } else {
            Set::empty()
        },
        None => Set::empty(),
    }
}

/// One signature by `actor` on the action with fingerprint `fp`: the state
/// after it and what the caller gets back.
pub open spec fn sign_step(s: GateState, actor: Seq<u8>, fp: Seq<u8>) -> (GateState, Result<
    SignOutcome,
    GateError,
>) {
    if !s.signers.contains(actor) {
        (s, Err(GateError::Unauthorized))
    } else {
        let approvals = carried_approvals(s, fp).insert(actor);
        if approvals.len() < s.threshold {
            (
                GateState {
                    signers: s.signers,
                    threshold: s.threshold,
                    pending: Some(Proposal { fingerprint: fp, approvals: approvals }),
                },
                Ok(SignOutcome::Pending((s.threshold - approvals.len()) as u8)),
            )
        } else {
            (
                GateState { signers: s.signers, threshold: s.threshold, pending: None },
                Ok(SignOutcome::Executed),
            )
        }
    }
}

/// The byte strings of a list of 32-byte keys.
pub open spec fn key_seq(v: Seq<[u8; 32]>) -> Seq<Seq<u8>> {
    v.map_values(|k: [u8; 32]| k@)
}

proof fn lemma_key_seq_push(v: Seq<[u8; 32]>, k: [u8; 32])
    ensures
        key_seq(v.push(k)) == key_seq(v).push(k@),
{
    assert(key_seq(v.push(k)) =~= key_seq(v).push(k@));
}

/// Whether `k` is one of the keys in `v`.
pub fn contains_key(v: &Vec<[u8; 32]>, k: &[u8; 32]) -> (r: bool)
    ensures
        r == key_seq(v@).contains(k@),
{
    let mut i: usize = 0;
    while i < v.len()
        invariant
            i <= v@.len(),
            forall|j: int| 0 <= j < i ==> v@[j]@ != k@,
        decreases v@.len() - i,
    {
        if bytes32_eq(&v[i], k) {
            assert(key_seq(v@)[i as int] == k@);
            return true;
        }
        i = i + 1;
    }
    assert forall|j: int| 0 <= j < key_seq(v@).len() implies key_seq(v@)[j] != k@ by {
        assert(key_seq(v@)[j] == v@[j]@);
    }
    false
}

/// The pending proposal as stored.
struct PendingProposal {
    fingerprint: [u8; 32],
    approvals: Vec<[u8; 32]>,
}

/// The persistent multisig record: configured signers, threshold, and the
/// proposal in flight.
pub struct Multisig {
    signers: Vec<[u8; 32]>,
    threshold: u8,
    pending: Option<PendingProposal>,
}

impl View for Multisig {
    type V = GateState;

    closed spec fn view(&self) -> GateState {
        GateState {
            signers: key_seq(self.signers@),
            threshold: self.threshold as nat,
            pending: match self.pending {
                None => None,
                Some(p) => Some(
                    Proposal {
                        fingerprint: p.fingerprint@,
                        approvals: key_seq(p.approvals@).to_set(),
                    },
                ),
            },
        }
    }
}

impl Multisig {
    /// The abstract state is valid and the stored approvals hold no key twice.
    pub closed spec fn wf(&self) -> bool {
        &&& self@.valid()
        &&& match self.pending {
            None => true,
            Some(p) => key_seq(p.approvals@).no_duplicates(),
        }
    }

    /// A gate over `signers` that needs `threshold` distinct approvals, with
    /// no proposal in flight. There is none when two signers are equal or the
    /// threshold is not between one and the number of signers.
    pub fn new(signers: Vec<[u8; 32]>, threshold: u8) -> (r: Option<Multisig>)
        ensures
            r is Some <==> (key_seq(signers@).no_duplicates() && 1 <= threshold
                <= signers@.len()),
            r matches Some(m) ==> m.wf() && m@ == (GateState {
                signers: key_seq(signers@),
                threshold: threshold as nat,
                pending: None,
            }),
    {
        if threshold < 1 || threshold as usize > signers.len() {
            return None;
        }
        let mut i: usize = 0;
        while i < signers.len()
            invariant
                i <= signers@.len(),
                forall|a: int, b: int|
                    0 <= a < i && 0 <= b < i && a != b ==> signers@[a]@ != signers@[b]@,
            decreases signers@.len() - i,
        {
            let mut j: usize = 0;
            while j < i
                invariant
                    i < signers@.len(),
                    j <= i,
                    forall|b: int| 0 <= b < j ==> signers@[i as int]@ != signers@[b]@,
                decreases i - j,
            {
                if bytes32_eq(&signers[i], &signers[j]) {
                    assert(key_seq(signers@)[i as int] == key_seq(signers@)[j as int]);
                    return None;
                }
                j = j + 1;
            }
            i = i + 1;
        }
        assert(key_seq(signers@).no_duplicates()) by {
            assert forall|a: int, b: int|
                0 <= a < key_seq(signers@).len() && 0 <= b < key_seq(signers@).len() && a
                    != b implies key_seq(signers@)[a] != key_seq(signers@)[b] by {
                assert(key_seq(signers@)[a] == signers@[a]@);
                assert(key_seq(signers@)[b] == signers@[b]@);
            }
        }
        Some(Multisig { signers, threshold, pending: None })
    }

    pub fn threshold(&self) -> (r: u8)
        ensures
            r as nat == self@.threshold,
    {
        self.threshold
    }

    pub fn signer_count(&self) -> (r: usize)
        ensures
            r == self@.signers.len(),
    {
        self.signers.len()
    }

    /// Whether no proposal is in flight.
    pub fn is_idle(&self) -> (r: bool)
        ensures
            r == self@.is_idle(),
    {
        self.pending.is_none()
    }

    /// The number of distinct approvals of the pending proposal, zero when
    /// idle.
    pub fn approval_count(&self) -> (r: usize)
        requires
            self.wf(),
        ensures
            r as nat == match self@.pending {
                Some(p) => p.approvals.len(),
                None => 0,
            },
    {
        match &self.pending {
            Some(p) => {
                proof {
                    key_seq(p.approvals@).unique_seq_to_set();
                }
                p.approvals.len()
            },
            None => 0,
        }
    }

    /// Records `actor`'s approval of the action with fingerprint
    /// `fingerprint`. A fingerprint other than the pending one starts a new
    /// proposal; a repeated approval counts once; once the threshold is met
    /// the multisig goes back to idle and reports that the action runs now. A
    /// caller who is not a signer is refused and changes nothing.
    pub fn sign(&mut self, actor: &[u8; 32], fingerprint: &[u8; 32]) -> (r: Result<
        SignOutcome,
        GateError,
    >)
        requires
            old(self).wf(),
        ensures
            final(self).wf(),
            (final(self)@, r) == sign_step(old(self)@, actor@, fingerprint@),
    {
        if !contains_key(&self.signers, actor) {
            return Err(GateError::Unauthorized);
        }
        let ghost s0 = self@;
        let pending = self.pending.take();
        let mut approvals: Vec<[u8; 32]> = match pending {
            Some(p) => if bytes32_eq(&p.fingerprint, fingerprint) {
                p.approvals
            } else {
                Vec::new()
            },
            None => Vec::new(),
        };
        assert(key_seq(Seq::<[u8; 32]>::empty()).to_set() =~= Set::<Seq<u8>>::empty());
        assert(key_seq(approvals@).to_set() == carried_approvals(s0, fingerprint@));
        assert(key_seq(approvals@).no_duplicates());
        let ghost target = carried_approvals(s0, fingerprint@).insert(actor@);
        if !contains_key(&approvals, actor) {
            let ghost before = approvals@;
            approvals.push(*actor);
            proof {
                lemma_key_seq_push(before, *actor);
                key_seq(before).lemma_push_to_set_commute(actor@);
                assert(key_seq(approvals@).no_duplicates()) by {
                    assert forall|a: int, b: int|
                        0 <= a < key_seq(approvals@).len() && 0 <= b < key_seq(approvals@).len()
                            && a != b implies key_seq(approvals@)[a] != key_seq(approvals@)[b] by {
                        if a < key_seq(before).len() && b < key_seq(before).len() {
                            assert(key_seq(approvals@)[a] == key_seq(before)[a]);
                            assert(key_seq(approvals@)[b] == key_seq(before)[b]);
                        } else if a < key_seq(before).len() {
                            assert(key_seq(approvals@)[a] == key_seq(before)[a]);
                        } else {
                            assert(key_seq(approvals@)[b] == key_seq(before)[b]);
                        }
                    }
                }
            }
        } else {
            assert(key_seq(approvals@).to_set().contains(actor@));
            assert(key_seq(approvals@).to_set() =~= target);
        }
        assert(key_seq(approvals@).to_set() == target);
        proof {
            key_seq(approvals@).unique_seq_to_set();
        }
        assert(target.subset_of(s0.signers.to_set()));
        proof {
            vstd::set_lib::lemma_len_subset(target, s0.signers.to_set());
            s0.signers.unique_seq_to_set();
        }
        let n: usize = approvals.len();
        if n < self.threshold as usize {
            self.pending = Some(PendingProposal { fingerprint: *fingerprint, approvals });
            Ok(SignOutcome::Pending(self.threshold - n as u8))
        } else {
            Ok(SignOutcome::Executed)
        }
    }
}

} // verus!
