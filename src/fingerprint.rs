use vstd::prelude::*;

verus! {

/// The SHA-256 digest of `data`.
pub uninterp spec fn sha256_of(data: Seq<u8>) -> Seq<u8>;

/// Relies on `solana_program::hash::hash` (re-exported by anchor_lang): the
/// SHA-256 digest of the given bytes, a function of those bytes alone.
#[verifier::external_body]
fn sha256(data: &Vec<u8>) -> (r: [u8; 32])
    ensures
        r@ == sha256_of(data@),
{
    anchor_lang::solana_program::hash::hash(data.as_slice()).to_bytes()
}

} // verus!

verus! {

/// The closed set of privileged actions that need multisig approval.
#[derive(Clone, Copy, Debug, PartialEq, Eq, Structural)]
pub enum AdminInstruction {
    SetTestOraclePrice,
}

impl AdminInstruction {
    /// The discriminator byte that stands for the action in a fingerprint.
    pub open spec fn spec_tag(self) -> u8 {
        match self {
            AdminInstruction::SetTestOraclePrice => 0,
        }
    }

    pub fn tag(&self) -> (r: u8)
        ensures
            r == self.spec_tag(),
    {
        match self {
            AdminInstruction::SetTestOraclePrice => 0,
        }
    }
}

/// What a fingerprint digests: the action's discriminator followed by its
/// serialized parameters.
pub open spec fn instruction_data(kind: AdminInstruction, params: Seq<u8>) -> Seq<u8> {
    seq![kind.spec_tag()] + params
}

/// The fingerprint of an action: the digest of its kind and parameters, and
/// of nothing else.
pub open spec fn fingerprint_of(kind: AdminInstruction, params: Seq<u8>) -> Seq<u8> {
    sha256_of(instruction_data(kind, params))
}

/// Lays out the bytes that identify an action of kind `kind` with the
/// serialized parameters `params`.
pub fn get_instruction_data(kind: AdminInstruction, params: &Vec<u8>) -> (r: Vec<u8>)
    ensures
        r@ == instruction_data(kind, params@),
{
    let mut out: Vec<u8> = Vec::new();
    out.push(kind.tag());
    let mut i: usize = 0;
    while i < params.len()
        invariant
            i <= params@.len(),
            out@ == seq![kind.spec_tag()] + params@.subrange(0, i as int),
        decreases params@.len() - i,
    {
        out.push(params[i]);
        i = i + 1;
        assert(out@ =~= seq![kind.spec_tag()] + params@.subrange(0, i as int));
    }
    assert(params@.subrange(0, params@.len() as int) =~= params@);
    out
}

/// The fingerprint of an action of kind `kind` with serialized parameters
/// `params`.
pub fn fingerprint(kind: AdminInstruction, params: &Vec<u8>) -> (r: [u8; 32])
    ensures
        r@ == fingerprint_of(kind, params@),
{
    let data = get_instruction_data(kind, params);
    sha256(&data)
}

} // verus!
