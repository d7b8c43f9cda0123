use vstd::prelude::*;

use crate::bytes::{bytes32_eq, le_bytes, push_le};
use crate::error::GateError;
use crate::fingerprint::{fingerprint, fingerprint_of, AdminInstruction};
use crate::multisig::{sign_step, Multisig, SignOutcome};

verus! {

/// The new contents of the test oracle's price record.
pub struct SetTestOraclePriceParams {
    pub price: u64,
    pub expo: i32,
    pub conf: u64,
    pub publish_time: i64,
}

/// The price record that the guarded action overwrites.
#[derive(Clone, Copy, Debug, PartialEq, Eq, Structural)]
pub struct TestOracle {
    pub price: u64,
    pub expo: i32,
    pub conf: u64,
    pub publish_time: i64,
}

impl SetTestOraclePriceParams {
    /// The fields in declaration order, each little-endian at its own width,
    /// signed fields in two's complement.
    pub open spec fn spec_serialize(&self) -> Seq<u8> {
        le_bytes(self.price as nat, 8) + le_bytes((self.expo as u32) as nat, 4) + le_bytes(
            self.conf as nat,
            8,
        ) + le_bytes((self.publish_time as u64) as nat, 8)
    }

    pub fn serialize(&self) -> (r: Vec<u8>)
        ensures
            r@ == self.spec_serialize(),
    {
        let mut out: Vec<u8> = Vec::new();
        push_le(&mut out, self.price, 8);
        push_le(&mut out, (self.expo as u32) as u64, 4);
        push_le(&mut out, self.conf, 8);
        push_le(&mut out, self.publish_time as u64, 8);
        assert(out@ =~= self.spec_serialize());
        out
    }

    /// The record that these parameters describe.
    pub open spec fn spec_record(&self) -> TestOracle {
        TestOracle {
            price: self.price,
            expo: self.expo,
            conf: self.conf,
            publish_time: self.publish_time,
        }
    }

    /// The fingerprint under which signers approve these parameters.
    pub open spec fn spec_fingerprint(&self) -> Seq<u8> {
        fingerprint_of(AdminInstruction::SetTestOraclePrice, self.spec_serialize())
    }
}

/// Everything the price update touches: the calling signer, the multisig
/// record, the keys that link the oracle record to its custody and auction,
/// and the oracle record itself, absent until the first update runs.
pub struct SetTestOraclePrice {
    pub admin: [u8; 32],
    pub multisig: Multisig,
    /// The custody that the auction prices against.
    pub auction_custody: [u8; 32],
    /// The custody's own key.
    pub custody: [u8; 32],
    /// The oracle record that the custody names.
    pub custody_oracle_account: [u8; 32],
    /// The oracle record's own key.
    pub oracle_account_key: [u8; 32],
    pub oracle_account: Option<TestOracle>,
}

impl SetTestOraclePrice {
    /// The custody is the auction's, and the oracle record is the custody's.
    pub open spec fn linked(&self) -> bool {
        &&& self.custody@ == self.auction_custody@
        &&& self.oracle_account_key@ == self.custody_oracle_account@
    }

    /// The caller and the linkage keys of `self` and `other` agree.
    pub open spec fn same_accounts(&self, other: &SetTestOraclePrice) -> bool {
        &&& self.admin == other.admin
        &&& self.auction_custody == other.auction_custody
        &&& self.custody == other.custody
        &&& self.custody_oracle_account == other.custody_oracle_account
        &&& self.oracle_account_key == other.oracle_account_key
    }

    pub fn check_links(&self) -> (r: bool)
        ensures
            r == self.linked(),
    {
        bytes32_eq(&self.custody, &self.auction_custody) && bytes32_eq(
            &self.oracle_account_key,
            &self.custody_oracle_account,
        )
    }

    /// Reads the oracle record, after checking its linkage; the record is
    /// not created here.
    pub fn oracle_price(&self) -> (r: Result<TestOracle, GateError>)
        ensures
            !self.linked() ==> r == Err::<TestOracle, GateError>(GateError::AccountMismatch),
            self.linked() && self.oracle_account is None ==> r == Err::<TestOracle, GateError>(
                GateError::Uninitialized,
            ),
            self.linked() && self.oracle_account is Some ==> r == Ok::<TestOracle, GateError>(
                self.oracle_account->0,
            ),
    {
        if !self.check_links() {
            return Err(GateError::AccountMismatch);
        }
        match self.oracle_account {
            Some(o) => Ok(o),
            None => Err(GateError::Uninitialized),
        }
    }
}

/// Approves the price update on behalf of `ctx.admin` and, once enough
/// signers have approved the same parameters, overwrites the oracle record
/// with them, creating it if it is absent. Returns the number of approvals
/// still missing, zero when the update ran.
pub fn set_test_oracle_price(ctx: &mut SetTestOraclePrice, params: &SetTestOraclePriceParams) -> (r:
    Result<u8, GateError>)
    requires
        old(ctx).multisig.wf(),
    ensures
        final(ctx).multisig.wf(),
        final(ctx).same_accounts(old(ctx)),
        !old(ctx).linked() ==> {
            &&& r == Err::<u8, GateError>(GateError::AccountMismatch)
            &&& final(ctx).multisig@ == old(ctx).multisig@
            &&& final(ctx).oracle_account == old(ctx).oracle_account
        },
        old(ctx).linked() ==> {
            let (s, o) = sign_step(old(ctx).multisig@, old(ctx).admin@, params.spec_fingerprint());
            let before = old(ctx).oracle_account;
            let after = final(ctx).oracle_account;
            &&& final(ctx).multisig@ == s
            &&& match o {
                Err(e) => r == Err::<u8, GateError>(e) && after == before,
                Ok(SignOutcome::Pending(k)) => r == Ok::<u8, GateError>(k) && after == before,
                Ok(SignOutcome::Executed) => r == Ok::<u8, GateError>(0) && after == Some(
                    params.spec_record(),
                ),
            }
        },
{
    if !ctx.check_links() {
        return Err(GateError::AccountMismatch);
    }
    let data = params.serialize();
    let fp = fingerprint(AdminInstruction::SetTestOraclePrice, &data);
    let admin = ctx.admin;
    match ctx.multisig.sign(&admin, &fp) {
        Err(e) => Err(e),
        Ok(SignOutcome::Pending(k)) => Ok(k),
        Ok(SignOutcome::Executed) => {
            ctx.oracle_account = Some(
                TestOracle {
                    price: params.price,
                    expo: params.expo,
                    conf: params.conf,
                    publish_time: params.publish_time,
                },
            );
            Ok(0)
        },
    }
}

} // verus!
