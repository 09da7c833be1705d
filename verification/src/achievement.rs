use vstd::prelude::*;

verus! {

/// The owner of an achievement whose owner has not been set yet.
pub const UNSET_OWNER: u128 = 0;

/// An issuance record with the value held in escrow for it.
///
/// `issuer`, `owner` and `verifier` are identifiers of the identity
/// registry, kept by value: they are looked up, never owned, and may
/// resolve to nothing.
#[derive(Debug, PartialEq, Eq)]
pub struct Achievement {
    pub achievement_id: u128,
    pub achievement_type: u128,
    pub issuer: u128,
    pub owner: u128,
    pub is_accepted: bool,
    pub verifier: u128,
    pub is_verified: bool,
    pub data_address: String,
    pub balance: u128,
}

impl Clone for Achievement {
    fn clone(&self) -> (copy: Self)
        ensures
            copy == *self,
    {
        Achievement {
            achievement_id: self.achievement_id,
            achievement_type: self.achievement_type,
            issuer: self.issuer,
            owner: self.owner,
            is_accepted: self.is_accepted,
            verifier: self.verifier,
            is_verified: self.is_verified,
            data_address: self.data_address.clone(),
            balance: self.balance,
        }
    }
}

impl Achievement {
    /// The record with `owner` in place of its owner.
    pub open spec fn with_owner(self, owner: u128) -> Achievement {
        Achievement { owner, ..self }
    }

    /// The record marked as accepted by its owner.
    pub open spec fn accepted(self) -> Achievement {
        Achievement { is_accepted: true, ..self }
    }

    /// The record marked as verified, its escrow paid out.
    pub open spec fn paid_out(self) -> Achievement {
        Achievement { is_verified: true, balance: 0, ..self }
    }

    /// The record with `amount` added to its escrow.
    pub open spec fn replenished(self, amount: u128) -> Achievement
        recommends
            self.balance + amount <= u128::MAX,
    {
        Achievement { balance: (self.balance + amount) as u128, ..self }
    }
}

} // verus!
