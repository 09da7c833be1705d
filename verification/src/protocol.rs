use crate::achievement::Achievement;
use crate::error::RegistryError;
use crate::host::{AccountId, Transfer};
use vstd::prelude::*;

verus! {

/// Why a lookup at the identity service came back without a value.
#[derive(Clone, Copy, Debug, PartialEq, Eq, Structural)]
pub enum PromiseError {
    /// The call did not complete.
    Failed,
}

/// A question to the identity service.
#[derive(Debug, PartialEq, Eq)]
pub enum Query {
    /// Which identifier does this account point to?
    UserId(AccountId),
    /// Which account is the soul of this identifier bound to?
    AccountId(u128),
}

/// The entry point of the achievement registry that receives the answer to
/// a lookup.
#[derive(Clone, Copy, Debug, PartialEq, Eq, Structural)]
pub enum Callback {
    /// `get_user_id_callback`
    GetUserId,
    /// `set_new_owner_callback`
    SetNewOwner,
    /// `transfer_to_verifier_callback`
    TransferToVerifier,
}

/// A lookup that the host is to send to the identity service. Its answer, or
/// its failure, is to be handed once to `callback`, together with `token`.
#[derive(Debug, PartialEq, Eq)]
pub struct ResolutionRequest {
    pub token: u64,
    pub query: Query,
    pub callback: Callback,
}

/// A change that waits for the signer's identity to be confirmed.
#[derive(Debug, PartialEq, Eq)]
pub enum Mutation {
    /// Record the achievement; `payer` gets the escrow back if it is not
    /// recorded.
    Mint { achievement: Achievement, payer: AccountId },
    /// Delete the achievement.
    Burn { achievement_id: u128 },
    /// Make the identifier of `new_owner` the achievement's owner.
    UpdateOwner { achievement_id: u128, new_owner: AccountId },
    /// Mark the achievement as accepted.
    Accept { achievement_id: u128 },
    /// Pay the escrow out to the verifier and mark the achievement as
    /// verified.
    Verify { achievement_id: u128 },
}

/// What the registry remembers of a request that is under way.
#[derive(Debug, PartialEq, Eq)]
pub enum PendingRequest {
    /// The signer's identifier was asked for; `mutation` is committed only
    /// if it comes back as `expected`.
    Identity { expected: u128, mutation: Mutation },
    /// The identifier of an achievement's owner-to-be was asked for.
    NewOwner { achievement_id: u128 },
    /// The account of an achievement's verifier was asked for.
    Payee { achievement_id: u128 },
}

/// What a callback did, and what the host is to do next.
#[derive(Debug, PartialEq, Eq)]
pub struct Outcome {
    /// `Ok` where the change was committed or carried a step further; the
    /// reason where it was abandoned.
    pub status: Result<(), RegistryError>,
    /// A further lookup to send, where the change needs one.
    pub request: Option<ResolutionRequest>,
    /// A transfer to carry out.
    pub transfer: Option<Transfer>,
}

impl Outcome {
    /// A change that is complete and asks nothing of the host.
    pub open spec fn done() -> Outcome {
        Outcome { status: Ok(()), request: None, transfer: None }
    }

    /// A change that goes on with a further lookup.
    pub open spec fn ask(token: u64, query: Query, callback: Callback) -> Outcome {
        Outcome {
            status: Ok(()),
            request: Some(ResolutionRequest { token, query, callback }),
            transfer: None,
        }
    }

    /// A change that is complete and has `amount` paid to `destination`.
    pub open spec fn pay(destination: AccountId, amount: u128) -> Outcome {
        Outcome { status: Ok(()), request: None, transfer: Some(Transfer { destination, amount }) }
    }

    /// A change that was abandoned for `error`.
    pub open spec fn abandoned(error: RegistryError) -> Outcome {
        Outcome { status: Err(error), request: None, transfer: None }
    }

    /// A change that was abandoned for `error`, with `amount` returned to
    /// `destination`.
    pub open spec fn returned(error: RegistryError, destination: AccountId, amount: u128) -> Outcome {
        Outcome {
            status: Err(error),
            request: None,
            transfer: Some(Transfer { destination, amount }),
        }
    }
}

/// What a successful first half of `mint` hands back.
#[derive(Debug, PartialEq, Eq)]
pub struct MintReceipt {
    /// The lookup that confirms the issuer.
    pub request: ResolutionRequest,
    /// The part of the deposit that exceeds the achievement's balance,
    /// returned to the signer at once.
    pub refund: Transfer,
}

} // verus!
