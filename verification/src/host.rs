use vstd::prelude::*;

verus! {

/// The handle by which the host names an external principal.
pub type AccountId = String;

/// What the host tells an entry point about the transaction that invoked it.
/// The registries trust these values as given.
#[derive(Debug, PartialEq, Eq)]
pub struct CallContext {
    /// The account that signed the transaction.
    pub signer: AccountId,
    /// The account under which the registry itself runs.
    pub current: AccountId,
    /// The value attached to the call; meaningful for payable entry points.
    pub attached_deposit: u128,
}

impl CallContext {
    /// A context with the given signer, registry account and deposit.
    pub fn new(signer: AccountId, current: AccountId, attached_deposit: u128) -> (ctx: CallContext)
        ensures
            ctx.signer == signer,
            ctx.current == current,
            ctx.attached_deposit == attached_deposit,
    {
        CallContext { signer, current, attached_deposit }
    }

    /// Whether the transaction was signed by the registry's own account.
    pub open spec fn by_operator(&self) -> bool {
        self.signer@ == self.current@
    }

    /// Whether the transaction was signed by the registry's own account.
    pub fn is_by_operator(&self) -> (yes: bool)
        ensures
            yes == self.by_operator(),
    {
        self.signer == self.current
    }
}

/// An order for the host's transfer primitive: move `amount` to
/// `destination`. The registries only issue such orders; the host carries
/// them out, all or nothing, and reports nothing back.
#[derive(Debug, PartialEq, Eq)]
pub struct Transfer {
    pub destination: AccountId,
    pub amount: u128,
}

} // verus!
