use vstd::prelude::*;

verus! {

/// Why an entry point of either registry refused to act. Every failure leaves
/// the registry it was called on exactly as it was.
#[derive(Clone, Copy, Debug, PartialEq, Eq, Structural)]
pub enum RegistryError {
    /// An achievement with this id exists already, or existed once.
    DuplicateId,
    /// Nothing is recorded under the given account, identifier or id.
    NotFound,
    /// The caller is not the principal that operates the registry.
    Unauthorized,
    /// The identifier is bound to a soul already, or reserved for one.
    AlreadyExists,
    /// The achievement's escrow has been paid out before.
    AlreadyVerified,
    /// The achievement has an owner other than the unset sentinel.
    OwnerAlreadySet,
    /// The attached deposit does not cover the achievement's balance.
    InsufficientDeposit,
    /// The caller holds no reserved identifier waiting to be claimed.
    NoPendingMint,
    /// The identity service resolved the caller to another identifier.
    IdentityMismatch,
    /// The identity service could not be reached, or failed.
    RemoteResolutionFault,
}

impl RegistryError {
    /// The message that accompanies the failed transaction.
    pub fn message(&self) -> (text: &'static str)
        ensures
            text@ == self.spec_message(),
    {
        match self {
            RegistryError::DuplicateId => "Achievement id already exists",
            RegistryError::NotFound => "No user found",
            RegistryError::Unauthorized => "Only this contract can mint SBT",
            RegistryError::AlreadyExists => "Soul is already minted",
            RegistryError::AlreadyVerified => "Achievement already verified",
            RegistryError::OwnerAlreadySet => "Owner of this achievement can not be changed",
            RegistryError::InsufficientDeposit => "Not enough deposit attached",
            RegistryError::NoPendingMint => "Soul must be minted to be able to claim it",
            RegistryError::IdentityMismatch => "Wrong uid",
            RegistryError::RemoteResolutionFault => "There was an error contacting SBT contract",
        }
    }

    /// The text of [`RegistryError::message`], as contracts speak of it.
    pub open spec fn spec_message(&self) -> Seq<char> {
        match self {
            RegistryError::DuplicateId => "Achievement id already exists"@,
            RegistryError::NotFound => "No user found"@,
            RegistryError::Unauthorized => "Only this contract can mint SBT"@,
            RegistryError::AlreadyExists => "Soul is already minted"@,
            RegistryError::AlreadyVerified => "Achievement already verified"@,
            RegistryError::OwnerAlreadySet => "Owner of this achievement can not be changed"@,
            RegistryError::InsufficientDeposit => "Not enough deposit attached"@,
            RegistryError::NoPendingMint => "Soul must be minted to be able to claim it"@,
            RegistryError::IdentityMismatch => "Wrong uid"@,
            RegistryError::RemoteResolutionFault => "There was an error contacting SBT contract"@,
        }
    }
}

} // verus!
