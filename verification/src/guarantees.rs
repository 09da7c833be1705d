use crate::achievement::{Achievement, UNSET_OWNER};
use crate::error::RegistryError;
use crate::host::AccountId;
use crate::ledger::TokenView;
use crate::protocol::{Mutation, Outcome, PendingRequest, PromiseError};
use vstd::prelude::*;

verus! {

/// The lookup that a mint of `achievement` paid for by `payer` waits for.
pub open spec fn mint_request(achievement: Achievement, payer: AccountId) -> PendingRequest {
    PendingRequest::Identity {
        expected: achievement.issuer,
        mutation: Mutation::Mint { achievement, payer },
    }
}

/// A mint whose deposit covers the balance is recorded as it was given once
/// the signer's identifier comes back as the issuer: the achievement holds
/// exactly its stated balance, whatever the deposit was, and stands in the
/// lists of its issuer and of its owner.
pub proof fn lemma_confirmed_mint_is_recorded(
    before: TokenView,
    achievement: Achievement,
    payer: AccountId,
    deposit: u128,
)
    requires
        before.wf(),
        before.has_free_token(),
        before.mint_refusal(achievement, deposit) is None,
    ensures
        deposit >= achievement.balance,
        ({
            let token = before.next_token;
            let asked = before.issue(mint_request(achievement, payer));
            let after = asked.after_user_id(token, Ok(achievement.issuer));
            &&& asked.same_records(before)
            &&& asked.user_id_outcome(token, Ok(achievement.issuer)) == Outcome::done()
            &&& after.wf()
            &&& after.achievements.contains_key(achievement.achievement_id)
            &&& after.achievements[achievement.achievement_id] == achievement
            &&& after.issued_by(achievement.issuer, achievement.achievement_id)
            &&& after.owned_by(achievement.owner, achievement.achievement_id)
            &&& !after.requests.contains_key(token)
        }),
{
    let token = before.next_token;
    let pending = mint_request(achievement, payer);
    let asked = before.issue(pending);
    before.lemma_issue_wf(pending);
    assert(asked.awaits_identity(token));
    let settled = asked.settle(token);
    asked.lemma_settle_wf(token);
    settled.lemma_commit_mint_wf(achievement);
}

/// A change that is abandoned alters no record, no index and no balance,
/// whichever callback abandons it and for whatever reason; only the lookup
/// is no longer under way. An abandoned change moves no value either,
/// except that an abandoned mint has its escrow returned.
pub proof fn lemma_abandoned_change_alters_nothing(
    before: TokenView,
    token: u64,
    user_id_reply: Result<u128, PromiseError>,
    account_reply: Result<AccountId, PromiseError>,
)
    requires
        before.wf(),
    ensures
        before.user_id_outcome(token, user_id_reply).status is Err ==> {
            &&& before.after_user_id(token, user_id_reply).same_records(before)
            &&& before.user_id_outcome(token, user_id_reply).request is None
            &&& before.user_id_outcome(token, user_id_reply).transfer is Some ==> before.requests[token]
                matches PendingRequest::Identity { mutation: Mutation::Mint { .. }, .. }
        },
        before.new_owner_outcome(token, user_id_reply).status is Err ==> {
            &&& before.after_new_owner(token, user_id_reply).same_records(before)
            &&& before.new_owner_outcome(token, user_id_reply).request is None
            &&& before.new_owner_outcome(token, user_id_reply).transfer is None
        },
        before.payee_outcome(token, account_reply).status is Err ==> {
            &&& before.after_payee(token, account_reply).same_records(before)
            &&& before.payee_outcome(token, account_reply).request is None
            &&& before.payee_outcome(token, account_reply).transfer is None
        },
{
}

/// A lookup of the signer's identifier that fails, or gives another
/// identifier than the expected one, abandons the change with
/// `RemoteResolutionFault` or `IdentityMismatch`.
pub proof fn lemma_unconfirmed_identity_is_refused(
    before: TokenView,
    token: u64,
    reply: Result<u128, PromiseError>,
)
    requires
        before.awaits_identity(token),
        reply != Ok::<u128, PromiseError>(before.requests[token]->Identity_expected),
    ensures
        before.user_id_outcome(token, reply).status == (if reply is Err {
            Err::<(), RegistryError>(RegistryError::RemoteResolutionFault)
        } else {
            Err(RegistryError::IdentityMismatch)
        }),
{
}

/// An answer counts once. When a callback has received the answer to the
/// lookup that waited under a token, no lookup waits under that token any
/// more, and whatever is delivered under it again, to whichever callback,
/// is refused with `NotFound` and changes nothing.
pub proof fn lemma_answer_counts_once(
    before: TokenView,
    token: u64,
    user_id_reply: Result<u128, PromiseError>,
    account_reply: Result<AccountId, PromiseError>,
)
    requires
        before.wf(),
    ensures
        before.awaits_identity(token) ==> !before.after_user_id(
            token,
            user_id_reply,
        ).requests.contains_key(token),
        before.awaits_new_owner(token) ==> !before.after_new_owner(
            token,
            user_id_reply,
        ).requests.contains_key(token),
        before.awaits_payee(token) ==> !before.after_payee(token, account_reply).requests.contains_key(
            token,
        ),
        !before.requests.contains_key(token) ==> {
            &&& before.after_user_id(token, user_id_reply) == before
            &&& before.after_new_owner(token, user_id_reply) == before
            &&& before.after_payee(token, account_reply) == before
            &&& before.user_id_outcome(token, user_id_reply) == Outcome::abandoned(
                RegistryError::NotFound,
            )
            &&& before.new_owner_outcome(token, user_id_reply) == Outcome::abandoned(
                RegistryError::NotFound,
            )
            &&& before.payee_outcome(token, account_reply) == Outcome::abandoned(
                RegistryError::NotFound,
            )
        },
{
}

/// An owner is set once. When the answer to a lookup of an owner-to-be has
/// made an identifier other than the unset one the owner of an achievement,
/// then in whatever succeeds that registry and still records the
/// achievement, the owner is that identifier, and a further change of owner
/// is refused with `OwnerAlreadySet` before anything is asked, whichever
/// account it names.
pub proof fn lemma_owner_is_set_once(
    before: TokenView,
    token: u64,
    user_id: u128,
    later: TokenView,
    new_owner: AccountId,
)
    requires
        before.wf(),
        before.awaits_new_owner(token),
        before.new_owner_outcome(token, Ok(user_id)).status is Ok,
        user_id != UNSET_OWNER,
        later.succeeds(before.after_new_owner(token, Ok(user_id))),
        later.achievements.contains_key(before.requests[token]->NewOwner_achievement_id),
    ensures
        ({
            let achievement_id = before.requests[token]->NewOwner_achievement_id;
            let change = Mutation::UpdateOwner { achievement_id, new_owner };
            &&& before.after_new_owner(token, Ok(user_id)).achievements[achievement_id].owner
                == user_id
            &&& later.achievements[achievement_id].owner == user_id
            &&& later.owner_settable(achievement_id) == Err::<(), RegistryError>(
                RegistryError::OwnerAlreadySet,
            )
            &&& later.admissible(change) == Err::<(), RegistryError>(
                RegistryError::OwnerAlreadySet,
            )
            &&& later.requested(change) == later
        }),
{
    let achievement_id = before.requests[token]->NewOwner_achievement_id;
    let after = before.after_new_owner(token, Ok(user_id));
    assert(after.achievements.contains_key(achievement_id));
    assert(after.achievements[achievement_id].evolves_to(later.achievements[achievement_id]));
}

/// An escrow is paid out once. The answer to a lookup of a verifier's
/// account pays out only an achievement that is not verified, marks it as
/// verified in the same step and leaves nothing in its escrow; and in
/// whatever succeeds that registry, no further answer pays the achievement
/// out again.
pub proof fn lemma_escrow_is_paid_once(
    before: TokenView,
    token: u64,
    account: AccountId,
    later: TokenView,
    later_token: u64,
    later_account: AccountId,
)
    requires
        before.wf(),
        before.awaits_payee(token),
        before.payee_outcome(token, Ok(account)).status is Ok,
        later.wf(),
        later.succeeds(before.after_payee(token, Ok(account))),
        later.awaits_payee(later_token),
        later.requests[later_token]->Payee_achievement_id
            == before.requests[token]->Payee_achievement_id,
    ensures
        ({
            let achievement_id = before.requests[token]->Payee_achievement_id;
            let after = before.after_payee(token, Ok(account));
            &&& !before.achievements[achievement_id].is_verified
            &&& after.achievements[achievement_id].is_verified
            &&& after.achievements[achievement_id].balance == 0
            &&& before.payee_outcome(token, Ok(account)) == Outcome::pay(
                account,
                before.achievements[achievement_id].balance,
            )
            &&& later.payee_outcome(later_token, Ok(later_account)).status is Err
            &&& later.payee_outcome(later_token, Ok(later_account)).transfer is None
            &&& later.payable(achievement_id) is Err
        }),
{
    let achievement_id = before.requests[token]->Payee_achievement_id;
    let after = before.after_payee(token, Ok(account));
    assert(after.achievements.contains_key(achievement_id));
    if later.achievements.contains_key(achievement_id) {
        assert(after.achievements[achievement_id].evolves_to(later.achievements[achievement_id]));
    }
}

/// A burned achievement is gone for good: once the signer's identifier has
/// come back as the issuer on a request to burn, the record cannot be read,
/// its id stands in no index list, and no later mint can use the id.
pub proof fn lemma_burned_is_gone(
    before: TokenView,
    token: u64,
    later: TokenView,
    achievement: Achievement,
    deposit: u128,
)
    requires
        before.wf(),
        before.awaits_identity(token),
        before.requests[token]->Identity_mutation is Burn,
        before.user_id_outcome(
            token,
            Ok(before.requests[token]->Identity_expected),
        ).status is Ok,
        later.wf(),
        later.succeeds(
            before.after_user_id(token, Ok(before.requests[token]->Identity_expected)),
        ),
        achievement.achievement_id
            == before.requests[token]->Identity_mutation->Burn_achievement_id,
    ensures
        ({
            let achievement_id = achievement.achievement_id;
            let after = before.after_user_id(
                token,
                Ok(before.requests[token]->Identity_expected),
            );
            &&& after.wf()
            &&& after.recorded(achievement_id) == Err::<(), RegistryError>(
                RegistryError::NotFound,
            )
            &&& forall|key: u128|
                !after.issued_by(key, achievement_id) && !after.owned_by(key, achievement_id)
            &&& later.recorded(achievement_id) == Err::<(), RegistryError>(
                RegistryError::NotFound,
            )
            &&& later.mint_refusal(achievement, deposit) == Some(RegistryError::DuplicateId)
        }),
{
    let achievement_id = achievement.achievement_id;
    let expected = before.requests[token]->Identity_expected;
    let after = before.after_user_id(token, Ok(expected));
    let settled = before.settle(token);
    before.lemma_settle_wf(token);
    settled.lemma_commit_burn_wf(achievement_id);
    assert(after == settled.commit_burn(achievement_id));
    assert(after.retired.contains(achievement_id));
    assert(later.retired.contains(achievement_id));
    assert forall|key: u128|
        !after.issued_by(key, achievement_id) && !after.owned_by(key, achievement_id) by {
        assert(!after.achievements.contains_key(achievement_id));
    }
}

} // verus!
