use crate::achievement::{Achievement, UNSET_OWNER};
use crate::host::AccountId;
use crate::ledger::TokenView;
use crate::protocol::{Mutation, PromiseError};
use vstd::prelude::*;

verus! {

impl Achievement {
    /// Whether `later` can be what this record has become.
    ///
    /// Its id, type, issuer, verifier and data pointer are fixed. It stays
    /// verified once it is verified and accepted once it is accepted. Its
    /// owner, once set, stays. Its balance has gone down only if it was
    /// verified in between.
    pub open spec fn evolves_to(self, later: Achievement) -> bool {
        &&& later.achievement_id == self.achievement_id
        &&& later.achievement_type == self.achievement_type
        &&& later.issuer == self.issuer
        &&& later.verifier == self.verifier
        &&& later.data_address == self.data_address
        &&& self.is_verified ==> later.is_verified
        &&& self.is_accepted ==> later.is_accepted
        &&& self.owner != UNSET_OWNER ==> later.owner == self.owner
        &&& later.balance < self.balance ==> !self.is_verified && later.is_verified
    }
}

impl TokenView {
    /// Whether this registry can be what `before` has become.
    ///
    /// Burned ids stay burned; a record is still there or its id is burned;
    /// and every record that is still there has changed only as
    /// [`Achievement::evolves_to`] allows.
    pub open spec fn succeeds(self, before: TokenView) -> bool {
        &&& forall|id: u128| before.retired.contains(id) ==> self.retired.contains(id)
        &&& forall|id: u128|
            before.achievements.contains_key(id) ==> self.achievements.contains_key(id)
                || self.retired.contains(id)
        &&& forall|id: u128|
            before.achievements.contains_key(id) && self.achievements.contains_key(id) ==> (
            #[trigger] before.achievements[id]).evolves_to(self.achievements[id])
    }

    /// A registry succeeds itself, and any registry with the same records.
    pub proof fn lemma_succeeds_same_records(self, before: TokenView)
        requires
            self.same_records(before),
        ensures
            self.succeeds(before),
    {
    }

    /// What succeeds a successor succeeds the first registry, among well-formed
    /// registries.
    pub proof fn lemma_succeeds_transitive(self, middle: TokenView, before: TokenView)
        requires
            middle.wf(),
            self.wf(),
            middle.succeeds(before),
            self.succeeds(middle),
        ensures
            self.succeeds(before),
    {
        assert forall|id: u128|
            before.achievements.contains_key(id) && self.achievements.contains_key(id) implies (
        #[trigger] before.achievements[id]).evolves_to(self.achievements[id]) by {
            if !middle.achievements.contains_key(id) {
                assert(middle.retired.contains(id));
                assert(self.retired.contains(id));
            } else {
                assert(before.achievements[id].evolves_to(middle.achievements[id]));
                assert(middle.achievements[id].evolves_to(self.achievements[id]));
            }
        }
    }

    /// Asking for a change alters no record.
    pub proof fn lemma_requested_succeeds(self, mutation: Mutation)
        ensures
            self.requested(mutation).same_records(self),
            self.requested(mutation).succeeds(self),
    {
    }

    /// Adding to an escrow is a change that the history of a record allows.
    pub proof fn lemma_replenish_succeeds(self, id: u128, amount: u128)
        requires
            self.achievements.contains_key(id),
            self.achievements[id].balance + amount <= u128::MAX,
        ensures
            self.replenish(id, amount).succeeds(self),
    {
    }

    /// Whatever the answer to a lookup of the signer's identifier, the
    /// registry that results succeeds the one before.
    pub proof fn lemma_after_user_id_succeeds(self, token: u64, reply: Result<u128, PromiseError>)
        requires
            self.wf(),
        ensures
            self.after_user_id(token, reply).succeeds(self),
    {
        if self.awaits_identity(token) {
            let expected = self.requests[token]->Identity_expected;
            let mutation = self.requests[token]->Identity_mutation;
            if self.verdict(expected, mutation, reply) is Ok {
                match mutation {
                    Mutation::Mint { achievement, .. } => {
                        assert(!self.achievements.contains_key(achievement.achievement_id));
                    },
                    _ => {},
                }
            }
        }
    }

    /// Whatever the answer to a lookup of an owner-to-be, the registry that
    /// results succeeds the one before.
    pub proof fn lemma_after_new_owner_succeeds(self, token: u64, reply: Result<u128, PromiseError>)
        requires
            self.wf(),
        ensures
            self.after_new_owner(token, reply).succeeds(self),
    {
    }

    /// Whatever the answer to a lookup of a verifier's account, the registry
    /// that results succeeds the one before.
    pub proof fn lemma_after_payee_succeeds(self, token: u64, reply: Result<AccountId, PromiseError>)
        requires
            self.wf(),
        ensures
            self.after_payee(token, reply).succeeds(self),
    {
    }

    /// A verified achievement is never unverified again, and an id is never
    /// given to a second achievement: in whatever succeeds this registry, a
    /// record that is verified here is verified or gone, and an id burned
    /// here names no record.
    pub proof fn lemma_verified_for_good(self, later: TokenView, id: u128)
        requires
            later.wf(),
            later.succeeds(self),
        ensures
            self.achievements.contains_key(id) && self.achievements[id].is_verified
                && later.achievements.contains_key(id) ==> later.achievements[id].is_verified,
            self.retired.contains(id) ==> !later.achievements.contains_key(id),
    {
        if self.achievements.contains_key(id) && later.achievements.contains_key(id) {
            assert(self.achievements[id].evolves_to(later.achievements[id]));
        }
    }
}

} // verus!
