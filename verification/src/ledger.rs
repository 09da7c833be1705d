use crate::achievement::{Achievement, UNSET_OWNER};
use crate::error::RegistryError;
use crate::host::AccountId;
use crate::index::{appended, lemma_appended_members, lemma_without_first_of_distinct, without_first};
use crate::protocol::{Callback, Mutation, Outcome, PendingRequest, PromiseError, Query};
use vstd::prelude::*;

verus! {

/// The achievement registry as a mathematical value: the records, the two
/// indexes, the ids that were burned, and the lookups that are under way.
pub struct TokenView {
    pub achievements: Map<u128, Achievement>,
    pub by_issuer: Map<u128, Seq<u128>>,
    pub by_owner: Map<u128, Seq<u128>>,
    pub retired: Set<u128>,
    pub requests: Map<u64, PendingRequest>,
    pub next_token: u64,
}

impl TokenView {
    /// The registry that has recorded nothing and asked nothing.
    pub open spec fn empty() -> TokenView {
        TokenView {
            achievements: Map::empty(),
            by_issuer: Map::empty(),
            by_owner: Map::empty(),
            retired: Set::empty(),
            requests: Map::empty(),
            next_token: 0,
        }
    }

    /// Whether `id` stands in the index list of `issuer`.
    pub open spec fn issued_by(self, issuer: u128, id: u128) -> bool {
        self.by_issuer.contains_key(issuer) && self.by_issuer[issuer].contains(id)
    }

    /// Whether `id` stands in the index list of `owner`.
    pub open spec fn owned_by(self, owner: u128, id: u128) -> bool {
        self.by_owner.contains_key(owner) && self.by_owner[owner].contains(id)
    }

    /// What every reachable registry satisfies.
    ///
    /// A record is stored under its own id; no id is both recorded and
    /// burned; an id stands in an issuer's list exactly when it is recorded
    /// with that issuer, and likewise for owners; no list repeats an id;
    /// and every token in use was handed out before.
    pub open spec fn wf(self) -> bool {
        &&& forall|id: u128|
            self.achievements.contains_key(id) ==> (#[trigger] self.achievements[id]).achievement_id
                == id
        &&& forall|id: u128| !(self.achievements.contains_key(id) && self.retired.contains(id))
        &&& forall|issuer: u128, id: u128| #[trigger]
            self.issued_by(issuer, id) <==> self.achievements.contains_key(id)
                && self.achievements[id].issuer == issuer
        &&& forall|owner: u128, id: u128| #[trigger]
            self.owned_by(owner, id) <==> self.achievements.contains_key(id)
                && self.achievements[id].owner == owner
        &&& forall|issuer: u128|
            self.by_issuer.contains_key(issuer) ==> (#[trigger] self.by_issuer[issuer]).no_duplicates()
        &&& forall|owner: u128|
            self.by_owner.contains_key(owner) ==> (#[trigger] self.by_owner[owner]).no_duplicates()
        &&& forall|token: u64| #[trigger]
            self.requests.contains_key(token) ==> token < self.next_token
    }

    /// Whether the records, the indexes and the burned ids are those of
    /// `other`: everything but the bookkeeping of lookups.
    pub open spec fn same_records(self, other: TokenView) -> bool {
        &&& self.achievements == other.achievements
        &&& self.by_issuer == other.by_issuer
        &&& self.by_owner == other.by_owner
        &&& self.retired == other.retired
    }

    /// Whether `id` names an achievement that is recorded or was burned.
    pub open spec fn id_in_use(self, id: u128) -> bool {
        self.achievements.contains_key(id) || self.retired.contains(id)
    }

    /// Whether a further lookup can be given a token.
    pub open spec fn has_free_token(self) -> bool {
        self.next_token < u64::MAX
    }

    /// Whether `id` is recorded, and the refusal where it is not.
    pub open spec fn recorded(self, id: u128) -> Result<(), RegistryError> {
        if self.achievements.contains_key(id) {
            Ok(())
        } else {
            Err(RegistryError::NotFound)
        }
    }

    /// Whether the owner of `id` can still be set, and why not where it
    /// cannot.
    pub open spec fn owner_settable(self, id: u128) -> Result<(), RegistryError> {
        if !self.achievements.contains_key(id) {
            Err(RegistryError::NotFound)
        } else if self.achievements[id].owner != UNSET_OWNER {
            Err(RegistryError::OwnerAlreadySet)
        } else {
            Ok(())
        }
    }

    /// Whether the escrow of `id` can still be paid out, and why not where
    /// it cannot.
    pub open spec fn payable(self, id: u128) -> Result<(), RegistryError> {
        if !self.achievements.contains_key(id) {
            Err(RegistryError::NotFound)
        } else if self.achievements[id].is_verified {
            Err(RegistryError::AlreadyVerified)
        } else {
            Ok(())
        }
    }

    /// Whether the state of the registry lets `mutation` go ahead, and why
    /// not where it does not.
    pub open spec fn admissible(self, mutation: Mutation) -> Result<(), RegistryError> {
        match mutation {
            Mutation::Mint { achievement, .. } => if self.id_in_use(achievement.achievement_id) {
                Err(RegistryError::DuplicateId)
            } else {
                Ok(())
            },
            Mutation::Burn { achievement_id } => self.recorded(achievement_id),
            Mutation::UpdateOwner { achievement_id, .. } => self.owner_settable(achievement_id),
            Mutation::Accept { achievement_id } => self.recorded(achievement_id),
            Mutation::Verify { achievement_id } => self.payable(achievement_id),
        }
    }

    /// The identifier whose holder may ask for `mutation`: the issuer for
    /// minting, burning and a change of owner, the owner for accepting, the
    /// verifier for verifying.
    pub open spec fn authority(self, mutation: Mutation) -> u128 {
        match mutation {
            Mutation::Mint { achievement, .. } => achievement.issuer,
            Mutation::Burn { achievement_id } => self.achievements[achievement_id].issuer,
            Mutation::UpdateOwner { achievement_id, .. } => self.achievements[achievement_id].issuer,
            Mutation::Accept { achievement_id } => self.achievements[achievement_id].owner,
            Mutation::Verify { achievement_id } => self.achievements[achievement_id].verifier,
        }
    }

    /// The registry with `pending` recorded under the next token.
    pub open spec fn issue(self, pending: PendingRequest) -> TokenView {
        TokenView {
            requests: self.requests.insert(self.next_token, pending),
            next_token: (self.next_token + 1) as u64,
            ..self
        }
    }

    /// The registry without the lookup recorded under `token`.
    pub open spec fn settle(self, token: u64) -> TokenView {
        TokenView { requests: self.requests.remove(token), ..self }
    }

    /// The registry with `achievement` recorded and listed under its issuer
    /// and its owner.
    pub open spec fn commit_mint(self, achievement: Achievement) -> TokenView {
        let id = achievement.achievement_id;
        TokenView {
            achievements: self.achievements.insert(id, achievement),
            by_issuer: self.by_issuer.insert(
                achievement.issuer,
                appended(self.by_issuer, achievement.issuer, id),
            ),
            by_owner: self.by_owner.insert(
                achievement.owner,
                appended(self.by_owner, achievement.owner, id),
            ),
            ..self
        }
    }

    /// `index` with `id` taken out of the list of `key`, where there is one.
    pub open spec fn unlisted(index: Map<u128, Seq<u128>>, key: u128, id: u128) -> Map<
        u128,
        Seq<u128>,
    > {
        if index.contains_key(key) {
            index.insert(key, without_first(index[key], id))
        } else {
            index
        }
    }

    /// The registry with the record of `id` deleted, `id` taken out of both
    /// indexes, and `id` remembered as burned.
    pub open spec fn commit_burn(self, id: u128) -> TokenView {
        let record = self.achievements[id];
        TokenView {
            achievements: self.achievements.remove(id),
            by_issuer: Self::unlisted(self.by_issuer, record.issuer, id),
            by_owner: Self::unlisted(self.by_owner, record.owner, id),
            retired: self.retired.insert(id),
            ..self
        }
    }

    /// The registry with `owner` as the owner of `id`, and `id` moved to the
    /// index list of `owner`.
    pub open spec fn commit_owner(self, id: u128, owner: u128) -> TokenView {
        let record = self.achievements[id];
        let taken = Self::unlisted(self.by_owner, record.owner, id);
        TokenView {
            achievements: self.achievements.insert(id, record.with_owner(owner)),
            by_owner: taken.insert(owner, appended(taken, owner, id)),
            ..self
        }
    }

    /// The registry with `id` marked as accepted.
    pub open spec fn commit_accept(self, id: u128) -> TokenView {
        TokenView {
            achievements: self.achievements.insert(id, self.achievements[id].accepted()),
            ..self
        }
    }

    /// The registry with `id` marked as verified and its escrow emptied.
    pub open spec fn commit_payout(self, id: u128) -> TokenView {
        TokenView {
            achievements: self.achievements.insert(id, self.achievements[id].paid_out()),
            ..self
        }
    }

    /// The registry with `amount` added to the escrow of `id`.
    pub open spec fn replenish(self, id: u128, amount: u128) -> TokenView {
        TokenView {
            achievements: self.achievements.insert(id, self.achievements[id].replenished(amount)),
            ..self
        }
    }

    /// The registry after `mutation` has been asked for: as it was where
    /// its state does not let the change go ahead, else with a lookup of the
    /// signer's identifier under way, on which the change depends.
    pub open spec fn requested(self, mutation: Mutation) -> TokenView {
        if self.admissible(mutation) is Err {
            self
        } else {
            self.issue(
                PendingRequest::Identity { expected: self.authority(mutation), mutation },
            )
        }
    }

    /// Why a mint of `achievement` with `deposit` attached is refused at
    /// once, if it is: because the id is or was in use, else because the
    /// deposit does not cover the balance.
    pub open spec fn mint_refusal(self, achievement: Achievement, deposit: u128) -> Option<
        RegistryError,
    > {
        if self.id_in_use(achievement.achievement_id) {
            Some(RegistryError::DuplicateId)
        } else if deposit < achievement.balance {
            Some(RegistryError::InsufficientDeposit)
        } else {
            None
        }
    }

    /// Whether `token` names a lookup of the signer's identifier.
    pub open spec fn awaits_identity(self, token: u64) -> bool {
        self.requests.contains_key(token) && self.requests[token] is Identity
    }

    /// Whether `token` names a lookup of an owner-to-be.
    pub open spec fn awaits_new_owner(self, token: u64) -> bool {
        self.requests.contains_key(token) && self.requests[token] is NewOwner
    }

    /// Whether `token` names a lookup of a verifier's account.
    pub open spec fn awaits_payee(self, token: u64) -> bool {
        self.requests.contains_key(token) && self.requests[token] is Payee
    }

    /// Whether a change that waits for `expected` may be committed on
    /// `reply`, and why not where it may not: the lookup must have
    /// succeeded, it must have given `expected`, the state of the registry
    /// must still let the change go ahead, and `expected` must still be the
    /// identifier whose holder may ask for it.
    pub open spec fn verdict(self, expected: u128, mutation: Mutation, reply: Result<
        u128,
        PromiseError,
    >) -> Result<(), RegistryError> {
        match reply {
            Err(_) => Err(RegistryError::RemoteResolutionFault),
            Ok(user_id) => if user_id != expected {
                Err(RegistryError::IdentityMismatch)
            } else if self.admissible(mutation) is Err {
                self.admissible(mutation)
            } else if self.authority(mutation) != expected {
                Err(RegistryError::IdentityMismatch)
            } else {
                Ok(())
            },
        }
    }

    /// The registry after the answer `reply` to the identity lookup `token`.
    ///
    /// A token that names no such lookup changes nothing. Otherwise the
    /// lookup is settled, and where the verdict is favourable the change is
    /// committed, or, for a change of owner and for a verification, carried
    /// on with a second lookup.
    pub open spec fn after_user_id(self, token: u64, reply: Result<u128, PromiseError>) -> TokenView {
        if !self.awaits_identity(token) {
            self
        } else {
            let expected = self.requests[token]->Identity_expected;
            let mutation = self.requests[token]->Identity_mutation;
            let settled = self.settle(token);
            if self.verdict(expected, mutation, reply) is Err {
                settled
            } else {
                match mutation {
                    Mutation::Mint { achievement, .. } => settled.commit_mint(achievement),
                    Mutation::Burn { achievement_id } => settled.commit_burn(achievement_id),
                    Mutation::UpdateOwner { achievement_id, .. } => settled.issue(
                        PendingRequest::NewOwner { achievement_id },
                    ),
                    Mutation::Accept { achievement_id } => settled.commit_accept(achievement_id),
                    Mutation::Verify { achievement_id } => settled.issue(
                        PendingRequest::Payee { achievement_id },
                    ),
                }
            }
        }
    }

    /// What the host is told after the answer `reply` to the identity lookup
    /// `token`.
    ///
    /// An abandoned mint has the escrowed balance returned to its payer; no
    /// other abandoned change moves any value.
    pub open spec fn user_id_outcome(self, token: u64, reply: Result<u128, PromiseError>) -> Outcome {
        if !self.awaits_identity(token) {
            Outcome::abandoned(RegistryError::NotFound)
        } else {
            let expected = self.requests[token]->Identity_expected;
            let mutation = self.requests[token]->Identity_mutation;
            match self.verdict(expected, mutation, reply) {
                Err(error) => match mutation {
                    Mutation::Mint { achievement, payer } => Outcome::returned(
                        error,
                        payer,
                        achievement.balance,
                    ),
                    _ => Outcome::abandoned(error),
                },
                Ok(_) => match mutation {
                    Mutation::UpdateOwner { new_owner, .. } => Outcome::ask(
                        self.next_token,
                        Query::UserId(new_owner),
                        Callback::SetNewOwner,
                    ),
                    Mutation::Verify { achievement_id } => Outcome::ask(
                        self.next_token,
                        Query::AccountId(self.achievements[achievement_id].verifier),
                        Callback::TransferToVerifier,
                    ),
                    _ => Outcome::done(),
                },
            }
        }
    }

    /// Whether the owner of `id` may be set on `reply`, and why not where it
    /// may not.
    pub open spec fn owner_verdict(self, id: u128, reply: Result<u128, PromiseError>) -> Result<
        (),
        RegistryError,
    > {
        if reply is Err {
            Err(RegistryError::RemoteResolutionFault)
        } else {
            self.owner_settable(id)
        }
    }

    /// The registry after the answer `reply` to the owner lookup `token`.
    pub open spec fn after_new_owner(self, token: u64, reply: Result<u128, PromiseError>) -> TokenView {
        if !self.awaits_new_owner(token) {
            self
        } else {
            let id = self.requests[token]->NewOwner_achievement_id;
            let settled = self.settle(token);
            if self.owner_verdict(id, reply) is Err {
                settled
            } else {
                settled.commit_owner(id, reply->Ok_0)
            }
        }
    }

    /// What the host is told after the answer `reply` to the owner lookup
    /// `token`.
    pub open spec fn new_owner_outcome(self, token: u64, reply: Result<u128, PromiseError>) -> Outcome {
        if !self.awaits_new_owner(token) {
            Outcome::abandoned(RegistryError::NotFound)
        } else {
            match self.owner_verdict(self.requests[token]->NewOwner_achievement_id, reply) {
                Err(error) => Outcome::abandoned(error),
                Ok(_) => Outcome::done(),
            }
        }
    }

    /// Whether the escrow of `id` may be paid out on `reply`, and why not
    /// where it may not.
    pub open spec fn payout_verdict(self, id: u128, reply: Result<AccountId, PromiseError>) -> Result<
        (),
        RegistryError,
    > {
        if reply is Err {
            Err(RegistryError::RemoteResolutionFault)
        } else {
            self.payable(id)
        }
    }

    /// The registry after the answer `reply` to the payee lookup `token`.
    pub open spec fn after_payee(self, token: u64, reply: Result<AccountId, PromiseError>) -> TokenView {
        if !self.awaits_payee(token) {
            self
        } else {
            let id = self.requests[token]->Payee_achievement_id;
            let settled = self.settle(token);
            if self.payout_verdict(id, reply) is Err {
                settled
            } else {
                settled.commit_payout(id)
            }
        }
    }

    /// What the host is told after the answer `reply` to the payee lookup
    /// `token`: on success, to pay the whole escrow to the account that the
    /// lookup gave.
    pub open spec fn payee_outcome(self, token: u64, reply: Result<AccountId, PromiseError>) -> Outcome {
        if !self.awaits_payee(token) {
            Outcome::abandoned(RegistryError::NotFound)
        } else {
            let id = self.requests[token]->Payee_achievement_id;
            match self.payout_verdict(id, reply) {
                Err(error) => Outcome::abandoned(error),
                Ok(_) => Outcome::pay(reply->Ok_0, self.achievements[id].balance),
            }
        }
    }
}

impl TokenView {
    /// Recording a lookup under the next token keeps the registry
    /// well-formed, as long as a token is left.
    pub proof fn lemma_issue_wf(self, pending: PendingRequest)
        requires
            self.wf(),
            self.has_free_token(),
        ensures
            self.issue(pending).wf(),
            self.issue(pending).same_records(self),
    {
        let after = self.issue(pending);
        assert forall|issuer: u128, id: u128| #[trigger]
            after.issued_by(issuer, id) <==> after.achievements.contains_key(id)
                && after.achievements[id].issuer == issuer by {
            assert(after.issued_by(issuer, id) == self.issued_by(issuer, id));
        }
        assert forall|owner: u128, id: u128| #[trigger]
            after.owned_by(owner, id) <==> after.achievements.contains_key(id)
                && after.achievements[id].owner == owner by {
            assert(after.owned_by(owner, id) == self.owned_by(owner, id));
        }
    }

    /// Settling a lookup keeps the registry well-formed.
    pub proof fn lemma_settle_wf(self, token: u64)
        requires
            self.wf(),
        ensures
            self.settle(token).wf(),
            self.settle(token).same_records(self),
            self.settle(token).next_token == self.next_token,
    {
        let after = self.settle(token);
        assert forall|issuer: u128, id: u128| #[trigger]
            after.issued_by(issuer, id) <==> after.achievements.contains_key(id)
                && after.achievements[id].issuer == issuer by {
            assert(after.issued_by(issuer, id) == self.issued_by(issuer, id));
        }
        assert forall|owner: u128, id: u128| #[trigger]
            after.owned_by(owner, id) <==> after.achievements.contains_key(id)
                && after.achievements[id].owner == owner by {
            assert(after.owned_by(owner, id) == self.owned_by(owner, id));
        }
    }

    /// Recording an achievement under an id that was never in use keeps the
    /// registry well-formed.
    pub proof fn lemma_commit_mint_wf(self, achievement: Achievement)
        requires
            self.wf(),
            !self.id_in_use(achievement.achievement_id),
        ensures
            self.commit_mint(achievement).wf(),
    {
        let after = self.commit_mint(achievement);
        let new_id = achievement.achievement_id;
        lemma_appended_members(self.by_issuer, achievement.issuer, new_id);
        lemma_appended_members(self.by_owner, achievement.owner, new_id);
        assert(!self.issued_by(achievement.issuer, new_id));
        assert(!self.owned_by(achievement.owner, new_id));
        assert forall|issuer: u128, id: u128| #[trigger]
            after.issued_by(issuer, id) <==> after.achievements.contains_key(id)
                && after.achievements[id].issuer == issuer by {
            if issuer != achievement.issuer {
                assert(after.issued_by(issuer, id) == self.issued_by(issuer, id));
            } else {
                assert(after.issued_by(issuer, id) <==> id == new_id || self.issued_by(issuer, id));
            }
        }
        assert forall|owner: u128, id: u128| #[trigger]
            after.owned_by(owner, id) <==> after.achievements.contains_key(id)
                && after.achievements[id].owner == owner by {
            if owner != achievement.owner {
                assert(after.owned_by(owner, id) == self.owned_by(owner, id));
            } else {
                assert(after.owned_by(owner, id) <==> id == new_id || self.owned_by(owner, id));
            }
        }
    }

    /// Taking `id` out of the list of `key` takes it out of that list only,
    /// and repeats nothing where nothing was repeated.
    pub proof fn lemma_unlisted_members(index: Map<u128, Seq<u128>>, key: u128, id: u128)
        requires
            forall|k: u128| index.contains_key(k) ==> (#[trigger] index[k]).no_duplicates(),
        ensures
            Self::unlisted(index, key, id).dom() == index.dom(),
            forall|k: u128|
                index.contains_key(k) ==> (#[trigger] Self::unlisted(index, key, id)[k]).no_duplicates(),
            forall|k: u128, other: u128|
                index.contains_key(k) ==> (#[trigger] Self::unlisted(index, key, id)[k].contains(other)
                    <==> index[k].contains(other) && !(k == key && other == id)),
    {
        let after = Self::unlisted(index, key, id);
        assert(after.dom() =~= index.dom());
        if index.contains_key(key) {
            lemma_without_first_of_distinct(index[key], id);
        }
    }

    /// Deleting a recorded achievement keeps the registry well-formed.
    pub proof fn lemma_commit_burn_wf(self, id: u128)
        requires
            self.wf(),
            self.achievements.contains_key(id),
        ensures
            self.commit_burn(id).wf(),
    {
        let after = self.commit_burn(id);
        let record = self.achievements[id];
        Self::lemma_unlisted_members(self.by_issuer, record.issuer, id);
        Self::lemma_unlisted_members(self.by_owner, record.owner, id);
        assert forall|issuer: u128, other: u128| #[trigger]
            after.issued_by(issuer, other) <==> after.achievements.contains_key(other)
                && after.achievements[other].issuer == issuer by {
            assert(after.by_issuer.contains_key(issuer) == self.by_issuer.contains_key(issuer));
            assert(after.issued_by(issuer, other) <==> self.issued_by(issuer, other) && !(issuer
                == record.issuer && other == id));
        }
        assert forall|owner: u128, other: u128| #[trigger]
            after.owned_by(owner, other) <==> after.achievements.contains_key(other)
                && after.achievements[other].owner == owner by {
            assert(after.by_owner.contains_key(owner) == self.by_owner.contains_key(owner));
            assert(after.owned_by(owner, other) <==> self.owned_by(owner, other) && !(owner
                == record.owner && other == id));
        }
    }

    /// Giving a recorded achievement an owner keeps the registry
    /// well-formed.
    pub proof fn lemma_commit_owner_wf(self, id: u128, owner: u128)
        requires
            self.wf(),
            self.achievements.contains_key(id),
        ensures
            self.commit_owner(id, owner).wf(),
    {
        let after = self.commit_owner(id, owner);
        let record = self.achievements[id];
        let taken = Self::unlisted(self.by_owner, record.owner, id);
        Self::lemma_unlisted_members(self.by_owner, record.owner, id);
        lemma_appended_members(taken, owner, id);
        assert(self.owned_by(record.owner, id));
        assert forall|issuer: u128, other: u128| #[trigger]
            after.issued_by(issuer, other) <==> after.achievements.contains_key(other)
                && after.achievements[other].issuer == issuer by {
            assert(after.issued_by(issuer, other) == self.issued_by(issuer, other));
        }
        assert forall|holder: u128, other: u128| #[trigger]
            after.owned_by(holder, other) <==> after.achievements.contains_key(other)
                && after.achievements[other].owner == holder by {
            assert(taken.contains_key(holder) == self.by_owner.contains_key(holder));
            if holder == owner {
                assert(after.owned_by(holder, other) <==> other == id || (self.owned_by(
                    holder,
                    other,
                ) && !(holder == record.owner && other == id)));
            } else {
                assert(after.owned_by(holder, other) <==> self.owned_by(holder, other) && !(holder
                    == record.owner && other == id));
            }
        }
        assert forall|holder: u128| after.by_owner.contains_key(holder) implies (
        #[trigger] after.by_owner[holder]).no_duplicates() by {
            if holder == owner {
                if taken.contains_key(owner) {
                    assert(!taken[owner].contains(id)) by {
                        if owner != record.owner {
                            assert(!self.owned_by(owner, id));
                        }
                    }
                }
            } else {
                assert(taken.contains_key(holder));
            }
        }
    }

    /// Replacing a recorded achievement by one with the same id, issuer and
    /// owner keeps the registry well-formed.
    pub proof fn lemma_update_wf(self, id: u128, record: Achievement)
        requires
            self.wf(),
            self.achievements.contains_key(id),
            record.achievement_id == id,
            record.issuer == self.achievements[id].issuer,
            record.owner == self.achievements[id].owner,
        ensures
            (TokenView { achievements: self.achievements.insert(id, record), ..self }).wf(),
    {
        let after = TokenView { achievements: self.achievements.insert(id, record), ..self };
        assert forall|issuer: u128, other: u128| #[trigger]
            after.issued_by(issuer, other) <==> after.achievements.contains_key(other)
                && after.achievements[other].issuer == issuer by {
            assert(after.issued_by(issuer, other) == self.issued_by(issuer, other));
        }
        assert forall|owner: u128, other: u128| #[trigger]
            after.owned_by(owner, other) <==> after.achievements.contains_key(other)
                && after.achievements[other].owner == owner by {
            assert(after.owned_by(owner, other) == self.owned_by(owner, other));
        }
    }
}

} // verus!
