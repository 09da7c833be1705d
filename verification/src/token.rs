use crate::achievement::{Achievement, UNSET_OWNER};
use crate::error::RegistryError;
use crate::host::{AccountId, CallContext, Transfer};
use crate::index::{appended, remove_first};
use crate::ledger::TokenView;
use crate::protocol::{
    Callback, MintReceipt, Mutation, Outcome, PendingRequest, PromiseError, Query, ResolutionRequest,
};
use std::collections::{HashMap, HashSet};
use vstd::prelude::*;

verus! {

broadcast use vstd::std_specs::hash::group_hash_axioms;

/// The lists of an index, as sequences.
pub open spec fn lists_of(index: HashMap<u128, Vec<u128>>) -> Map<u128, Seq<u128>> {
    index@.map_values(|list: Vec<u128>| list@)
}

/// Appends `id` to the list of `key`, starting the list where there is none.
fn enlist(index: &mut HashMap<u128, Vec<u128>>, key: u128, id: u128)
    ensures
        lists_of(*final(index)) == lists_of(*old(index)).insert(
            key,
            appended(lists_of(*old(index)), key, id),
        ),
{
    let mut list = match index.remove(&key) {
        Some(list) => list,
        None => Vec::new(),
    };
    list.push(id);
    index.insert(key, list);
    assert(lists_of(*index) =~= lists_of(*old(index)).insert(
        key,
        appended(lists_of(*old(index)), key, id),
    ));
}

/// Takes `id` out of the list of `key`, where there is such a list.
fn unlist(index: &mut HashMap<u128, Vec<u128>>, key: u128, id: u128)
    ensures
        lists_of(*final(index)) == TokenView::unlisted(lists_of(*old(index)), key, id),
{
    match index.remove(&key) {
        Some(list) => {
            let mut list = list;
            remove_first(&mut list, id);
            index.insert(key, list);
        },
        None => {},
    }
    assert(lists_of(*index) =~= TokenView::unlisted(lists_of(*old(index)), key, id));
}

/// The list of `key` in `index`, empty where there is none.
fn listed(index: &HashMap<u128, Vec<u128>>, key: u128) -> (ids: Vec<u128>)
    ensures
        ids@ == (if lists_of(*index).contains_key(key) {
            lists_of(*index)[key]
        } else {
            Seq::empty()
        }),
{
    match index.get(&key) {
        Some(list) => list.clone(),
        None => Vec::new(),
    }
}

/// The achievement registry: the records, an index of their ids by issuer
/// and one by owner, and the lookups at the identity service that its
/// changes wait for.
///
/// A change is asked for in one call and takes effect in another: the first
/// call checks what can be checked at once and hands back a lookup for the
/// host to send; the callback that receives the answer commits the change
/// or abandons it. Nothing is altered in between.
pub struct AchievementToken {
    achievements: HashMap<u128, Achievement>,
    issuers_achievements: HashMap<u128, Vec<u128>>,
    users_achievements: HashMap<u128, Vec<u128>>,
    retired: HashSet<u128>,
    requests: HashMap<u64, PendingRequest>,
    next_token: u64,
}

impl View for AchievementToken {
    type V = TokenView;

    closed spec fn view(&self) -> TokenView {
        TokenView {
            achievements: self.achievements@,
            by_issuer: lists_of(self.issuers_achievements),
            by_owner: lists_of(self.users_achievements),
            retired: self.retired@,
            requests: self.requests@,
            next_token: self.next_token,
        }
    }
}

impl AchievementToken {
    /// Whether the registry is in a state that its own operations produce.
    pub open spec fn wf(&self) -> bool {
        self@.wf()
    }

    /// The registry that has recorded nothing and asked nothing.
    pub fn init() -> (registry: AchievementToken)
        ensures
            registry.wf(),
            registry@ == TokenView::empty(),
    {
        let registry = AchievementToken {
            achievements: HashMap::new(),
            issuers_achievements: HashMap::new(),
            users_achievements: HashMap::new(),
            retired: HashSet::new(),
            requests: HashMap::new(),
            next_token: 0,
        };
        assert(registry@.by_issuer =~= Map::empty());
        assert(registry@.by_owner =~= Map::empty());
        registry
    }

    /// Whether a further lookup can be given a token.
    pub fn has_free_token(&self) -> (yes: bool)
        ensures
            yes == self@.has_free_token(),
    {
        self.next_token < u64::MAX
    }

    /// Whether a lookup is under way under `token`.
    pub fn is_pending(&self, token: u64) -> (yes: bool)
        ensures
            yes == self@.requests.contains_key(token),
    {
        self.requests.contains_key(&token)
    }

    /// The ids of the achievements issued by `issuer`, oldest first.
    pub fn issued_by(&self, issuer: u128) -> (ids: Vec<u128>)
        ensures
            ids@ == (if self@.by_issuer.contains_key(issuer) {
                self@.by_issuer[issuer]
            } else {
                Seq::empty()
            }),
    {
        listed(&self.issuers_achievements, issuer)
    }

    /// The ids of the achievements owned by `owner`, in the order in which
    /// they came to it.
    pub fn owned_by(&self, owner: u128) -> (ids: Vec<u128>)
        ensures
            ids@ == (if self@.by_owner.contains_key(owner) {
                self@.by_owner[owner]
            } else {
                Seq::empty()
            }),
    {
        listed(&self.users_achievements, owner)
    }

    /// The record of `achievement_id`.
    ///
    /// Refused with `NotFound` where there is none.
    pub fn get_achievement_data(&self, achievement_id: u128) -> (result: Result<
        Achievement,
        RegistryError,
    >)
        ensures
            result == (if self@.achievements.contains_key(achievement_id) {
                Ok::<Achievement, RegistryError>(self@.achievements[achievement_id])
            } else {
                Err(RegistryError::NotFound)
            }),
    {
        match self.achievements.get(&achievement_id) {
            Some(record) => Ok(record.clone()),
            None => Err(RegistryError::NotFound),
        }
    }

    /// Records `pending` under the next token and gives the token.
    fn register(&mut self, pending: PendingRequest) -> (token: u64)
        requires
            old(self).wf(),
            old(self)@.has_free_token(),
        ensures
            final(self).wf(),
            final(self)@ == old(self)@.issue(pending),
            token == old(self)@.next_token,
    {
        let token = self.next_token;
        self.requests.insert(token, pending);
        self.next_token = token + 1;
        proof {
            old(self)@.lemma_issue_wf(pending);
            assert(self@ =~= old(self)@.issue(pending));
        }
        token
    }

    /// Asks for the identifier of `user`, on whose being `id` the change
    /// `mutation` depends.
    fn get_user_id(&mut self, user: AccountId, id: u128, mutation: Mutation) -> (request:
        ResolutionRequest)
        requires
            old(self).wf(),
            old(self)@.has_free_token(),
        ensures
            final(self).wf(),
            final(self)@ == old(self)@.issue(PendingRequest::Identity { expected: id, mutation }),
            request == (ResolutionRequest {
                token: old(self)@.next_token,
                query: Query::UserId(user),
                callback: Callback::GetUserId,
            }),
    {
        let token = self.register(PendingRequest::Identity { expected: id, mutation });
        ResolutionRequest { token, query: Query::UserId(user), callback: Callback::GetUserId }
    }

    /// Asks for the identifier of `user`, who is to own `achievement_id`.
    fn set_new_owner(&mut self, user: AccountId, achievement_id: u128) -> (request:
        ResolutionRequest)
        requires
            old(self).wf(),
            old(self)@.has_free_token(),
        ensures
            final(self).wf(),
            final(self)@ == old(self)@.issue(PendingRequest::NewOwner { achievement_id }),
            request == (ResolutionRequest {
                token: old(self)@.next_token,
                query: Query::UserId(user),
                callback: Callback::SetNewOwner,
            }),
    {
        let token = self.register(PendingRequest::NewOwner { achievement_id });
        ResolutionRequest { token, query: Query::UserId(user), callback: Callback::SetNewOwner }
    }

    /// Asks for the account of `user_id`, the verifier to whom the escrow of
    /// `achievement_id` is to be paid.
    fn transfer_to_verifier(&mut self, user_id: u128, achievement_id: u128) -> (request:
        ResolutionRequest)
        requires
            old(self).wf(),
            old(self)@.has_free_token(),
        ensures
            final(self).wf(),
            final(self)@ == old(self)@.issue(PendingRequest::Payee { achievement_id }),
            request == (ResolutionRequest {
                token: old(self)@.next_token,
                query: Query::AccountId(user_id),
                callback: Callback::TransferToVerifier,
            }),
    {
        let token = self.register(PendingRequest::Payee { achievement_id });
        ResolutionRequest {
            token,
            query: Query::AccountId(user_id),
            callback: Callback::TransferToVerifier,
        }
    }

    /// Whether the owner of `achievement_id` can still be set.
    fn owner_settable(&self, achievement_id: u128) -> (result: Result<(), RegistryError>)
        ensures
            result == self@.owner_settable(achievement_id),
    {
        match self.achievements.get(&achievement_id) {
            Some(record) => if record.owner != UNSET_OWNER {
                Err(RegistryError::OwnerAlreadySet)
            } else {
                Ok(())
            },
            None => Err(RegistryError::NotFound),
        }
    }

    /// Whether the escrow of `achievement_id` can still be paid out.
    fn payable(&self, achievement_id: u128) -> (result: Result<(), RegistryError>)
        ensures
            result == self@.payable(achievement_id),
    {
        match self.achievements.get(&achievement_id) {
            Some(record) => if record.is_verified {
                Err(RegistryError::AlreadyVerified)
            } else {
                Ok(())
            },
            None => Err(RegistryError::NotFound),
        }
    }

    /// Whether the state of the registry lets `mutation` go ahead; where it
    /// does, the identifier whose holder may ask for it.
    fn check(&self, mutation: &Mutation) -> (result: Result<u128, RegistryError>)
        ensures
            match result {
                Ok(authority) => self@.admissible(*mutation) is Ok && authority == self@.authority(
                    *mutation,
                ),
                Err(error) => self@.admissible(*mutation) == Err::<(), RegistryError>(error),
            },
    {
        match mutation {
            Mutation::Mint { achievement, .. } => {
                if self.achievements.contains_key(&achievement.achievement_id)
                    || self.retired.contains(&achievement.achievement_id) {
                    Err(RegistryError::DuplicateId)
                } else {
                    Ok(achievement.issuer)
                }
            },
            Mutation::Burn { achievement_id } => match self.achievements.get(achievement_id) {
                Some(record) => Ok(record.issuer),
                None => Err(RegistryError::NotFound),
            },
            Mutation::UpdateOwner { achievement_id, .. } => match self.owner_settable(
                *achievement_id,
            ) {
                Ok(_) => match self.achievements.get(achievement_id) {
                    Some(record) => Ok(record.issuer),
                    None => Err(RegistryError::NotFound),
                },
                Err(error) => Err(error),
            },
            Mutation::Accept { achievement_id } => match self.achievements.get(achievement_id) {
                Some(record) => Ok(record.owner),
                None => Err(RegistryError::NotFound),
            },
            Mutation::Verify { achievement_id } => match self.payable(*achievement_id) {
                Ok(_) => match self.achievements.get(achievement_id) {
                    Some(record) => Ok(record.verifier),
                    None => Err(RegistryError::NotFound),
                },
                Err(error) => Err(error),
            },
        }
    }

    /// Whether a change that waits for `expected` may be committed on
    /// `reply`.
    fn judge(&self, expected: u128, mutation: &Mutation, reply: Result<u128, PromiseError>) -> (result:
        Result<(), RegistryError>)
        ensures
            result == self@.verdict(expected, *mutation, reply),
    {
        match reply {
            Err(_) => Err(RegistryError::RemoteResolutionFault),
            Ok(user_id) => {
                if user_id != expected {
                    return Err(RegistryError::IdentityMismatch);
                }
                match self.check(mutation) {
                    Err(error) => Err(error),
                    Ok(authority) => if authority != expected {
                        Err(RegistryError::IdentityMismatch)
                    } else {
                        Ok(())
                    },
                }
            },
        }
    }

    /// Records `achievement` and lists it under its issuer and its owner.
    fn commit_mint(&mut self, achievement: Achievement)
        requires
            old(self).wf(),
            !old(self)@.id_in_use(achievement.achievement_id),
        ensures
            final(self).wf(),
            final(self)@ == old(self)@.commit_mint(achievement),
    {
        let current_id = achievement.achievement_id;
        let issuer = achievement.issuer;
        let owner = achievement.owner;
        self.achievements.insert(current_id, achievement);
        enlist(&mut self.issuers_achievements, issuer, current_id);
        enlist(&mut self.users_achievements, owner, current_id);
        proof {
            old(self)@.lemma_commit_mint_wf(achievement);
            assert(self@ =~= old(self)@.commit_mint(achievement));
        }
    }

    /// Deletes the record of `achievement_id`, takes the id out of both
    /// indexes and remembers it as burned.
    fn commit_burn(&mut self, achievement_id: u128)
        requires
            old(self).wf(),
            old(self)@.achievements.contains_key(achievement_id),
        ensures
            final(self).wf(),
            final(self)@ == old(self)@.commit_burn(achievement_id),
    {
        match self.achievements.remove(&achievement_id) {
            Some(record) => {
                unlist(&mut self.issuers_achievements, record.issuer, achievement_id);
                unlist(&mut self.users_achievements, record.owner, achievement_id);
                self.retired.insert(achievement_id);
            },
            None => {},
        }
        proof {
            old(self)@.lemma_commit_burn_wf(achievement_id);
            assert(self@ =~= old(self)@.commit_burn(achievement_id));
        }
    }

    /// Makes `owner` the owner of `achievement_id` and moves the id to the
    /// index list of `owner`.
    fn commit_owner(&mut self, achievement_id: u128, owner: u128)
        requires
            old(self).wf(),
            old(self)@.achievements.contains_key(achievement_id),
        ensures
            final(self).wf(),
            final(self)@ == old(self)@.commit_owner(achievement_id, owner),
    {
        match self.achievements.remove(&achievement_id) {
            Some(record) => {
                let mut record = record;
                unlist(&mut self.users_achievements, record.owner, achievement_id);
                enlist(&mut self.users_achievements, owner, achievement_id);
                record.owner = owner;
                self.achievements.insert(achievement_id, record);
            },
            None => {},
        }
        proof {
            old(self)@.lemma_commit_owner_wf(achievement_id, owner);
            let after = old(self)@.commit_owner(achievement_id, owner);
            assert(self@.achievements =~= after.achievements);
            assert(self@.by_owner =~= after.by_owner);
        }
    }

    /// Marks `achievement_id` as accepted.
    fn commit_accept(&mut self, achievement_id: u128)
        requires
            old(self).wf(),
            old(self)@.achievements.contains_key(achievement_id),
        ensures
            final(self).wf(),
            final(self)@ == old(self)@.commit_accept(achievement_id),
    {
        match self.achievements.remove(&achievement_id) {
            Some(record) => {
                let mut record = record;
                record.is_accepted = true;
                self.achievements.insert(achievement_id, record);
            },
            None => {},
        }
        proof {
            old(self)@.lemma_update_wf(
                achievement_id,
                old(self)@.achievements[achievement_id].accepted(),
            );
            assert(self@.achievements =~= old(self)@.commit_accept(achievement_id).achievements);
        }
    }

    /// Marks `achievement_id` as verified, empties its escrow and gives what
    /// the escrow held.
    fn commit_payout(&mut self, achievement_id: u128) -> (money: u128)
        requires
            old(self).wf(),
            old(self)@.achievements.contains_key(achievement_id),
        ensures
            final(self).wf(),
            final(self)@ == old(self)@.commit_payout(achievement_id),
            money == old(self)@.achievements[achievement_id].balance,
    {
        let mut money: u128 = 0;
        match self.achievements.remove(&achievement_id) {
            Some(record) => {
                let mut record = record;
                money = record.balance;
                record.is_verified = true;
                record.balance = 0;
                self.achievements.insert(achievement_id, record);
            },
            None => {},
        }
        proof {
            old(self)@.lemma_update_wf(
                achievement_id,
                old(self)@.achievements[achievement_id].paid_out(),
            );
            assert(self@.achievements =~= old(self)@.commit_payout(achievement_id).achievements);
        }
        money
    }

    /// The first half of every change that depends on the signer's
    /// identity: checks what the registry's state decides, and where the
    /// change may go ahead asks for the signer's identifier.
    fn request_change(&mut self, ctx: &CallContext, mutation: Mutation) -> (result: Result<
        ResolutionRequest,
        RegistryError,
    >)
        requires
            old(self).wf(),
            old(self)@.has_free_token(),
        ensures
            final(self).wf(),
            final(self)@ == old(self)@.requested(mutation),
            match old(self)@.admissible(mutation) {
                Err(error) => result == Err::<ResolutionRequest, RegistryError>(error),
                Ok(_) => result == Ok::<ResolutionRequest, RegistryError>(
                    ResolutionRequest {
                        token: old(self)@.next_token,
                        query: Query::UserId(ctx.signer),
                        callback: Callback::GetUserId,
                    },
                ),
            },
    {
        match self.check(&mutation) {
            Err(error) => Err(error),
            Ok(authority) => Ok(self.get_user_id(ctx.signer.clone(), authority, mutation)),
        }
    }

    /// Asks for `achievement` to be recorded, with the attached deposit as
    /// its escrow.
    ///
    /// Refused with `DuplicateId` where the id is recorded or was burned,
    /// else with `InsufficientDeposit` where the deposit is less than the
    /// achievement's balance; the registry is then unchanged. Otherwise
    /// what the deposit exceeds the balance by goes back to the signer at
    /// once, and the achievement is recorded when the signer's identifier
    /// comes back as its issuer.
    pub fn mint(&mut self, ctx: &CallContext, achievement: Achievement) -> (result: Result<
        MintReceipt,
        RegistryError,
    >)
        requires
            old(self).wf(),
            old(self)@.has_free_token(),
        ensures
            final(self).wf(),
            final(self)@.succeeds(old(self)@),
            match old(self)@.mint_refusal(achievement, ctx.attached_deposit) {
                Some(error) => {
                    &&& result == Err::<MintReceipt, RegistryError>(error)
                    &&& final(self)@ == old(self)@
                },
                None => {
                    &&& result == Ok::<MintReceipt, RegistryError>(
                        MintReceipt {
                            request: ResolutionRequest {
                                token: old(self)@.next_token,
                                query: Query::UserId(ctx.signer),
                                callback: Callback::GetUserId,
                            },
                            refund: Transfer {
                                destination: ctx.signer,
                                amount: (ctx.attached_deposit - achievement.balance) as u128,
                            },
                        },
                    )
                    &&& final(self)@ == old(self)@.issue(
                        PendingRequest::Identity {
                            expected: achievement.issuer,
                            mutation: Mutation::Mint { achievement, payer: ctx.signer },
                        },
                    )
                },
            },
    {
        if self.achievements.contains_key(&achievement.achievement_id) || self.retired.contains(
            &achievement.achievement_id,
        ) {
            return Err(RegistryError::DuplicateId);
        }
        if ctx.attached_deposit < achievement.balance {
            return Err(RegistryError::InsufficientDeposit);
        }
        let return_money: u128 = ctx.attached_deposit - achievement.balance;
        let refund = Transfer { destination: ctx.signer.clone(), amount: return_money };
        let issuer = achievement.issuer;
        let mutation = Mutation::Mint { achievement, payer: ctx.signer.clone() };
        let request = self.get_user_id(ctx.signer.clone(), issuer, mutation);
        Ok(MintReceipt { request, refund })
    }

    /// Asks for `achievement_id` to be deleted.
    ///
    /// Refused with `NotFound` where it is not recorded. Otherwise it is
    /// deleted when the signer's identifier comes back as its issuer.
    pub fn burn(&mut self, ctx: &CallContext, achievement_id: u128) -> (result: Result<
        ResolutionRequest,
        RegistryError,
    >)
        requires
            old(self).wf(),
            old(self)@.has_free_token(),
        ensures
            final(self).wf(),
            final(self)@.succeeds(old(self)@),
            final(self)@ == old(self)@.requested(Mutation::Burn { achievement_id }),
            match old(self)@.recorded(achievement_id) {
                Err(error) => result == Err::<ResolutionRequest, RegistryError>(error),
                Ok(_) => result == Ok::<ResolutionRequest, RegistryError>(
                    ResolutionRequest {
                        token: old(self)@.next_token,
                        query: Query::UserId(ctx.signer),
                        callback: Callback::GetUserId,
                    },
                ),
            },
    {
        proof {
            old(self)@.lemma_requested_succeeds(Mutation::Burn { achievement_id });
        }
        self.request_change(ctx, Mutation::Burn { achievement_id })
    }

    /// Asks for the identifier of `new_owner` to become the owner of
    /// `achievement_id`.
    ///
    /// Refused with `NotFound` where the achievement is not recorded, else
    /// with `OwnerAlreadySet` where it has an owner. Otherwise, when the
    /// signer's identifier comes back as the issuer, the identifier of
    /// `new_owner` is asked for, and set as the owner when it comes back.
    pub fn update_owner(&mut self, ctx: &CallContext, achievement_id: u128, new_owner: AccountId) -> (result:
        Result<ResolutionRequest, RegistryError>)
        requires
            old(self).wf(),
            old(self)@.has_free_token(),
        ensures
            final(self).wf(),
            final(self)@.succeeds(old(self)@),
            final(self)@ == old(self)@.requested(Mutation::UpdateOwner { achievement_id, new_owner }),
            match old(self)@.owner_settable(achievement_id) {
                Err(error) => result == Err::<ResolutionRequest, RegistryError>(error),
                Ok(_) => result == Ok::<ResolutionRequest, RegistryError>(
                    ResolutionRequest {
                        token: old(self)@.next_token,
                        query: Query::UserId(ctx.signer),
                        callback: Callback::GetUserId,
                    },
                ),
            },
    {
        proof {
            old(self)@.lemma_requested_succeeds(Mutation::UpdateOwner { achievement_id, new_owner });
        }
        self.request_change(ctx, Mutation::UpdateOwner { achievement_id, new_owner })
    }

    /// Asks for `achievement_id` to be marked as accepted.
    ///
    /// Refused with `NotFound` where it is not recorded. Otherwise it is
    /// marked when the signer's identifier comes back as its owner.
    pub fn accept_achievement(&mut self, ctx: &CallContext, achievement_id: u128) -> (result: Result<
        ResolutionRequest,
        RegistryError,
    >)
        requires
            old(self).wf(),
            old(self)@.has_free_token(),
        ensures
            final(self).wf(),
            final(self)@.succeeds(old(self)@),
            final(self)@ == old(self)@.requested(Mutation::Accept { achievement_id }),
            match old(self)@.recorded(achievement_id) {
                Err(error) => result == Err::<ResolutionRequest, RegistryError>(error),
                Ok(_) => result == Ok::<ResolutionRequest, RegistryError>(
                    ResolutionRequest {
                        token: old(self)@.next_token,
                        query: Query::UserId(ctx.signer),
                        callback: Callback::GetUserId,
                    },
                ),
            },
    {
        proof {
            old(self)@.lemma_requested_succeeds(Mutation::Accept { achievement_id });
        }
        self.request_change(ctx, Mutation::Accept { achievement_id })
    }

    /// Asks for `achievement_id` to be verified and its escrow paid out.
    ///
    /// Refused with `NotFound` where it is not recorded, else with
    /// `AlreadyVerified` where it has been verified. Otherwise, when the
    /// signer's identifier comes back as the verifier, the verifier's
    /// account is asked for, and paid when it comes back.
    pub fn verify_achievement(&mut self, ctx: &CallContext, achievement_id: u128) -> (result: Result<
        ResolutionRequest,
        RegistryError,
    >)
        requires
            old(self).wf(),
            old(self)@.has_free_token(),
        ensures
            final(self).wf(),
            final(self)@.succeeds(old(self)@),
            final(self)@ == old(self)@.requested(Mutation::Verify { achievement_id }),
            match old(self)@.payable(achievement_id) {
                Err(error) => result == Err::<ResolutionRequest, RegistryError>(error),
                Ok(_) => result == Ok::<ResolutionRequest, RegistryError>(
                    ResolutionRequest {
                        token: old(self)@.next_token,
                        query: Query::UserId(ctx.signer),
                        callback: Callback::GetUserId,
                    },
                ),
            },
    {
        proof {
            old(self)@.lemma_requested_succeeds(Mutation::Verify { achievement_id });
        }
        self.request_change(ctx, Mutation::Verify { achievement_id })
    }

    /// Adds the attached deposit to the escrow of `achievement_id`, whoever
    /// the signer is.
    ///
    /// Refused with `NotFound` where the achievement is not recorded. The
    /// sum must fit the balance.
    pub fn replenish_achievement_balance(&mut self, ctx: &CallContext, achievement_id: u128) -> (result:
        Result<(), RegistryError>)
        requires
            old(self).wf(),
            old(self)@.achievements.contains_key(achievement_id) ==> old(
                self,
            )@.achievements[achievement_id].balance + ctx.attached_deposit <= u128::MAX,
        ensures
            final(self).wf(),
            final(self)@.succeeds(old(self)@),
            result == old(self)@.recorded(achievement_id),
            result is Ok ==> final(self)@ == old(self)@.replenish(
                achievement_id,
                ctx.attached_deposit,
            ),
            result is Err ==> final(self)@ == old(self)@,
    {
        proof {
            if old(self)@.achievements.contains_key(achievement_id) {
                old(self)@.lemma_replenish_succeeds(achievement_id, ctx.attached_deposit);
            }
        }
        match self.achievements.remove(&achievement_id) {
            Some(record) => {
                let mut record = record;
                record.balance = record.balance + ctx.attached_deposit;
                self.achievements.insert(achievement_id, record);
                proof {
                    let after = old(self)@.replenish(achievement_id, ctx.attached_deposit);
                    old(self)@.lemma_update_wf(
                        achievement_id,
                        old(self)@.achievements[achievement_id].replenished(ctx.attached_deposit),
                    );
                    assert(self@.achievements =~= after.achievements);
                }
                Ok(())
            },
            None => {
                assert(self@.achievements =~= old(self)@.achievements);
                Err(RegistryError::NotFound)
            },
        }
    }

    /// Receives the answer to a lookup of the signer's identifier.
    ///
    /// A token under which no such lookup is under way is refused with
    /// `NotFound` and changes nothing: an answer counts once. Otherwise the
    /// lookup is settled. The change that waited for it is abandoned with
    /// `RemoteResolutionFault` where the lookup failed, with
    /// `IdentityMismatch` where it gave another identifier than the one
    /// whose holder may ask for the change, and with the registry's own
    /// refusal where its state no longer lets the change go ahead; the
    /// records are then what they were, and an abandoned mint has its
    /// escrow returned. Else a mint, a burn or an acceptance is committed,
    /// and a change of owner or a verification goes on with its second
    /// lookup.
    pub fn get_user_id_callback(&mut self, token: u64, call_result: Result<u128, PromiseError>) -> (outcome:
        Outcome)
        requires
            old(self).wf(),
            old(self)@.has_free_token(),
        ensures
            final(self).wf(),
            final(self)@.succeeds(old(self)@),
            final(self)@ == old(self)@.after_user_id(token, call_result),
            outcome == old(self)@.user_id_outcome(token, call_result),
    {
        proof {
            old(self)@.lemma_after_user_id_succeeds(token, call_result);
        }
        let awaited = match self.requests.get(&token) {
            Some(PendingRequest::Identity { .. }) => true,
            _ => false,
        };
        if !awaited {
            return Outcome { status: Err(RegistryError::NotFound), request: None, transfer: None };
        }
        let pending = self.requests.remove(&token);
        proof {
            old(self)@.lemma_settle_wf(token);
            assert(self@ =~= old(self)@.settle(token));
        }
        match pending {
            Some(PendingRequest::Identity { expected, mutation }) => {
                match self.judge(expected, &mutation, call_result) {
                    Err(error) => match mutation {
                        Mutation::Mint { achievement, payer } => Outcome {
                            status: Err(error),
                            request: None,
                            transfer: Some(
                                Transfer { destination: payer, amount: achievement.balance },
                            ),
                        },
                        _ => Outcome { status: Err(error), request: None, transfer: None },
                    },
                    Ok(_) => match mutation {
                        Mutation::Mint { achievement, .. } => {
                            self.commit_mint(achievement);
                            Outcome { status: Ok(()), request: None, transfer: None }
                        },
                        Mutation::Burn { achievement_id } => {
                            self.commit_burn(achievement_id);
                            Outcome { status: Ok(()), request: None, transfer: None }
                        },
                        Mutation::UpdateOwner { achievement_id, new_owner } => {
                            let request = self.set_new_owner(new_owner, achievement_id);
                            Outcome { status: Ok(()), request: Some(request), transfer: None }
                        },
                        Mutation::Accept { achievement_id } => {
                            self.commit_accept(achievement_id);
                            Outcome { status: Ok(()), request: None, transfer: None }
                        },
                        Mutation::Verify { achievement_id } => {
                            let request = self.transfer_to_verifier(expected, achievement_id);
                            Outcome { status: Ok(()), request: Some(request), transfer: None }
                        },
                    },
                }
            },
            _ => Outcome { status: Err(RegistryError::NotFound), request: None, transfer: None },
        }
    }

    /// Receives the answer to a lookup of an owner-to-be.
    ///
    /// A token under which no such lookup is under way is refused with
    /// `NotFound` and changes nothing. Otherwise the lookup is settled, and
    /// the change is abandoned with `RemoteResolutionFault` where the lookup
    /// failed, with `NotFound` where the achievement is no longer recorded,
    /// and with `OwnerAlreadySet` where it has an owner by now. Else the
    /// identifier that came back becomes the owner.
    pub fn set_new_owner_callback(&mut self, token: u64, call_result: Result<u128, PromiseError>) -> (outcome:
        Outcome)
        requires
            old(self).wf(),
        ensures
            final(self).wf(),
            final(self)@.succeeds(old(self)@),
            final(self)@ == old(self)@.after_new_owner(token, call_result),
            outcome == old(self)@.new_owner_outcome(token, call_result),
    {
        proof {
            old(self)@.lemma_after_new_owner_succeeds(token, call_result);
        }
        let awaited = match self.requests.get(&token) {
            Some(PendingRequest::NewOwner { .. }) => true,
            _ => false,
        };
        if !awaited {
            return Outcome { status: Err(RegistryError::NotFound), request: None, transfer: None };
        }
        let pending = self.requests.remove(&token);
        proof {
            old(self)@.lemma_settle_wf(token);
            assert(self@ =~= old(self)@.settle(token));
        }
        match (pending, call_result) {
            (Some(PendingRequest::NewOwner { achievement_id }), Ok(user_id)) => {
                match self.owner_settable(achievement_id) {
                    Err(error) => Outcome { status: Err(error), request: None, transfer: None },
                    Ok(_) => {
                        self.commit_owner(achievement_id, user_id);
                        Outcome { status: Ok(()), request: None, transfer: None }
                    },
                }
            },
            (Some(PendingRequest::NewOwner { .. }), Err(_)) => Outcome {
                status: Err(RegistryError::RemoteResolutionFault),
                request: None,
                transfer: None,
            },
            _ => Outcome { status: Err(RegistryError::NotFound), request: None, transfer: None },
        }
    }

    /// Receives the answer to a lookup of a verifier's account.
    ///
    /// A token under which no such lookup is under way is refused with
    /// `NotFound` and changes nothing. Otherwise the lookup is settled, and
    /// the change is abandoned with `RemoteResolutionFault` where the lookup
    /// failed, with `NotFound` where the achievement is no longer recorded,
    /// and with `AlreadyVerified` where it has been verified by now. Else
    /// the achievement is marked as verified, its escrow is emptied, and
    /// the host is told to pay what the escrow held to the account that
    /// came back: both or neither.
    pub fn transfer_to_verifier_callback(&mut self, token: u64, call_result: Result<
        AccountId,
        PromiseError,
    >) -> (outcome: Outcome)
        requires
            old(self).wf(),
        ensures
            final(self).wf(),
            final(self)@.succeeds(old(self)@),
            final(self)@ == old(self)@.after_payee(token, call_result),
            outcome == old(self)@.payee_outcome(token, call_result),
    {
        proof {
            old(self)@.lemma_after_payee_succeeds(token, call_result);
        }
        let awaited = match self.requests.get(&token) {
            Some(PendingRequest::Payee { .. }) => true,
            _ => false,
        };
        if !awaited {
            return Outcome { status: Err(RegistryError::NotFound), request: None, transfer: None };
        }
        let pending = self.requests.remove(&token);
        proof {
            old(self)@.lemma_settle_wf(token);
            assert(self@ =~= old(self)@.settle(token));
        }
        match (pending, call_result) {
            (Some(PendingRequest::Payee { achievement_id }), Ok(account)) => {
                match self.payable(achievement_id) {
                    Err(error) => Outcome { status: Err(error), request: None, transfer: None },
                    Ok(_) => {
                        let money = self.commit_payout(achievement_id);
                        Outcome {
                            status: Ok(()),
                            request: None,
                            transfer: Some(Transfer { destination: account, amount: money }),
                        }
                    },
                }
            },
            (Some(PendingRequest::Payee { .. }), Err(_)) => Outcome {
                status: Err(RegistryError::RemoteResolutionFault),
                request: None,
                transfer: None,
            },
            _ => Outcome { status: Err(RegistryError::NotFound), request: None, transfer: None },
        }
    }
}

} // verus!
