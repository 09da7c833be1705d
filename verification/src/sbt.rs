use crate::error::RegistryError;
use crate::host::{AccountId, CallContext};
use std::collections::HashMap;
use vstd::hash_map::StringHashMap;
use vstd::prelude::*;

verus! {

broadcast use vstd::std_specs::hash::group_hash_axioms;

/// A 32-byte digest.
pub type MyHash = [u8; 32];

/// The two digests of a soul: first the one of its git identity, then the
/// one of its e-mail address.
pub type HashedData = [MyHash; 2];

/// The proof material bound to an identifier. It is written whole when the
/// identifier is claimed and removed whole when the soul is burned.
#[derive(Clone, Copy, Debug, PartialEq, Eq)]
pub struct Soul {
    pub soul_id: u128,
    pub git_hash: MyHash,
    pub email_hash: MyHash,
}

/// The identity registry as a mathematical value: which identifiers carry a
/// soul, which are reserved but unclaimed, and the two directions of the
/// association between accounts and identifiers.
pub struct SbtView {
    pub souls: Map<u128, Soul>,
    pub id_of: Map<Seq<char>, u128>,
    pub account_of: Map<u128, Seq<char>>,
    pub pending: Set<u128>,
}

impl SbtView {
    /// The registry in which nothing has been minted.
    pub open spec fn empty() -> SbtView {
        SbtView {
            souls: Map::empty(),
            id_of: Map::empty(),
            account_of: Map::empty(),
            pending: Set::empty(),
        }
    }

    /// What every reachable registry satisfies.
    ///
    /// No identifier is both bound and reserved; exactly the bound
    /// identifiers have an account; a soul is stored under its own
    /// identifier; every identifier that an account points to is bound or
    /// reserved; no two accounts point to one identifier; and wherever an
    /// account's identifier has an account, it is that account.
    pub open spec fn wf(self) -> bool {
        &&& forall|id: u128| !(self.souls.contains_key(id) && self.pending.contains(id))
        &&& forall|id: u128| self.souls.contains_key(id) <==> self.account_of.contains_key(id)
        &&& forall|id: u128| self.souls.contains_key(id) ==> (#[trigger] self.souls[id]).soul_id == id
        &&& forall|a: Seq<char>| #[trigger]
            self.id_of.contains_key(a) ==> self.souls.contains_key(self.id_of[a])
                || self.pending.contains(self.id_of[a])
        &&& forall|a: Seq<char>, b: Seq<char>|
            #![trigger self.id_of[a], self.id_of[b]]
            self.id_of.contains_key(a) && self.id_of.contains_key(b) && self.id_of[a]
                == self.id_of[b] ==> a == b
        &&& forall|a: Seq<char>| #[trigger]
            self.id_of.contains_key(a) && self.account_of.contains_key(self.id_of[a])
                ==> self.account_of[self.id_of[a]] == a
    }

    /// Whether `new_id` is free: neither bound to a soul nor reserved.
    pub open spec fn is_free(self, new_id: u128) -> bool {
        !self.souls.contains_key(new_id) && !self.pending.contains(new_id)
    }

    /// The registry after `new_id` has been reserved for `account`.
    pub open spec fn mint(self, new_id: u128, account: Seq<char>) -> SbtView {
        SbtView {
            id_of: self.id_of.insert(account, new_id),
            pending: self.pending.insert(new_id),
            ..self
        }
    }

    /// Whether `caller` holds a reserved identifier that waits to be claimed.
    pub open spec fn has_pending_mint(self, caller: Seq<char>) -> bool {
        self.id_of.contains_key(caller) && self.pending.contains(self.id_of[caller])
    }

    /// The registry after `caller` has claimed its reserved identifier with
    /// the two digests.
    pub open spec fn claim(self, caller: Seq<char>, git_hash: MyHash, email_hash: MyHash) -> SbtView {
        let id = self.id_of[caller];
        SbtView {
            souls: self.souls.insert(id, Soul { soul_id: id, git_hash, email_hash }),
            account_of: self.account_of.insert(id, caller),
            pending: self.pending.remove(id),
            ..self
        }
    }

    /// Whether `account` points to an identifier that carries a soul.
    pub open spec fn has_identity(self, account: Seq<char>) -> bool {
        self.id_of.contains_key(account) && self.souls.contains_key(self.id_of[account])
    }

    /// The registry after `caller` has given up its soul.
    pub open spec fn burn(self, caller: Seq<char>) -> SbtView {
        let id = self.id_of[caller];
        SbtView {
            souls: self.souls.remove(id),
            id_of: self.id_of.remove(caller),
            account_of: self.account_of.remove(id),
            ..self
        }
    }

    /// The identifier that `account` points to, if it points to one.
    pub open spec fn resolve_id(self, account: Seq<char>) -> Option<u128> {
        if self.id_of.contains_key(account) {
            Some(self.id_of[account])
        } else {
            None
        }
    }

    /// The account of `user_id`, if `user_id` carries a soul.
    pub open spec fn resolve_account(self, user_id: u128) -> Option<Seq<char>> {
        if self.souls.contains_key(user_id) {
            Some(self.account_of[user_id])
        } else {
            None
        }
    }
}

/// Once an identifier has been reserved for an account and that account has
/// claimed it, the account resolves to the identifier and the identifier
/// resolves back to the account.
pub proof fn lemma_mint_then_claim_resolves(
    before: SbtView,
    id: u128,
    account: Seq<char>,
    git_hash: MyHash,
    email_hash: MyHash,
)
    requires
        before.wf(),
        before.is_free(id),
    ensures
        before.mint(id, account).wf(),
        before.mint(id, account).has_pending_mint(account),
        before.mint(id, account).claim(account, git_hash, email_hash).wf(),
        before.mint(id, account).claim(account, git_hash, email_hash).resolve_id(account) == Some(
            id,
        ),
        before.mint(id, account).claim(account, git_hash, email_hash).resolve_account(id) == Some(
            account,
        ),
{
}

/// Reserving an identifier for an account, claiming it and burning the soul
/// leaves no trace of the identifier: it is free again, its soul and its
/// account are gone, and every other entry is what it was. The account
/// itself ends up pointing to nothing, so where it pointed to nothing at the
/// start the whole registry is what it was.
pub proof fn lemma_mint_claim_burn_restores(
    before: SbtView,
    id: u128,
    account: Seq<char>,
    git_hash: MyHash,
    email_hash: MyHash,
)
    requires
        before.wf(),
        before.is_free(id),
    ensures
        before.mint(id, account).claim(account, git_hash, email_hash).has_identity(account),
        ({
            let after = before.mint(id, account).claim(account, git_hash, email_hash).burn(account);
            &&& after.wf()
            &&& after.is_free(id)
            &&& !after.has_identity(account)
            &&& after.resolve_id(account) is None
            &&& after.resolve_account(id) is None
            &&& after.souls == before.souls
            &&& after.account_of == before.account_of
            &&& after.pending == before.pending
            &&& after.id_of == before.id_of.remove(account)
            &&& !before.id_of.contains_key(account) ==> after == before
        }),
{
    let after = before.mint(id, account).claim(account, git_hash, email_hash).burn(account);
    assert(after.souls =~= before.souls);
    assert(after.account_of =~= before.account_of);
    assert(after.pending =~= before.pending);
    assert(after.id_of =~= before.id_of.remove(account));
    if !before.id_of.contains_key(account) {
        assert(after.id_of =~= before.id_of);
    }
}

/// The identity registry: souls by identifier, and the association between
/// accounts and identifiers that is built in two steps, a reservation by the
/// registry's operator and a claim by the account itself.
pub struct SBT {
    souls_: HashMap<u128, Soul>,
    soul_id_of_account_: StringHashMap<u128>,
    account_of_soul_id: HashMap<u128, AccountId>,
    minted_not_claimed: HashMap<u128, bool>,
}

impl View for SBT {
    type V = SbtView;

    closed spec fn view(&self) -> SbtView {
        SbtView {
            souls: self.souls_@,
            id_of: self.soul_id_of_account_@,
            account_of: self.account_of_soul_id@.map_values(|a: AccountId| a@),
            pending: self.minted_not_claimed@.dom(),
        }
    }
}

impl SBT {
    /// Whether the registry is in a state that its own operations produce.
    pub open spec fn wf(&self) -> bool {
        self@.wf()
    }

    /// The empty registry.
    pub fn init() -> (sbt: SBT)
        ensures
            sbt.wf(),
            sbt@ == SbtView::empty(),
    {
        let sbt = SBT {
            souls_: HashMap::new(),
            soul_id_of_account_: StringHashMap::new(),
            account_of_soul_id: HashMap::new(),
            minted_not_claimed: HashMap::new(),
        };
        assert(sbt@.account_of =~= Map::empty());
        assert(sbt@.pending =~= Set::empty());
        sbt
    }

    /// Reserves `new_id` for `account`, on behalf of the registry's operator.
    ///
    /// Refused with `AlreadyExists` where `new_id` is bound or reserved
    /// already, else with `Unauthorized` where the signer is not the
    /// registry's own account.
    pub fn mint(&mut self, ctx: &CallContext, new_id: u128, account: &AccountId) -> (result: Result<
        (),
        RegistryError,
    >)
        requires
            old(self).wf(),
        ensures
            final(self).wf(),
            result == (if !old(self)@.is_free(new_id) {
                Err::<(), RegistryError>(RegistryError::AlreadyExists)
            } else if !ctx.by_operator() {
                Err(RegistryError::Unauthorized)
            } else {
                Ok(())
            }),
            result is Ok ==> final(self)@ == old(self)@.mint(new_id, account@),
            result is Err ==> final(self)@ == old(self)@,
    {
        if self.souls_.contains_key(&new_id) || self.minted_not_claimed.contains_key(&new_id) {
            return Err(RegistryError::AlreadyExists);
        }
        if !ctx.is_by_operator() {
            return Err(RegistryError::Unauthorized);
        }
        self.soul_id_of_account_.insert(account.clone(), new_id);
        self.minted_not_claimed.insert(new_id, true);
        assert(self@ =~= old(self)@.mint(new_id, account@));
        Ok(())
    }

    /// Binds the identifier reserved for the signer to the signer's account
    /// and to the two digests, and ends the reservation.
    ///
    /// Refused with `NoPendingMint` where the signer holds no reserved
    /// identifier.
    pub fn claim(&mut self, ctx: &CallContext, new_git_hash: &MyHash, new_email_hash: &MyHash) -> (result:
        Result<(), RegistryError>)
        requires
            old(self).wf(),
        ensures
            final(self).wf(),
            result == (if old(self)@.has_pending_mint(ctx.signer@) {
                Ok::<(), RegistryError>(())
            } else {
                Err(RegistryError::NoPendingMint)
            }),
            result is Ok ==> final(self)@ == old(self)@.claim(
                ctx.signer@,
                *new_git_hash,
                *new_email_hash,
            ),
            result is Err ==> final(self)@ == old(self)@,
    {
        let msg_sender_soul_id: u128 = match self.soul_id_of_account_.get(ctx.signer.as_str()) {
            Some(id) => *id,
            None => {
                return Err(RegistryError::NoPendingMint);
            },
        };
        if !self.minted_not_claimed.contains_key(&msg_sender_soul_id) {
            return Err(RegistryError::NoPendingMint);
        }
        let soul = Soul {
            soul_id: msg_sender_soul_id,
            git_hash: *new_git_hash,
            email_hash: *new_email_hash,
        };
        self.souls_.insert(msg_sender_soul_id, soul);
        self.account_of_soul_id.insert(msg_sender_soul_id, ctx.signer.clone());
        self.minted_not_claimed.remove(&msg_sender_soul_id);
        proof {
            let after = old(self)@.claim(ctx.signer@, *new_git_hash, *new_email_hash);
            assert(self@.account_of =~= after.account_of);
            assert(self@.pending =~= after.pending);
        }
        Ok(())
    }

    /// The identifier that `account` points to, reserved or bound.
    ///
    /// Refused with `NotFound` where `account` points to none.
    pub fn get_user_id(&self, account: &AccountId) -> (result: Result<u128, RegistryError>)
        requires
            self.wf(),
        ensures
            result == match self@.resolve_id(account@) {
                Some(id) => Ok::<u128, RegistryError>(id),
                None => Err(RegistryError::NotFound),
            },
    {
        match self.soul_id_of_account_.get(account.as_str()) {
            Some(id) => Ok(*id),
            None => Err(RegistryError::NotFound),
        }
    }

    /// The account to which the soul of `user_id` is bound.
    ///
    /// Refused with `NotFound` where `user_id` carries no soul.
    pub fn get_account_id(&self, user_id: u128) -> (result: Result<AccountId, RegistryError>)
        requires
            self.wf(),
        ensures
            match self@.resolve_account(user_id) {
                Some(account) => result is Ok && result->Ok_0@ == account,
                None => result == Err::<AccountId, RegistryError>(RegistryError::NotFound),
            },
    {
        if !self.souls_.contains_key(&user_id) {
            return Err(RegistryError::NotFound);
        }
        match self.account_of_soul_id.get(&user_id) {
            Some(account) => Ok(account.clone()),
            None => Err(RegistryError::NotFound),
        }
    }

    /// Removes the signer's soul together with both directions of its
    /// association.
    ///
    /// Refused with `NotFound` where the signer has no soul.
    pub fn burn(&mut self, ctx: &CallContext) -> (result: Result<(), RegistryError>)
        requires
            old(self).wf(),
        ensures
            final(self).wf(),
            result == (if old(self)@.has_identity(ctx.signer@) {
                Ok::<(), RegistryError>(())
            } else {
                Err(RegistryError::NotFound)
            }),
            result is Ok ==> final(self)@ == old(self)@.burn(ctx.signer@),
            result is Err ==> final(self)@ == old(self)@,
    {
        let msg_sender_soul_id: u128 = match self.soul_id_of_account_.get(ctx.signer.as_str()) {
            Some(id) => *id,
            None => {
                return Err(RegistryError::NotFound);
            },
        };
        if !self.souls_.contains_key(&msg_sender_soul_id) {
            return Err(RegistryError::NotFound);
        }
        self.soul_id_of_account_.remove(ctx.signer.as_str());
        self.account_of_soul_id.remove(&msg_sender_soul_id);
        self.souls_.remove(&msg_sender_soul_id);
        proof {
            let after = old(self)@.burn(ctx.signer@);
            assert(self@.account_of =~= after.account_of);
        }
        Ok(())
    }

    /// Whether `account` points to an identifier that carries a soul.
    pub fn has_soul(&self, account: &AccountId) -> (yes: bool)
        requires
            self.wf(),
        ensures
            yes == self@.has_identity(account@),
    {
        match self.soul_id_of_account_.get(account.as_str()) {
            Some(id) => self.souls_.contains_key(id),
            None => false,
        }
    }

    /// Liveness probe: always `true`, whatever the registry holds.
    pub fn ping(&self) -> (alive: bool)
        ensures
            alive,
    {
        true
    }

    /// Liveness probe that answers with a fixed greeting.
    pub fn ping_string(&self) -> (greeting: String)
        ensures
            greeting@ == "I'm okey"@,
    {
        "I'm okey".to_owned()
    }

    /// The two digests of the signer's soul, the git digest first.
    ///
    /// Refused with `NotFound` where the signer has no soul.
    pub fn get_hashed_data(&self, ctx: &CallContext) -> (result: Result<HashedData, RegistryError>)
        requires
            self.wf(),
        ensures
            result is Ok <==> self@.has_identity(ctx.signer@),
            result is Ok ==> {
                let soul = self@.souls[self@.id_of[ctx.signer@]];
                &&& result->Ok_0[0] == soul.git_hash
                &&& result->Ok_0[1] == soul.email_hash
            },
            result is Err ==> result == Err::<HashedData, RegistryError>(RegistryError::NotFound),
    {
        let msg_sender_soul_id: u128 = match self.soul_id_of_account_.get(ctx.signer.as_str()) {
            Some(id) => *id,
            None => {
                return Err(RegistryError::NotFound);
            },
        };
        match self.souls_.get(&msg_sender_soul_id) {
            Some(soul) => {
                let users_data: HashedData = [soul.git_hash, soul.email_hash];
                Ok(users_data)
            },
            None => Err(RegistryError::NotFound),
        }
    }
}

} // verus!
