use soulbound::achievement::{Achievement, UNSET_OWNER};
use soulbound::error::RegistryError;
use soulbound::host::{CallContext, Transfer};
use soulbound::protocol::{Callback, Outcome, PromiseError, Query, ResolutionRequest};
use soulbound::token::AchievementToken;

const ISSUER: u128 = 11;
const OWNER: u128 = 22;
const VERIFIER: u128 = 33;

fn call(signer: &str, deposit: u128) -> CallContext {
    CallContext::new(signer.to_string(), "achievements.testnet".to_string(), deposit)
}

fn achievement(id: u128, owner: u128, balance: u128) -> Achievement {
    Achievement {
        achievement_id: id,
        achievement_type: 1,
        issuer: ISSUER,
        owner,
        is_accepted: false,
        verifier: VERIFIER,
        is_verified: false,
        data_address: "ipfs://record".to_string(),
        balance,
    }
}

fn done() -> Outcome {
    Outcome { status: Ok(()), request: None, transfer: None }
}

fn abandoned(error: RegistryError) -> Outcome {
    Outcome { status: Err(error), request: None, transfer: None }
}

fn ask_user_id(token: u64, account: &str, callback: Callback) -> ResolutionRequest {
    ResolutionRequest { token, query: Query::UserId(account.to_string()), callback }
}

/// A registry that holds achievement `id` with the given owner and balance.
fn registry_with(id: u128, owner: u128, balance: u128) -> AchievementToken {
    let mut registry = AchievementToken::init();
    let receipt = registry.mint(&call("issuer.testnet", balance), achievement(id, owner, balance)).unwrap();
    assert_eq!(registry.get_user_id_callback(receipt.request.token, Ok(ISSUER)), done());
    registry
}

#[test]
fn mint_with_excess_deposit_refunds_the_excess_and_records_the_balance() {
    let mut registry = AchievementToken::init();
    let receipt = registry.mint(&call("issuer.testnet", 150), achievement(7, OWNER, 100)).unwrap();
    assert_eq!(receipt.refund, Transfer { destination: "issuer.testnet".to_string(), amount: 50 });
    assert_eq!(receipt.request, ask_user_id(0, "issuer.testnet", Callback::GetUserId));
    // nothing is recorded before the issuer is confirmed
    assert_eq!(registry.get_achievement_data(7), Err(RegistryError::NotFound));
    assert!(registry.is_pending(0));

    assert_eq!(registry.get_user_id_callback(0, Ok(ISSUER)), done());
    assert!(!registry.is_pending(0));
    let record = registry.get_achievement_data(7).unwrap();
    assert_eq!(record, achievement(7, OWNER, 100));
    assert_eq!(record.balance, 100);
    assert_eq!(registry.issued_by(ISSUER), vec![7]);
    assert_eq!(registry.owned_by(OWNER), vec![7]);
}

#[test]
fn mint_refunds_exactly_the_difference() {
    let mut registry = AchievementToken::init();
    let exact = registry.mint(&call("issuer.testnet", 100), achievement(1, OWNER, 100)).unwrap();
    assert_eq!(exact.refund.amount, 0);
    let all = registry.mint(&call("issuer.testnet", 100), achievement(2, OWNER, 0)).unwrap();
    assert_eq!(all.refund.amount, 100);
    let huge = registry.mint(&call("issuer.testnet", u128::MAX), achievement(3, OWNER, 1)).unwrap();
    assert_eq!(huge.refund.amount, u128::MAX - 1);
    assert_eq!(huge.refund.destination, "issuer.testnet");
    assert_eq!(registry.get_user_id_callback(huge.request.token, Ok(ISSUER)), done());
    assert_eq!(registry.get_achievement_data(3).unwrap().balance, 1);
}

#[test]
fn mint_refuses_a_deposit_below_the_balance() {
    let mut registry = AchievementToken::init();
    assert_eq!(
        registry.mint(&call("issuer.testnet", 99), achievement(7, OWNER, 100)),
        Err(RegistryError::InsufficientDeposit)
    );
    assert!(!registry.is_pending(0));
    // the refused call used up no token
    let receipt = registry.mint(&call("issuer.testnet", 100), achievement(7, OWNER, 100)).unwrap();
    assert_eq!(receipt.request.token, 0);
}

#[test]
fn mint_refuses_an_id_that_is_recorded() {
    let mut registry = registry_with(7, OWNER, 100);
    assert_eq!(
        registry.mint(&call("issuer.testnet", 1), achievement(7, OWNER, 500)),
        Err(RegistryError::DuplicateId)
    );
    assert_eq!(registry.get_achievement_data(7).unwrap().balance, 100);
    assert_eq!(registry.issued_by(ISSUER), vec![7]);
}

#[test]
fn two_mints_of_one_id_record_the_first_that_is_confirmed() {
    let mut registry = AchievementToken::init();
    let first = registry.mint(&call("issuer.testnet", 10), achievement(7, OWNER, 10)).unwrap();
    let second = registry.mint(&call("other.testnet", 30), achievement(7, 0, 20)).unwrap();
    assert_eq!(second.refund.amount, 10);
    assert_eq!(registry.get_user_id_callback(second.request.token, Ok(ISSUER)), done());
    // the other one is turned down when its answer arrives, and gets its escrow back
    assert_eq!(
        registry.get_user_id_callback(first.request.token, Ok(ISSUER)),
        Outcome {
            status: Err(RegistryError::DuplicateId),
            request: None,
            transfer: Some(Transfer { destination: "issuer.testnet".to_string(), amount: 10 }),
        }
    );
    assert_eq!(registry.get_achievement_data(7).unwrap().balance, 20);
    assert_eq!(registry.issued_by(ISSUER), vec![7]);
    assert_eq!(registry.owned_by(0), vec![7]);
    assert_eq!(registry.owned_by(OWNER), Vec::<u128>::new());
}

#[test]
fn mint_by_somebody_else_than_the_issuer_is_abandoned_and_repaid() {
    let mut registry = AchievementToken::init();
    let receipt = registry.mint(&call("mallory.testnet", 150), achievement(7, OWNER, 100)).unwrap();
    assert_eq!(receipt.refund.amount, 50);
    assert_eq!(
        registry.get_user_id_callback(receipt.request.token, Ok(ISSUER + 1)),
        Outcome {
            status: Err(RegistryError::IdentityMismatch),
            request: None,
            transfer: Some(Transfer { destination: "mallory.testnet".to_string(), amount: 100 }),
        }
    );
    assert_eq!(registry.get_achievement_data(7), Err(RegistryError::NotFound));
    assert_eq!(registry.issued_by(ISSUER), Vec::<u128>::new());
    assert_eq!(registry.owned_by(OWNER), Vec::<u128>::new());
    // the id was not used up
    assert!(registry.mint(&call("issuer.testnet", 100), achievement(7, OWNER, 100)).is_ok());
}

#[test]
fn mint_is_abandoned_when_the_lookup_fails() {
    let mut registry = AchievementToken::init();
    let receipt = registry.mint(&call("issuer.testnet", 100), achievement(7, OWNER, 100)).unwrap();
    let outcome = registry.get_user_id_callback(receipt.request.token, Err(PromiseError::Failed));
    assert_eq!(outcome.status, Err(RegistryError::RemoteResolutionFault));
    assert_eq!(outcome.transfer, Some(Transfer { destination: "issuer.testnet".to_string(), amount: 100 }));
    assert_eq!(registry.get_achievement_data(7), Err(RegistryError::NotFound));
    assert!(!registry.is_pending(receipt.request.token));
}

#[test]
fn verify_by_somebody_else_than_the_verifier_changes_nothing() {
    let mut registry = registry_with(7, OWNER, 100);
    let request = registry.verify_achievement(&call("mallory.testnet", 0), 7).unwrap();
    assert_eq!(request, ask_user_id(1, "mallory.testnet", Callback::GetUserId));
    assert_eq!(
        registry.get_user_id_callback(request.token, Ok(VERIFIER + 1)),
        abandoned(RegistryError::IdentityMismatch)
    );
    let record = registry.get_achievement_data(7).unwrap();
    assert!(!record.is_verified);
    assert_eq!(record.balance, 100);
    assert_eq!(record, achievement(7, OWNER, 100));
}

#[test]
fn verify_pays_the_escrow_to_the_account_of_the_verifier() {
    let mut registry = registry_with(7, OWNER, 100);
    let request = registry.verify_achievement(&call("verifier.testnet", 0), 7).unwrap();
    let confirmed = registry.get_user_id_callback(request.token, Ok(VERIFIER));
    assert_eq!(
        confirmed,
        Outcome {
            status: Ok(()),
            request: Some(ResolutionRequest {
                token: 2,
                query: Query::AccountId(VERIFIER),
                callback: Callback::TransferToVerifier,
            }),
            transfer: None,
        }
    );
    // neither flag nor balance move before the payee is known
    assert!(!registry.get_achievement_data(7).unwrap().is_verified);
    assert_eq!(registry.get_achievement_data(7).unwrap().balance, 100);

    let paid = registry.transfer_to_verifier_callback(2, Ok("verifier.testnet".to_string()));
    assert_eq!(
        paid,
        Outcome {
            status: Ok(()),
            request: None,
            transfer: Some(Transfer { destination: "verifier.testnet".to_string(), amount: 100 }),
        }
    );
    let record = registry.get_achievement_data(7).unwrap();
    assert!(record.is_verified);
    assert_eq!(record.balance, 0);
}

#[test]
fn verify_is_refused_once_the_achievement_is_verified() {
    let mut registry = registry_with(7, OWNER, 100);
    let first = registry.verify_achievement(&call("verifier.testnet", 0), 7).unwrap();
    let second = registry.verify_achievement(&call("verifier.testnet", 0), 7).unwrap();
    let first_payee = registry.get_user_id_callback(first.token, Ok(VERIFIER)).request.unwrap();
    let second_payee = registry.get_user_id_callback(second.token, Ok(VERIFIER)).request.unwrap();
    let paid = registry.transfer_to_verifier_callback(first_payee.token, Ok("verifier.testnet".to_string()));
    assert_eq!(paid.transfer.unwrap().amount, 100);
    // the second payout finds the achievement verified and pays nothing
    assert_eq!(
        registry.transfer_to_verifier_callback(second_payee.token, Ok("verifier.testnet".to_string())),
        abandoned(RegistryError::AlreadyVerified)
    );
    assert_eq!(
        registry.verify_achievement(&call("verifier.testnet", 0), 7),
        Err(RegistryError::AlreadyVerified)
    );
    assert!(registry.get_achievement_data(7).unwrap().is_verified);
}

#[test]
fn verification_survives_every_later_change() {
    let mut registry = registry_with(7, UNSET_OWNER, 100);
    let request = registry.verify_achievement(&call("verifier.testnet", 0), 7).unwrap();
    let payee = registry.get_user_id_callback(request.token, Ok(VERIFIER)).request.unwrap();
    registry.transfer_to_verifier_callback(payee.token, Ok("verifier.testnet".to_string()));
    assert!(registry.get_achievement_data(7).unwrap().is_verified);

    assert_eq!(registry.replenish_achievement_balance(&call("anyone.testnet", 5), 7), Ok(()));
    assert!(registry.get_achievement_data(7).unwrap().is_verified);
    let update = registry.update_owner(&call("issuer.testnet", 0), 7, "owner.testnet".to_string()).unwrap();
    let lookup = registry.get_user_id_callback(update.token, Ok(ISSUER)).request.unwrap();
    assert_eq!(registry.set_new_owner_callback(lookup.token, Ok(OWNER)), done());
    assert!(registry.get_achievement_data(7).unwrap().is_verified);
    let accept = registry.accept_achievement(&call("owner.testnet", 0), 7).unwrap();
    assert_eq!(registry.get_user_id_callback(accept.token, Ok(OWNER)), done());
    let record = registry.get_achievement_data(7).unwrap();
    assert!(record.is_verified);
    assert!(record.is_accepted);
    assert_eq!(record.balance, 5);
}

#[test]
fn payout_is_abandoned_when_the_lookup_of_the_payee_fails() {
    let mut registry = registry_with(7, OWNER, 100);
    let request = registry.verify_achievement(&call("verifier.testnet", 0), 7).unwrap();
    let payee = registry.get_user_id_callback(request.token, Ok(VERIFIER)).request.unwrap();
    assert_eq!(
        registry.transfer_to_verifier_callback(payee.token, Err(PromiseError::Failed)),
        abandoned(RegistryError::RemoteResolutionFault)
    );
    let record = registry.get_achievement_data(7).unwrap();
    assert!(!record.is_verified);
    assert_eq!(record.balance, 100);
    // the verifier may ask again
    assert!(registry.verify_achievement(&call("verifier.testnet", 0), 7).is_ok());
}

#[test]
fn burn_then_read_finds_nothing() {
    let mut registry = registry_with(7, OWNER, 100);
    let request = registry.burn(&call("issuer.testnet", 0), 7).unwrap();
    assert_eq!(registry.get_user_id_callback(request.token, Ok(ISSUER)), done());
    assert_eq!(registry.get_achievement_data(7), Err(RegistryError::NotFound));
    assert_eq!(registry.issued_by(ISSUER), Vec::<u128>::new());
    assert_eq!(registry.owned_by(OWNER), Vec::<u128>::new());
}

#[test]
fn burn_takes_only_its_own_id_out_of_the_lists() {
    let mut registry = registry_with(7, OWNER, 1);
    for id in [8u128, 9, 10] {
        let receipt = registry.mint(&call("issuer.testnet", 1), achievement(id, OWNER, 1)).unwrap();
        assert_eq!(registry.get_user_id_callback(receipt.request.token, Ok(ISSUER)), done());
    }
    assert_eq!(registry.issued_by(ISSUER), vec![7, 8, 9, 10]);
    let request = registry.burn(&call("issuer.testnet", 0), 9).unwrap();
    assert_eq!(registry.get_user_id_callback(request.token, Ok(ISSUER)), done());
    assert_eq!(registry.issued_by(ISSUER), vec![7, 8, 10]);
    assert_eq!(registry.owned_by(OWNER), vec![7, 8, 10]);
    assert!(registry.get_achievement_data(8).is_ok());
}

#[test]
fn burn_by_somebody_else_than_the_issuer_changes_nothing() {
    let mut registry = registry_with(7, OWNER, 100);
    let request = registry.burn(&call("owner.testnet", 0), 7).unwrap();
    assert_eq!(
        registry.get_user_id_callback(request.token, Ok(OWNER)),
        abandoned(RegistryError::IdentityMismatch)
    );
    assert_eq!(registry.get_achievement_data(7), Ok(achievement(7, OWNER, 100)));
    assert_eq!(registry.issued_by(ISSUER), vec![7]);
}

#[test]
fn burn_of_an_unknown_id_is_refused_at_once() {
    let mut registry = AchievementToken::init();
    assert_eq!(registry.burn(&call("issuer.testnet", 0), 7), Err(RegistryError::NotFound));
    assert!(!registry.is_pending(0));
}

#[test]
fn a_burned_id_is_never_used_again() {
    let mut registry = registry_with(7, OWNER, 100);
    let request = registry.burn(&call("issuer.testnet", 0), 7).unwrap();
    assert_eq!(registry.get_user_id_callback(request.token, Ok(ISSUER)), done());
    assert_eq!(
        registry.mint(&call("issuer.testnet", 100), achievement(7, OWNER, 100)),
        Err(RegistryError::DuplicateId)
    );
    assert_eq!(registry.get_achievement_data(7), Err(RegistryError::NotFound));
}

#[test]
fn changes_that_wait_for_a_burned_achievement_find_nothing() {
    let mut registry = registry_with(7, OWNER, 100);
    let accept = registry.accept_achievement(&call("owner.testnet", 0), 7).unwrap();
    let burn = registry.burn(&call("issuer.testnet", 0), 7).unwrap();
    assert_eq!(registry.get_user_id_callback(burn.token, Ok(ISSUER)), done());
    assert_eq!(registry.get_user_id_callback(accept.token, Ok(OWNER)), abandoned(RegistryError::NotFound));
    assert_eq!(registry.accept_achievement(&call("owner.testnet", 0), 7), Err(RegistryError::NotFound));
    assert_eq!(registry.verify_achievement(&call("verifier.testnet", 0), 7), Err(RegistryError::NotFound));
    assert_eq!(
        registry.update_owner(&call("issuer.testnet", 0), 7, "owner.testnet".to_string()),
        Err(RegistryError::NotFound)
    );
    assert_eq!(registry.replenish_achievement_balance(&call("anyone.testnet", 1), 7), Err(RegistryError::NotFound));
}

#[test]
fn update_owner_sets_the_identifier_of_the_new_account() {
    let mut registry = registry_with(7, UNSET_OWNER, 100);
    assert_eq!(registry.owned_by(UNSET_OWNER), vec![7]);
    let request = registry.update_owner(&call("issuer.testnet", 0), 7, "owner.testnet".to_string()).unwrap();
    assert_eq!(request, ask_user_id(1, "issuer.testnet", Callback::GetUserId));
    let confirmed = registry.get_user_id_callback(request.token, Ok(ISSUER));
    assert_eq!(
        confirmed,
        Outcome {
            status: Ok(()),
            request: Some(ask_user_id(2, "owner.testnet", Callback::SetNewOwner)),
            transfer: None,
        }
    );
    assert_eq!(registry.get_achievement_data(7).unwrap().owner, UNSET_OWNER);
    assert_eq!(registry.set_new_owner_callback(2, Ok(OWNER)), done());
    assert_eq!(registry.get_achievement_data(7).unwrap().owner, OWNER);
    assert_eq!(registry.owned_by(OWNER), vec![7]);
    assert_eq!(registry.owned_by(UNSET_OWNER), Vec::<u128>::new());
    assert_eq!(registry.issued_by(ISSUER), vec![7]);
}

#[test]
fn update_owner_a_second_time_is_refused() {
    let mut registry = registry_with(7, UNSET_OWNER, 100);
    let request = registry.update_owner(&call("issuer.testnet", 0), 7, "owner.testnet".to_string()).unwrap();
    let lookup = registry.get_user_id_callback(request.token, Ok(ISSUER)).request.unwrap();
    assert_eq!(registry.set_new_owner_callback(lookup.token, Ok(OWNER)), done());
    assert_eq!(
        registry.update_owner(&call("issuer.testnet", 0), 7, "other.testnet".to_string()),
        Err(RegistryError::OwnerAlreadySet)
    );
    assert_eq!(registry.get_achievement_data(7).unwrap().owner, OWNER);
}

#[test]
fn of_two_changes_of_owner_under_way_only_the_first_lands() {
    let mut registry = registry_with(7, UNSET_OWNER, 100);
    let first = registry.update_owner(&call("issuer.testnet", 0), 7, "owner.testnet".to_string()).unwrap();
    let second = registry.update_owner(&call("issuer.testnet", 0), 7, "other.testnet".to_string()).unwrap();
    let first_lookup = registry.get_user_id_callback(first.token, Ok(ISSUER)).request.unwrap();
    let second_lookup = registry.get_user_id_callback(second.token, Ok(ISSUER)).request.unwrap();
    assert_eq!(registry.set_new_owner_callback(second_lookup.token, Ok(OWNER + 1)), done());
    assert_eq!(
        registry.set_new_owner_callback(first_lookup.token, Ok(OWNER)),
        abandoned(RegistryError::OwnerAlreadySet)
    );
    assert_eq!(registry.get_achievement_data(7).unwrap().owner, OWNER + 1);
    assert_eq!(registry.owned_by(OWNER + 1), vec![7]);
    assert_eq!(registry.owned_by(OWNER), Vec::<u128>::new());
}

#[test]
fn update_owner_of_an_owned_achievement_is_refused_at_once() {
    let mut registry = registry_with(7, OWNER, 100);
    assert_eq!(
        registry.update_owner(&call("issuer.testnet", 0), 7, "other.testnet".to_string()),
        Err(RegistryError::OwnerAlreadySet)
    );
    assert!(!registry.is_pending(1));
}

#[test]
fn update_owner_by_somebody_else_than_the_issuer_changes_nothing() {
    let mut registry = registry_with(7, UNSET_OWNER, 100);
    let request = registry.update_owner(&call("mallory.testnet", 0), 7, "mallory.testnet".to_string()).unwrap();
    assert_eq!(
        registry.get_user_id_callback(request.token, Ok(99)),
        abandoned(RegistryError::IdentityMismatch)
    );
    assert_eq!(registry.get_achievement_data(7).unwrap().owner, UNSET_OWNER);
    assert_eq!(registry.owned_by(UNSET_OWNER), vec![7]);
}

#[test]
fn update_owner_is_abandoned_when_the_new_account_cannot_be_resolved() {
    let mut registry = registry_with(7, UNSET_OWNER, 100);
    let request = registry.update_owner(&call("issuer.testnet", 0), 7, "owner.testnet".to_string()).unwrap();
    let lookup = registry.get_user_id_callback(request.token, Ok(ISSUER)).request.unwrap();
    assert_eq!(
        registry.set_new_owner_callback(lookup.token, Err(PromiseError::Failed)),
        abandoned(RegistryError::RemoteResolutionFault)
    );
    assert_eq!(registry.get_achievement_data(7).unwrap().owner, UNSET_OWNER);
    assert_eq!(registry.owned_by(UNSET_OWNER), vec![7]);
}

#[test]
fn accept_marks_the_achievement_for_its_owner_only() {
    let mut registry = registry_with(7, OWNER, 100);
    let stranger = registry.accept_achievement(&call("mallory.testnet", 0), 7).unwrap();
    assert_eq!(
        registry.get_user_id_callback(stranger.token, Ok(ISSUER)),
        abandoned(RegistryError::IdentityMismatch)
    );
    assert!(!registry.get_achievement_data(7).unwrap().is_accepted);
    let owner = registry.accept_achievement(&call("owner.testnet", 0), 7).unwrap();
    assert_eq!(registry.get_user_id_callback(owner.token, Ok(OWNER)), done());
    let record = registry.get_achievement_data(7).unwrap();
    assert!(record.is_accepted);
    assert_eq!(record.balance, 100);
    assert!(!record.is_verified);
}

#[test]
fn accept_goes_by_the_owner_at_the_time_of_the_answer() {
    let mut registry = registry_with(7, UNSET_OWNER, 100);
    // asked while the owner is unset, by an account whose identifier is the unset one
    let accept = registry.accept_achievement(&call("nobody.testnet", 0), 7).unwrap();
    let update = registry.update_owner(&call("issuer.testnet", 0), 7, "owner.testnet".to_string()).unwrap();
    let lookup = registry.get_user_id_callback(update.token, Ok(ISSUER)).request.unwrap();
    assert_eq!(registry.set_new_owner_callback(lookup.token, Ok(OWNER)), done());
    assert_eq!(
        registry.get_user_id_callback(accept.token, Ok(UNSET_OWNER)),
        abandoned(RegistryError::IdentityMismatch)
    );
    assert!(!registry.get_achievement_data(7).unwrap().is_accepted);
}

#[test]
fn replenish_adds_the_deposit_whoever_signs() {
    let mut registry = registry_with(7, OWNER, 100);
    assert_eq!(registry.replenish_achievement_balance(&call("anyone.testnet", 25), 7), Ok(()));
    assert_eq!(registry.get_achievement_data(7).unwrap().balance, 125);
    assert_eq!(registry.replenish_achievement_balance(&call("issuer.testnet", 0), 7), Ok(()));
    assert_eq!(registry.get_achievement_data(7).unwrap().balance, 125);
    assert_eq!(registry.replenish_achievement_balance(&call("anyone.testnet", 25), 8), Err(RegistryError::NotFound));
    // the whole of a replenished escrow is paid out
    let request = registry.verify_achievement(&call("verifier.testnet", 0), 7).unwrap();
    let payee = registry.get_user_id_callback(request.token, Ok(VERIFIER)).request.unwrap();
    let paid = registry.transfer_to_verifier_callback(payee.token, Ok("verifier.testnet".to_string()));
    assert_eq!(paid.transfer, Some(Transfer { destination: "verifier.testnet".to_string(), amount: 125 }));
}

#[test]
fn replenish_fills_the_balance_to_its_limit() {
    let mut registry = registry_with(7, OWNER, 1);
    assert_eq!(registry.replenish_achievement_balance(&call("anyone.testnet", u128::MAX - 1), 7), Ok(()));
    assert_eq!(registry.get_achievement_data(7).unwrap().balance, u128::MAX);
}

#[test]
fn an_answer_delivered_again_has_no_effect() {
    let mut registry = registry_with(7, UNSET_OWNER, 100);
    // a mint that was committed
    assert_eq!(registry.get_user_id_callback(0, Ok(ISSUER)), abandoned(RegistryError::NotFound));
    assert_eq!(registry.issued_by(ISSUER), vec![7]);

    // a payout that was made
    let request = registry.verify_achievement(&call("verifier.testnet", 0), 7).unwrap();
    let payee = registry.get_user_id_callback(request.token, Ok(VERIFIER)).request.unwrap();
    assert_eq!(registry.get_user_id_callback(request.token, Ok(VERIFIER)), abandoned(RegistryError::NotFound));
    let paid = registry.transfer_to_verifier_callback(payee.token, Ok("verifier.testnet".to_string()));
    assert_eq!(paid.transfer.unwrap().amount, 100);
    assert_eq!(
        registry.transfer_to_verifier_callback(payee.token, Ok("verifier.testnet".to_string())),
        abandoned(RegistryError::NotFound)
    );
    assert_eq!(registry.get_achievement_data(7).unwrap().balance, 0);

    // a change that was abandoned
    let accept = registry.accept_achievement(&call("mallory.testnet", 0), 7).unwrap();
    assert_eq!(
        registry.get_user_id_callback(accept.token, Err(PromiseError::Failed)),
        abandoned(RegistryError::RemoteResolutionFault)
    );
    assert_eq!(registry.get_user_id_callback(accept.token, Ok(UNSET_OWNER)), abandoned(RegistryError::NotFound));
    assert!(!registry.get_achievement_data(7).unwrap().is_accepted);
}

#[test]
fn an_answer_handed_to_the_wrong_callback_is_refused_and_kept_waiting() {
    let mut registry = registry_with(7, UNSET_OWNER, 100);
    let request = registry.update_owner(&call("issuer.testnet", 0), 7, "owner.testnet".to_string()).unwrap();
    assert_eq!(registry.set_new_owner_callback(request.token, Ok(OWNER)), abandoned(RegistryError::NotFound));
    assert_eq!(
        registry.transfer_to_verifier_callback(request.token, Ok("owner.testnet".to_string())),
        abandoned(RegistryError::NotFound)
    );
    assert!(registry.is_pending(request.token));
    assert_eq!(registry.get_achievement_data(7).unwrap().owner, UNSET_OWNER);
    let lookup = registry.get_user_id_callback(request.token, Ok(ISSUER)).request.unwrap();
    assert_eq!(registry.get_user_id_callback(lookup.token, Ok(OWNER)), abandoned(RegistryError::NotFound));
    assert!(registry.is_pending(lookup.token));
    assert_eq!(registry.set_new_owner_callback(lookup.token, Ok(OWNER)), done());
}

#[test]
fn an_answer_under_an_unknown_token_is_refused() {
    let mut registry = AchievementToken::init();
    assert_eq!(registry.get_user_id_callback(5, Ok(ISSUER)), abandoned(RegistryError::NotFound));
    assert_eq!(registry.set_new_owner_callback(5, Ok(OWNER)), abandoned(RegistryError::NotFound));
    assert_eq!(
        registry.transfer_to_verifier_callback(5, Ok("verifier.testnet".to_string())),
        abandoned(RegistryError::NotFound)
    );
}

#[test]
fn tokens_are_handed_out_in_order_and_never_twice() {
    let mut registry = AchievementToken::init();
    assert!(registry.has_free_token());
    let a = registry.mint(&call("issuer.testnet", 1), achievement(1, OWNER, 1)).unwrap();
    let b = registry.mint(&call("issuer.testnet", 1), achievement(2, OWNER, 1)).unwrap();
    assert_eq!((a.request.token, b.request.token), (0, 1));
    assert_eq!(registry.get_user_id_callback(0, Ok(ISSUER)), done());
    let c = registry.burn(&call("issuer.testnet", 0), 1).unwrap();
    assert_eq!(c.token, 2);
    assert!(registry.is_pending(1));
    assert!(registry.is_pending(2));
    assert!(!registry.is_pending(0));
}

#[test]
fn a_copy_of_an_achievement_is_equal_to_it() {
    let record = achievement(7, OWNER, 100);
    assert_eq!(record.clone(), record);
}
