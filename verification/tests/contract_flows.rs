use grape_fermenter::contract::GrapeFermenter;
use grape_fermenter::errors::Error;

const ADMIN: u64 = 1;
const PAUSER: u64 = 2;
const UPGRADER: u64 = 3;
const MINTER: u64 = 4;
const X: u64 = 10;
const Y: u64 = 11;

fn fresh() -> GrapeFermenter {
    GrapeFermenter::new(ADMIN, PAUSER, UPGRADER, MINTER)
}

#[test]
fn initial_state() {
    let c = fresh();
    assert_eq!(c.name().as_str(), "GrapeFermenter");
}

#[test]
fn metadata_is_set_at_construction() {
    let c = fresh();
    assert_eq!(c.symbol().as_str(), "GF");
    assert_eq!(c.uri().as_str(), "www.mytoken.com");
    assert_eq!(c.total_supply(), 0);
    assert!(!c.paused());
}

#[test]
fn mint_records_ownership_and_enumeration() {
    let mut c = fresh();
    assert_eq!(c.mint(X, 1, MINTER), Ok(()));
    assert_eq!(c.balance_of(X), 1);
    assert_eq!(c.total_supply(), 1);
    assert_eq!(c.owner_of(1), Ok(X));
    assert_eq!(c.token_by_index(0), Ok(1));
    assert_eq!(c.token_of_owner_by_index(X, 0), Ok(1));
}

#[test]
fn transfer_moves_one_token_between_balances() {
    let mut c = fresh();
    assert_eq!(c.mint(X, 1, MINTER), Ok(()));
    assert_eq!(c.transfer(X, Y, 1), Ok(()));
    assert_eq!(c.balance_of(X), 0);
    assert_eq!(c.balance_of(Y), 1);
    assert_eq!(c.owner_of(1), Ok(Y));
    assert_eq!(c.total_supply(), 1);
}

#[test]
fn pause_blocks_mint_and_unpause_restores_it() {
    let mut c = fresh();
    assert_eq!(c.pause(PAUSER), Ok(()));
    assert_eq!(c.mint(X, 1, MINTER), Err(Error::Paused));
    assert_eq!(c.total_supply(), 0);
    assert_eq!(c.unpause(PAUSER), Ok(()));
    assert_eq!(c.mint(X, 1, MINTER), Ok(()));
    assert_eq!(c.total_supply(), 1);
}

#[test]
fn pause_twice_rejects_the_second_call() {
    let mut c = fresh();
    assert_eq!(c.pause(PAUSER), Ok(()));
    assert_eq!(c.pause(PAUSER), Err(Error::InvalidPauseTransition));
    assert!(c.paused());
}

#[test]
fn unpause_twice_rejects_the_second_call() {
    let mut c = fresh();
    assert_eq!(c.unpause(PAUSER), Err(Error::InvalidPauseTransition));
    assert_eq!(c.pause(PAUSER), Ok(()));
    assert_eq!(c.unpause(PAUSER), Ok(()));
    assert_eq!(c.unpause(PAUSER), Err(Error::InvalidPauseTransition));
    assert!(!c.paused());
}

#[test]
fn non_minter_cannot_mint() {
    let mut c = fresh();
    let outsider: u64 = 9;
    assert_eq!(c.mint(X, 1, outsider), Err(Error::Unauthorized));
    assert_eq!(c.total_supply(), 0);
    assert_eq!(c.mint(X, 1, PAUSER), Err(Error::Unauthorized));
    assert_eq!(c.total_supply(), 0);
}

#[test]
fn burn_retires_the_token_everywhere() {
    let mut c = fresh();
    assert_eq!(c.mint(X, 7, MINTER), Ok(()));
    assert_eq!(c.burn(X, 7), Ok(()));
    assert_eq!(c.owner_of(7), Err(Error::TokenNotFound));
    assert_eq!(c.total_supply(), 0);
    assert_eq!(c.balance_of(X), 0);
    assert_eq!(c.token_by_index(0), Err(Error::IndexOutOfBounds));
    assert_eq!(c.token_of_owner_by_index(X, 0), Err(Error::IndexOutOfBounds));
}

#[test]
fn burn_swaps_the_last_token_into_the_vacated_slot() {
    let mut c = fresh();
    assert_eq!(c.mint(X, 1, MINTER), Ok(()));
    assert_eq!(c.mint(X, 2, MINTER), Ok(()));
    assert_eq!(c.mint(X, 3, MINTER), Ok(()));
    assert_eq!(c.burn(X, 2), Ok(()));
    assert_eq!(c.balance_of(X), 2);
    assert_eq!(c.token_of_owner_by_index(X, 0), Ok(1));
    assert_eq!(c.token_of_owner_by_index(X, 1), Ok(3));
    assert_eq!(c.token_by_index(0), Ok(1));
    assert_eq!(c.token_by_index(1), Ok(3));
    assert_eq!(c.token_by_index(2), Err(Error::IndexOutOfBounds));
}

#[test]
fn transfer_uses_swap_with_last_in_the_owner_enumeration() {
    let mut c = fresh();
    assert_eq!(c.mint(X, 1, MINTER), Ok(()));
    assert_eq!(c.mint(X, 2, MINTER), Ok(()));
    assert_eq!(c.mint(X, 3, MINTER), Ok(()));
    assert_eq!(c.transfer(X, Y, 1), Ok(()));
    assert_eq!(c.balance_of(X), 2);
    assert_eq!(c.token_of_owner_by_index(X, 0), Ok(3));
    assert_eq!(c.token_of_owner_by_index(X, 1), Ok(2));
    assert_eq!(c.token_of_owner_by_index(Y, 0), Ok(1));
    // the global enumeration is untouched by a transfer
    assert_eq!(c.token_by_index(0), Ok(1));
    assert_eq!(c.token_by_index(1), Ok(2));
    assert_eq!(c.token_by_index(2), Ok(3));
}

#[test]
fn balances_track_ownership_through_mixed_operations() {
    let mut c = fresh();
    assert_eq!(c.mint(X, 1, MINTER), Ok(()));
    assert_eq!(c.mint(Y, 2, MINTER), Ok(()));
    assert_eq!(c.mint(X, 3, MINTER), Ok(()));
    assert_eq!(c.transfer(X, Y, 1), Ok(()));
    assert_eq!(c.burn(Y, 2), Ok(()));
    assert_eq!(c.balance_of(X), 1);
    assert_eq!(c.balance_of(Y), 1);
    assert_eq!(c.total_supply(), 2);
    assert_eq!(c.owner_of(1), Ok(Y));
    assert_eq!(c.owner_of(3), Ok(X));
}

#[test]
fn global_enumeration_round_trips_every_existing_token() {
    let mut c = fresh();
    assert_eq!(c.mint(X, 5, MINTER), Ok(()));
    assert_eq!(c.mint(Y, 6, MINTER), Ok(()));
    assert_eq!(c.mint(X, 7, MINTER), Ok(()));
    assert_eq!(c.burn(X, 5), Ok(()));
    // the last id moved into slot 0; every position still names an existing id
    assert_eq!(c.token_by_index(0), Ok(7));
    assert_eq!(c.token_by_index(1), Ok(6));
    for i in 0..c.total_supply() {
        let id = c.token_by_index(i).unwrap();
        assert!(c.owner_of(id).is_ok());
    }
}

#[test]
fn burned_ids_are_permanently_retired() {
    let mut c = fresh();
    assert_eq!(c.mint(X, 1, MINTER), Ok(()));
    assert_eq!(c.burn(X, 1), Ok(()));
    assert_eq!(c.mint(Y, 1, MINTER), Err(Error::AlreadyExists));
    assert_eq!(c.total_supply(), 0);
    // a fresh id still mints
    assert_eq!(c.mint(Y, 2, MINTER), Ok(()));
    assert_eq!(c.total_supply(), 1);
}

#[test]
fn mint_collision_is_rejected() {
    let mut c = fresh();
    assert_eq!(c.mint(X, 1, MINTER), Ok(()));
    assert_eq!(c.mint(Y, 1, MINTER), Err(Error::AlreadyExists));
    assert_eq!(c.owner_of(1), Ok(X));
    assert_eq!(c.total_supply(), 1);
}

#[test]
fn transfer_by_non_owner_is_rejected() {
    let mut c = fresh();
    assert_eq!(c.mint(X, 1, MINTER), Ok(()));
    assert_eq!(c.transfer(Y, X, 1), Err(Error::NotOwner));
    assert_eq!(c.transfer(X, Y, 2), Err(Error::NotOwner));
    assert_eq!(c.owner_of(1), Ok(X));
}

#[test]
fn transfer_to_the_null_address_is_rejected() {
    let mut c = fresh();
    assert_eq!(c.mint(X, 1, MINTER), Ok(()));
    assert_eq!(c.transfer(X, 0, 1), Err(Error::ZeroAddress));
    assert_eq!(c.owner_of(1), Ok(X));
}

#[test]
fn transfer_is_pause_gated() {
    let mut c = fresh();
    assert_eq!(c.mint(X, 1, MINTER), Ok(()));
    assert_eq!(c.pause(PAUSER), Ok(()));
    assert_eq!(c.transfer(X, Y, 1), Err(Error::Paused));
    assert_eq!(c.burn(X, 1), Err(Error::Paused));
    assert_eq!(c.owner_of(1), Ok(X));
}

#[test]
fn spender_semantics_require_the_owner() {
    let mut c = fresh();
    assert_eq!(c.mint(X, 1, MINTER), Ok(()));
    assert_eq!(c.transfer_from(Y, X, Y, 1), Err(Error::Unauthorized));
    assert_eq!(c.transfer_from(X, X, Y, 1), Ok(()));
    assert_eq!(c.owner_of(1), Ok(Y));
    assert_eq!(c.burn_from(X, Y, 1), Err(Error::Unauthorized));
    assert_eq!(c.burn_from(Y, Y, 1), Ok(()));
    assert_eq!(c.owner_of(1), Err(Error::TokenNotFound));
}

#[test]
fn burn_by_non_owner_is_rejected() {
    let mut c = fresh();
    assert_eq!(c.mint(X, 1, MINTER), Ok(()));
    assert_eq!(c.burn(Y, 1), Err(Error::NotOwner));
    assert_eq!(c.burn_from(Y, Y, 1), Err(Error::NotOwner));
    assert_eq!(c.owner_of(1), Ok(X));
}
