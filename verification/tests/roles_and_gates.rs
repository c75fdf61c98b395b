use grape_fermenter::contract::GrapeFermenter;
use grape_fermenter::errors::Error;
use grape_fermenter::pause::PauseGate;
use grape_fermenter::roles::{Role, RoleStore};

const ADMIN: u64 = 1;
const PAUSER: u64 = 2;
const UPGRADER: u64 = 3;
const MINTER: u64 = 4;

fn fresh() -> GrapeFermenter {
    GrapeFermenter::new(ADMIN, PAUSER, UPGRADER, MINTER)
}

#[test]
fn constructor_grants_exactly_the_given_roles() {
    let c = fresh();
    assert!(c.has_role(PAUSER, Role::Pauser));
    assert!(c.has_role(UPGRADER, Role::Upgrader));
    assert!(c.has_role(MINTER, Role::Minter));
    assert!(!c.has_role(ADMIN, Role::Minter));
    assert!(!c.has_role(MINTER, Role::Pauser));
    assert!(!c.has_role(PAUSER, Role::Upgrader));
}

#[test]
fn only_the_admin_grants_and_revokes() {
    let mut c = fresh();
    let newcomer: u64 = 8;
    assert_eq!(c.grant_role(PAUSER, newcomer, Role::Minter), Err(Error::Unauthorized));
    assert!(!c.has_role(newcomer, Role::Minter));
    assert_eq!(c.grant_role(ADMIN, newcomer, Role::Minter), Ok(()));
    assert!(c.has_role(newcomer, Role::Minter));
    assert_eq!(c.revoke_role(newcomer, MINTER, Role::Minter), Err(Error::Unauthorized));
    assert!(c.has_role(MINTER, Role::Minter));
    assert_eq!(c.revoke_role(ADMIN, MINTER, Role::Minter), Ok(()));
    assert!(!c.has_role(MINTER, Role::Minter));
    assert!(c.has_role(newcomer, Role::Minter));
}

#[test]
fn a_granted_minter_can_mint_and_a_revoked_one_cannot() {
    let mut c = fresh();
    let newcomer: u64 = 8;
    assert_eq!(c.grant_role(ADMIN, newcomer, Role::Minter), Ok(()));
    assert_eq!(c.mint(newcomer, 1, newcomer), Ok(()));
    assert_eq!(c.revoke_role(ADMIN, newcomer, Role::Minter), Ok(()));
    assert_eq!(c.mint(newcomer, 2, newcomer), Err(Error::Unauthorized));
}

#[test]
fn pause_requires_the_pauser_role() {
    let mut c = fresh();
    assert_eq!(c.pause(MINTER), Err(Error::Unauthorized));
    assert!(!c.paused());
    assert_eq!(c.pause(PAUSER), Ok(()));
    assert_eq!(c.unpause(MINTER), Err(Error::Unauthorized));
    assert!(c.paused());
}

#[test]
fn upgrade_approval_follows_the_upgrader_role() {
    let c = fresh();
    assert_eq!(c.authorize_upgrade(UPGRADER), Ok(()));
    assert_eq!(c.authorize_upgrade(ADMIN), Err(Error::Unauthorized));
    assert_eq!(c.authorize_upgrade(MINTER), Err(Error::Unauthorized));
}

#[test]
fn the_admin_is_set_exactly_once() {
    let mut store = RoleStore::new();
    assert_eq!(store.set_admin(ADMIN), Ok(()));
    assert_eq!(store.set_admin(PAUSER), Err(Error::AlreadyInitialized));
    assert_eq!(store.set_admin(ADMIN), Err(Error::AlreadyInitialized));
}

#[test]
fn an_address_may_hold_several_roles() {
    let mut store = RoleStore::new();
    assert_eq!(store.set_admin(ADMIN), Ok(()));
    let all_rounder: u64 = 5;
    assert_eq!(store.grant_role(ADMIN, all_rounder, Role::Minter), Ok(()));
    assert_eq!(store.grant_role(ADMIN, all_rounder, Role::Pauser), Ok(()));
    assert!(store.has_role(all_rounder, Role::Minter));
    assert!(store.has_role(all_rounder, Role::Pauser));
    assert!(!store.has_role(all_rounder, Role::Upgrader));
    assert_eq!(store.ensure_role(all_rounder, Role::Upgrader), Err(Error::Unauthorized));
    assert_eq!(store.ensure_role(all_rounder, Role::Pauser), Ok(()));
}

#[test]
fn a_repeated_grant_changes_nothing() {
    let mut store = RoleStore::new();
    assert_eq!(store.set_admin(ADMIN), Ok(()));
    assert_eq!(store.grant_role(ADMIN, MINTER, Role::Minter), Ok(()));
    assert_eq!(store.grant_role(ADMIN, MINTER, Role::Minter), Ok(()));
    assert!(store.has_role(MINTER, Role::Minter));
    assert_eq!(store.revoke_role(ADMIN, MINTER, Role::Minter), Ok(()));
    assert!(!store.has_role(MINTER, Role::Minter));
}

#[test]
fn a_bare_gate_walks_the_two_state_machine() {
    let mut gate = PauseGate::new();
    assert!(!gate.paused());
    assert_eq!(gate.unpause(), Err(Error::InvalidPauseTransition));
    assert_eq!(gate.pause(), Ok(()));
    assert!(gate.paused());
    assert_eq!(gate.pause(), Err(Error::InvalidPauseTransition));
    assert_eq!(gate.unpause(), Ok(()));
    assert!(!gate.paused());
}
