//! The contract surface: one state value holding the metadata, the
//! role store, the pause gate and the enumeration engine, with every
//! public entry point routed through the pause gate and the role store
//! before it touches the ledger.
//!
//! Caller-identity attestation is the host's concern: an entry point
//! taking a `caller` or `spender` address trusts that the host has
//! already authenticated it.

use vstd::prelude::*;
use vstd::string::StringExecFns;
use crate::Address;
use crate::ZERO_ADDRESS;
use crate::errors::Error;
use crate::ledger::{EnumerableLedger, LedgerView};
use crate::pause::PauseGate;
use crate::roles::{Role, RoleStore};

verus! {

/// The collection metadata, set once at construction and immutable
/// afterwards.
pub struct Metadata {
    pub uri: String,
    pub name: String,
    pub symbol: String,
}

/// A role-gated, pausable, enumerable non-fungible-token contract.
pub struct GrapeFermenter {
    metadata: Metadata,
    roles: RoleStore,
    gate: PauseGate,
    ledger: EnumerableLedger,
}

impl GrapeFermenter {
    /// The role store, with its admin and role membership.
    pub closed spec fn role_store(self) -> RoleStore {
        self.roles
    }

    /// Whether the contract is paused.
    pub closed spec fn is_paused(self) -> bool {
        self.gate.is_paused()
    }

    /// The mathematical state of the ownership and enumeration engine.
    pub closed spec fn ledger_view(self) -> LedgerView {
        self.ledger@
    }

    /// The collection URI.
    pub closed spec fn uri_spec(self) -> Seq<char> {
        self.metadata.uri@
    }

    /// The collection name.
    pub closed spec fn name_spec(self) -> Seq<char> {
        self.metadata.name@
    }

    /// The collection symbol.
    pub closed spec fn symbol_spec(self) -> Seq<char> {
        self.metadata.symbol@
    }

    /// Whether `addr` holds `role`.
    pub open spec fn holds_role(self, addr: Address, role: Role) -> bool {
        self.role_store().has_role_spec(addr, role)
    }

    /// The contract invariant: role store and ledger are consistent.
    pub open spec fn wf(self) -> bool {
        &&& self.role_store().wf()
        &&& self.ledger_view().wf()
    }

    /// Everything but the pause flag and the ledger is frozen after
    /// construction: roles and metadata never change under any entry
    /// point.
    pub open spec fn config_unchanged(pre: Self, post: Self) -> bool {
        &&& post.role_store() == pre.role_store()
        &&& post.uri_spec() == pre.uri_spec()
        &&& post.name_spec() == pre.name_spec()
        &&& post.symbol_spec() == pre.symbol_spec()
    }

    /// Construct the contract: set the metadata, make `admin` the
    /// admin, and grant the pauser, upgrader and minter roles to the
    /// given addresses. The grants need no authorization of their own:
    /// trust descends from the admin's authorization of the
    /// constructing transaction, which the host attests.
    pub fn new(admin: Address, pauser: Address, upgrader: Address, minter: Address) -> (c:
        GrapeFermenter)
        ensures
            c.wf(),
            !c.is_paused(),
            c.ledger_view() == LedgerView::empty(),
            c.role_store().admin_spec() == Some(admin),
            forall|x: Address| #[trigger] c.holds_role(x, Role::Pauser) <==> x == pauser,
            forall|x: Address| #[trigger] c.holds_role(x, Role::Upgrader) <==> x == upgrader,
            forall|x: Address| #[trigger] c.holds_role(x, Role::Minter) <==> x == minter,
            c.uri_spec() == "www.mytoken.com"@,
            c.name_spec() == "GrapeFermenter"@,
            c.symbol_spec() == "GF"@,
    {
        let metadata = Metadata {
            uri: String::from_str("www.mytoken.com"),
            name: String::from_str("GrapeFermenter"),
            symbol: String::from_str("GF"),
        };
        let mut roles = RoleStore::new();
        let _admin_set = roles.set_admin(admin);
        let ghost base = roles;
        let _pauser_grant = roles.grant_role(admin, pauser, Role::Pauser);
        let ghost with_pauser = roles;
        let _upgrader_grant = roles.grant_role(admin, upgrader, Role::Upgrader);
        let ghost with_upgrader = roles;
        let _minter_grant = roles.grant_role(admin, minter, Role::Minter);
        proof {
            assert(forall|x: Address| !Seq::<Address>::empty().contains(x));
            assert forall|x: Address| #[trigger] roles.has_role_spec(x, Role::Pauser) <==> x
                == pauser by {
                assert(roles.members(Role::Pauser) == with_upgrader.members(Role::Pauser));
                assert(with_upgrader.members(Role::Pauser) == with_pauser.members(Role::Pauser));
                assert(with_pauser.has_role_spec(x, Role::Pauser) <==> (base.has_role_spec(
                    x,
                    Role::Pauser,
                ) || x == pauser));
                assert(base.members(Role::Pauser) == Seq::<Address>::empty());
            }
            assert forall|x: Address| #[trigger] roles.has_role_spec(x, Role::Upgrader) <==> x
                == upgrader by {
                assert(roles.members(Role::Upgrader) == with_upgrader.members(Role::Upgrader));
                assert(with_upgrader.has_role_spec(x, Role::Upgrader) <==> (
                with_pauser.has_role_spec(x, Role::Upgrader) || x == upgrader));
                assert(with_pauser.members(Role::Upgrader) == base.members(Role::Upgrader));
                assert(base.members(Role::Upgrader) == Seq::<Address>::empty());
            }
            assert forall|x: Address| #[trigger] roles.has_role_spec(x, Role::Minter) <==> x
                == minter by {
                assert(roles.has_role_spec(x, Role::Minter) <==> (with_upgrader.has_role_spec(
                    x,
                    Role::Minter,
                ) || x == minter));
                assert(with_upgrader.members(Role::Minter) == with_pauser.members(Role::Minter));
                assert(with_pauser.members(Role::Minter) == base.members(Role::Minter));
                assert(base.members(Role::Minter) == Seq::<Address>::empty());
            }
        }
        GrapeFermenter {
            metadata,
            roles,
            gate: PauseGate::new(),
            ledger: EnumerableLedger::new(),
        }
    }

    /// Whether the contract is paused. Read-only, ungated.
    pub fn paused(&self) -> (r: bool)
        ensures
            r == self.is_paused(),
    {
        self.gate.paused()
    }

    /// Pause the contract. Requires the pauser role, then a valid
    /// active-to-paused transition; pausing an already-paused contract
    /// fails with `InvalidPauseTransition`.
    pub fn pause(&mut self, caller: Address) -> (r: Result<(), Error>)
        requires
            old(self).wf(),
        ensures
            final(self).wf(),
            Self::config_unchanged(*old(self), *final(self)),
            final(self).ledger_view() == old(self).ledger_view(),
            r is Err ==> *final(self) == *old(self),
            !old(self).holds_role(caller, Role::Pauser) ==> r == Err::<(), Error>(
                Error::Unauthorized,
            ),
            old(self).holds_role(caller, Role::Pauser) && old(self).is_paused() ==> r == Err::<
                (),
                Error,
            >(Error::InvalidPauseTransition),
            r is Ok <==> (old(self).holds_role(caller, Role::Pauser) && !old(self).is_paused()),
            r is Ok ==> final(self).is_paused(),
    {
        match self.roles.ensure_role(caller, Role::Pauser) {
            Err(e) => return Err(e),
            Ok(()) => {},
        }
        self.gate.pause()
    }

    /// Unpause the contract. Requires the pauser role, then a valid
    /// paused-to-active transition; unpausing an active contract fails
    /// with `InvalidPauseTransition`.
    pub fn unpause(&mut self, caller: Address) -> (r: Result<(), Error>)
        requires
            old(self).wf(),
        ensures
            final(self).wf(),
            Self::config_unchanged(*old(self), *final(self)),
            final(self).ledger_view() == old(self).ledger_view(),
            r is Err ==> *final(self) == *old(self),
            !old(self).holds_role(caller, Role::Pauser) ==> r == Err::<(), Error>(
                Error::Unauthorized,
            ),
            old(self).holds_role(caller, Role::Pauser) && !old(self).is_paused() ==> r == Err::<
                (),
                Error,
            >(Error::InvalidPauseTransition),
            r is Ok <==> (old(self).holds_role(caller, Role::Pauser) && old(self).is_paused()),
            r is Ok ==> !final(self).is_paused(),
    {
        match self.roles.ensure_role(caller, Role::Pauser) {
            Err(e) => return Err(e),
            Ok(()) => {},
        }
        self.gate.unpause()
    }

    /// Mint `token_id` to `to`. The pause state is checked first, then
    /// the caller's minter role, then the collision-and-retirement
    /// check; on success the ledger commits the atomic enumeration
    /// update.
    pub fn mint(&mut self, to: Address, token_id: u32, caller: Address) -> (r: Result<(), Error>)
        requires
            old(self).wf(),
        ensures
            final(self).wf(),
            Self::config_unchanged(*old(self), *final(self)),
            final(self).is_paused() == old(self).is_paused(),
            r is Err ==> *final(self) == *old(self),
            old(self).is_paused() ==> r == Err::<(), Error>(Error::Paused),
            !old(self).is_paused() && !old(self).holds_role(caller, Role::Minter) ==> r == Err::<
                (),
                Error,
            >(Error::Unauthorized),
            !old(self).is_paused() && old(self).holds_role(caller, Role::Minter) && !old(
                self,
            ).ledger_view().mintable(token_id) ==> r == Err::<(), Error>(Error::AlreadyExists),
            r is Ok <==> (!old(self).is_paused() && old(self).holds_role(caller, Role::Minter)
                && old(self).ledger_view().mintable(token_id)),
            r is Ok ==> final(self).ledger_view() == old(self).ledger_view().minted(to, token_id),
    {
        if self.gate.paused() {
            return Err(Error::Paused);
        }
        match self.roles.ensure_role(caller, Role::Minter) {
            Err(e) => return Err(e),
            Ok(()) => {},
        }
        self.ledger.mint(to, token_id)
    }

    /// Transfer `token_id` from `from` to `to`. The host attests that
    /// `from` authorized the call. Checked in order: pause gate,
    /// ownership, non-null recipient.
    pub fn transfer(&mut self, from: Address, to: Address, token_id: u32) -> (r: Result<(), Error>)
        requires
            old(self).wf(),
        ensures
            final(self).wf(),
            Self::config_unchanged(*old(self), *final(self)),
            final(self).is_paused() == old(self).is_paused(),
            r is Err ==> *final(self) == *old(self),
            old(self).is_paused() ==> r == Err::<(), Error>(Error::Paused),
            !old(self).is_paused() && !(old(self).ledger_view().exists_token(token_id) && old(
                self,
            ).ledger_view().owners[token_id] == from) ==> r == Err::<(), Error>(Error::NotOwner),
            !old(self).is_paused() && old(self).ledger_view().exists_token(token_id) && old(
                self,
            ).ledger_view().owners[token_id] == from && to == ZERO_ADDRESS ==> r == Err::<
                (),
                Error,
            >(Error::ZeroAddress),
            r is Ok <==> (!old(self).is_paused() && old(self).ledger_view().exists_token(token_id)
                && old(self).ledger_view().owners[token_id] == from && to != ZERO_ADDRESS),
            r is Ok ==> final(self).ledger_view() == old(self).ledger_view().transferred(
                from,
                to,
                token_id,
            ),
    {
        if self.gate.paused() {
            return Err(Error::Paused);
        }
        self.ledger.transfer(from, to, token_id)
    }

    /// Transfer on behalf of the owner. The ledger tracks no delegate
    /// approvals, so the attested `spender` must be the owner itself;
    /// any other spender fails with `Unauthorized`.
    pub fn transfer_from(&mut self, spender: Address, from: Address, to: Address, token_id: u32) -> (r:
        Result<(), Error>)
        requires
            old(self).wf(),
        ensures
            final(self).wf(),
            Self::config_unchanged(*old(self), *final(self)),
            final(self).is_paused() == old(self).is_paused(),
            r is Err ==> *final(self) == *old(self),
            old(self).is_paused() ==> r == Err::<(), Error>(Error::Paused),
            !old(self).is_paused() && !(old(self).ledger_view().exists_token(token_id) && old(
                self,
            ).ledger_view().owners[token_id] == from) ==> r == Err::<(), Error>(Error::NotOwner),
            !old(self).is_paused() && old(self).ledger_view().exists_token(token_id) && old(
                self,
            ).ledger_view().owners[token_id] == from && spender != from ==> r == Err::<(), Error>(
                Error::Unauthorized,
            ),
            !old(self).is_paused() && old(self).ledger_view().exists_token(token_id) && old(
                self,
            ).ledger_view().owners[token_id] == from && spender == from && to == ZERO_ADDRESS ==> r
                == Err::<(), Error>(Error::ZeroAddress),
            r is Ok <==> (!old(self).is_paused() && old(self).ledger_view().exists_token(token_id)
                && old(self).ledger_view().owners[token_id] == from && spender == from && to
                != ZERO_ADDRESS),
            r is Ok ==> final(self).ledger_view() == old(self).ledger_view().transferred(
                from,
                to,
                token_id,
            ),
    {
        if self.gate.paused() {
            return Err(Error::Paused);
        }
        let owner = match self.ledger.owner_of(token_id) {
            Ok(owner) => owner,
            Err(_) => return Err(Error::NotOwner),
        };
        if owner != from {
            return Err(Error::NotOwner);
        }
        if spender != from {
            return Err(Error::Unauthorized);
        }
        self.ledger.transfer(from, to, token_id)
    }

    /// Burn `token_id`, owned by `from`. The host attests that `from`
    /// authorized the call. Pause gate first, then ownership.
    pub fn burn(&mut self, from: Address, token_id: u32) -> (r: Result<(), Error>)
        requires
            old(self).wf(),
        ensures
            final(self).wf(),
            Self::config_unchanged(*old(self), *final(self)),
            final(self).is_paused() == old(self).is_paused(),
            r is Err ==> *final(self) == *old(self),
            old(self).is_paused() ==> r == Err::<(), Error>(Error::Paused),
            !old(self).is_paused() && !(old(self).ledger_view().exists_token(token_id) && old(
                self,
            ).ledger_view().owners[token_id] == from) ==> r == Err::<(), Error>(Error::NotOwner),
            r is Ok <==> (!old(self).is_paused() && old(self).ledger_view().exists_token(token_id)
                && old(self).ledger_view().owners[token_id] == from),
            r is Ok ==> final(self).ledger_view() == old(self).ledger_view().burned(from, token_id),
            r is Ok ==> !final(self).ledger_view().exists_token(token_id)
                && !final(self).ledger_view().global.contains(token_id) && forall|a: Address|
                !(#[trigger] final(self).ledger_view().owned[a]).contains(token_id),
    {
        if self.gate.paused() {
            return Err(Error::Paused);
        }
        self.ledger.burn(from, token_id)
    }

    /// Burn on behalf of the owner. As with `transfer_from`, no
    /// delegate approvals exist, so the attested `spender` must be the
    /// owner itself.
    pub fn burn_from(&mut self, spender: Address, from: Address, token_id: u32) -> (r: Result<
        (),
        Error,
    >)
        requires
            old(self).wf(),
        ensures
            final(self).wf(),
            Self::config_unchanged(*old(self), *final(self)),
            final(self).is_paused() == old(self).is_paused(),
            r is Err ==> *final(self) == *old(self),
            old(self).is_paused() ==> r == Err::<(), Error>(Error::Paused),
            !old(self).is_paused() && !(old(self).ledger_view().exists_token(token_id) && old(
                self,
            ).ledger_view().owners[token_id] == from) ==> r == Err::<(), Error>(Error::NotOwner),
            !old(self).is_paused() && old(self).ledger_view().exists_token(token_id) && old(
                self,
            ).ledger_view().owners[token_id] == from && spender != from ==> r == Err::<(), Error>(
                Error::Unauthorized,
            ),
            r is Ok <==> (!old(self).is_paused() && old(self).ledger_view().exists_token(token_id)
                && old(self).ledger_view().owners[token_id] == from && spender == from),
            r is Ok ==> final(self).ledger_view() == old(self).ledger_view().burned(from, token_id),
    {
        if self.gate.paused() {
            return Err(Error::Paused);
        }
        let owner = match self.ledger.owner_of(token_id) {
            Ok(owner) => owner,
            Err(_) => return Err(Error::NotOwner),
        };
        if owner != from {
            return Err(Error::NotOwner);
        }
        if spender != from {
            return Err(Error::Unauthorized);
        }
        self.ledger.burn(from, token_id)
    }

    /// Approve a code upgrade. Succeeds exactly when `operator` holds
    /// the upgrader role; the host attests the operator's identity
    /// freshly for this call, and the code replacement itself is a
    /// host capability outside this ledger.
    pub fn authorize_upgrade(&self, operator: Address) -> (r: Result<(), Error>)
        ensures
            r is Ok <==> self.holds_role(operator, Role::Upgrader),
            r is Err ==> r == Err::<(), Error>(Error::Unauthorized),
    {
        self.roles.ensure_role(operator, Role::Upgrader)
    }

    /// Whether `addr` holds `role`. Read-only, ungated.
    pub fn has_role(&self, addr: Address, role: Role) -> (r: bool)
        ensures
            r == self.holds_role(addr, role),
    {
        self.roles.has_role(addr, role)
    }

    /// Grant `role` to `addr`; only the admin may grant. The host
    /// attests the granter's identity.
    pub fn grant_role(&mut self, granter: Address, addr: Address, role: Role) -> (r: Result<
        (),
        Error,
    >)
        requires
            old(self).wf(),
        ensures
            final(self).wf(),
            final(self).is_paused() == old(self).is_paused(),
            final(self).ledger_view() == old(self).ledger_view(),
            final(self).role_store().admin_spec() == old(self).role_store().admin_spec(),
            r is Ok <==> old(self).role_store().admin_spec() == Some(granter),
            r is Err ==> r == Err::<(), Error>(Error::Unauthorized) && *final(self) == *old(self),
            r is Ok ==> forall|x: Address|
                #[trigger] final(self).holds_role(x, role) <==> (old(self).holds_role(x, role) || x
                    == addr),
            r is Ok ==> forall|other: Role|
                other != role ==> #[trigger] final(self).role_store().members(other) == old(
                    self,
                ).role_store().members(other),
    {
        self.roles.grant_role(granter, addr, role)
    }

    /// Revoke `role` from `addr`; only the admin may revoke. The host
    /// attests the granter's identity.
    pub fn revoke_role(&mut self, granter: Address, addr: Address, role: Role) -> (r: Result<
        (),
        Error,
    >)
        requires
            old(self).wf(),
        ensures
            final(self).wf(),
            final(self).is_paused() == old(self).is_paused(),
            final(self).ledger_view() == old(self).ledger_view(),
            final(self).role_store().admin_spec() == old(self).role_store().admin_spec(),
            r is Ok <==> old(self).role_store().admin_spec() == Some(granter),
            r is Err ==> r == Err::<(), Error>(Error::Unauthorized) && *final(self) == *old(self),
            r is Ok ==> forall|x: Address|
                #[trigger] final(self).holds_role(x, role) <==> (old(self).holds_role(x, role) && x
                    != addr),
            r is Ok ==> forall|other: Role|
                other != role ==> #[trigger] final(self).role_store().members(other) == old(
                    self,
                ).role_store().members(other),
    {
        self.roles.revoke_role(granter, addr, role)
    }

    /// The current owner of `token_id`, or `TokenNotFound`.
    pub fn owner_of(&self, token_id: u32) -> (r: Result<Address, Error>)
        ensures
            r is Ok <==> self.ledger_view().exists_token(token_id),
            r is Ok ==> r == Ok::<Address, Error>(self.ledger_view().owners[token_id]),
            r is Err ==> r == Err::<Address, Error>(Error::TokenNotFound),
    {
        self.ledger.owner_of(token_id)
    }

    /// How many tokens `addr` owns.
    pub fn balance_of(&self, addr: Address) -> (r: usize)
        ensures
            r == self.ledger_view().owned[addr].len(),
    {
        self.ledger.balance_of(addr)
    }

    /// How many tokens exist.
    pub fn total_supply(&self) -> (r: usize)
        ensures
            r == self.ledger_view().global.len(),
    {
        self.ledger.total_supply()
    }

    /// The token id at position `index` of the global enumeration.
    pub fn token_by_index(&self, index: usize) -> (r: Result<u32, Error>)
        ensures
            r is Ok <==> index < self.ledger_view().global.len(),
            r is Ok ==> r == Ok::<u32, Error>(self.ledger_view().global[index as int]),
            r is Err ==> r == Err::<u32, Error>(Error::IndexOutOfBounds),
    {
        self.ledger.token_by_index(index)
    }

    /// The token id at position `index` of `addr`'s enumeration.
    pub fn token_of_owner_by_index(&self, addr: Address, index: usize) -> (r: Result<u32, Error>)
        ensures
            r is Ok <==> index < self.ledger_view().owned[addr].len(),
            r is Ok ==> r == Ok::<u32, Error>(self.ledger_view().owned[addr][index as int]),
            r is Err ==> r == Err::<u32, Error>(Error::IndexOutOfBounds),
    {
        self.ledger.token_of_owner_by_index(addr, index)
    }

    /// The collection URI.
    pub fn uri(&self) -> (r: &String)
        ensures
            r@ == self.uri_spec(),
    {
        &self.metadata.uri
    }

    /// The collection name.
    pub fn name(&self) -> (r: &String)
        ensures
            r@ == self.name_spec(),
    {
        &self.metadata.name
    }

    /// The collection symbol.
    pub fn symbol(&self) -> (r: &String)
        ensures
            r@ == self.symbol_spec(),
    {
        &self.metadata.symbol
    }
}

} // verus!
