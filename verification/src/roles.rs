//! Flat role-based access control.
//!
//! A role is a named capability held by a set of addresses. Exactly one
//! distinguished admin address exists outside the role sets; only the
//! admin may grant or revoke roles, and roles do not inherit each
//! other's permissions.

use vstd::prelude::*;
use crate::Address;
use crate::errors::Error;
use crate::seq_util::{swap_remove_seq, lemma_swap_remove_no_dup};

verus! {

/// The capabilities this ledger gates on.
#[derive(Clone, Copy, Debug, PartialEq, Eq, Structural)]
pub enum Role {
    /// May mint new tokens.
    Minter,
    /// May pause and unpause the ledger.
    Pauser,
    /// May authorize a code upgrade.
    Upgrader,
}

/// Role membership plus the single admin address. The admin is set once;
/// a second `set_admin` is rejected with `AlreadyInitialized`.
pub struct RoleStore {
    admin: Option<Address>,
    minters: Vec<Address>,
    pausers: Vec<Address>,
    upgraders: Vec<Address>,
}

impl RoleStore {
    /// The addresses currently holding `role`, in grant order.
    pub closed spec fn members(self, role: Role) -> Seq<Address> {
        match role {
            Role::Minter => self.minters@,
            Role::Pauser => self.pausers@,
            Role::Upgrader => self.upgraders@,
        }
    }

    /// The admin address, if one was set.
    pub closed spec fn admin_spec(self) -> Option<Address> {
        self.admin
    }

    /// Whether `addr` holds `role`.
    pub open spec fn has_role_spec(self, addr: Address, role: Role) -> bool {
        self.members(role).contains(addr)
    }

    /// Each member list holds an address at most once.
    pub open spec fn wf(self) -> bool {
        forall|role: Role| (#[trigger] self.members(role)).no_duplicates()
    }

    /// A fresh store: no admin, no members of any role.
    pub fn new() -> (store: RoleStore)
        ensures
            store.wf(),
            store.admin_spec() is None,
            forall|role: Role| #[trigger] store.members(role) == Seq::<Address>::empty(),
    {
        let store = RoleStore {
            admin: None,
            minters: Vec::new(),
            pausers: Vec::new(),
            upgraders: Vec::new(),
        };
        proof {
            assert forall|role: Role| #[trigger] store.members(role) == Seq::<Address>::empty() by {
                assert(store.members(role) =~= Seq::<Address>::empty());
            }
        }
        store
    }

    /// Set the admin. Callable once; any later call fails with
    /// `AlreadyInitialized` and changes nothing.
    pub fn set_admin(&mut self, addr: Address) -> (r: Result<(), Error>)
        ensures
            r is Ok <==> old(self).admin_spec() is None,
            r is Err ==> r == Err::<(), Error>(Error::AlreadyInitialized)
                && *final(self) == *old(self),
            r is Ok ==> final(self).admin_spec() == Some(addr),
            forall|role: Role| #[trigger] final(self).members(role) == old(self).members(role),
    {
        match self.admin {
            Some(_) => Err(Error::AlreadyInitialized),
            None => {
                self.admin = Some(addr);
                Ok(())
            },
        }
    }

    /// Whether `addr` holds `role`.
    pub fn has_role(&self, addr: Address, role: Role) -> (r: bool)
        ensures
            r == self.has_role_spec(addr, role),
    {
        match role {
            Role::Minter => contains_addr(&self.minters, addr),
            Role::Pauser => contains_addr(&self.pausers, addr),
            Role::Upgrader => contains_addr(&self.upgraders, addr),
        }
    }

    /// The check every privileged entry point runs through: fails with
    /// `Unauthorized` exactly when `addr` does not hold `role`.
    pub fn ensure_role(&self, addr: Address, role: Role) -> (r: Result<(), Error>)
        ensures
            r is Ok <==> self.has_role_spec(addr, role),
            r is Err ==> r == Err::<(), Error>(Error::Unauthorized),
    {
        if self.has_role(addr, role) {
            Ok(())
        } else {
            Err(Error::Unauthorized)
        }
    }

    /// Grant `role` to `addr`. Only the admin may grant; a grant to an
    /// address already holding the role changes nothing. The caller's
    /// identity attestation is the host's concern, not checked here.
    pub fn grant_role(&mut self, granter: Address, addr: Address, role: Role) -> (r: Result<
        (),
        Error,
    >)
        requires
            old(self).wf(),
        ensures
            final(self).wf(),
            r is Ok <==> old(self).admin_spec() == Some(granter),
            r is Err ==> r == Err::<(), Error>(Error::Unauthorized) && *final(self) == *old(self),
            final(self).admin_spec() == old(self).admin_spec(),
            r is Ok ==> forall|x: Address|
                #[trigger] final(self).has_role_spec(x, role) <==> (old(self).has_role_spec(x, role)
                    || x == addr),
            r is Ok ==> forall|other: Role|
                other != role ==> #[trigger] final(self).members(other) == old(self).members(other),
            r is Ok ==> final(self).has_role_spec(addr, role),
    {
        let authorized = match self.admin {
            Some(a) => a == granter,
            None => false,
        };
        if !authorized {
            return Err(Error::Unauthorized);
        }
        if self.has_role(addr, role) {
            return Ok(());
        }
        match role {
            Role::Minter => self.minters.push(addr),
            Role::Pauser => self.pausers.push(addr),
            Role::Upgrader => self.upgraders.push(addr),
        }
        proof {
            let pre = *old(self);
            let post = *self;
            assert(post.members(role) == pre.members(role).push(addr));
            assert forall|x: Address|
                #[trigger] post.has_role_spec(x, role) <==> (pre.has_role_spec(x, role)
                    || x == addr) by {
                if post.members(role).contains(x) {
                    let j = choose|j: int|
                        0 <= j < post.members(role).len() && post.members(role)[j] == x;
                    if j < pre.members(role).len() {
                        assert(pre.members(role)[j] == x);
                    }
                }
                if pre.members(role).contains(x) {
                    let j = choose|j: int|
                        0 <= j < pre.members(role).len() && pre.members(role)[j] == x;
                    assert(post.members(role)[j] == x);
                }
                assert(post.members(role)[pre.members(role).len() as int] == addr);
            }
            assert forall|other: Role|
                other != role implies #[trigger] post.members(other) == pre.members(other) by {}
            assert forall|r2: Role| (#[trigger] post.members(r2)).no_duplicates() by {
                if r2 == role {
                    let m = pre.members(role);
                    assert forall|j: int, k: int|
                        0 <= j < m.len() + 1 && 0 <= k < m.len() + 1 && j != k implies m.push(
                        addr,
                    )[j] != m.push(addr)[k] by {
                        if j < m.len() && k < m.len() {
                            assert(m.no_duplicates());
                        } else if j == m.len() {
                            assert(m.push(addr)[k] == m[k]);
                            assert(!m.contains(addr));
                        } else if k == m.len() {
                            assert(m.push(addr)[j] == m[j]);
                            assert(!m.contains(addr));
                        }
                    }
                }
            }
        }
        Ok(())
    }

    /// Revoke `role` from `addr`. Only the admin may revoke; revoking a
    /// role the address does not hold changes nothing.
    pub fn revoke_role(&mut self, granter: Address, addr: Address, role: Role) -> (r: Result<
        (),
        Error,
    >)
        requires
            old(self).wf(),
        ensures
            final(self).wf(),
            r is Ok <==> old(self).admin_spec() == Some(granter),
            r is Err ==> r == Err::<(), Error>(Error::Unauthorized) && *final(self) == *old(self),
            final(self).admin_spec() == old(self).admin_spec(),
            r is Ok ==> forall|x: Address|
                #[trigger] final(self).has_role_spec(x, role) <==> (old(self).has_role_spec(x, role)
                    && x != addr),
            r is Ok ==> forall|other: Role|
                other != role ==> #[trigger] final(self).members(other) == old(self).members(other),
    {
        let authorized = match self.admin {
            Some(a) => a == granter,
            None => false,
        };
        if !authorized {
            return Err(Error::Unauthorized);
        }
        let pos = match role {
            Role::Minter => position_of(&self.minters, addr),
            Role::Pauser => position_of(&self.pausers, addr),
            Role::Upgrader => position_of(&self.upgraders, addr),
        };
        match pos {
            None => {
                proof {
                    assert forall|x: Address|
                        #[trigger] self.has_role_spec(x, role) <==> (old(self).has_role_spec(
                            x,
                            role,
                        ) && x != addr) by {}
                }
                Ok(())
            },
            Some(i) => {
                match role {
                    Role::Minter => {
                        self.minters.swap_remove(i);
                    },
                    Role::Pauser => {
                        self.pausers.swap_remove(i);
                    },
                    Role::Upgrader => {
                        self.upgraders.swap_remove(i);
                    },
                }
                proof {
                    let pre = *old(self);
                    let post = *self;
                    assert(post.members(role) == swap_remove_seq(pre.members(role), i as int));
                    lemma_swap_remove_no_dup(pre.members(role), i as int);
                    assert forall|other: Role|
                        other != role implies #[trigger] post.members(other) == pre.members(
                        other,
                    ) by {}
                    assert forall|r2: Role| (#[trigger] post.members(r2)).no_duplicates() by {}
                }
                Ok(())
            },
        }
    }
}

/// Linear search for `addr` in a member list.
fn contains_addr(v: &Vec<Address>, addr: Address) -> (r: bool)
    ensures
        r == v@.contains(addr),
{
    let mut i: usize = 0;
    while i < v.len()
        invariant
            i <= v.len(),
            forall|j: int| 0 <= j < i ==> v@[j] != addr,
        decreases v.len() - i,
    {
        if v[i] == addr {
            return true;
        }
        i += 1;
    }
    false
}

/// The position of `addr` in a member list, if present.
fn position_of(v: &Vec<Address>, addr: Address) -> (r: Option<usize>)
    ensures
        match r {
            Some(i) => i < v@.len() && v@[i as int] == addr,
            None => !v@.contains(addr),
        },
{
    let mut i: usize = 0;
    while i < v.len()
        invariant
            i <= v.len(),
            forall|j: int| 0 <= j < i ==> v@[j] != addr,
        decreases v.len() - i,
    {
        if v[i] == addr {
            return Some(i);
        }
        i += 1;
    }
    None
}

} // verus!
