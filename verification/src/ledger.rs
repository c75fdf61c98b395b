//! The ownership and enumeration engine.
//!
//! Four structures are kept consistent under arbitrary mint, transfer
//! and burn order: the token-to-owner record, the global enumeration of
//! all existing token ids with its reverse index, and each owner's
//! private enumeration with its reverse index. Removal uses
//! swap-with-last in both enumerations, so every update is a constant
//! number of map and array operations.

use vstd::prelude::*;
use std::collections::HashMap;
use std::collections::HashSet;
use crate::Address;
use crate::ZERO_ADDRESS;
use crate::errors::Error;
use crate::seq_util::swap_remove_seq;

verus! {

broadcast use vstd::std_specs::hash::group_hash_axioms;

/// The mathematical state of the ledger.
///
/// `owned` is a total map: an address that owns nothing maps to the
/// empty sequence. `global_index` and `owned_index` are the reverse
/// maps of the two enumerations, defined exactly on the existing ids.
#[verifier::ext_equal]
pub ghost struct LedgerView {
    /// Token id to current owner; its domain is the set of existing ids.
    pub owners: Map<u32, Address>,
    /// The global enumeration of all existing token ids.
    pub global: Seq<u32>,
    /// Token id to its position in `global`.
    pub global_index: Map<u32, int>,
    /// Owner to that owner's enumeration of token ids.
    pub owned: Map<Address, Seq<u32>>,
    /// Token id to its position in its owner's enumeration.
    pub owned_index: Map<u32, int>,
    /// Ids of burned tokens: permanently retired, never minted again.
    pub retired: Set<u32>,
}

impl LedgerView {
    /// Whether `t` currently exists (was minted and not burned).
    pub open spec fn exists_token(self, t: u32) -> bool {
        self.owners.contains_key(t)
    }

    /// Whether `t` can still be minted: it neither exists nor was ever
    /// burned. Burned ids are permanently retired.
    pub open spec fn mintable(self, t: u32) -> bool {
        !self.exists_token(t) && !self.retired.contains(t)
    }

    /// The ledger with no tokens.
    pub open spec fn empty() -> LedgerView {
        LedgerView {
            owners: Map::empty(),
            global: Seq::empty(),
            global_index: Map::empty(),
            owned: Map::new(|a: Address| true, |a: Address| Seq::empty()),
            owned_index: Map::empty(),
            retired: Set::empty(),
        }
    }

    /// The consistency invariant tying the four structures together.
    pub open spec fn wf(self) -> bool {
        &&& self.global.no_duplicates()
        &&& forall|t: u32|
            #![trigger self.owners.contains_key(t)]
            #![trigger self.global.contains(t)]
            self.owners.contains_key(t) <==> self.global.contains(t)
        &&& self.owned.dom() == Set::<Address>::full()
        &&& forall|a: Address| (#[trigger] self.owned[a]).no_duplicates()
        &&& forall|a: Address, i: int|
            0 <= i < self.owned[a].len() ==> self.owners.contains_key(#[trigger] self.owned[a][i])
                && self.owners[self.owned[a][i]] == a
        &&& forall|t: u32|
            #[trigger] self.owners.contains_key(t) ==> self.owned[self.owners[t]].contains(t)
        &&& forall|t: u32|
            #![trigger self.global_index.contains_key(t)]
            self.global_index.contains_key(t) <==> self.owners.contains_key(t)
        &&& forall|t: u32|
            self.owners.contains_key(t) ==> 0 <= #[trigger] self.global_index[t]
                < self.global.len() && self.global[self.global_index[t]] == t
        &&& forall|t: u32|
            #![trigger self.owned_index.contains_key(t)]
            self.owned_index.contains_key(t) <==> self.owners.contains_key(t)
        &&& forall|t: u32|
            self.owners.contains_key(t) ==> 0 <= #[trigger] self.owned_index[t]
                < self.owned[self.owners[t]].len() && self.owned[self.owners[t]][self.owned_index[t]] == t
        &&& forall|t: u32| #[trigger] self.retired.contains(t) ==> !self.owners.contains_key(t)
    }

    /// The state after minting `t` to `to`: `t` is appended to the
    /// global enumeration and to `to`'s enumeration, both reverse
    /// indices gain `t` at the old lengths, and `t` is recorded as
    /// owned by `to`.
    pub open spec fn minted(self, to: Address, t: u32) -> LedgerView {
        LedgerView {
            owners: self.owners.insert(t, to),
            global: self.global.push(t),
            global_index: self.global_index.insert(t, self.global.len() as int),
            owned: self.owned.insert(to, self.owned[to].push(t)),
            owned_index: self.owned_index.insert(t, self.owned[to].len() as int),
            retired: self.retired,
        }
    }

    /// The state after removing `t` from its owner `from`'s
    /// enumeration by swap-with-last: the old last element of `from`'s
    /// enumeration takes `t`'s slot and its reverse-index entry is
    /// redirected there. Ownership and the global enumeration are
    /// untouched; this is the shared first half of transfer and burn.
    pub open spec fn owner_removed(self, from: Address, t: u32) -> LedgerView {
        let s = self.owned[from];
        let p = self.owned_index[t];
        LedgerView {
            owners: self.owners,
            global: self.global,
            global_index: self.global_index,
            owned: self.owned.insert(from, swap_remove_seq(s, p)),
            owned_index: self.owned_index.insert(s.last(), p).remove(t),
            retired: self.retired,
        }
    }

    /// The state after appending `t` to `to`'s enumeration and
    /// recording `to` as its owner: the shared second half of mint and
    /// transfer.
    pub open spec fn owner_added(self, to: Address, t: u32) -> LedgerView {
        LedgerView {
            owners: self.owners.insert(t, to),
            global: self.global,
            global_index: self.global_index,
            owned: self.owned.insert(to, self.owned[to].push(t)),
            owned_index: self.owned_index.insert(t, self.owned[to].len() as int),
            retired: self.retired,
        }
    }

    /// The state after transferring `t` from `from` to `to`: removal
    /// from `from`'s enumeration, then append to `to`'s. The global
    /// enumeration is untouched.
    pub open spec fn transferred(self, from: Address, to: Address, t: u32) -> LedgerView {
        self.owner_removed(from, t).owner_added(to, t)
    }

    /// The state after burning `t`, owned by `from`: removal from
    /// `from`'s enumeration, removal from the global enumeration by
    /// swap-with-last, deletion of the ownership record and both
    /// reverse-index entries, and permanent retirement of the id.
    pub open spec fn burned(self, from: Address, t: u32) -> LedgerView {
        let half = self.owner_removed(from, t);
        let gp = self.global_index[t];
        LedgerView {
            owners: self.owners.remove(t),
            global: swap_remove_seq(self.global, gp),
            global_index: self.global_index.insert(self.global.last(), gp).remove(t),
            owned: half.owned,
            owned_index: half.owned_index,
            retired: self.retired.insert(t),
        }
    }
}

/// The ownership and enumeration engine. All methods require and
/// preserve the consistency invariant; each mutation either fails with
/// the state untouched or commits the whole atomic update described by
/// the corresponding `LedgerView` transition.
pub struct EnumerableLedger {
    owners: HashMap<u32, Address>,
    global: Vec<u32>,
    global_index: HashMap<u32, usize>,
    owned: HashMap<Address, Vec<u32>>,
    owned_index: HashMap<u32, usize>,
    retired: HashSet<u32>,
}

impl View for EnumerableLedger {
    type V = LedgerView;

    closed spec fn view(&self) -> LedgerView {
        LedgerView {
            owners: self.owners@,
            global: self.global@,
            global_index: Map::new(
                |t: u32| self.global_index@.contains_key(t),
                |t: u32| self.global_index@[t] as int,
            ),
            owned: Map::new(
                |a: Address| true,
                |a: Address|
                    if self.owned@.contains_key(a) {
                        self.owned@[a]@
                    } else {
                        Seq::empty()
                    },
            ),
            owned_index: Map::new(
                |t: u32| self.owned_index@.contains_key(t),
                |t: u32| self.owned_index@[t] as int,
            ),
            retired: self.retired@,
        }
    }
}

impl EnumerableLedger {
    /// The consistency invariant, lifted to the executable type.
    pub open spec fn wf(self) -> bool {
        self@.wf()
    }

    /// A fresh, empty ledger.
    pub fn new() -> (ledger: EnumerableLedger)
        ensures
            ledger.wf(),
            ledger@ == LedgerView::empty(),
    {
        let ledger = EnumerableLedger {
            owners: HashMap::new(),
            global: Vec::new(),
            global_index: HashMap::new(),
            owned: HashMap::new(),
            owned_index: HashMap::new(),
            retired: HashSet::new(),
        };
        proof {
            assert(ledger@.owners =~= LedgerView::empty().owners);
            assert(ledger@.global =~= LedgerView::empty().global);
            assert(ledger@.global_index =~= LedgerView::empty().global_index);
            assert(ledger@.owned =~~= LedgerView::empty().owned);
            assert(ledger@.owned_index =~= LedgerView::empty().owned_index);
            assert(ledger@.retired =~= LedgerView::empty().retired);
            assert(ledger@ =~= LedgerView::empty());
            assert(ledger@.owned.dom() =~= Set::<Address>::full());
        }
        ledger
    }

    /// The current owner of `token_id`, or `TokenNotFound` if the id
    /// does not exist.
    pub fn owner_of(&self, token_id: u32) -> (r: Result<Address, Error>)
        ensures
            r is Ok <==> self@.exists_token(token_id),
            r is Ok ==> r == Ok::<Address, Error>(self@.owners[token_id]),
            r is Err ==> r == Err::<Address, Error>(Error::TokenNotFound),
    {
        match self.owners.get(&token_id) {
            Some(owner) => Ok(*owner),
            None => Err(Error::TokenNotFound),
        }
    }

    /// How many tokens `addr` owns: the length of its enumeration.
    pub fn balance_of(&self, addr: Address) -> (r: usize)
        ensures
            r == self@.owned[addr].len(),
    {
        match self.owned.get(&addr) {
            Some(v) => v.len(),
            None => 0,
        }
    }

    /// How many tokens exist: the length of the global enumeration.
    pub fn total_supply(&self) -> (r: usize)
        ensures
            r == self@.global.len(),
    {
        self.global.len()
    }

    /// The token id at position `index` of the global enumeration, or
    /// `IndexOutOfBounds` past the end.
    pub fn token_by_index(&self, index: usize) -> (r: Result<u32, Error>)
        ensures
            r is Ok <==> index < self@.global.len(),
            r is Ok ==> r == Ok::<u32, Error>(self@.global[index as int]),
            r is Err ==> r == Err::<u32, Error>(Error::IndexOutOfBounds),
    {
        if index < self.global.len() {
            Ok(self.global[index])
        } else {
            Err(Error::IndexOutOfBounds)
        }
    }

    /// The token id at position `index` of `addr`'s enumeration, or
    /// `IndexOutOfBounds` past the end.
    pub fn token_of_owner_by_index(&self, addr: Address, index: usize) -> (r: Result<u32, Error>)
        ensures
            r is Ok <==> index < self@.owned[addr].len(),
            r is Ok ==> r == Ok::<u32, Error>(self@.owned[addr][index as int]),
            r is Err ==> r == Err::<u32, Error>(Error::IndexOutOfBounds),
    {
        match self.owned.get(&addr) {
            Some(v) => {
                if index < v.len() {
                    Ok(v[index])
                } else {
                    Err(Error::IndexOutOfBounds)
                }
            },
            None => Err(Error::IndexOutOfBounds),
        }
    }

    /// Mint `token_id` to `to`. Fails with `AlreadyExists` if the id
    /// already exists or was ever burned; otherwise commits the atomic
    /// update described by `LedgerView::minted`.
    pub fn mint(&mut self, to: Address, token_id: u32) -> (r: Result<(), Error>)
        requires
            old(self).wf(),
        ensures
            final(self).wf(),
            r is Ok <==> old(self)@.mintable(token_id),
            r is Err ==> r == Err::<(), Error>(Error::AlreadyExists) && *final(self) == *old(self),
            r is Ok ==> final(self)@ == old(self)@.minted(to, token_id),
    {
        if self.owners.contains_key(&token_id) || self.retired.contains(&token_id) {
            return Err(Error::AlreadyExists);
        }
        let global_len = self.global.len();
        self.global.push(token_id);
        self.global_index.insert(token_id, global_len);
        let mut list = match self.owned.remove(&to) {
            Some(v) => v,
            None => Vec::new(),
        };
        let owned_len = list.len();
        list.push(token_id);
        self.owned.insert(to, list);
        self.owned_index.insert(token_id, owned_len);
        self.owners.insert(token_id, to);
        proof {
            let pre = old(self)@;
            let post = self@;
            assert(post.owners =~= pre.minted(to, token_id).owners);
            assert(post.global =~= pre.minted(to, token_id).global);
            assert(post.global_index =~= pre.minted(to, token_id).global_index);
            assert(post.owned =~~= pre.minted(to, token_id).owned);
            assert(post.owned_index =~= pre.minted(to, token_id).owned_index);
            assert(post.retired =~= pre.minted(to, token_id).retired);
            assert(post =~= pre.minted(to, token_id));
            lemma_mint_preserves_wf(pre, to, token_id);
        }
        Ok(())
    }

    /// Remove `token_id` from its owner `from`'s enumeration by
    /// swap-with-last and redirect the moved element's reverse-index
    /// entry. Ownership itself is untouched: this is the shared first
    /// half of transfer and burn.
    fn remove_from_owner(&mut self, from: Address, token_id: u32)
        requires
            old(self).wf(),
            old(self)@.exists_token(token_id),
            old(self)@.owners[token_id] == from,
        ensures
            final(self)@ == old(self)@.owner_removed(from, token_id),
    {
        proof {
            let pre = old(self)@;
            assert(pre.owned_index.contains_key(token_id));
            assert(0 <= pre.owned_index[token_id] < pre.owned[from].len());
            assert(pre.owned[from][pre.owned_index[token_id]] == token_id);
        }
        let pos = match self.owned_index.get(&token_id) {
            Some(p) => *p,
            None => {
                proof {
                    assert(false);
                }
                0
            },
        };
        let mut list = match self.owned.remove(&from) {
            Some(v) => v,
            None => {
                proof {
                    assert(old(self)@.owned[from].len() == 0);
                    assert(false);
                }
                Vec::new()
            },
        };
        proof {
            assert(list@ == old(self)@.owned[from]);
            assert(pos == old(self)@.owned_index[token_id]);
            assert(pos < list@.len());
        }
        let last_pos = list.len() - 1;
        let moved = list[last_pos];
        list.swap_remove(pos);
        self.owned.insert(from, list);
        self.owned_index.insert(moved, pos);
        self.owned_index.remove(&token_id);
        proof {
            let pre = old(self)@;
            let post = self@;
            let target = pre.owner_removed(from, token_id);
            assert(post.owners =~= target.owners);
            assert(post.global =~= target.global);
            assert(post.global_index =~= target.global_index);
            assert(post.owned =~~= target.owned);
            assert(post.owned_index =~= target.owned_index);
            assert(post.retired =~= target.retired);
            assert(post =~= target);
        }
    }

    /// Append `token_id` to `to`'s enumeration, record its new
    /// reverse-index entry, and record `to` as its owner: the shared
    /// second half of mint and transfer.
    fn add_to_owner(&mut self, to: Address, token_id: u32)
        ensures
            final(self)@ == old(self)@.owner_added(to, token_id),
    {
        let mut list = match self.owned.remove(&to) {
            Some(v) => v,
            None => Vec::new(),
        };
        let owned_len = list.len();
        list.push(token_id);
        self.owned.insert(to, list);
        self.owned_index.insert(token_id, owned_len);
        self.owners.insert(token_id, to);
        proof {
            let pre = old(self)@;
            let post = self@;
            let target = pre.owner_added(to, token_id);
            assert(post.owners =~= target.owners);
            assert(post.global =~= target.global);
            assert(post.global_index =~= target.global_index);
            assert(post.owned =~~= target.owned);
            assert(post.owned_index =~= target.owned_index);
            assert(post.retired =~= target.retired);
            assert(post =~= target);
        }
    }

    /// Transfer `token_id` from `from` to `to`. Fails with `NotOwner`
    /// unless `from` currently owns the token, then with `ZeroAddress`
    /// if `to` is the null address; otherwise commits the atomic update
    /// described by `LedgerView::transferred`. The global enumeration
    /// is untouched by a transfer.
    pub fn transfer(&mut self, from: Address, to: Address, token_id: u32) -> (r: Result<(), Error>)
        requires
            old(self).wf(),
        ensures
            final(self).wf(),
            r is Err ==> *final(self) == *old(self),
            !(old(self)@.exists_token(token_id) && old(self)@.owners[token_id] == from) ==> r
                == Err::<(), Error>(Error::NotOwner),
            old(self)@.exists_token(token_id) && old(self)@.owners[token_id] == from && to
                == ZERO_ADDRESS ==> r == Err::<(), Error>(Error::ZeroAddress),
            r is Ok <==> (old(self)@.exists_token(token_id) && old(self)@.owners[token_id] == from
                && to != ZERO_ADDRESS),
            r is Ok ==> final(self)@ == old(self)@.transferred(from, to, token_id),
    {
        let owner_ok = match self.owners.get(&token_id) {
            Some(owner) => *owner == from,
            None => false,
        };
        if !owner_ok {
            return Err(Error::NotOwner);
        }
        if to == ZERO_ADDRESS {
            return Err(Error::ZeroAddress);
        }
        self.remove_from_owner(from, token_id);
        self.add_to_owner(to, token_id);
        proof {
            lemma_transfer_preserves_wf(old(self)@, from, to, token_id);
        }
        Ok(())
    }

    /// Burn `token_id`, owned by `from`. Fails with `NotOwner` unless
    /// `from` currently owns the token; otherwise removes the id from
    /// both enumerations by swap-with-last, deletes both reverse-index
    /// entries and the ownership record, and permanently retires the
    /// id, atomically. After a successful burn the id no longer exists,
    /// appears in no enumeration, and can never be minted again.
    pub fn burn(&mut self, from: Address, token_id: u32) -> (r: Result<(), Error>)
        requires
            old(self).wf(),
        ensures
            final(self).wf(),
            r is Err ==> r == Err::<(), Error>(Error::NotOwner) && *final(self) == *old(self),
            r is Ok <==> (old(self)@.exists_token(token_id) && old(self)@.owners[token_id] == from),
            r is Ok ==> final(self)@ == old(self)@.burned(from, token_id),
            r is Ok ==> !final(self)@.exists_token(token_id),
            r is Ok ==> !final(self)@.global.contains(token_id),
            r is Ok ==> forall|a: Address| !(#[trigger] final(self)@.owned[a]).contains(token_id),
            r is Ok ==> !final(self)@.mintable(token_id),
    {
        let owner_ok = match self.owners.get(&token_id) {
            Some(owner) => *owner == from,
            None => false,
        };
        if !owner_ok {
            return Err(Error::NotOwner);
        }
        proof {
            let pre = old(self)@;
            assert(pre.global_index.contains_key(token_id));
            assert(0 <= pre.global_index[token_id] < pre.global.len());
            assert(pre.global[pre.global_index[token_id]] == token_id);
            assert(pre.global.contains(token_id));
        }
        self.remove_from_owner(from, token_id);
        let gpos = match self.global_index.get(&token_id) {
            Some(p) => *p,
            None => {
                proof {
                    assert(false);
                }
                0
            },
        };
        proof {
            assert(self@.global == old(self)@.global);
            assert(gpos == old(self)@.global_index[token_id]);
        }
        let last_index = self.global.len() - 1;
        let gmoved = self.global[last_index];
        self.global.swap_remove(gpos);
        self.global_index.insert(gmoved, gpos);
        self.global_index.remove(&token_id);
        self.owners.remove(&token_id);
        self.retired.insert(token_id);
        proof {
            let pre = old(self)@;
            let post = self@;
            let target = pre.burned(from, token_id);
            assert(post.owners =~= target.owners);
            assert(post.global =~= target.global);
            assert(post.global_index =~= target.global_index);
            assert(post.owned =~~= target.owned);
            assert(post.owned_index =~= target.owned_index);
            assert(post.retired =~= target.retired);
            assert(post =~= target);
            lemma_burn_preserves_wf(pre, from, token_id);
        }
        Ok(())
    }
}

/// Burning an owned token preserves the ledger invariant, and the
/// burned id vanishes from the ownership record, the global
/// enumeration, and every owner's enumeration.
pub proof fn lemma_burn_preserves_wf(m: LedgerView, from: Address, t: u32)
    requires
        m.wf(),
        m.exists_token(t),
        m.owners[t] == from,
    ensures
        m.burned(from, t).wf(),
        !m.burned(from, t).exists_token(t),
        !m.burned(from, t).global.contains(t),
        forall|a: Address| !(#[trigger] m.burned(from, t).owned[a]).contains(t),
{
    let post = m.burned(from, t);
    let s = m.owned[from];
    let p = m.owned_index[t];
    let moved = s.last();
    let r = swap_remove_seq(s, p);
    let g = m.global;
    let gp = m.global_index[t];
    let gmoved = g.last();
    let gr = swap_remove_seq(g, gp);
    assert(s[p] == t);
    assert(0 <= p < s.len());
    assert(g[gp] == t);
    assert(0 <= gp < g.len());
    crate::seq_util::lemma_swap_remove_no_dup(s, p);
    crate::seq_util::lemma_swap_remove_points(s, p);
    crate::seq_util::lemma_swap_remove_no_dup(g, gp);
    crate::seq_util::lemma_swap_remove_points(g, gp);
    // the two moved elements exist, and `from` owns the one in its list
    assert(m.owners.contains_key(moved) && m.owners[moved] == from) by {
        assert(m.owned[from][s.len() - 1] == moved);
    }
    assert(m.owners.contains_key(gmoved)) by {
        assert(g[g.len() - 1] == gmoved);
        assert(g.contains(gmoved));
    }
    // how the structures read after the burn
    assert(post.global == gr);
    assert(post.owned[from] == r);
    assert forall|a: Address| a != from implies #[trigger] post.owned[a] == m.owned[a] by {}
    // `t` was in no enumeration but `from`'s
    assert forall|a: Address| a != from implies !(#[trigger] m.owned[a]).contains(t) by {
        if m.owned[a].contains(t) {
            let j = choose|j: int| 0 <= j < m.owned[a].len() && m.owned[a][j] == t;
            assert(m.owners[m.owned[a][j]] == a);
        }
    }
    // the burned id is gone everywhere
    assert(!post.exists_token(t));
    assert(!post.global.contains(t));
    assert forall|a: Address| !(#[trigger] post.owned[a]).contains(t) by {
        if a == from {
            assert(!r.contains(t));
        }
    }
    // existing ids and the global enumeration still coincide
    assert forall|t2: u32| post.owners.contains_key(t2) implies post.global.contains(t2) by {
        assert(m.global.contains(t2));
        assert(t2 != g[gp]);
    }
    assert forall|t2: u32| post.global.contains(t2) implies post.owners.contains_key(t2) by {
        assert(g.contains(t2) && t2 != g[gp]);
        assert(m.owners.contains_key(t2));
    }
    assert(post.owned.dom() =~= Set::<Address>::full());
    // each enumeration stays duplicate-free
    assert forall|a: Address| (#[trigger] post.owned[a]).no_duplicates() by {
        if a == from {
            assert(post.owned[a] == r);
        }
    }
    // every listed token is owned by the list's owner
    assert forall|a: Address, i: int| 0 <= i < post.owned[a].len() implies post.owners.contains_key(
        #[trigger] post.owned[a][i],
    ) && post.owners[post.owned[a][i]] == a by {
        if a == from {
            let x = r[i];
            assert(r.contains(x));
            assert(s.contains(x) && x != t);
            assert(m.owners[x] == from);
        } else {
            let x = m.owned[a][i];
            assert(m.owners[x] == a);
            assert(x != t);
        }
    }
    // every surviving token appears in its owner's enumeration
    assert forall|t2: u32| #[trigger] post.owners.contains_key(t2) implies post.owned[post.owners[t2]].contains(
        t2,
    ) by {
        let a = m.owners[t2];
        assert(post.owners[t2] == a);
        assert(m.owned[a].contains(t2));
        if a == from {
            assert(r.contains(t2));
        }
    }
    // the global reverse index is exact at every surviving key
    assert forall|t2: u32| post.owners.contains_key(t2) implies 0
        <= #[trigger] post.global_index[t2] < post.global.len()
        && post.global[post.global_index[t2]] == t2 by {
        if t2 == gmoved {
            assert(post.global_index[gmoved] == gp);
            assert(gp != g.len() - 1) by {
                assert(g[gp] == t);
            }
            assert(gr[gp] == gmoved);
        } else {
            let q = m.global_index[t2];
            assert(post.global_index[t2] == q);
            assert(g[q] == t2);
            assert(q != gp);
            assert(q != g.len() - 1) by {
                assert(g[g.len() - 1] == gmoved);
            }
            assert(gr[q] == g[q]);
        }
    }
    // the per-owner reverse index is exact at every surviving key
    assert forall|t2: u32| post.owners.contains_key(t2) implies 0
        <= #[trigger] post.owned_index[t2] < post.owned[post.owners[t2]].len()
        && post.owned[post.owners[t2]][post.owned_index[t2]] == t2 by {
        if t2 == moved {
            assert(post.owned_index[moved] == p);
            assert(p != s.len() - 1) by {
                assert(s[p] == t);
            }
            assert(r[p] == moved);
        } else {
            let a = m.owners[t2];
            let q = m.owned_index[t2];
            assert(post.owned_index[t2] == q);
            assert(m.owned[a][q] == t2);
            if a == from {
                assert(q != p);
                assert(q != s.len() - 1) by {
                    assert(s[s.len() - 1] == moved);
                }
                assert(r[q] == s[q]);
            }
        }
    }
}

/// Transferring an owned token to any address preserves the ledger
/// invariant.
pub proof fn lemma_transfer_preserves_wf(m: LedgerView, from: Address, to: Address, t: u32)
    requires
        m.wf(),
        m.exists_token(t),
        m.owners[t] == from,
    ensures
        m.transferred(from, to, t).wf(),
{
    let post = m.transferred(from, to, t);
    let s = m.owned[from];
    let p = m.owned_index[t];
    let moved = s.last();
    let r = swap_remove_seq(s, p);
    let base = if to == from {
        r
    } else {
        m.owned[to]
    };
    assert(s[p] == t);
    assert(0 <= p < s.len());
    crate::seq_util::lemma_swap_remove_no_dup(s, p);
    crate::seq_util::lemma_swap_remove_points(s, p);
    // the moved element lives in `from`'s enumeration, so `from` owns it
    assert(m.owners.contains_key(moved) && m.owners[moved] == from) by {
        assert(m.owned[from][s.len() - 1] == moved);
    }
    // `t` is in no enumeration but `from`'s, and not in `base`
    assert forall|a: Address| a != from implies !(#[trigger] m.owned[a]).contains(t) by {
        if m.owned[a].contains(t) {
            let j = choose|j: int| 0 <= j < m.owned[a].len() && m.owned[a][j] == t;
            assert(m.owners[m.owned[a][j]] == a);
        }
    }
    assert(!base.contains(t));
    crate::seq_util::lemma_push_properties(base, t);
    // how the owned map reads after the transfer
    assert(post.owned[to] == base.push(t));
    assert forall|a: Address| a != to && a != from implies #[trigger] post.owned[a]
        == m.owned[a] by {}
    assert(from != to ==> post.owned[from] == r);
    // the owner record keeps exactly the same key set
    assert forall|t2: u32|
        #![trigger post.owners.contains_key(t2)]
        post.owners.contains_key(t2) <==> m.owners.contains_key(t2) by {}
    // global structures are untouched
    assert(post.global == m.global);
    assert(post.global_index =~= m.global_index);
    assert(post.owned.dom() =~= Set::<Address>::full());
    // each enumeration stays duplicate-free
    assert forall|a: Address| (#[trigger] post.owned[a]).no_duplicates() by {
        if a == to {
        } else if a == from {
        }
    }
    // every listed token is owned by the list's owner
    assert forall|a: Address, i: int| 0 <= i < post.owned[a].len() implies post.owners.contains_key(
        #[trigger] post.owned[a][i],
    ) && post.owners[post.owned[a][i]] == a by {
        if a == to {
            if i < base.len() {
                let x = base[i];
                assert(post.owned[a][i] == x);
                if to == from {
                    assert(r.contains(x));
                    assert(s.contains(x) && x != t);
                    assert(m.owners[x] == from);
                } else {
                    assert(m.owned[to].contains(x)) by {
                        assert(m.owned[to][i] == x);
                    }
                    assert(m.owners[x] == to);
                    assert(x != t);
                }
            } else {
                assert(post.owned[a][i] == t);
            }
        } else if a == from {
            let x = r[i];
            assert(r.contains(x));
            assert(s.contains(x) && x != t);
            assert(m.owners[x] == from);
        } else {
            let x = m.owned[a][i];
            assert(m.owners[x] == a);
            assert(x != t);
        }
    }
    // every owned token appears in its owner's enumeration
    assert forall|t2: u32| #[trigger] post.owners.contains_key(t2) implies post.owned[post.owners[t2]].contains(
        t2,
    ) by {
        if t2 == t {
            assert(post.owned[to][base.len() as int] == t);
            assert(post.owned[to].contains(t));
        } else {
            let a = m.owners[t2];
            assert(post.owners[t2] == a);
            assert(m.owned[a].contains(t2));
            if a == from {
                assert(r.contains(t2));
                if to == from {
                    assert(base.push(t).contains(t2));
                } else {
                    assert(post.owned[a] == r);
                }
            } else if a == to {
                assert(base.push(t).contains(t2));
            }
        }
    }
    // the global reverse index is untouched and still exact
    assert forall|t2: u32| post.owners.contains_key(t2) implies 0
        <= #[trigger] post.global_index[t2] < post.global.len()
        && post.global[post.global_index[t2]] == t2 by {}
    // the per-owner reverse index is exact at every key
    assert forall|t2: u32| post.owners.contains_key(t2) implies 0
        <= #[trigger] post.owned_index[t2] < post.owned[post.owners[t2]].len()
        && post.owned[post.owners[t2]][post.owned_index[t2]] == t2 by {
        if t2 == t {
            assert(post.owned_index[t] == base.len());
            assert(post.owned[to][base.len() as int] == t);
        } else if t2 == moved {
            assert(post.owned_index[moved] == p);
            assert(p != s.len() - 1);
            assert(r[p] == moved);
            if from == to {
                assert(post.owned[from][p] == r[p]);
            } else {
                assert(post.owned[from] == r);
            }
        } else {
            let a = m.owners[t2];
            let q = m.owned_index[t2];
            assert(post.owned_index[t2] == q);
            assert(m.owned[a][q] == t2);
            if a == from {
                assert(q != p);
                assert(q != s.len() - 1) by {
                    assert(s[s.len() - 1] == moved);
                }
                assert(r[q] == s[q]);
                if from == to {
                    assert(post.owned[a][q] == r[q]);
                } else {
                    assert(post.owned[a] == r);
                }
            } else if a == to {
                assert(post.owned[a][q] == m.owned[to][q]);
            } else {
                assert(post.owned[a] == m.owned[a]);
            }
        }
    }
}

/// Minting a fresh id to any address preserves the ledger invariant.
pub proof fn lemma_mint_preserves_wf(m: LedgerView, to: Address, t: u32)
    requires
        m.wf(),
        m.mintable(t),
    ensures
        m.minted(to, t).wf(),
{
    let post = m.minted(to, t);
    let n = m.global.len() as int;
    // the fresh id sits in no enumeration of the old state
    assert(!m.global.contains(t));
    assert forall|a: Address| !(#[trigger] m.owned[a]).contains(t) by {
        if m.owned[a].contains(t) {
            let j = choose|j: int| 0 <= j < m.owned[a].len() && m.owned[a][j] == t;
            assert(m.owners.contains_key(m.owned[a][j]));
        }
    }
    // global enumeration
    assert forall|j: int, k: int|
        0 <= j < post.global.len() && 0 <= k < post.global.len() && j != k implies post.global[j]
        != post.global[k] by {
        if j < n && k < n {
            assert(m.global.no_duplicates());
        } else if j == n {
            assert(post.global[k] == m.global[k]);
            assert(m.global.contains(m.global[k]));
        } else if k == n {
            assert(post.global[j] == m.global[j]);
            assert(m.global.contains(m.global[j]));
        }
    }
    assert forall|t2: u32| post.owners.contains_key(t2) implies post.global.contains(t2) by {
        if t2 == t {
            assert(post.global[n] == t);
        } else {
            assert(m.global.contains(t2));
            let j = choose|j: int| 0 <= j < n && m.global[j] == t2;
            assert(post.global[j] == t2);
        }
    }
    assert forall|t2: u32| post.global.contains(t2) implies post.owners.contains_key(t2) by {
        let j = choose|j: int| 0 <= j < post.global.len() && post.global[j] == t2;
        if j < n {
            assert(m.global[j] == t2);
            assert(m.global.contains(t2));
        }
    }
    // per-owner enumerations
    assert(post.owned.dom() =~= Set::<Address>::full());
    assert forall|a: Address| (#[trigger] post.owned[a]).no_duplicates() by {
        if a == to {
            let s = m.owned[to];
            assert forall|j: int, k: int|
                0 <= j < s.len() + 1 && 0 <= k < s.len() + 1 && j != k implies s.push(t)[j]
                != s.push(t)[k] by {
                if j < s.len() && k < s.len() {
                    assert(s.no_duplicates());
                } else if j == s.len() {
                    assert(s.push(t)[k] == s[k]);
                    assert(s.contains(s[k]));
                } else if k == s.len() {
                    assert(s.push(t)[j] == s[j]);
                    assert(s.contains(s[j]));
                }
            }
        }
    }
    assert forall|a: Address, i: int| 0 <= i < post.owned[a].len() implies post.owners.contains_key(
        #[trigger] post.owned[a][i],
    ) && post.owners[post.owned[a][i]] == a by {
        if a == to && i == m.owned[to].len() {
            assert(post.owned[a][i] == t);
        } else {
            assert(post.owned[a][i] == m.owned[a][i]);
            assert(m.owners.contains_key(m.owned[a][i]));
            assert(m.owned[a][i] != t);
        }
    }
    assert forall|t2: u32| #[trigger] post.owners.contains_key(t2) implies post.owned[post.owners[t2]].contains(
        t2,
    ) by {
        if t2 == t {
            assert(post.owned[to][m.owned[to].len() as int] == t);
        } else {
            assert(m.owned[m.owners[t2]].contains(t2));
            let j = choose|j: int|
                0 <= j < m.owned[m.owners[t2]].len() && m.owned[m.owners[t2]][j] == t2;
            assert(post.owned[post.owners[t2]][j] == t2);
        }
    }
    // reverse indices
    assert forall|t2: u32| post.owners.contains_key(t2) implies 0 <= #[trigger] post.global_index[t2]
        < post.global.len() && post.global[post.global_index[t2]] == t2 by {
        if t2 == t {
            assert(post.global[n] == t);
        } else {
            assert(post.global[m.global_index[t2]] == m.global[m.global_index[t2]]);
        }
    }
    assert forall|t2: u32| post.owners.contains_key(t2) implies 0 <= #[trigger] post.owned_index[t2]
        < post.owned[post.owners[t2]].len() && post.owned[post.owners[t2]][post.owned_index[t2]]
        == t2 by {
        if t2 == t {
            assert(post.owned[to][m.owned[to].len() as int] == t);
        } else {
            let a = m.owners[t2];
            if a == to {
                assert(post.owned[a][m.owned_index[t2]] == m.owned[a][m.owned_index[t2]]);
            } else {
                assert(post.owned[a] == m.owned[a]);
            }
        }
    }
}

} // verus!
