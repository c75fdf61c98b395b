//! Cross-cutting guarantees of the enumeration engine, stated and
//! proved once over the ledger model. Every mutating operation
//! preserves the ledger invariant, so these hold after every sequence
//! of mint, transfer and burn operations.

use vstd::prelude::*;
use crate::Address;
use crate::ledger::LedgerView;

verus! {

/// The set of token ids whose ownership record maps to `a`.
pub open spec fn tokens_owned_by(m: LedgerView, a: Address) -> Set<u32> {
    Set::new(|t: u32| m.owners.contains_key(t) && m.owners[t] == a)
}

/// An owner's balance — the length of its enumeration — equals the
/// number of tokens whose ownership record maps to that owner, in
/// every consistent ledger state.
pub proof fn lemma_balance_counts_ownership(m: LedgerView, a: Address)
    requires
        m.wf(),
    ensures
        tokens_owned_by(m, a).finite(),
        m.owned[a].len() == tokens_owned_by(m, a).len(),
{
    broadcast use vstd::seq_lib::seq_to_set_is_finite;

    let s = m.owned[a];
    assert forall|t: u32| s.to_set().contains(t) implies tokens_owned_by(m, a).contains(t) by {
        let j = choose|j: int| 0 <= j < s.len() && s[j] == t;
        assert(m.owners.contains_key(s[j]) && m.owners[s[j]] == a);
    }
    assert forall|t: u32| tokens_owned_by(m, a).contains(t) implies s.to_set().contains(t) by {
        assert(m.owned[m.owners[t]].contains(t));
    }
    assert(s.to_set() =~= tokens_owned_by(m, a));
    s.unique_seq_to_set();
}

/// The total supply — the length of the global enumeration — equals
/// the number of existing token ids, in every consistent ledger state.
pub proof fn lemma_total_supply_counts_tokens(m: LedgerView)
    requires
        m.wf(),
    ensures
        m.owners.dom().finite(),
        m.global.len() == m.owners.dom().len(),
{
    broadcast use vstd::seq_lib::seq_to_set_is_finite;

    assert forall|t: u32| m.global.to_set().contains(t) implies m.owners.dom().contains(t) by {
        assert(m.global.contains(t));
    }
    assert forall|t: u32| m.owners.dom().contains(t) implies m.global.to_set().contains(t) by {
        assert(m.owners.contains_key(t));
    }
    assert(m.global.to_set() =~= m.owners.dom());
    m.global.unique_seq_to_set();
}

/// Round trip of the global enumeration: every existing token id is
/// found at its reverse-index position.
pub proof fn lemma_global_enumeration_round_trip(m: LedgerView, t: u32)
    requires
        m.wf(),
        m.exists_token(t),
    ensures
        0 <= m.global_index[t] < m.global.len(),
        m.global[m.global_index[t]] == t,
{
}

/// The converse round trip: the id at any position of the global
/// enumeration exists, and its reverse-index entry is that position.
pub proof fn lemma_global_position_round_trip(m: LedgerView, i: int)
    requires
        m.wf(),
        0 <= i < m.global.len(),
    ensures
        m.exists_token(m.global[i]),
        m.global_index[m.global[i]] == i,
{
    let t = m.global[i];
    assert(m.global.contains(t));
    assert(m.exists_token(t));
    if m.global_index[t] != i {
        assert(m.global[m.global_index[t]] != m.global[i]);
    }
}

} // verus!
