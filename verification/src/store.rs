use vstd::prelude::*;

use crate::addresses::Address;
use crate::records::Investment;
use crate::records::Project;
use crate::records::project_wf;

verus! {

/// What one storage location holds.
#[derive(Clone, Debug)]
pub enum Entry {
    /// A project record, at its `ProjectAt` address.
    ProjectEntry(Project),
    /// An investment receipt, at its `InvestmentAt` address.
    InvestmentEntry(Investment),
    /// The balance of a value account, at a `VaultAt` or `WalletAt` address.
    BalanceEntry(u64),
}

/// One occupied storage location: a derived address and what it holds.
#[derive(Clone, Debug)]
pub struct Slot {
    pub addr: Address,
    pub entry: Entry,
}

/// The value that an entry contributes to the store's pooled balance: its
/// balance for a value account, nothing for a record.
pub open spec fn entry_amount(e: Entry) -> int {
    match e {
        Entry::BalanceEntry(b) => b as int,
        _ => 0,
    }
}

/// The content-addressed reading of a run of slots: the map from each
/// occupied address to what it holds, later slots winning (the stores kept
/// well-formed never repeat an address).
pub open spec fn map_of(s: Seq<Slot>) -> Map<Address, Entry>
    decreases s.len(),
{
    if s.len() == 0 {
        Map::empty()
    } else {
        map_of(s.drop_last()).insert(s.last().addr, s.last().entry)
    }
}

/// The sum of all balances held in the slots.
pub open spec fn total_of(s: Seq<Slot>) -> int
    decreases s.len(),
{
    if s.len() == 0 {
        0
    } else {
        total_of(s.drop_last()) + entry_amount(s.last().entry)
    }
}

/// No address occurs twice.
pub open spec fn distinct_addrs(s: Seq<Slot>) -> bool {
    forall|i: int, j: int| 0 <= i < j < s.len() ==> s[i].addr != s[j].addr
}

/// The entry stored in a slot matches the role and key fields of the slot's
/// address, and a stored project record is internally consistent.
pub open spec fn slot_ok(s: Slot) -> bool {
    match s.addr {
        Address::ProjectAt { project_id } => {
            &&& s.entry matches Entry::ProjectEntry(p)
            &&& p.project_id == project_id
            &&& project_wf(p)
        },
        Address::InvestmentAt { project_id, investor } => {
            &&& s.entry matches Entry::InvestmentEntry(r)
            &&& r.project_id == project_id
            &&& r.investor == investor
        },
        Address::VaultAt { .. } => s.entry is BalanceEntry,
        Address::WalletAt { .. } => s.entry is BalanceEntry,
    }
}

/// Every slot is well-formed.
pub open spec fn slots_ok(s: Seq<Slot>) -> bool {
    forall|i: int| 0 <= i < s.len() ==> slot_ok(#[trigger] s[i])
}

/// An address is occupied exactly when some slot carries it.
pub proof fn lemma_map_of_contains(s: Seq<Slot>, a: Address)
    ensures
        map_of(s).contains_key(a) <==> exists|i: int| 0 <= i < s.len() && s[i].addr == a,
    decreases s.len(),
{
    if s.len() > 0 {
        lemma_map_of_contains(s.drop_last(), a);
        if s.last().addr == a {
            assert(s[s.len() - 1].addr == a);
        } else if map_of(s).contains_key(a) {
            let i = choose|i: int| 0 <= i < s.drop_last().len() && s.drop_last()[i].addr == a;
            assert(s[i].addr == a);
        } else {
            assert forall|i: int| 0 <= i < s.len() implies s[i].addr != a by {
                if i < s.len() - 1 {
                    assert(s.drop_last()[i].addr == s[i].addr);
                }
            }
        }
    }
}

/// With distinct addresses, the map reads back exactly what each slot holds.
pub proof fn lemma_map_of_index(s: Seq<Slot>, i: int)
    requires
        distinct_addrs(s),
        0 <= i < s.len(),
    ensures
        map_of(s).contains_key(s[i].addr),
        map_of(s)[s[i].addr] == s[i].entry,
    decreases s.len(),
{
    if i < s.len() - 1 {
        assert(s[i].addr != s[s.len() - 1].addr);
        assert(distinct_addrs(s.drop_last())) by {
            assert forall|x: int, y: int|
                0 <= x < y < s.drop_last().len() implies s.drop_last()[x].addr
                != s.drop_last()[y].addr by {
                assert(s[x].addr != s[y].addr);
            }
        }
        lemma_map_of_index(s.drop_last(), i);
        assert(s.drop_last()[i] == s[i]);
    }
}

/// Appending a slot occupies exactly its address and adds exactly its amount.
pub proof fn lemma_map_of_push(s: Seq<Slot>, sl: Slot)
    ensures
        map_of(s.push(sl)) == map_of(s).insert(sl.addr, sl.entry),
        total_of(s.push(sl)) == total_of(s) + entry_amount(sl.entry),
{
    assert(s.push(sl).drop_last() =~= s);
    assert(s.push(sl).last() == sl);
}

/// Overwriting one slot's entry, address kept, rewrites exactly that address
/// and shifts the pooled balance by the difference of the two entries.
pub proof fn lemma_map_of_update(s: Seq<Slot>, i: int, e: Entry)
    requires
        distinct_addrs(s),
        0 <= i < s.len(),
    ensures
        map_of(s.update(i, (Slot { addr: s[i].addr, entry: e }))) == map_of(s).insert(
            s[i].addr,
            e,
        ),
        total_of(s.update(i, (Slot { addr: s[i].addr, entry: e }))) == total_of(s)
            - entry_amount(s[i].entry) + entry_amount(e),
    decreases s.len(),
{
    let sl = Slot { addr: s[i].addr, entry: e };
    let t = s.update(i, sl);
    if i == s.len() - 1 {
        assert(t.drop_last() =~= s.drop_last());
        assert(t.last() == sl);
        assert(map_of(s.drop_last()).insert(s[i].addr, e) =~= map_of(s).insert(s[i].addr, e));
    } else {
        assert(distinct_addrs(s.drop_last())) by {
            assert forall|x: int, y: int|
                0 <= x < y < s.drop_last().len() implies s.drop_last()[x].addr
                != s.drop_last()[y].addr by {
                assert(s[x].addr != s[y].addr);
            }
        }
        assert(t.drop_last() =~= s.drop_last().update(i, sl));
        lemma_map_of_update(s.drop_last(), i, e);
        assert(t.last() == s.last());
        assert(s.drop_last()[i] == s[i]);
        assert(s[i].addr != s.last().addr);
        assert(map_of(s.drop_last()).insert(s[i].addr, e).insert(s.last().addr, s.last().entry)
            =~= map_of(s).insert(s[i].addr, e));
    }
}

/// A pooled balance is never negative.
pub proof fn lemma_total_nonneg(s: Seq<Slot>)
    ensures
        total_of(s) >= 0,
    decreases s.len(),
{
    if s.len() > 0 {
        lemma_total_nonneg(s.drop_last());
    }
}

/// No single account holds more than the pooled balance.
pub proof fn lemma_entry_le_total(s: Seq<Slot>, i: int)
    requires
        0 <= i < s.len(),
    ensures
        entry_amount(s[i].entry) <= total_of(s),
    decreases s.len(),
{
    if i == s.len() - 1 {
        lemma_total_nonneg(s.drop_last());
    } else {
        lemma_entry_le_total(s.drop_last(), i);
        assert(s.drop_last()[i] == s[i]);
    }
}

} // verus!
