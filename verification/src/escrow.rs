use vstd::prelude::*;
use vstd::pervasive::VecAdditionalExecFns;

use crate::addresses::Address;
use crate::addresses::Capability;
use crate::addresses::Identity;
use crate::addresses::authorizes;
use crate::addresses::investment_address;
use crate::addresses::is_value_address;
use crate::addresses::project_address;
use crate::addresses::vault_address;
use crate::addresses::wallet_address;
use crate::errors::ErrorCode;
use crate::errors::TransferError;
use crate::records::FundsWithdrawn;
use crate::records::InitializeProject;
use crate::records::Invest;
use crate::records::Investment;
use crate::records::InvestmentMade;
use crate::records::MIN_INVESTMENT;
use crate::records::MAX_NAME_LEN;
use crate::records::Project;
use crate::records::ProjectCreated;
use crate::records::WithdrawFunds;
use crate::records::invest_error;
use crate::records::invested;
use crate::records::project_wf;
use crate::records::withdraw_error;
use crate::store::Entry;
use crate::store::Slot;
use crate::store::distinct_addrs;
use crate::store::entry_amount;
use crate::store::lemma_entry_le_total;
use crate::store::lemma_map_of_contains;
use crate::store::lemma_map_of_index;
use crate::store::lemma_map_of_push;
use crate::store::lemma_map_of_update;
use crate::store::lemma_total_nonneg;
use crate::store::map_of;
use crate::store::slot_ok;
use crate::store::slots_ok;
use crate::store::total_of;

verus! {

/// The whole escrow state: a content-addressed store of project records,
/// investment receipts and value accounts, plus the total value ever issued
/// into it. Each public operation is one atomic transition: on any rejection
/// the state is exactly what it was.
pub struct Escrow {
    slots: Vec<Slot>,
    total_supply: u64,
}

impl Escrow {
    /// The store as a map from derived addresses to what they hold.
    pub closed spec fn accounts(self) -> Map<Address, Entry> {
        map_of(self.slots@)
    }

    /// All value ever issued through `fund_wallet`. Transfers move value
    /// between accounts and never change this sum.
    pub closed spec fn total_issued(self) -> u64 {
        self.total_supply
    }

    /// Whether the address `a` is occupied.
    pub open spec fn has_account(self, a: Address) -> bool {
        self.accounts().contains_key(a)
    }

    /// Whether a project record for `project_id` exists.
    pub open spec fn has_project(self, project_id: u64) -> bool {
        self.has_account(project_address(project_id))
    }

    /// The project record stored for `project_id`.
    pub open spec fn project_at(self, project_id: u64) -> Project {
        self.accounts()[project_address(project_id)]->ProjectEntry_0
    }

    /// Whether `investor` already holds a receipt for `project_id`.
    pub open spec fn has_investment(self, project_id: u64, investor: Identity) -> bool {
        self.has_account(investment_address(project_id, investor))
    }

    /// The receipt stored for `investor`'s contribution to `project_id`.
    pub open spec fn investment_at(self, project_id: u64, investor: Identity) -> Investment {
        self.accounts()[investment_address(project_id, investor)]->InvestmentEntry_0
    }

    /// The balance of the value account at `a`; an unoccupied address holds
    /// nothing.
    pub open spec fn balance_at(self, a: Address) -> u64 {
        if self.accounts().contains_key(a) && self.accounts()[a] is BalanceEntry {
            self.accounts()[a]->BalanceEntry_0
        } else {
            0
        }
    }

    /// The state is well-formed: no address is occupied twice, every entry
    /// matches its address, every project has its vault, and the balances sum
    /// to exactly the value issued.
    pub closed spec fn wf(self) -> bool {
        &&& distinct_addrs(self.slots@)
        &&& slots_ok(self.slots@)
        &&& total_of(self.slots@) == self.total_supply
        &&& forall|project_id: u64|
            #[trigger] self.accounts().contains_key(project_address(project_id))
                ==> self.accounts().contains_key(vault_address(project_id))
    }

    /// A well-formed state keeps every project within its target and its name
    /// within bounds.
    pub proof fn lemma_project_invariant(self, project_id: u64)
        requires
            self.wf(),
            self.has_project(project_id),
        ensures
            project_wf(self.project_at(project_id)),
            self.project_at(project_id).project_id == project_id,
            self.project_at(project_id).raised_amount
                <= self.project_at(project_id).target_amount,
    {
        lemma_map_of_contains(self.slots@, project_address(project_id));
        let i = choose|i: int|
            0 <= i < self.slots@.len() && self.slots@[i].addr == project_address(project_id);
        lemma_map_of_index(self.slots@, i);
        assert(slot_ok(self.slots@[i]));
    }

    /// An empty escrow: nothing is stored and nothing has been issued.
    pub fn new() -> (r: Escrow)
        ensures
            r.wf(),
            r.accounts() == Map::<Address, Entry>::empty(),
            r.total_issued() == 0,
    {
        let e = Escrow { slots: Vec::new(), total_supply: 0 };
        proof {
            assert(e.slots@.len() == 0);
        }
        e
    }

    /// Locates the slot holding `a`, if any.
    fn find(&self, a: Address) -> (r: Option<usize>)
        requires
            distinct_addrs(self.slots@),
        ensures
            match r {
                Some(i) => {
                    &&& i < self.slots@.len()
                    &&& self.slots@[i as int].addr == a
                    &&& self.accounts().contains_key(a)
                    &&& self.accounts()[a] == self.slots@[i as int].entry
                },
                None => !self.accounts().contains_key(a),
            },
    {
        let n = self.slots.len();
        let mut i: usize = 0;
        while i < n
            invariant
                n == self.slots@.len(),
                i <= n,
                distinct_addrs(self.slots@),
                forall|j: int| 0 <= j < i ==> self.slots@[j].addr != a,
            decreases n - i,
        {
            if self.slots[i].addr == a {
                proof {
                    lemma_map_of_index(self.slots@, i as int);
                }
                return Some(i);
            }
            i += 1;
        }
        proof {
            lemma_map_of_contains(self.slots@, a);
        }
        None
    }

    /// Reads the balance of the value account at `a`.
    fn read_balance(&self, a: Address) -> (b: u64)
        requires
            distinct_addrs(self.slots@),
        ensures
            b == self.balance_at(a),
    {
        match self.find(a) {
            Some(i) => match &self.slots[i].entry {
                Entry::BalanceEntry(b) => *b,
                _ => 0,
            },
            None => 0,
        }
    }

    /// Copies out the project record stored for `project_id`.
    fn read_project(&self, project_id: u64) -> (r: Option<Project>)
        requires
            distinct_addrs(self.slots@),
            slots_ok(self.slots@),
        ensures
            match r {
                Some(p) => self.has_project(project_id) && p == self.project_at(project_id),
                None => !self.has_project(project_id),
            },
    {
        match self.find(Address::ProjectAt { project_id }) {
            Some(i) => {
                proof {
                    assert(slot_ok(self.slots@[i as int]));
                }
                match &self.slots[i].entry {
                    Entry::ProjectEntry(q) => Some(
                        Project {
                            project_id: q.project_id,
                            target_amount: q.target_amount,
                            raised_amount: q.raised_amount,
                            investor_count: q.investor_count,
                            project_name: q.project_name.clone(),
                            is_active: q.is_active,
                            authority: q.authority,
                        },
                    ),
                    _ => None,
                }
            },
            None => None,
        }
    }

    /// The project record stored for `project_id`, for callers outside the
    /// library.
    pub fn get_project(&self, project_id: u64) -> (r: Option<Project>)
        requires
            self.wf(),
        ensures
            match r {
                Some(p) => self.has_project(project_id) && p == self.project_at(project_id),
                None => !self.has_project(project_id),
            },
    {
        self.read_project(project_id)
    }

    /// The receipt stored for `investor`'s contribution to `project_id`, for
    /// callers outside the library.
    pub fn get_investment(&self, project_id: u64, investor: Identity) -> (r: Option<Investment>)
        requires
            self.wf(),
        ensures
            match r {
                Some(v) => self.has_investment(project_id, investor) && v == self.investment_at(
                    project_id,
                    investor,
                ),
                None => !self.has_investment(project_id, investor),
            },
    {
        match self.find(Address::InvestmentAt { project_id, investor }) {
            Some(i) => {
                proof {
                    assert(slot_ok(self.slots@[i as int]));
                }
                match &self.slots[i].entry {
                    Entry::InvestmentEntry(v) => Some(*v),
                    _ => None,
                }
            },
            None => None,
        }
    }

    /// The balance held at `a`, for callers outside the library.
    pub fn get_balance(&self, a: Address) -> (b: u64)
        requires
            self.wf(),
        ensures
            b == self.balance_at(a),
    {
        self.read_balance(a)
    }

    /// Overwrites the entry of slot `i`, keeping its address.
    fn put_at(&mut self, i: usize, e: Entry)
        requires
            distinct_addrs(old(self).slots@),
            i < old(self).slots@.len(),
        ensures
            final(self).slots@ == old(self).slots@.update(
                i as int,
                (Slot { addr: old(self).slots@[i as int].addr, entry: e }),
            ),
            final(self).accounts() == old(self).accounts().insert(old(self).slots@[i as int].addr, e),
            total_of(final(self).slots@) == total_of(old(self).slots@) - entry_amount(
                old(self).slots@[i as int].entry,
            ) + entry_amount(e),
            final(self).total_supply == old(self).total_supply,
            distinct_addrs(final(self).slots@),
    {
        proof {
            lemma_map_of_update(self.slots@, i as int, e);
        }
        let a = self.slots[i].addr;
        self.slots.set(i, Slot { addr: a, entry: e });
        proof {
            assert forall|x: int, y: int|
                0 <= x < y < self.slots@.len() implies self.slots@[x].addr
                != self.slots@[y].addr by {
                assert(self.slots@[x].addr == old(self).slots@[x].addr);
                assert(self.slots@[y].addr == old(self).slots@[y].addr);
            }
        }
    }

    /// Occupies the fresh address `a` with entry `e`.
    fn append(&mut self, a: Address, e: Entry)
        requires
            distinct_addrs(old(self).slots@),
            !old(self).accounts().contains_key(a),
        ensures
            final(self).slots@ == old(self).slots@.push((Slot { addr: a, entry: e })),
            final(self).accounts() == old(self).accounts().insert(a, e),
            total_of(final(self).slots@) == total_of(old(self).slots@) + entry_amount(e),
            final(self).total_supply == old(self).total_supply,
            distinct_addrs(final(self).slots@),
    {
        proof {
            lemma_map_of_push(self.slots@, Slot { addr: a, entry: e });
            lemma_map_of_contains(self.slots@, a);
        }
        self.slots.push(Slot { addr: a, entry: e });
        proof {
            assert forall|x: int, y: int|
                0 <= x < y < self.slots@.len() implies self.slots@[x].addr
                != self.slots@[y].addr by {
                if y < self.slots@.len() - 1 {
                    assert(old(self).slots@[x].addr != old(self).slots@[y].addr);
                } else {
                    assert(self.slots@[y].addr == a);
                    assert(old(self).slots@[x].addr != a);
                }
            }
        }
    }

    /// Adds `amount` to the value account at `a`, creating it when absent.
    fn credit(&mut self, a: Address, amount: u64)
        requires
            distinct_addrs(old(self).slots@),
            slots_ok(old(self).slots@),
            is_value_address(a),
            total_of(old(self).slots@) + amount <= u64::MAX,
        ensures
            distinct_addrs(final(self).slots@),
            slots_ok(final(self).slots@),
            old(self).balance_at(a) + amount <= u64::MAX,
            final(self).accounts() == old(self).accounts().insert(
                a,
                (Entry::BalanceEntry((old(self).balance_at(a) + amount) as u64)),
            ),
            total_of(final(self).slots@) == total_of(old(self).slots@) + amount,
            final(self).total_supply == old(self).total_supply,
    {
        proof {
            lemma_total_nonneg(self.slots@);
        }
        match self.find(a) {
            Some(i) => {
                proof {
                    assert(slot_ok(self.slots@[i as int]));
                    lemma_entry_le_total(self.slots@, i as int);
                }
                let b = match &self.slots[i].entry {
                    Entry::BalanceEntry(b) => *b,
                    _ => 0,
                };
                let nb = b + amount;
                self.put_at(i, Entry::BalanceEntry(nb));
                proof {
                    assert forall|j: int|
                        0 <= j < self.slots@.len() implies slot_ok(#[trigger] self.slots@[j]) by {
                        if j != i {
                            assert(self.slots@[j] == old(self).slots@[j]);
                            assert(slot_ok(old(self).slots@[j]));
                        }
                    }
                }
            },
            None => {
                self.append(a, Entry::BalanceEntry(amount));
                proof {
                    assert forall|j: int|
                        0 <= j < self.slots@.len() implies slot_ok(#[trigger] self.slots@[j]) by {
                        if j < self.slots@.len() - 1 {
                            assert(self.slots@[j] == old(self).slots@[j]);
                            assert(slot_ok(old(self).slots@[j]));
                        }
                    }
                }
            },
        }
    }

    /// Removes `amount` from the value account at `a`; the caller has checked
    /// that the account holds at least `amount`.
    fn debit(&mut self, a: Address, amount: u64)
        requires
            distinct_addrs(old(self).slots@),
            slots_ok(old(self).slots@),
            is_value_address(a),
            amount <= old(self).balance_at(a),
        ensures
            distinct_addrs(final(self).slots@),
            slots_ok(final(self).slots@),
            final(self).accounts() == old(self).accounts().insert(
                a,
                (Entry::BalanceEntry((old(self).balance_at(a) - amount) as u64)),
            ),
            total_of(final(self).slots@) == total_of(old(self).slots@) - amount,
            final(self).total_supply == old(self).total_supply,
    {
        match self.find(a) {
            Some(i) => {
                proof {
                    assert(slot_ok(self.slots@[i as int]));
                }
                let b = match &self.slots[i].entry {
                    Entry::BalanceEntry(b) => *b,
                    _ => 0,
                };
                let nb = b - amount;
                self.put_at(i, Entry::BalanceEntry(nb));
                proof {
                    assert forall|j: int|
                        0 <= j < self.slots@.len() implies slot_ok(#[trigger] self.slots@[j]) by {
                        if j != i {
                            assert(self.slots@[j] == old(self).slots@[j]);
                            assert(slot_ok(old(self).slots@[j]));
                        }
                    }
                }
            },
            None => {
                self.append(a, Entry::BalanceEntry(0));
                proof {
                    assert forall|j: int|
                        0 <= j < self.slots@.len() implies slot_ok(#[trigger] self.slots@[j]) by {
                        if j < self.slots@.len() - 1 {
                            assert(self.slots@[j] == old(self).slots@[j]);
                            assert(slot_ok(old(self).slots@[j]));
                        }
                    }
                }
            },
        }
    }

    /// The value-transfer primitive: moves `amount` from the value account at
    /// `from` to the one at `to`, if `authorizer` controls `from` and the
    /// balance suffices. On any failure the state is untouched. Transfers
    /// conserve value: the total issued never changes.
    pub fn transfer(
        &mut self,
        amount: u64,
        from: Address,
        to: Address,
        authorizer: Capability,
    ) -> (r: Result<(), TransferError>)
        requires
            old(self).wf(),
            is_value_address(from),
            is_value_address(to),
        ensures
            final(self).wf(),
            final(self).total_issued() == old(self).total_issued(),
            r is Ok <==> authorizes(authorizer, from) && old(self).balance_at(from) >= amount,
            r matches Err(e) ==> final(self).accounts() == old(self).accounts() && e == (
            if !authorizes(authorizer, from) {
                TransferError::Unauthorized
            } else {
                TransferError::InsufficientBalance
            }),
            r is Ok ==> {
                &&& final(self).accounts().dom() == old(self).accounts().dom().insert(from).insert(to)
                &&& from != to ==> final(self).balance_at(from) == old(self).balance_at(from) - amount
                &&& from != to ==> final(self).balance_at(to) == old(self).balance_at(to) + amount
                &&& from == to ==> final(self).balance_at(from) == old(self).balance_at(from)
                &&& forall|b: Address|
                    b != from && b != to ==> (#[trigger] final(self).accounts().contains_key(b)
                        <==> old(self).accounts().contains_key(b)) && (old(
                        self,
                    ).accounts().contains_key(b) ==> final(self).accounts()[b] == old(self).accounts()[b])
            },
    {
        let authorized = match (from, authorizer) {
            (Address::WalletAt { holder }, Capability::Key { owner }) => holder == owner,
            (
                Address::VaultAt { project_id: p },
                Capability::VaultAuthority { project_id: q },
            ) => p == q,
            _ => false,
        };
        if !authorized {
            return Err(TransferError::Unauthorized);
        }
        let bal = self.read_balance(from);
        if bal < amount {
            return Err(TransferError::InsufficientBalance);
        }
        self.debit(from, amount);
        proof {
            lemma_total_nonneg(old(self).slots@);
        }
        self.credit(to, amount);
        proof {
            assert forall|pid: u64|
                #[trigger] self.accounts().contains_key(project_address(pid)) implies self
                .accounts().contains_key(vault_address(pid)) by {
                assert(old(self).accounts().contains_key(project_address(pid)));
                assert(old(self).accounts().contains_key(vault_address(pid)));
            }
            assert(self.accounts().dom() =~= old(self).accounts().dom().insert(from).insert(to));
        }
        Ok(())
    }

    /// The account-provisioning and funding primitive of the value system:
    /// issues `amount` fresh base units into `holder`'s own wallet, creating
    /// the wallet when absent. Rejected only when the issued total would no
    /// longer fit its counter.
    pub fn fund_wallet(&mut self, holder: Identity, amount: u64) -> (r: Result<(), ErrorCode>)
        requires
            old(self).wf(),
        ensures
            final(self).wf(),
            r is Ok <==> old(self).total_issued() + amount <= u64::MAX,
            r matches Err(e) ==> final(self).accounts() == old(self).accounts() && final(self).total_issued()
                == old(self).total_issued() && e == ErrorCode::ArithmeticOverflow,
            r is Ok ==> {
                &&& final(self).total_issued() == old(self).total_issued() + amount
                &&& final(self).accounts() == old(self).accounts().insert(
                    wallet_address(holder),
                    (Entry::BalanceEntry(
                        (old(self).balance_at(wallet_address(holder)) + amount) as u64,
                    )),
                )
                &&& final(self).balance_at(wallet_address(holder)) == old(self).balance_at(
                    wallet_address(holder),
                ) + amount
            },
    {
        if amount > u64::MAX - self.total_supply {
            return Err(ErrorCode::ArithmeticOverflow);
        }
        self.credit(Address::WalletAt { holder }, amount);
        self.total_supply = self.total_supply + amount;
        proof {
            assert forall|pid: u64|
                #[trigger] self.accounts().contains_key(project_address(pid)) implies self
                .accounts().contains_key(vault_address(pid)) by {
                assert(old(self).accounts().contains_key(project_address(pid)));
                assert(old(self).accounts().contains_key(vault_address(pid)));
            }
        }
        Ok(())
    }

    /// Registers a new project: creates its record and its empty vault at
    /// their derived addresses, both of which must be unoccupied. No
    /// validation is applied to `target_amount`; a zero target and an empty
    /// name are accepted. On success the caller becomes the project's
    /// authority and a `ProjectCreated` notification is returned.
    pub fn initialize_project(
        &mut self,
        ctx: InitializeProject,
        project_id: u64,
        target_amount: u64,
        project_name: String,
    ) -> (r: Result<ProjectCreated, ErrorCode>)
        requires
            old(self).wf(),
            project_name@.len() <= MAX_NAME_LEN,
        ensures
            final(self).wf(),
            final(self).total_issued() == old(self).total_issued(),
            r is Ok <==> !old(self).has_project(project_id) && !old(self).has_account(
                vault_address(project_id),
            ),
            r matches Err(e) ==> final(self).accounts() == old(self).accounts() && e
                == ErrorCode::AlreadyExists,
            r matches Ok(ev) ==> {
                &&& ev == (ProjectCreated { project_id, target_amount, authority: ctx.authority })
                &&& final(self).accounts() == old(self).accounts().insert(
                    project_address(project_id),
                    (Entry::ProjectEntry(
                        (Project {
                            project_id,
                            target_amount,
                            raised_amount: 0,
                            investor_count: 0,
                            project_name,
                            is_active: true,
                            authority: ctx.authority,
                        }),
                    )),
                ).insert(vault_address(project_id), (Entry::BalanceEntry(0u64)))
                &&& final(self).balance_at(vault_address(project_id)) == 0
            },
    {
        match self.find(Address::ProjectAt { project_id }) {
            Some(_) => {
                return Err(ErrorCode::AlreadyExists);
            },
            None => {},
        }
        match self.find(Address::VaultAt { project_id }) {
            Some(_) => {
                return Err(ErrorCode::AlreadyExists);
            },
            None => {},
        }
        let p = Project {
            project_id,
            target_amount,
            raised_amount: 0,
            investor_count: 0,
            project_name,
            is_active: true,
            authority: ctx.authority,
        };
        self.append(Address::ProjectAt { project_id }, Entry::ProjectEntry(p));
        self.append(Address::VaultAt { project_id }, Entry::BalanceEntry(0));
        proof {
            assert forall|j: int|
                0 <= j < self.slots@.len() implies slot_ok(#[trigger] self.slots@[j]) by {
                if j < self.slots@.len() - 2 {
                    assert(self.slots@[j] == old(self).slots@[j]);
                    assert(slot_ok(old(self).slots@[j]));
                }
            }
            assert forall|pid: u64|
                #[trigger] self.accounts().contains_key(project_address(pid)) implies self
                .accounts().contains_key(vault_address(pid)) by {
                if pid != project_id {
                    assert(old(self).accounts().contains_key(project_address(pid)));
                    assert(old(self).accounts().contains_key(vault_address(pid)));
                }
            }
        }
        Ok(ProjectCreated { project_id, target_amount, authority: ctx.authority })
    }

    /// Accepts one contribution: after the checks of `invest_error` pass, in
    /// that order, moves `amount` from the investor's wallet into the
    /// project's vault, raises the project's totals, and records the
    /// investor's single receipt. Any rejection leaves the state exactly as
    /// it was, and an accepted contribution changes nothing but the two
    /// balances, the project's totals and the new receipt.
    pub fn invest(&mut self, ctx: Invest, amount: u64) -> (r: Result<InvestmentMade, ErrorCode>)
        requires
            old(self).wf(),
            old(self).has_project(ctx.project_id),
        ensures
            final(self).wf(),
            final(self).total_issued() == old(self).total_issued(),
            ({
                let p = old(self).project_at(ctx.project_id);
                let wallet0 = old(self).balance_at(wallet_address(ctx.investor));
                let dup = old(self).has_investment(ctx.project_id, ctx.investor);
                match r {
                    Ok(ev) => {
                        &&& invest_error(p, amount, wallet0, dup) is None
                        &&& ev == (InvestmentMade {
                            project_id: ctx.project_id,
                            investor: ctx.investor,
                            amount,
                            timestamp: ctx.now,
                        })
                        &&& final(self).has_project(ctx.project_id)
                        &&& final(self).project_at(ctx.project_id) == invested(p, amount)
                        &&& final(self).balance_at(wallet_address(ctx.investor)) == wallet0
                            - amount
                        &&& final(self).balance_at(vault_address(ctx.project_id)) == old(
                            self,
                        ).balance_at(vault_address(ctx.project_id)) + amount
                        &&& final(self).has_investment(ctx.project_id, ctx.investor)
                        &&& final(self).investment_at(ctx.project_id, ctx.investor) == (Investment {
                            project_id: ctx.project_id,
                            investor: ctx.investor,
                            amount,
                            timestamp: ctx.now,
                        })
                        &&& final(self).accounts().dom() == old(self).accounts().dom().insert(
                            investment_address(ctx.project_id, ctx.investor),
                        )
                        &&& forall|b: Address|
                            b != project_address(ctx.project_id) && b != vault_address(
                                ctx.project_id,
                            ) && b != wallet_address(ctx.investor) && b != investment_address(
                                ctx.project_id,
                                ctx.investor,
                            ) ==> (#[trigger] final(self).accounts().contains_key(b) <==> old(
                                self,
                            ).accounts().contains_key(b)) && (old(self).accounts().contains_key(b)
                                ==> final(self).accounts()[b] == old(self).accounts()[b])
                    },
                    Err(e) => {
                        &&& invest_error(p, amount, wallet0, dup) == Some(e)
                        &&& final(self).accounts() == old(self).accounts()
                    },
                }
            }),
    {
        let project_id = ctx.project_id;
        let p = match self.read_project(project_id) {
            Some(p) => p,
            None => {
                proof {
                    assert(false);
                }
                return Err(ErrorCode::ProjectNotActive);
            },
        };
        if !p.is_active {
            return Err(ErrorCode::ProjectNotActive);
        }
        if amount > u64::MAX - p.raised_amount {
            return Err(ErrorCode::ArithmeticOverflow);
        }
        if p.raised_amount + amount > p.target_amount {
            return Err(ErrorCode::ExceedsTargetAmount);
        }
        if amount < MIN_INVESTMENT {
            return Err(ErrorCode::MinimumInvestmentNotMet);
        }
        if p.investor_count == u32::MAX {
            return Err(ErrorCode::ArithmeticOverflow);
        }
        let wallet_addr = Address::WalletAt { holder: ctx.investor };
        let wb = self.read_balance(wallet_addr);
        if wb < amount {
            return Err(ErrorCode::TransferFailed(TransferError::InsufficientBalance));
        }
        match self.find(Address::InvestmentAt { project_id, investor: ctx.investor }) {
            Some(_) => {
                return Err(ErrorCode::AlreadyExists);
            },
            None => {},
        }
        let vault_addr = Address::VaultAt { project_id };
        let tr = self.transfer(
            amount,
            wallet_addr,
            vault_addr,
            Capability::Key { owner: ctx.investor },
        );
        match tr {
            Err(_) => {
                proof {
                    assert(false);
                }
                return Err(ErrorCode::AlreadyExists);
            },
            Ok(()) => {},
        }
        let pi = match self.find(Address::ProjectAt { project_id }) {
            Some(i) => i,
            None => {
                proof {
                    assert(false);
                }
                0
            },
        };
        let np = Project {
            project_id: p.project_id,
            target_amount: p.target_amount,
            raised_amount: p.raised_amount + amount,
            investor_count: p.investor_count + 1,
            project_name: p.project_name,
            is_active: p.is_active,
            authority: p.authority,
        };
        proof {
            old(self).lemma_project_invariant(project_id);
        }
        self.put_at(pi, Entry::ProjectEntry(np));
        let ghost mid = *self;
        self.append(
            Address::InvestmentAt { project_id, investor: ctx.investor },
            Entry::InvestmentEntry(
                Investment {
                    project_id,
                    investor: ctx.investor,
                    amount,
                    timestamp: ctx.now,
                },
            ),
        );
        proof {
            assert forall|j: int|
                0 <= j < self.slots@.len() implies slot_ok(#[trigger] self.slots@[j]) by {
                if j < self.slots@.len() - 1 {
                    assert(self.slots@[j] == mid.slots@[j]);
                    if j != pi {
                        assert(slot_ok(mid.slots@[j]));
                    }
                }
            }
            assert forall|pid: u64|
                #[trigger] self.accounts().contains_key(project_address(pid)) implies self
                .accounts().contains_key(vault_address(pid)) by {
                assert(old(self).accounts().contains_key(project_address(pid)));
                assert(old(self).accounts().contains_key(vault_address(pid)));
            }
            assert(old(self).accounts().dom().insert(wallet_addr) =~= old(
                self,
            ).accounts().dom());
            assert(old(self).accounts().dom().insert(vault_addr) =~= old(self).accounts().dom());
            assert(self.accounts().dom() =~= old(self).accounts().dom().insert(
                investment_address(project_id, ctx.investor),
            ));
        }
        Ok(InvestmentMade { project_id, investor: ctx.investor, amount, timestamp: ctx.now })
    }

    /// Releases pooled funds to the project's authority: only the stored
    /// authority may call, the claim is bounded by `raised_amount`, and the
    /// vault pays out through its own derived capability. The project record
    /// itself is left untouched — in particular `raised_amount` is not
    /// decremented, so repeated withdrawals each check against the same
    /// total and are limited only by what the vault still holds.
    pub fn withdraw_funds(&mut self, ctx: WithdrawFunds, amount: u64) -> (r: Result<
        FundsWithdrawn,
        ErrorCode,
    >)
        requires
            old(self).wf(),
            old(self).has_project(ctx.project_id),
        ensures
            final(self).wf(),
            final(self).total_issued() == old(self).total_issued(),
            ({
                let p = old(self).project_at(ctx.project_id);
                let vault0 = old(self).balance_at(vault_address(ctx.project_id));
                match r {
                    Ok(ev) => {
                        &&& withdraw_error(p, ctx.authority, amount, vault0) is None
                        &&& ev == (FundsWithdrawn {
                            project_id: ctx.project_id,
                            authority: ctx.authority,
                            amount,
                        })
                        &&& final(self).has_project(ctx.project_id)
                        &&& final(self).project_at(ctx.project_id) == p
                        &&& final(self).balance_at(vault_address(ctx.project_id)) == vault0
                            - amount
                        &&& final(self).balance_at(wallet_address(p.authority)) == old(
                            self,
                        ).balance_at(wallet_address(p.authority)) + amount
                        &&& final(self).accounts().dom() == old(self).accounts().dom().insert(
                            wallet_address(p.authority),
                        )
                        &&& forall|b: Address|
                            b != vault_address(ctx.project_id) && b != wallet_address(p.authority)
                                ==> (#[trigger] final(self).accounts().contains_key(b) <==> old(
                                self,
                            ).accounts().contains_key(b)) && (old(self).accounts().contains_key(b)
                                ==> final(self).accounts()[b] == old(self).accounts()[b])
                    },
                    Err(e) => {
                        &&& withdraw_error(p, ctx.authority, amount, vault0) == Some(e)
                        &&& final(self).accounts() == old(self).accounts()
                    },
                }
            }),
    {
        let project_id = ctx.project_id;
        let p = match self.read_project(project_id) {
            Some(p) => p,
            None => {
                proof {
                    assert(false);
                }
                return Err(ErrorCode::Unauthorized);
            },
        };
        if ctx.authority != p.authority {
            return Err(ErrorCode::Unauthorized);
        }
        if amount > p.raised_amount {
            return Err(ErrorCode::InsufficientFunds);
        }
        let vault_addr = Address::VaultAt { project_id };
        let vb = self.read_balance(vault_addr);
        if vb < amount {
            return Err(ErrorCode::TransferFailed(TransferError::InsufficientBalance));
        }
        let tr = self.transfer(
            amount,
            vault_addr,
            Address::WalletAt { holder: p.authority },
            Capability::VaultAuthority { project_id },
        );
        match tr {
            Err(_) => {
                proof {
                    assert(false);
                }
                return Err(ErrorCode::Unauthorized);
            },
            Ok(()) => {},
        }
        proof {
            assert(old(self).accounts().dom().insert(vault_addr) =~= old(self).accounts().dom());
            assert(self.accounts().dom() =~= old(self).accounts().dom().insert(
                wallet_address(p.authority),
            ));
        }
        Ok(FundsWithdrawn { project_id, authority: ctx.authority, amount })
    }
}

} // verus!
