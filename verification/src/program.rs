use vstd::prelude::*;
use crate::pubkey::Pubkey;
use crate::state::instance::{AdminRecord, BlacklistRecord, MajInstance, MajInstanceView, MajNameRecord};
use crate::state::registry::MajRegistry;
use crate::state::transaction::{MajTransaction, MajTransactionView, SignatureRecord};
use crate::errors::InstructionError;
use crate::events::{Outcome, OutcomeView};

verus! {

/// The record an account of the program holds.
#[derive(Clone, Debug)]
pub enum AccountData {
    Registry(MajRegistry),
    NameRecord(MajNameRecord),
    Instance(MajInstance),
    Transaction(MajTransaction),
    Signature(SignatureRecord),
    Admin(AdminRecord),
    Blacklist(BlacklistRecord),
}

/// The content of a record.
pub enum AccountDataView {
    Registry(MajRegistry),
    NameRecord(MajNameRecord),
    Instance(MajInstanceView),
    Transaction(MajTransactionView),
    Signature(SignatureRecord),
    Admin(AdminRecord),
    Blacklist(BlacklistRecord),
}

impl View for AccountData {
    type V = AccountDataView;

    open spec fn view(&self) -> AccountDataView {
        match self {
            AccountData::Registry(r) => AccountDataView::Registry(*r),
            AccountData::NameRecord(r) => AccountDataView::NameRecord(*r),
            AccountData::Instance(r) => AccountDataView::Instance(r@),
            AccountData::Transaction(r) => AccountDataView::Transaction(r@),
            AccountData::Signature(r) => AccountDataView::Signature(*r),
            AccountData::Admin(r) => AccountDataView::Admin(*r),
            AccountData::Blacklist(r) => AccountDataView::Blacklist(*r),
        }
    }
}

/// An account owned by the program: its address, the seeds the address was
/// derived from, the bytes allocated to it, and its record.
#[derive(Clone, Debug)]
pub struct StoredAccount {
    pub key: Pubkey,
    pub seeds: Vec<Vec<u8>>,
    pub space: usize,
    pub data: AccountData,
}

/// The content of an account (its address is the key it is found under).
pub struct AccountView {
    pub seeds: Seq<Seq<u8>>,
    pub space: usize,
    pub data: AccountDataView,
}

impl View for StoredAccount {
    type V = AccountView;

    open spec fn view(&self) -> AccountView {
        AccountView {
            seeds: crate::pda::seeds_view(self.seeds@),
            space: self.space,
            data: self.data@,
        }
    }
}

/// The state of the program: its id and the accounts it owns.
#[derive(Clone, Debug)]
pub struct MajProgram {
    pub(crate) program_id: Pubkey,
    pub(crate) accounts: Vec<StoredAccount>,
}

/// The content of the program's state: its id and its accounts by address.
pub struct ProgramView {
    pub program_id: Pubkey,
    pub accounts: Map<Pubkey, AccountView>,
}

impl MajProgram {
    /// Each address holds at most one account.
    pub closed spec fn wf(&self) -> bool {
        forall|i: int, j: int|
            0 <= i < self.accounts@.len() && 0 <= j < self.accounts@.len() && i != j
                ==> #[trigger] self.accounts@[i].key != #[trigger] self.accounts@[j].key
    }

    closed spec fn holds(&self, k: Pubkey) -> bool {
        exists|i: int| 0 <= i < self.accounts@.len() && self.accounts@[i].key == k
    }

    closed spec fn index_of(&self, k: Pubkey) -> int {
        choose|i: int| 0 <= i < self.accounts@.len() && self.accounts@[i].key == k
    }

    /// The accounts by address.
    pub closed spec fn account_map(&self) -> Map<Pubkey, AccountView> {
        Map::new(|k: Pubkey| self.holds(k), |k: Pubkey| self.accounts@[self.index_of(k)]@)
    }

    pub(crate) proof fn lemma_index(&self, i: int)
        requires
            self.wf(),
            0 <= i < self.accounts@.len(),
        ensures
            self@.accounts.contains_key(self.accounts@[i].key),
            self@.accounts[self.accounts@[i].key] == self.accounts@[i]@,
    {
        let k = self.accounts@[i].key;
        assert(self.holds(k));
        let j = self.index_of(k);
        assert(self.accounts@[j].key == k);
    }

    /// The program's id.
    pub fn program_id(&self) -> (r: Pubkey)
        ensures
            r == self@.program_id,
    {
        self.program_id
    }

    /// An empty program state.
    pub fn new(program_id: Pubkey) -> (p: MajProgram)
        ensures
            p.wf(),
            p@.program_id == program_id,
            p@.accounts == Map::<Pubkey, AccountView>::empty(),
    {
        let p = MajProgram { program_id, accounts: Vec::new() };
        assert(p@.accounts =~= Map::<Pubkey, AccountView>::empty());
        p
    }

    /// Where the account at `key` stands, if there is one.
    pub(crate) fn find(&self, key: &Pubkey) -> (r: Option<usize>)
        requires
            self.wf(),
        ensures
            match r {
                Some(i) => i < self.accounts@.len() && self.accounts@[i as int].key == *key
                    && self@.accounts.contains_key(*key)
                    && self@.accounts[*key] == self.accounts@[i as int]@,
                None => !self@.accounts.contains_key(*key),
            },
    {
        let mut i: usize = 0;
        while i < self.accounts.len()
            invariant
                self.wf(),
                i <= self.accounts@.len(),
                forall|j: int| 0 <= j < i ==> self.accounts@[j].key != *key,
            decreases self.accounts@.len() - i,
        {
            if self.accounts[i].key.key_eq(key) {
                proof {
                    self.lemma_index(i as int);
                }
                return Some(i);
            }
            i = i + 1;
        }
        None
    }

    /// The account at `key`, if there is one.
    pub fn account(&self, key: &Pubkey) -> (r: Option<&StoredAccount>)
        requires
            self.wf(),
        ensures
            match r {
                Some(a) => a.key == *key && self@.accounts.contains_key(*key)
                    && self@.accounts[*key] == a@,
                None => !self@.accounts.contains_key(*key),
            },
    {
        match self.find(key) {
            Some(i) => Some(&self.accounts[i]),
            None => None,
        }
    }

    /// The account at position `i`.
    pub(crate) fn at(&self, i: usize) -> (a: &StoredAccount)
        requires
            i < self.accounts@.len(),
        ensures
            *a == self.accounts@[i as int],
    {
        &self.accounts[i]
    }

    /// Takes the account at position `i` out of the state.
    pub(crate) fn take(&mut self, i: usize) -> (a: StoredAccount)
        requires
            old(self).wf(),
            i < old(self).accounts@.len(),
        ensures
            final(self).wf(),
            a == old(self).accounts@[i as int],
            old(self)@.accounts.contains_key(a.key),
            old(self)@.accounts[a.key] == a@,
            final(self)@.program_id == old(self)@.program_id,
            final(self)@.accounts == old(self)@.accounts.remove(a.key),
    {
        proof {
            old(self).lemma_index(i as int);
        }
        let ghost pre = *old(self);
        let a = self.accounts.swap_remove(i);
        let ghost k = a.key;
        assert(self.wf()) by {
            assert forall|x: int, y: int|
                0 <= x < self.accounts@.len() && 0 <= y < self.accounts@.len() && x != y
                    implies #[trigger] self.accounts@[x].key != #[trigger] self.accounts@[y].key by {
                let px = if x == i as int { pre.accounts@.len() - 1 } else { x };
                let py = if y == i as int { pre.accounts@.len() - 1 } else { y };
                assert(self.accounts@[x] == pre.accounts@[px]);
                assert(self.accounts@[y] == pre.accounts@[py]);
            }
        }
        assert(self@.accounts =~= pre@.accounts.remove(k)) by {
            assert forall|q: Pubkey| #[trigger] self@.accounts.contains_key(q)
                <==> pre@.accounts.remove(k).contains_key(q) by {
                if self@.accounts.contains_key(q) {
                    let x = self.index_of(q);
                    let px = if x == i as int { pre.accounts@.len() - 1 } else { x };
                    assert(self.accounts@[x] == pre.accounts@[px]);
                    assert(pre.holds(q));
                    assert(px != i as int);
                }
                if pre@.accounts.remove(k).contains_key(q) {
                    let px = pre.index_of(q);
                    assert(px != i as int);
                    let x = if px == pre.accounts@.len() - 1 { i as int } else { px };
                    assert(self.accounts@[x] == pre.accounts@[px]);
                    assert(self.holds(q));
                }
            }
            assert forall|q: Pubkey| #[trigger] self@.accounts.contains_key(q)
                implies self@.accounts[q] == pre@.accounts.remove(k)[q] by {
                let x = self.index_of(q);
                let px = if x == i as int { pre.accounts@.len() - 1 } else { x };
                assert(self.accounts@[x] == pre.accounts@[px]);
                pre.lemma_index(px);
            }
        }
        a
    }

    /// Adds an account at an address that holds none.
    pub(crate) fn put(&mut self, a: StoredAccount)
        requires
            old(self).wf(),
            !old(self)@.accounts.contains_key(a.key),
        ensures
            final(self).wf(),
            final(self)@.program_id == old(self)@.program_id,
            final(self)@.accounts == old(self)@.accounts.insert(a.key, a@),
    {
        let ghost pre = *old(self);
        let ghost k = a.key;
        let ghost av = a@;
        self.accounts.push(a);
        assert(self.wf()) by {
            assert forall|x: int, y: int|
                0 <= x < self.accounts@.len() && 0 <= y < self.accounts@.len() && x != y
                    implies #[trigger] self.accounts@[x].key != #[trigger] self.accounts@[y].key by {
                if x == pre.accounts@.len() && y < pre.accounts@.len() {
                    assert(pre.holds(self.accounts@[y].key));
                }
                if y == pre.accounts@.len() && x < pre.accounts@.len() {
                    assert(pre.holds(self.accounts@[x].key));
                }
            }
        }
        assert(self@.accounts =~= pre@.accounts.insert(k, av)) by {
            assert forall|q: Pubkey| #[trigger] self@.accounts.contains_key(q)
                <==> pre@.accounts.insert(k, av).contains_key(q) by {
                if self@.accounts.contains_key(q) && q != k {
                    let x = self.index_of(q);
                    assert(x < pre.accounts@.len());
                    assert(pre.holds(q));
                }
                if pre@.accounts.contains_key(q) {
                    let px = pre.index_of(q);
                    assert(self.accounts@[px] == pre.accounts@[px]);
                    assert(self.holds(q));
                }
                if q == k {
                    assert(self.accounts@[pre.accounts@.len() as int].key == k);
                    assert(self.holds(q));
                }
            }
            assert forall|q: Pubkey| #[trigger] self@.accounts.contains_key(q)
                implies self@.accounts[q] == pre@.accounts.insert(k, av)[q] by {
                let x = self.index_of(q);
                self.lemma_index(x);
                if q != k {
                    assert(x < pre.accounts@.len());
                    pre.lemma_index(x);
                }
            }
        }
    }
}

/// A copy of a list of plain values.
fn copy_list<T: Copy>(v: &Vec<T>) -> (c: Vec<T>)
    ensures
        c@ == v@,
{
    let mut c: Vec<T> = Vec::new();
    let mut i: usize = 0;
    while i < v.len()
        invariant
            i <= v@.len(),
            c@ =~= v@.take(i as int),
        decreases v@.len() - i,
    {
        c.push(v[i]);
        i = i + 1;
    }
    assert(c@ =~= v@);
    c
}

/// A copy of a list of seeds.
fn copy_seeds(v: &Vec<Vec<u8>>) -> (c: Vec<Vec<u8>>)
    ensures
        crate::pda::seeds_view(c@) == crate::pda::seeds_view(v@),
{
    let mut c: Vec<Vec<u8>> = Vec::new();
    let mut i: usize = 0;
    while i < v.len()
        invariant
            i <= v@.len(),
            c@.len() == i,
            forall|j: int| 0 <= j < i ==> (#[trigger] c@[j])@ == v@[j]@,
        decreases v@.len() - i,
    {
        c.push(copy_list(&v[i]));
        i = i + 1;
    }
    assert(crate::pda::seeds_view(c@) =~= crate::pda::seeds_view(v@));
    c
}

impl StoredAccount {
    /// A copy of the account.
    fn copy(&self) -> (c: StoredAccount)
        ensures
            c.key == self.key,
            c@ == self@,
    {
        let data = match &self.data {
            AccountData::Registry(r) => AccountData::Registry(*r),
            AccountData::NameRecord(r) => AccountData::NameRecord(*r),
            AccountData::Instance(r) => AccountData::Instance(MajInstance {
                name: copy_list(&r.name),
                admins: copy_list(&r.admins),
                sigs_required: r.sigs_required,
                tx_count: r.tx_count,
                bump: r.bump,
            }),
            AccountData::Transaction(r) => AccountData::Transaction(MajTransaction {
                maj_instance: r.maj_instance,
                tx_index: r.tx_index,
                to: r.to,
                value: r.value,
                proposed_by: r.proposed_by,
                active: r.active,
                executed: r.executed,
                num_signatures: r.num_signatures,
                program_id: r.program_id,
                data: copy_list(&r.data),
                account_metas: copy_list(&r.account_metas),
                bump: r.bump,
            }),
            AccountData::Signature(r) => AccountData::Signature(*r),
            AccountData::Admin(r) => AccountData::Admin(*r),
            AccountData::Blacklist(r) => AccountData::Blacklist(*r),
        };
        StoredAccount { key: self.key, seeds: copy_seeds(&self.seeds), space: self.space, data }
    }
}

impl MajProgram {
    /// A copy of the state, to return to where an instruction fails after it
    /// changed accounts.
    pub(crate) fn snapshot(&self) -> (c: MajProgram)
        requires
            self.wf(),
        ensures
            c.wf(),
            c@ == self@,
    {
        let mut accounts: Vec<StoredAccount> = Vec::new();
        let mut i: usize = 0;
        while i < self.accounts.len()
            invariant
                i <= self.accounts@.len(),
                accounts@.len() == i,
                forall|j: int| 0 <= j < i ==> (#[trigger] accounts@[j]).key == self.accounts@[j].key
                    && accounts@[j]@ == self.accounts@[j]@,
            decreases self.accounts@.len() - i,
        {
            accounts.push(self.accounts[i].copy());
            i = i + 1;
        }
        let c = MajProgram { program_id: self.program_id, accounts };
        assert(c.wf());
        assert forall|k: Pubkey| c.holds(k) <==> self.holds(k) by {
            if c.holds(k) {
                let j = choose|j: int| 0 <= j < c.accounts@.len() && c.accounts@[j].key == k;
                assert(self.accounts@[j].key == k);
            }
            if self.holds(k) {
                let j = choose|j: int| 0 <= j < self.accounts@.len() && self.accounts@[j].key == k;
                assert(c.accounts@[j].key == k);
            }
        }
        assert(c@.accounts =~= self@.accounts) by {
            assert forall|k: Pubkey| #[trigger] c@.accounts.contains_key(k) implies c@.accounts[k] == self@.accounts[k] by {
                let j = c.index_of(k);
                c.lemma_index(j);
                self.lemma_index(j);
            }
        }
        c
    }
}

/// What an instruction does to the accounts: either the accounts afterwards
/// with what it produced, or the reason it fails.
pub type StepResult = Result<(Map<Pubkey, AccountView>, OutcomeView), InstructionError>;

/// An instruction that returned `r`, taking the state from `pre` to `post`,
/// did what `step` says: on success the accounts are those of `step` and the
/// outcome is its outcome; on failure the error is its error and no account
/// changed.
pub open spec fn follows(
    pre: ProgramView,
    post: ProgramView,
    r: Result<Outcome, InstructionError>,
    step: StepResult,
) -> bool {
    &&& post.program_id == pre.program_id
    &&& match step {
        Ok((accounts, out)) => match r {
            Ok(o) => o@ == out && post.accounts == accounts,
            Err(_) => false,
        },
        Err(e) => r == Err::<Outcome, InstructionError>(e) && post.accounts == pre.accounts,
    }
}

impl View for MajProgram {
    type V = ProgramView;

    closed spec fn view(&self) -> ProgramView {
        ProgramView { program_id: self.program_id, accounts: self.account_map() }
    }
}

} // verus!
