//! The lamports every address holds, and how an instruction moves them: the
//! transfer an executed transaction makes out of its wallet, and the return
//! of a closed record's lamports to the receiver its instruction names.
use vstd::prelude::*;
use crate::pubkey::Pubkey;

verus! {

/// The lamports held at `k` (none where the map has no entry).
pub open spec fn lamports(m: Map<Pubkey, u64>, k: Pubkey) -> nat {
    if m.contains_key(k) {
        m[k] as nat
    } else {
        0
    }
}

/// Why lamports could not be moved.
#[derive(Clone, Copy, Debug, PartialEq, Eq, Structural)]
pub enum BalanceError {
    /// The account does not hold the lamports asked for.
    Insufficient,
    /// The receiving balance would exceed what a lamport count can hold.
    Overflow,
}

/// The balances of all addresses.
pub struct Balances {
    entries: Vec<(Pubkey, u64)>,
}

/// What a transfer of `amount` from `from` to `to` does to the balances `m`.
pub open spec fn transferred(m: Map<Pubkey, u64>, from: Pubkey, to: Pubkey, amount: u64) -> Result<Map<Pubkey, u64>, BalanceError> {
    if lamports(m, from) < amount {
        Err(BalanceError::Insufficient)
    } else if from == to {
        Ok(m)
    } else if lamports(m, to) + amount > u64::MAX {
        Err(BalanceError::Overflow)
    } else {
        Ok(m.insert(from, (lamports(m, from) - amount) as u64).insert(to, (lamports(m, to) + amount) as u64))
    }
}

impl Balances {
    /// No two entries are for the same address.
    pub closed spec fn wf(&self) -> bool {
        forall|i: int, j: int|
            0 <= i < self.entries@.len() && 0 <= j < self.entries@.len() && i != j
                ==> #[trigger] self.entries@[i].0 != #[trigger] self.entries@[j].0
    }

    /// The balances by address.
    pub closed spec fn view(&self) -> Map<Pubkey, u64> {
        Map::new(
            |k: Pubkey| exists|i: int| 0 <= i < self.entries@.len() && self.entries@[i].0 == k,
            |k: Pubkey| self.entries@[choose|i: int| 0 <= i < self.entries@.len() && self.entries@[i].0 == k].1,
        )
    }

    /// No lamports anywhere.
    pub fn new() -> (b: Balances)
        ensures
            b.wf(),
            b.view() == Map::<Pubkey, u64>::empty(),
    {
        let b = Balances { entries: Vec::new() };
        assert(b.view() =~= Map::<Pubkey, u64>::empty());
        b
    }

    /// Where the entry of `k` stands, if there is one.
    fn position(&self, k: &Pubkey) -> (r: Option<usize>)
        requires
            self.wf(),
        ensures
            match r {
                Some(i) => i < self.entries@.len() && self.entries@[i as int].0 == *k
                    && self.view().contains_key(*k) && self.view()[*k] == self.entries@[i as int].1,
                None => !self.view().contains_key(*k),
            },
    {
        let mut i: usize = 0;
        while i < self.entries.len()
            invariant
                self.wf(),
                i <= self.entries@.len(),
                forall|j: int| 0 <= j < i ==> self.entries@[j].0 != *k,
            decreases self.entries@.len() - i,
        {
            if self.entries[i].0.key_eq(k) {
                let ghost c = choose|j: int| 0 <= j < self.entries@.len() && self.entries@[j].0 == *k;
                assert(c == i) by {
                    if c != i {
                        assert(self.entries@[c].0 != self.entries@[i as int].0);
                    }
                }
                return Some(i);
            }
            i = i + 1;
        }
        assert(!self.view().contains_key(*k));
        None
    }

    /// The lamports held at `k`.
    pub fn balance(&self, k: &Pubkey) -> (n: u64)
        requires
            self.wf(),
        ensures
            n == lamports(self.view(), *k),
    {
        match self.position(k) {
            Some(i) => self.entries[i].1,
            None => 0,
        }
    }

    /// Sets the lamports held at `k`.
    fn set(&mut self, k: Pubkey, n: u64)
        requires
            old(self).wf(),
        ensures
            final(self).wf(),
            final(self).view() == old(self).view().insert(k, n),
    {
        let ghost pre = old(self).view();
        match self.position(&k) {
            Some(i) => {
                let ghost old_entries = self.entries@;
                self.entries.set(i, (k, n));
                assert(self.wf()) by {
                    assert forall|x: int, y: int|
                        0 <= x < self.entries@.len() && 0 <= y < self.entries@.len() && x != y
                            implies #[trigger] self.entries@[x].0 != #[trigger] self.entries@[y].0 by {
                        assert(self.entries@[x].0 == old_entries[x].0);
                        assert(self.entries@[y].0 == old_entries[y].0);
                    }
                }
                assert forall|q: Pubkey| #[trigger] self.view().contains_key(q) <==> pre.insert(k, n).contains_key(q) by {
                    if pre.contains_key(q) {
                        let j = choose|j: int| 0 <= j < old_entries.len() && old_entries[j].0 == q;
                        assert(self.entries@[j].0 == q);
                    }
                    if self.view().contains_key(q) {
                        let j = choose|j: int| 0 <= j < self.entries@.len() && self.entries@[j].0 == q;
                        assert(old_entries[j].0 == q);
                    }
                }
                assert forall|q: Pubkey| #[trigger] self.view().contains_key(q) implies self.view()[q] == pre.insert(k, n)[q] by {
                    let j = choose|j: int| 0 <= j < self.entries@.len() && self.entries@[j].0 == q;
                    let oj = choose|j: int| 0 <= j < old_entries.len() && old_entries[j].0 == q;
                    assert(old_entries[j].0 == q);
                    if oj != j {
                        assert(old_entries[oj].0 != old_entries[j].0);
                    }
                }
                assert(self.view() =~= pre.insert(k, n));
            },
            None => {
                let ghost old_entries = self.entries@;
                self.entries.push((k, n));
                assert(self.wf()) by {
                    assert forall|x: int, y: int|
                        0 <= x < self.entries@.len() && 0 <= y < self.entries@.len() && x != y
                            implies #[trigger] self.entries@[x].0 != #[trigger] self.entries@[y].0 by {
                        if x == old_entries.len() && y < old_entries.len() {
                            assert(pre.contains_key(self.entries@[y].0) || true);
                            assert(old_entries[y].0 != k) by {
                                if old_entries[y].0 == k {
                                    assert(exists|j: int| 0 <= j < old_entries.len() && old_entries[j].0 == k);
                                }
                            }
                        }
                        if y == old_entries.len() && x < old_entries.len() {
                            assert(old_entries[x].0 != k) by {
                                if old_entries[x].0 == k {
                                    assert(exists|j: int| 0 <= j < old_entries.len() && old_entries[j].0 == k);
                                }
                            }
                        }
                    }
                }
                assert forall|q: Pubkey| #[trigger] self.view().contains_key(q) <==> pre.insert(k, n).contains_key(q) by {
                    if pre.contains_key(q) {
                        let j = choose|j: int| 0 <= j < old_entries.len() && old_entries[j].0 == q;
                        assert(self.entries@[j].0 == q);
                    }
                    if q == k {
                        assert(self.entries@[old_entries.len() as int].0 == q);
                    }
                    if self.view().contains_key(q) && q != k {
                        let j = choose|j: int| 0 <= j < self.entries@.len() && self.entries@[j].0 == q;
                        assert(j < old_entries.len());
                        assert(old_entries[j].0 == q);
                    }
                }
                assert forall|q: Pubkey| #[trigger] self.view().contains_key(q) implies self.view()[q] == pre.insert(k, n)[q] by {
                    let j = choose|j: int| 0 <= j < self.entries@.len() && self.entries@[j].0 == q;
                    if q == k {
                        if j != old_entries.len() {
                            assert(old_entries[j].0 == k);
                            assert(exists|i: int| 0 <= i < old_entries.len() && old_entries[i].0 == k);
                        }
                    } else {
                        assert(j < old_entries.len());
                        let oj = choose|j: int| 0 <= j < old_entries.len() && old_entries[j].0 == q;
                        if oj != j {
                            assert(self.entries@[oj].0 != self.entries@[j].0);
                        }
                    }
                }
                assert(self.view() =~= pre.insert(k, n));
            },
        }
    }

    /// Adds `amount` lamports at `k`: fails, changing nothing, where the
    /// balance would overflow.
    pub fn deposit(&mut self, k: Pubkey, amount: u64) -> (r: Result<(), BalanceError>)
        requires
            old(self).wf(),
        ensures
            final(self).wf(),
            lamports(old(self).view(), k) + amount > u64::MAX ==> r == Err::<(), BalanceError>(BalanceError::Overflow)
                && final(self).view() == old(self).view(),
            lamports(old(self).view(), k) + amount <= u64::MAX ==> r is Ok
                && final(self).view() == old(self).view().insert(k, (lamports(old(self).view(), k) + amount) as u64),
    {
        let held = self.balance(&k);
        if held > u64::MAX - amount {
            return Err(BalanceError::Overflow);
        }
        self.set(k, held + amount);
        Ok(())
    }

    /// Moves `amount` lamports from `from` to `to`; fails, changing nothing,
    /// where `from` holds too little or `to` would overflow.
    pub fn transfer(&mut self, from: Pubkey, to: Pubkey, amount: u64) -> (r: Result<(), BalanceError>)
        requires
            old(self).wf(),
        ensures
            final(self).wf(),
            match transferred(old(self).view(), from, to, amount) {
                Ok(m) => r is Ok && final(self).view() == m,
                Err(e) => r == Err::<(), BalanceError>(e) && final(self).view() == old(self).view(),
            },
    {
        let held = self.balance(&from);
        if held < amount {
            return Err(BalanceError::Insufficient);
        }
        if from.key_eq(&to) {
            return Ok(());
        }
        let received = self.balance(&to);
        if received > u64::MAX - amount {
            return Err(BalanceError::Overflow);
        }
        self.set(from, held - amount);
        self.set(to, received + amount);
        Ok(())
    }

    /// A copy of the balances.
    pub fn snapshot(&self) -> (c: Balances)
        requires
            self.wf(),
        ensures
            c.wf(),
            c.view() == self.view(),
    {
        let mut entries: Vec<(Pubkey, u64)> = Vec::new();
        let mut i: usize = 0;
        while i < self.entries.len()
            invariant
                i <= self.entries@.len(),
                entries@ =~= self.entries@.take(i as int),
            decreases self.entries@.len() - i,
        {
            entries.push(self.entries[i]);
            i = i + 1;
        }
        assert(entries@ =~= self.entries@);
        let c = Balances { entries };
        assert(c.view() =~= self.view());
        c
    }
}

} // verus!
