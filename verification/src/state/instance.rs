use vstd::prelude::*;
use crate::pubkey::Pubkey;

verus! {

/// A multisig wallet.  The account also holds the wallet's lamports.
#[derive(Clone, Debug)]
pub struct MajInstance {
    /// The wallet's name, as UTF-8 bytes.
    pub name: Vec<u8>,
    /// The admins, in order.
    pub admins: Vec<Pubkey>,
    /// How many admin signatures a transaction needs.
    pub sigs_required: u64,
    /// How many transactions have been proposed; the next one's index.
    pub tx_count: u64,
    pub bump: u8,
}

/// The content of a wallet account.
pub struct MajInstanceView {
    pub name: Seq<u8>,
    pub admins: Seq<Pubkey>,
    pub sigs_required: u64,
    pub tx_count: u64,
    pub bump: u8,
}

impl View for MajInstance {
    type V = MajInstanceView;

    open spec fn view(&self) -> MajInstanceView {
        MajInstanceView {
            name: self.name@,
            admins: self.admins@,
            sigs_required: self.sigs_required,
            tx_count: self.tx_count,
            bump: self.bump,
        }
    }
}

/// Bytes a wallet account takes with `admin_count` admins.
pub open spec fn instance_space(admin_count: nat) -> nat {
    8 + 4 + 64 + 4 + admin_count * 32 + 8 + 8 + 1
}

impl MajInstance {
    /// Bytes a wallet account is created with: room for ten admins.
    pub const INITIAL_SPACE: usize = 8 + 4 + 64 + 4 + (10 * 32) + 8 + 8 + 1;

    /// Bytes a wallet account needs for `admin_count` admins.
    pub fn space_for(admin_count: usize) -> (s: usize)
        requires
            instance_space(admin_count as nat) <= usize::MAX,
        ensures
            s == instance_space(admin_count as nat),
    {
        8 + 4 + 64 + 4 + (admin_count * 32) + 8 + 8 + 1
    }
}

/// The first position of `x` in `s` (meaningful where `s` contains `x`).
pub open spec fn first_position(s: Seq<Pubkey>, x: Pubkey) -> int {
    choose|i: int| 0 <= i < s.len() && s[i] == x && forall|j: int| 0 <= j < i ==> s[j] != x
}

proof fn lemma_earliest(s: Seq<Pubkey>, x: Pubkey, i: int)
    requires
        0 <= i < s.len(),
        s[i] == x,
    ensures
        exists|f: int| 0 <= f < s.len() && s[f] == x && forall|j: int| 0 <= j < f ==> s[j] != x,
    decreases i,
{
    if exists|j: int| 0 <= j < i && s[j] == x {
        let j = choose|j: int| 0 <= j < i && s[j] == x;
        lemma_earliest(s, x, j);
    } else {
        assert(0 <= i < s.len() && s[i] == x && forall|j: int| 0 <= j < i ==> s[j] != x);
    }
}

/// Where `s` contains `x`, its first position is in range and holds `x`.
pub proof fn lemma_first_position(s: Seq<Pubkey>, x: Pubkey)
    requires
        s.contains(x),
    ensures
        0 <= first_position(s, x) < s.len(),
        s[first_position(s, x)] == x,
        forall|j: int| 0 <= j < first_position(s, x) ==> s[j] != x,
{
    let i = choose|i: int| 0 <= i < s.len() && s[i] == x;
    lemma_earliest(s, x, i);
}

/// Whether `x` is among `keys`.
pub fn keys_contain(keys: &Vec<Pubkey>, x: &Pubkey) -> (b: bool)
    ensures
        b == keys@.contains(*x),
{
    let mut i: usize = 0;
    while i < keys.len()
        invariant
            i <= keys@.len(),
            forall|j: int| 0 <= j < i ==> keys@[j] != *x,
        decreases keys@.len() - i,
    {
        if keys[i].key_eq(x) {
            return true;
        }
        i = i + 1;
    }
    false
}

/// The first position of `x` among `keys`, if it is there.
pub fn key_position(keys: &Vec<Pubkey>, x: &Pubkey) -> (r: Option<usize>)
    ensures
        match r {
            Some(i) => keys@.contains(*x) && i == first_position(keys@, *x) && i < keys@.len()
                && keys@[i as int] == *x,
            None => !keys@.contains(*x),
        },
{
    let mut i: usize = 0;
    while i < keys.len()
        invariant
            i <= keys@.len(),
            forall|j: int| 0 <= j < i ==> keys@[j] != *x,
        decreases keys@.len() - i,
    {
        if keys[i].key_eq(x) {
            let ghost f = first_position(keys@, *x);
            assert(f == i) by {
                assert(0 <= i < keys@.len() && keys@[i as int] == *x && forall|j: int| 0 <= j < i ==> keys@[j] != *x);
                if f < i {
                    assert(keys@[f] != *x);
                } else if f > i {
                    assert(keys@[i as int] != *x);
                }
            }
            return Some(i);
        }
        i = i + 1;
    }
    None
}

/// Reserves a name for the wallet created under it.
#[derive(Clone, Copy, Debug)]
pub struct MajNameRecord {
    pub maj_instance: Pubkey,
    pub bump: u8,
}

impl MajNameRecord {
    pub const SPACE: usize = 8 + 32 + 1;
}

/// Records that `admin` belongs to the wallet `maj_instance`.
#[derive(Clone, Copy, Debug)]
pub struct AdminRecord {
    pub admin: Pubkey,
    pub maj_instance: Pubkey,
    pub bump: u8,
}

impl AdminRecord {
    pub const SPACE: usize = 8 + 32 + 32 + 1;
}

/// Its existence means that an address may not propose in a wallet.
#[derive(Clone, Copy, Debug)]
pub struct BlacklistRecord {
    pub bump: u8,
}

impl BlacklistRecord {
    pub const SPACE: usize = 8 + 1;
}

} // verus!
