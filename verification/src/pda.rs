use vstd::prelude::*;
use crate::pubkey::Pubkey;

verus! {

/// The program-derived address and bump seed that the runtime finds for `seeds`
/// under `program_id`, or `None` where no such address exists.
pub uninterp spec fn program_address(seeds: Seq<Seq<u8>>, program_id: Pubkey) -> Option<(Pubkey, u8)>;

/// The program-derived address the runtime computes from `seeds` (the bump
/// among them, last) under `program_id`, or `None` where the seeds give none.
pub uninterp spec fn created_address(seeds: Seq<Seq<u8>>, program_id: Pubkey) -> Option<Pubkey>;

/// The byte strings of a list of seeds.
pub open spec fn seeds_view(seeds: Seq<Vec<u8>>) -> Seq<Seq<u8>> {
    seeds.map_values(|s: Vec<u8>| s@)
}

/// `Pubkey::try_find_program_address` of the `solana-address` crate, as
/// `anchor_lang::prelude::Pubkey` re-exports it.  Trusted to return the named
/// `program_address` of the seeds and program id, and `None` when there are 16
/// or more seeds or a seed is longer than 32 bytes (the function finds no
/// address for such seeds).  Which address and bump come out for valid seeds
/// is not stated: it is a SHA-256 search over bump seeds that only the crate
/// runs.  It is stated that the bump it returns, appended to the seeds, makes
/// `create_program_address` give the address it returns (the search returns
/// the first bump, from 255 down, for which that call succeeds).
#[verifier::external_body]
pub(crate) fn try_find_program_address(seeds: &Vec<Vec<u8>>, program_id: &Pubkey) -> (r: Option<(Pubkey, u8)>)
    ensures
        r == program_address(seeds_view(seeds@), *program_id),
        r matches Some((k, b)) ==> created_address(seeds_view(seeds@).push(seq![b]), *program_id) == Some(k),
        (seeds@.len() >= 16 || exists|i: int| 0 <= i < seeds@.len() && seeds@[i]@.len() > 32) ==> r is None,
{
    let slices: Vec<&[u8]> = seeds.iter().map(|s| s.as_slice()).collect();
    let pid = anchor_lang::prelude::Pubkey::new_from_array(program_id.bytes);
    match anchor_lang::prelude::Pubkey::try_find_program_address(&slices, &pid) {
        Some((key, bump)) => Some((Pubkey { bytes: key.to_bytes() }, bump)),
        None => None,
    }
}

/// `Pubkey::create_program_address` of the `solana-address` crate, as
/// `anchor_lang::prelude::Pubkey` re-exports it, called with `seeds` and then
/// `bump` as the last seed.  Trusted to return the named `created_address` of
/// those seeds and the program id, and `None` when there are more than 16
/// seeds with the bump or a seed is longer than 32 bytes (the function
/// refuses such seeds).  Which address comes out is not stated: it is a
/// SHA-256 hash that only the crate computes, refused where it lies on the
/// curve.
#[verifier::external_body]
pub(crate) fn create_program_address(seeds: &Vec<Vec<u8>>, bump: u8, program_id: &Pubkey) -> (r: Option<Pubkey>)
    ensures
        r == created_address(seeds_view(seeds@).push(seq![bump]), *program_id),
        (seeds@.len() >= 16 || exists|i: int| 0 <= i < seeds@.len() && seeds@[i]@.len() > 32) ==> r is None,
{
    let bump_seed = [bump];
    let mut slices: Vec<&[u8]> = seeds.iter().map(|s| s.as_slice()).collect();
    slices.push(&bump_seed);
    let pid = anchor_lang::prelude::Pubkey::new_from_array(program_id.bytes);
    match anchor_lang::prelude::Pubkey::create_program_address(&slices, &pid) {
        Ok(key) => Some(Pubkey { bytes: key.to_bytes() }),
        Err(_) => None,
    }
}

/// The eight little-endian bytes of `x`.
pub open spec fn le_bytes(x: u64) -> Seq<u8> {
    seq![x as u8, (x >> 8u64) as u8, (x >> 16u64) as u8, (x >> 24u64) as u8,
        (x >> 32u64) as u8, (x >> 40u64) as u8, (x >> 48u64) as u8, (x >> 56u64) as u8]
}

/// The bytes of the seed tag "maj_registry".
pub open spec fn tag_registry() -> Seq<u8> {
    seq![109u8, 97, 106, 95, 114, 101, 103, 105, 115, 116, 114, 121]
}

fn tag_registry_bytes() -> (v: Vec<u8>)
    ensures
        v@ == tag_registry(),
{
    let v: Vec<u8> = vec![109u8, 97, 106, 95, 114, 101, 103, 105, 115, 116, 114, 121];
    assert(v@ =~= tag_registry());
    v
}

/// The bytes of the seed tag "maj_name".
pub open spec fn tag_name() -> Seq<u8> {
    seq![109u8, 97, 106, 95, 110, 97, 109, 101]
}

fn tag_name_bytes() -> (v: Vec<u8>)
    ensures
        v@ == tag_name(),
{
    let v: Vec<u8> = vec![109u8, 97, 106, 95, 110, 97, 109, 101];
    assert(v@ =~= tag_name());
    v
}

/// The bytes of the seed tag "maj_instance".
pub open spec fn tag_instance() -> Seq<u8> {
    seq![109u8, 97, 106, 95, 105, 110, 115, 116, 97, 110, 99, 101]
}

fn tag_instance_bytes() -> (v: Vec<u8>)
    ensures
        v@ == tag_instance(),
{
    let v: Vec<u8> = vec![109u8, 97, 106, 95, 105, 110, 115, 116, 97, 110, 99, 101];
    assert(v@ =~= tag_instance());
    v
}

/// The bytes of the seed tag "maj_tx".
pub open spec fn tag_tx() -> Seq<u8> {
    seq![109u8, 97, 106, 95, 116, 120]
}

fn tag_tx_bytes() -> (v: Vec<u8>)
    ensures
        v@ == tag_tx(),
{
    let v: Vec<u8> = vec![109u8, 97, 106, 95, 116, 120];
    assert(v@ =~= tag_tx());
    v
}

/// The bytes of the seed tag "sig".
pub open spec fn tag_sig() -> Seq<u8> {
    seq![115u8, 105, 103]
}

fn tag_sig_bytes() -> (v: Vec<u8>)
    ensures
        v@ == tag_sig(),
{
    let v: Vec<u8> = vec![115u8, 105, 103];
    assert(v@ =~= tag_sig());
    v
}

/// The bytes of the seed tag "admin_record".
pub open spec fn tag_admin_record() -> Seq<u8> {
    seq![97u8, 100, 109, 105, 110, 95, 114, 101, 99, 111, 114, 100]
}

fn tag_admin_record_bytes() -> (v: Vec<u8>)
    ensures
        v@ == tag_admin_record(),
{
    let v: Vec<u8> = vec![97u8, 100, 109, 105, 110, 95, 114, 101, 99, 111, 114, 100];
    assert(v@ =~= tag_admin_record());
    v
}

/// The bytes of the seed tag "blacklist".
pub open spec fn tag_blacklist() -> Seq<u8> {
    seq![98u8, 108, 97, 99, 107, 108, 105, 115, 116]
}

fn tag_blacklist_bytes() -> (v: Vec<u8>)
    ensures
        v@ == tag_blacklist(),
{
    let v: Vec<u8> = vec![98u8, 108, 97, 99, 107, 108, 105, 115, 116];
    assert(v@ =~= tag_blacklist());
    v
}

/// The little-endian bytes of `x`, as a seed.
pub fn le_seed(x: u64) -> (v: Vec<u8>)
    ensures v@ == le_bytes(x),
{
    let v = vec![x as u8, (x >> 8u64) as u8, (x >> 16u64) as u8, (x >> 24u64) as u8,
        (x >> 32u64) as u8, (x >> 40u64) as u8, (x >> 48u64) as u8, (x >> 56u64) as u8];
    assert(v@ =~= le_bytes(x));
    v
}

/// Seeds of the registry singleton.
pub open spec fn registry_seeds() -> Seq<Seq<u8>> {
    seq![tag_registry()]
}

/// Seeds of the record that reserves a name.
pub open spec fn name_seeds(name: Seq<u8>) -> Seq<Seq<u8>> {
    seq![tag_name(), name]
}

/// Seeds of the multisig wallet with this name.
pub open spec fn instance_seeds(name: Seq<u8>) -> Seq<Seq<u8>> {
    seq![tag_instance(), name]
}

/// Seeds of the transaction with this index in this wallet.
pub open spec fn tx_seeds(instance: Pubkey, index: u64) -> Seq<Seq<u8>> {
    seq![tag_tx(), instance.bytes@, le_bytes(index)]
}

/// Seeds of the record that `signer` approved this transaction.
pub open spec fn sig_seeds(tx: Pubkey, signer: Pubkey) -> Seq<Seq<u8>> {
    seq![tag_sig(), tx.bytes@, signer.bytes@]
}

/// Seeds of the record that `admin` belongs to this wallet.
pub open spec fn admin_record_seeds(admin: Pubkey, instance: Pubkey) -> Seq<Seq<u8>> {
    seq![tag_admin_record(), admin.bytes@, instance.bytes@]
}

/// Seeds of the record that `target` is blacklisted in this wallet.
pub open spec fn blacklist_seeds(instance: Pubkey, target: Pubkey) -> Seq<Seq<u8>> {
    seq![tag_blacklist(), instance.bytes@, target.bytes@]
}

/// Builds the registry's seeds.
pub fn registry_seed_list() -> (s: Vec<Vec<u8>>)
    ensures
        seeds_view(s@) == registry_seeds(),
{
    let s = vec![tag_registry_bytes()];
    assert(seeds_view(s@) =~= registry_seeds());
    s
}

/// Builds the seeds of a name reservation.
pub fn name_seed_list(name: &Vec<u8>) -> (s: Vec<Vec<u8>>)
    ensures
        seeds_view(s@) == name_seeds(name@),
{
    let s = vec![tag_name_bytes(), name.clone()];
    assert(seeds_view(s@) =~= name_seeds(name@));
    s
}

/// Builds the seeds of a wallet.
pub fn instance_seed_list(name: &Vec<u8>) -> (s: Vec<Vec<u8>>)
    ensures
        seeds_view(s@) == instance_seeds(name@),
{
    let s = vec![tag_instance_bytes(), name.clone()];
    assert(seeds_view(s@) =~= instance_seeds(name@));
    s
}

/// Builds the seeds of a transaction.
pub fn tx_seed_list(instance: &Pubkey, index: u64) -> (s: Vec<Vec<u8>>)
    ensures
        seeds_view(s@) == tx_seeds(*instance, index),
{
    let s = vec![tag_tx_bytes(), instance.to_seed(), le_seed(index)];
    assert(seeds_view(s@) =~= tx_seeds(*instance, index));
    s
}

/// Builds the seeds of a signature record.
pub fn sig_seed_list(tx: &Pubkey, signer: &Pubkey) -> (s: Vec<Vec<u8>>)
    ensures
        seeds_view(s@) == sig_seeds(*tx, *signer),
{
    let s = vec![tag_sig_bytes(), tx.to_seed(), signer.to_seed()];
    assert(seeds_view(s@) =~= sig_seeds(*tx, *signer));
    s
}

/// Builds the seeds of an admin record.
pub fn admin_record_seed_list(admin: &Pubkey, instance: &Pubkey) -> (s: Vec<Vec<u8>>)
    ensures
        seeds_view(s@) == admin_record_seeds(*admin, *instance),
{
    let s = vec![tag_admin_record_bytes(), admin.to_seed(), instance.to_seed()];
    assert(seeds_view(s@) =~= admin_record_seeds(*admin, *instance));
    s
}

/// Builds the seeds of a blacklist record.
pub fn blacklist_seed_list(instance: &Pubkey, target: &Pubkey) -> (s: Vec<Vec<u8>>)
    ensures
        seeds_view(s@) == blacklist_seeds(*instance, *target),
{
    let s = vec![tag_blacklist_bytes(), instance.to_seed(), target.to_seed()];
    assert(seeds_view(s@) =~= blacklist_seeds(*instance, *target));
    s
}

} // verus!
