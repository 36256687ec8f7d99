//! Program-derived addresses: the inbox address of a recipient and the
//! address that each message of that recipient must claim.

use vstd::prelude::*;

verus! {

/// What `Pubkey::try_find_program_address` yields for the given seeds and
/// program id: the derived address and its bump seed, or `None`.
pub uninterp spec fn program_address_of(seeds: Seq<Seq<u8>>, program_id: Seq<u8>) -> Option<(Seq<u8>, u8)>;

/// The bytes of the tag "inbox" that starts the seeds of every inbox address.
pub open spec fn inbox_prefix() -> Seq<u8> {
    seq![105u8, 110u8, 98u8, 111u8, 120u8]
}

/// The `width` low bytes of `n`, least significant first.
pub open spec fn le_bytes(n: nat, width: nat) -> Seq<u8>
    decreases width,
{
    if width == 0 {
        seq![]
    } else {
        seq![(n % 256) as u8] + le_bytes(n / 256, (width - 1) as nat)
    }
}

/// The seeds of the address of message number `index` for `recipient`.
pub open spec fn message_seeds(recipient: Seq<u8>, index: nat) -> Seq<Seq<u8>> {
    seq![recipient, le_bytes(index, 8)]
}

/// The address that message number `index` for `recipient` must claim.
pub open spec fn message_address_spec(recipient: Seq<u8>, index: nat, program_id: Seq<u8>) -> Option<Seq<u8>> {
    match program_address_of(message_seeds(recipient, index), program_id) {
        Some(found) => Some(found.0),
        None => None,
    }
}

/// The seeds of the inbox address of `recipient`.
pub open spec fn inbox_seeds(recipient: Seq<u8>) -> Seq<Seq<u8>> {
    seq![inbox_prefix(), recipient]
}

/// The bytes of each seed in `seeds`.
pub open spec fn seeds_view(seeds: &Vec<Vec<u8>>) -> Seq<Seq<u8>> {
    seeds@.map_values(|s: Vec<u8>| s@)
}

/// Relies on `Pubkey::try_find_program_address` of solana-program (reached
/// through anchor-lang): the first address off the curve found for the seeds
/// and a bump seed counted down from 255, with that bump; `None` where no bump
/// gives one or the seeds exceed the runtime's limits. It never panics and
/// depends on its arguments alone.
#[verifier::external_body]
fn find_program_address(seeds: &Vec<Vec<u8>>, program_id: &[u8; 32]) -> (r: Option<([u8; 32], u8)>)
    ensures
        match r {
            Some(found) => program_address_of(seeds_view(seeds), program_id@) == Some((found.0@, found.1)),
            None => program_address_of(seeds_view(seeds), program_id@) is None,
        },
{
    let refs: Vec<&[u8]> = seeds.iter().map(|s| s.as_slice()).collect();
    let program = anchor_lang::prelude::Pubkey::new_from_array(*program_id);
    anchor_lang::prelude::Pubkey::try_find_program_address(&refs, &program).map(|(k, b)| (k.to_bytes(), b))
}

/// The eight little-endian bytes of `n`.
pub fn u64_le_bytes(n: u64) -> (r: Vec<u8>)
    ensures
        r@ == le_bytes(n as nat, 8),
{
    let mut r: Vec<u8> = Vec::new();
    let mut m: u64 = n;
    let mut i: usize = 0;
    while i < 8
        invariant
            i <= 8,
            r@.len() == i,
            r@ + le_bytes(m as nat, (8 - i) as nat) == le_bytes(n as nat, 8),
        decreases 8 - i,
    {
        let ghost before = r@;
        let ghost rest = le_bytes((m / 256) as nat, (8 - i - 1) as nat);
        assert(le_bytes(m as nat, (8 - i) as nat) == seq![(m % 256) as u8] + rest);
        r.push((m % 256) as u8);
        assert(r@ + rest =~= before + (seq![(m % 256) as u8] + rest));
        m = m / 256;
        i = i + 1;
    }
    assert(le_bytes(m as nat, 0) =~= Seq::<u8>::empty());
    assert(r@ =~= r@ + le_bytes(m as nat, 0));
    r
}

/// A vector holding the bytes of `a`.
pub fn array_to_vec(a: &[u8; 32]) -> (r: Vec<u8>)
    ensures
        r@ == a@,
{
    let mut r: Vec<u8> = Vec::new();
    let mut i: usize = 0;
    while i < 32
        invariant
            i <= 32,
            r@ == a@.subrange(0, i as int),
        decreases 32 - i,
    {
        r.push(a[i]);
        i = i + 1;
        assert(r@ =~= a@.subrange(0, i as int));
    }
    assert(a@.subrange(0, 32) =~= a@);
    r
}

/// Whether two 32-byte values are equal.
pub fn bytes32_eq(a: &[u8; 32], b: &[u8; 32]) -> (r: bool)
    ensures
        r == (a@ == b@),
{
    let mut i: usize = 0;
    while i < 32
        invariant
            i <= 32,
            a@.subrange(0, i as int) == b@.subrange(0, i as int),
        decreases 32 - i,
    {
        if a[i] != b[i] {
            assert(a@[i as int] != b@[i as int]);
            return false;
        }
        i = i + 1;
        assert(a@.subrange(0, i as int) =~= a@.subrange(0, i as int - 1).push(a@[i as int - 1]));
        assert(b@.subrange(0, i as int) =~= b@.subrange(0, i as int - 1).push(b@[i as int - 1]));
    }
    assert(a@ =~= a@.subrange(0, 32));
    assert(b@ =~= b@.subrange(0, 32));
    true
}

/// The address that message number `index` for `recipient` must claim under
/// `program_id`, or `None` where the derivation finds none.
pub fn message_address(recipient: &[u8; 32], index: u64, program_id: &[u8; 32]) -> (r: Option<[u8; 32]>)
    ensures
        match r {
            Some(a) => message_address_spec(recipient@, index as nat, program_id@) == Some(a@),
            None => message_address_spec(recipient@, index as nat, program_id@) is None,
        },
{
    let mut seeds: Vec<Vec<u8>> = Vec::new();
    seeds.push(array_to_vec(recipient));
    seeds.push(u64_le_bytes(index));
    assert(seeds_view(&seeds) =~= message_seeds(recipient@, index as nat));
    match find_program_address(&seeds, program_id) {
        Some(found) => Some(found.0),
        None => None,
    }
}

/// The inbox address of `recipient` under `program_id` and its bump seed, or
/// `None` where the derivation finds none.
pub fn inbox_address(recipient: &[u8; 32], program_id: &[u8; 32]) -> (r: Option<([u8; 32], u8)>)
    ensures
        match r {
            Some(found) => program_address_of(inbox_seeds(recipient@), program_id@) == Some((found.0@, found.1)),
            None => program_address_of(inbox_seeds(recipient@), program_id@) is None,
        },
{
    let prefix: Vec<u8> = vec![105u8, 110u8, 98u8, 111u8, 120u8];
    let mut seeds: Vec<Vec<u8>> = Vec::new();
    seeds.push(prefix);
    seeds.push(array_to_vec(recipient));
    assert(seeds_view(&seeds) =~= inbox_seeds(recipient@));
    find_program_address(&seeds, program_id)
}

} // verus!
