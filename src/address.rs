//! Deterministic addressing of payment records: the address is derived from
//! the program, the payer and the payment id, so one payer can hold many
//! payments and each (payer, payment id) pair has exactly one address.

use vstd::prelude::*;
use vstd::slice::slice_to_vec;
use vstd::utf8::encode_utf8;
use solana_program::pubkey::Pubkey;
use crate::state::{keys_equal, PaymentError};

verus! {

/// The program address and bump that the ledger derives from these seeds
/// under this program, or `None` where no address can be derived.
pub uninterp spec fn program_address(seeds: Seq<Seq<u8>>, program_id: Seq<u8>) -> Option<
    (Seq<u8>, u8),
>;

/// Relies on `Pubkey::try_find_program_address` of solana_program: the
/// address and bump it finds depend on the seeds and the program id alone,
/// and it finds none where a seed is longer than `MAX_SEED_LEN` (32 bytes).
#[verifier::external_body]
fn try_find_program_address(seeds: &Vec<Vec<u8>>, program_id: &[u8; 32]) -> (r: Option<
    ([u8; 32], u8),
>)
    ensures
        r matches Some(found) ==> program_address(seeds.deep_view(), program_id@) == Some(
            (found.0@, found.1),
        ),
        r is None ==> program_address(seeds.deep_view(), program_id@) is None,
        r is Some ==> forall|i: int| 0 <= i < seeds@.len() ==> #[trigger] seeds@[i]@.len() <= 32,
{
    let refs: Vec<&[u8]> = seeds.iter().map(|s| s.as_slice()).collect();
    Pubkey::try_find_program_address(&refs, &Pubkey::new_from_array(*program_id)).map(
        |(key, bump)| (key.to_bytes(), bump),
    )
}

/// The fixed first seed of every payment address: the bytes of "payment".
pub open spec fn payment_tag() -> Seq<u8> {
    seq![112u8, 97u8, 121u8, 109u8, 101u8, 110u8, 116u8]
}

/// The seeds of a payment's address.
pub open spec fn payment_seeds(payer: Seq<u8>, payment_id: Seq<char>) -> Seq<Seq<u8>> {
    seq![payment_tag(), payer, encode_utf8(payment_id)]
}

/// The address and bump of a payment's record.
pub open spec fn payment_address(program_id: Seq<u8>, payer: Seq<u8>, payment_id: Seq<char>) -> Option<
    (Seq<u8>, u8),
> {
    program_address(payment_seeds(payer, payment_id), program_id)
}

/// The seeds that authorise the program to act for a payment's address:
/// the payment seeds followed by the bump.
pub open spec fn signer_seeds(payer: Seq<u8>, payment_id: Seq<char>, bump: u8) -> Seq<Seq<u8>> {
    payment_seeds(payer, payment_id).push(seq![bump])
}

/// What a derivation result says, as plain sequences.
pub open spec fn found_view(r: Option<([u8; 32], u8)>) -> Option<(Seq<u8>, u8)> {
    match r {
        Some(found) => Some((found.0@, found.1)),
        None => None,
    }
}

/// The seeds of a payment's address, as bytes.
pub fn payment_seed_bytes(payer: &[u8; 32], payment_id: &str) -> (r: Vec<Vec<u8>>)
    ensures
        r.deep_view() == payment_seeds(payer@, payment_id@),
        r@.len() == 3,
        r@[2]@ == encode_utf8(payment_id@),
{
    let tag: Vec<u8> = vec![112u8, 97u8, 121u8, 109u8, 101u8, 110u8, 116u8];
    let mut seeds: Vec<Vec<u8>> = Vec::new();
    let key = slice_to_vec(payer.as_slice());
    let id = slice_to_vec(payment_id.as_bytes());
    assert(tag.deep_view() =~= payment_tag());
    assert(key.deep_view() =~= payer@);
    assert(id.deep_view() =~= encode_utf8(payment_id@));
    seeds.push(tag);
    seeds.push(key);
    seeds.push(id);
    assert(seeds.deep_view() =~= payment_seeds(payer@, payment_id@));
    seeds
}

/// Derives the address and bump of the record of `payment_id` paid by
/// `payer`; `None` where the ledger derives none (a payment id longer than a
/// seed may be).
pub fn derive_payment_address(program_id: &[u8; 32], payer: &[u8; 32], payment_id: &str) -> (r:
    Option<([u8; 32], u8)>)
    ensures
        found_view(r) == payment_address(program_id@, payer@, payment_id@),
        r is Some ==> encode_utf8(payment_id@).len() <= 32,
{
    let seeds = payment_seed_bytes(payer, payment_id);
    let r = try_find_program_address(&seeds, program_id);
    assert(r is Some ==> seeds@[2]@.len() <= 32);
    r
}

/// Accepts the supplied address only where it is the expected one.
pub fn validate_address(expected: &[u8; 32], provided: &[u8; 32]) -> (r: Result<(), PaymentError>)
    ensures
        r is Ok <==> expected@ == provided@,
        r is Err ==> r == Err::<(), PaymentError>(PaymentError::AddressMismatch),
{
    if keys_equal(expected, provided) {
        Ok(())
    } else {
        Err(PaymentError::AddressMismatch)
    }
}

/// Deriving twice from the same program, payer and payment id gives the same
/// address and bump.
pub proof fn lemma_derive_deterministic(
    program_id: [u8; 32],
    payer: [u8; 32],
    payment_id: Seq<char>,
    first: Option<([u8; 32], u8)>,
    second: Option<([u8; 32], u8)>,
)
    requires
        found_view(first) == payment_address(program_id@, payer@, payment_id),
        found_view(second) == payment_address(program_id@, payer@, payment_id),
    ensures
        first == second,
{
    match (first, second) {
        (Some(a), Some(b)) => {
            assert(a.0@ == b.0@);
            assert(a.0 =~= b.0);
        },
        _ => {},
    }
}

} // verus!
