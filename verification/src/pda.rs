//! Deterministic program-address derivation. The derivation itself is a
//! cryptographic search done by the host SDK; this module names its result so
//! that every contract of the crate can speak about derived addresses as a
//! pure function of the seed list and the deriving authority.

use vstd::prelude::*;
use crate::KEY_LEN;

verus! {

/// The address and bump that the host SDK's program-address search returns
/// for a seed list under a deriving authority, or `None` when the search is
/// exhausted or a seed violates the SDK's limits. The result is a function of
/// the arguments alone: the same seeds under the same authority always name
/// the same address.
pub uninterp spec fn pda_of(seeds: Seq<Seq<u8>>, authority: Seq<u8>) -> Option<(Seq<u8>, u8)>;

/// Relies on `solana_program::pubkey::Pubkey::try_find_program_address`: a
/// deterministic bump search over the seeds and the authority that returns
/// `None` instead of panicking when no bump is found or a seed is over the
/// SDK's length limits, and whose returned address is always 32 bytes.
#[verifier::external_body]
pub fn try_find_pda(seeds: &Vec<Vec<u8>>, authority: &Vec<u8>) -> (r: Option<(Vec<u8>, u8)>)
    requires
        authority@.len() == KEY_LEN,
    ensures
        r is Some <==> pda_of(seeds.deep_view(), authority@) is Some,
        r matches Some(found) ==> {
            &&& found.0@ == pda_of(seeds.deep_view(), authority@).unwrap().0
            &&& found.1 == pda_of(seeds.deep_view(), authority@).unwrap().1
            &&& found.0@.len() == KEY_LEN
        },
{
    let mut arr = [0u8; 32];
    arr.copy_from_slice(authority.as_slice());
    let authority_key = solana_program::pubkey::Pubkey::new_from_array(arr);
    let seed_slices: Vec<&[u8]> = seeds.iter().map(|s| s.as_slice()).collect();
    solana_program::pubkey::Pubkey::try_find_program_address(&seed_slices, &authority_key)
        .map(|(key, bump)| (key.to_bytes().to_vec(), bump))
}

/// The views of a sequence of byte vectors, element by element.
pub open spec fn views_of(s: Seq<Vec<u8>>) -> Seq<Seq<u8>> {
    Seq::new(s.len(), |i: int| s[i]@)
}

/// Derive the program address of `seeds` under `authority`, or `None` when
/// the underlying search is exhausted or a seed is over the SDK's limits.
pub fn derive_address(seeds: &Vec<Vec<u8>>, authority: &Vec<u8>) -> (r: Option<(Vec<u8>, u8)>)
    requires
        authority@.len() == KEY_LEN,
    ensures
        r is Some <==> pda_of(views_of(seeds@), authority@) is Some,
        r matches Some(found) ==> {
            &&& found.0@ == pda_of(views_of(seeds@), authority@).unwrap().0
            &&& found.1 == pda_of(views_of(seeds@), authority@).unwrap().1
            &&& found.0@.len() == KEY_LEN
        },
{
    proof {
        assert forall|i: int| 0 <= i < seeds@.len() implies seeds.deep_view()[i] == views_of(
            seeds@,
        )[i] by {
            assert(seeds@[i].deep_view() =~= seeds@[i]@);
        }
        assert(seeds.deep_view() =~= views_of(seeds@));
    }
    try_find_pda(seeds, authority)
}

/// Same address and bump on every call: the derivation is a pure function of
/// the seed list and the authority, across calls and across process
/// restarts.
pub proof fn lemma_derivation_deterministic(
    seeds_a: Seq<Seq<u8>>,
    authority_a: Seq<u8>,
    seeds_b: Seq<Seq<u8>>,
    authority_b: Seq<u8>,
)
    requires
        seeds_a == seeds_b,
        authority_a == authority_b,
    ensures
        pda_of(seeds_a, authority_a) == pda_of(seeds_b, authority_b),
{
}

} // verus!
