//! A user's profile: the per-owner record that accumulates transferred
//! volume, together with its persisted byte layout and derived address.

use vstd::prelude::*;
use crate::KEY_LEN;
use crate::bytes::{push_bytes, push_le32, push_le64, read_bytes, read_le32, read_le64, spec_le32,
    spec_le64, lemma_le32_injective, lemma_le64_injective};
use crate::pda::{pda_of, derive_address, views_of};
use crate::seeds::{profile_seed, spec_profile_seed};

verus! {

/// A user's profile on the protocol.
pub struct Profile {
    /// The wallet this profile belongs to.
    pub wallet_address: Vec<u8>,
    /// The owner's display name, as raw bytes.
    pub username: Vec<u8>,
    /// Total volume of orders this owner has sourced.
    pub order_volume: u64,
}

/// The mathematical value of a `Profile`.
pub ghost struct ProfileView {
    /// The wallet this profile belongs to.
    pub wallet_address: Seq<u8>,
    /// The owner's display name, as raw bytes.
    pub username: Seq<u8>,
    /// Total volume of orders this owner has sourced.
    pub order_volume: u64,
}

impl View for Profile {
    type V = ProfileView;

    open spec fn view(&self) -> ProfileView {
        ProfileView {
            wallet_address: self.wallet_address@,
            username: self.username@,
            order_volume: self.order_volume,
        }
    }
}

impl ProfileView {
    /// The wallet is an address and the display name is within bounds.
    pub open spec fn wf(&self) -> bool {
        &&& self.wallet_address.len() == KEY_LEN
        &&& self.username.len() <= Profile::MAX_LEN
    }
}

/// The derivation of a profile's address under the program.
pub open spec fn spec_profile_pda(wallet: Seq<u8>, program_id: Seq<u8>) -> Option<(Seq<u8>, u8)> {
    pda_of(seq![spec_profile_seed(), wallet], program_id)
}

/// The persisted layout of a profile: the owner's address, the
/// length-prefixed display name, then the volume counter, all little-endian.
pub open spec fn spec_encode_profile(p: ProfileView) -> Seq<u8> {
    p.wallet_address + spec_le32(p.username.len() as u32) + p.username + spec_le64(p.order_volume)
}

/// Size in bytes of a profile record whose display name has `name_len` bytes.
pub open spec fn spec_profile_record_len(name_len: nat) -> nat {
    (KEY_LEN + 4 + name_len + 8) as nat
}

impl Profile {
    /// Longest allowed display name, in bytes.
    pub const MAX_LEN: usize = 140;

    /// The seed under which profile addresses are derived.
    pub fn seed() -> (r: Vec<u8>)
        ensures
            r@ == spec_profile_seed(),
    {
        profile_seed()
    }

    /// Derive the address and bump of the profile of `wallet_address`.
    pub fn address_with_bump(wallet_address: &Vec<u8>, program_id: &Vec<u8>) -> (r: Option<
        (Vec<u8>, u8),
    >)
        requires
            wallet_address@.len() == KEY_LEN,
            program_id@.len() == KEY_LEN,
        ensures
            r is Some <==> spec_profile_pda(wallet_address@, program_id@) is Some,
            r matches Some(found) ==> {
                &&& found.0@ == spec_profile_pda(wallet_address@, program_id@).unwrap().0
                &&& found.1 == spec_profile_pda(wallet_address@, program_id@).unwrap().1
                &&& found.0@.len() == KEY_LEN
            },
    {
        let mut seeds: Vec<Vec<u8>> = Vec::new();
        seeds.push(Profile::seed());
        seeds.push(wallet_address.clone());
        proof {
            assert(views_of(seeds@) =~= seq![spec_profile_seed(), wallet_address@]);
        }
        derive_address(&seeds, program_id)
    }

    /// Derive the address of the profile of `wallet_address`.
    pub fn address(wallet_address: &Vec<u8>, program_id: &Vec<u8>) -> (r: Option<Vec<u8>>)
        requires
            wallet_address@.len() == KEY_LEN,
            program_id@.len() == KEY_LEN,
        ensures
            r is Some <==> spec_profile_pda(wallet_address@, program_id@) is Some,
            r matches Some(key) ==> key@ == spec_profile_pda(wallet_address@, program_id@).unwrap().0
                && key@.len() == KEY_LEN,
    {
        match Profile::address_with_bump(wallet_address, program_id) {
            Some(found) => Some(found.0),
            None => None,
        }
    }

    /// A fresh profile for `wallet_address` with no recorded volume.
    pub fn new(wallet_address: &Vec<u8>, username: Vec<u8>) -> (r: Profile)
        requires
            wallet_address@.len() == KEY_LEN,
            username@.len() <= Profile::MAX_LEN,
        ensures
            r@ == (ProfileView {
                wallet_address: wallet_address@,
                username: username@,
                order_volume: 0,
            }),
            r@.wf(),
    {
        Profile { wallet_address: wallet_address.clone(), username, order_volume: 0 }
    }
}

/// Serialize a profile into its persisted layout.
pub fn encode_profile(p: &Profile) -> (r: Vec<u8>)
    requires
        p@.wf(),
    ensures
        r@ == spec_encode_profile(p@),
        r@.len() == spec_profile_record_len(p@.username.len()),
{
    let mut out: Vec<u8> = Vec::new();
    push_bytes(&mut out, &p.wallet_address);
    push_le32(&mut out, p.username.len() as u32);
    push_bytes(&mut out, &p.username);
    push_le64(&mut out, p.order_volume);
    assert(out@ =~= spec_encode_profile(p@));
    out
}

/// Whether `data` is the persisted layout of some well-formed profile.
pub open spec fn spec_profile_decodes(data: Seq<u8>) -> bool {
    exists|p: ProfileView| p.wf() && data == spec_encode_profile(p)
}

/// Parse a persisted profile record. Returns `None` exactly when `data` is
/// not the encoding of any well-formed profile.
pub fn decode_profile(data: &Vec<u8>) -> (r: Option<Profile>)
    ensures
        r is Some <==> spec_profile_decodes(data@),
        r matches Some(p) ==> p@.wf() && data@ == spec_encode_profile(p@),
{
    let n = data.len();
    if n < 44 {
        proof {
            assert forall|p: ProfileView| p.wf() implies data@ != spec_encode_profile(p) by {
                assert(spec_encode_profile(p).len() >= 44);
            }
        }
        return None;
    }
    let name_len_u32 = read_le32(data, 32);
    if name_len_u32 > (Profile::MAX_LEN as u32) {
        proof {
            assert forall|p: ProfileView| p.wf() implies data@ != spec_encode_profile(p) by {
                if data@ == spec_encode_profile(p) {
                    assert(spec_encode_profile(p).subrange(32, 36) == spec_le32(
                        p.username.len() as u32,
                    ));
                    lemma_le32_injective(name_len_u32, p.username.len() as u32);
                }
            }
        }
        return None;
    }
    let name_len = name_len_u32 as usize;
    if n != 44 + name_len {
        proof {
            assert forall|p: ProfileView| p.wf() implies data@ != spec_encode_profile(p) by {
                if data@ == spec_encode_profile(p) {
                    assert(spec_encode_profile(p).subrange(32, 36) == spec_le32(
                        p.username.len() as u32,
                    ));
                    lemma_le32_injective(name_len_u32, p.username.len() as u32);
                }
            }
        }
        return None;
    }
    let wallet_address = read_bytes(data, 0, 32);
    let username = read_bytes(data, 36, name_len);
    let order_volume = read_le64(data, 36 + name_len);
    let p = Profile { wallet_address, username, order_volume };
    proof {
        assert(data@ =~= spec_encode_profile(p@));
    }
    Some(p)
}

/// Round trip: every well-formed profile decodes from its own encoding, and
/// whatever decodes re-encodes to the same bytes. Together with
/// `lemma_profile_encoding_injective` this pins the persisted layout.
pub proof fn lemma_profile_roundtrip(p: ProfileView)
    requires
        p.wf(),
    ensures
        spec_profile_decodes(spec_encode_profile(p)),
{
}

/// Two well-formed profiles with the same encoding are the same profile.
pub proof fn lemma_profile_encoding_injective(a: ProfileView, b: ProfileView)
    requires
        a.wf(),
        b.wf(),
        spec_encode_profile(a) == spec_encode_profile(b),
    ensures
        a == b,
{
    let ea = spec_encode_profile(a);
    let eb = spec_encode_profile(b);
    assert(ea.subrange(32, 36) =~= spec_le32(a.username.len() as u32));
    assert(eb.subrange(32, 36) =~= spec_le32(b.username.len() as u32));
    lemma_le32_injective(a.username.len() as u32, b.username.len() as u32);
    let n = a.username.len() as int;
    assert(a.wallet_address =~= ea.subrange(0, 32));
    assert(b.wallet_address =~= eb.subrange(0, 32));
    assert(a.username =~= ea.subrange(36, 36 + n));
    assert(b.username =~= eb.subrange(36, 36 + n));
    assert(spec_le64(a.order_volume) =~= ea.subrange(36 + n, 44 + n));
    assert(spec_le64(b.order_volume) =~= eb.subrange(36 + n, 44 + n));
    lemma_le64_injective(a.order_volume, b.order_volume);
}

/// The unique well-formed profile that `data` encodes; meaningful only when
/// `spec_profile_decodes(data)` holds.
pub open spec fn spec_profile_of(data: Seq<u8>) -> ProfileView {
    choose|p: ProfileView| p.wf() && data == spec_encode_profile(p)
}

/// Whatever well-formed profile encodes to `data` is the profile `data`
/// names.
pub proof fn lemma_profile_of(data: Seq<u8>, p: ProfileView)
    requires
        p.wf(),
        data == spec_encode_profile(p),
    ensures
        spec_profile_of(data) == p,
{
    let q = spec_profile_of(data);
    assert(q.wf() && data == spec_encode_profile(q)) by {
        assert(p.wf() && data == spec_encode_profile(p));
    }
    lemma_profile_encoding_injective(p, q);
}

/// The total of a sequence of transfer amounts.
pub open spec fn spec_sum(amounts: Seq<u64>) -> int
    decreases amounts.len(),
{
    if amounts.len() == 0 {
        0
    } else {
        amounts[0] + spec_sum(amounts.skip(1))
    }
}

/// A sum of amounts is never negative.
pub proof fn lemma_sum_nonneg(amounts: Seq<u64>)
    ensures
        spec_sum(amounts) >= 0,
    decreases amounts.len(),
{
    if amounts.len() > 0 {
        lemma_sum_nonneg(amounts.skip(1));
    }
}

/// The profile after a sequence of successful hook executions sourced by its
/// owner, each of which grows the volume counter by its amount.
pub open spec fn spec_apply_orders(p: ProfileView, amounts: Seq<u64>) -> ProfileView
    decreases amounts.len(),
{
    if amounts.len() == 0 {
        p
    } else {
        spec_apply_orders(
            ProfileView {
                wallet_address: p.wallet_address,
                username: p.username,
                order_volume: (p.order_volume + amounts[0]) as u64,
            },
            amounts.skip(1),
        )
    }
}

/// Monotonic accounting: after any sequence of successful executions sourced
/// by one owner, the owner's recorded volume is the starting volume plus the
/// sum of all transferred amounts, and nothing else of the profile moves.
pub proof fn lemma_monotonic_accounting(p: ProfileView, amounts: Seq<u64>)
    requires
        p.order_volume + spec_sum(amounts) <= u64::MAX,
    ensures
        spec_apply_orders(p, amounts).order_volume == p.order_volume + spec_sum(amounts),
        spec_apply_orders(p, amounts).wallet_address == p.wallet_address,
        spec_apply_orders(p, amounts).username == p.username,
    decreases amounts.len(),
{
    if amounts.len() > 0 {
        lemma_sum_nonneg(amounts.skip(1));
        let stepped = ProfileView {
            wallet_address: p.wallet_address,
            username: p.username,
            order_volume: (p.order_volume + amounts[0]) as u64,
        };
        lemma_monotonic_accounting(stepped, amounts.skip(1));
    }
}

} // verus!
