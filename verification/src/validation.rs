//! The validation descriptor store: the binary-encoded, written-once list of
//! account-derivation descriptors that lets the hook's caller compute every
//! auxiliary account the hook needs. One store exists per mint, at an address
//! derived from the mint, sized exactly for its descriptor count.

use vstd::prelude::*;
use crate::{KEY_LEN, TAG_LEN, ProtocolConfig};
use crate::bytes::{push_bytes, push_le32, spec_le32, write_prefix};
use crate::error::ProcessError;
use crate::pda::{pda_of, derive_address, views_of};
use crate::seeds::{extra_account_metas_seed, spec_extra_account_metas_seed, spec_order_tracker_seed,
    spec_profile_seed, order_tracker_seed, profile_seed};
use crate::soulbound::{spec_soulbound_pda, Soulbound};

verus! {

/// One element of a derivation seed list.
pub enum SeedSpec {
    /// A constant byte string.
    Literal { bytes: Vec<u8> },
    /// The raw address bytes of the account at `index` in the invocation's
    /// account list.
    AccountKey { index: u8 },
    /// `length` bytes read at `offset` from the current content of the
    /// account at `account_index`.
    AccountDataSlice { account_index: u8, offset: u8, length: u8 },
}

/// The mathematical value of a `SeedSpec`.
#[verifier::ext_equal]
pub ghost enum SeedSpecView {
    /// A constant byte string.
    Literal { bytes: Seq<u8> },
    /// The raw address bytes of the account at `index`.
    AccountKey { index: u8 },
    /// `length` bytes read at `offset` from the account at `account_index`.
    AccountDataSlice { account_index: u8, offset: u8, length: u8 },
}

impl View for SeedSpec {
    type V = SeedSpecView;

    open spec fn view(&self) -> SeedSpecView {
        match self {
            SeedSpec::Literal { bytes } => SeedSpecView::Literal { bytes: bytes@ },
            SeedSpec::AccountKey { index } => SeedSpecView::AccountKey { index: *index },
            SeedSpec::AccountDataSlice { account_index, offset, length } =>
                SeedSpecView::AccountDataSlice {
                account_index: *account_index,
                offset: *offset,
                length: *length,
            },
        }
    }
}

/// One account-derivation descriptor of the validation list.
pub enum ValidationDescriptor {
    /// A constant address.
    Fixed { address: Vec<u8> },
    /// The address already present at `index` in the invocation's account
    /// list.
    AccountKeyRef { index: u8 },
    /// An address derived under the hook program's own authority.
    PdaFromSeeds { seeds: Vec<SeedSpec>, writable: bool },
    /// An address derived under the authority found at `authority_index` in
    /// the account list.
    ExternalPda { authority_index: u8, seeds: Vec<SeedSpec>, writable: bool },
}

/// The mathematical value of a `ValidationDescriptor`.
#[verifier::ext_equal]
pub ghost enum ValidationDescriptorView {
    /// A constant address.
    Fixed { address: Seq<u8> },
    /// The address already present at `index` in the account list.
    AccountKeyRef { index: u8 },
    /// An address derived under the hook program's own authority.
    PdaFromSeeds { seeds: Seq<SeedSpecView>, writable: bool },
    /// An address derived under the authority found at `authority_index`.
    ExternalPda { authority_index: u8, seeds: Seq<SeedSpecView>, writable: bool },
}

impl View for ValidationDescriptor {
    type V = ValidationDescriptorView;

    open spec fn view(&self) -> ValidationDescriptorView {
        match self {
            ValidationDescriptor::Fixed { address } => ValidationDescriptorView::Fixed {
                address: address@,
            },
            ValidationDescriptor::AccountKeyRef { index } => ValidationDescriptorView::AccountKeyRef {
                index: *index,
            },
            ValidationDescriptor::PdaFromSeeds { seeds, writable } =>
                ValidationDescriptorView::PdaFromSeeds {
                seeds: Seq::new(seeds@.len(), |i: int| seeds@[i]@),
                writable: *writable,
            },
            ValidationDescriptor::ExternalPda { authority_index, seeds, writable } =>
                ValidationDescriptorView::ExternalPda {
                authority_index: *authority_index,
                seeds: Seq::new(seeds@.len(), |i: int| seeds@[i]@),
                writable: *writable,
            },
        }
    }
}

/// A sequence of `n` zero bytes.
pub open spec fn spec_zeros(n: nat) -> Seq<u8> {
    Seq::new(n, |i: int| 0u8)
}

/// Byte size of one packed seed.
pub open spec fn spec_seed_size(s: SeedSpecView) -> int {
    match s {
        SeedSpecView::Literal { bytes } => 2 + bytes.len() as int,
        SeedSpecView::AccountKey { .. } => 2,
        SeedSpecView::AccountDataSlice { .. } => 4,
    }
}

/// The packed form of one seed: a tag byte, then the seed's own fields.
pub open spec fn spec_encode_seed(s: SeedSpecView) -> Seq<u8> {
    match s {
        SeedSpecView::Literal { bytes } => seq![1u8, bytes.len() as u8] + bytes,
        SeedSpecView::AccountKey { index } => seq![3u8, index],
        SeedSpecView::AccountDataSlice { account_index, offset, length } => seq![
            4u8,
            account_index,
            offset,
            length,
        ],
    }
}

/// The packed forms of a seed list, in order.
pub open spec fn spec_encode_seed_list(ss: Seq<SeedSpecView>) -> Seq<u8>
    decreases ss.len(),
{
    if ss.len() == 0 {
        Seq::empty()
    } else {
        spec_encode_seed(ss[0]) + spec_encode_seed_list(ss.skip(1))
    }
}

/// A seed list fits the fixed-size configuration area of one descriptor.
pub open spec fn seeds_wf(ss: Seq<SeedSpecView>) -> bool {
    spec_encode_seed_list(ss).len() <= KEY_LEN
}

/// The 32-byte configuration area holding a packed seed list, zero-padded.
pub open spec fn spec_seed_config(ss: Seq<SeedSpecView>) -> Seq<u8> {
    spec_encode_seed_list(ss) + spec_zeros((KEY_LEN - spec_encode_seed_list(ss).len()) as nat)
}

/// A descriptor's fields are within the encoding's ranges.
pub open spec fn descriptor_wf(d: ValidationDescriptorView) -> bool {
    match d {
        ValidationDescriptorView::Fixed { address } => address.len() == KEY_LEN,
        ValidationDescriptorView::AccountKeyRef { .. } => true,
        ValidationDescriptorView::PdaFromSeeds { seeds, .. } => seeds_wf(seeds),
        ValidationDescriptorView::ExternalPda { authority_index, seeds, .. } => authority_index
            < 128 && seeds_wf(seeds),
    }
}

/// Every descriptor of the list is well-formed.
pub open spec fn descriptors_wf(ds: Seq<ValidationDescriptorView>) -> bool {
    forall|i: int| 0 <= i < ds.len() ==> #[trigger] descriptor_wf(ds[i])
}

/// Byte size of one encoded descriptor entry.
pub open spec fn spec_descriptor_len() -> nat {
    (1 + KEY_LEN + 2) as nat
}

/// The encoded form of one descriptor: a tag byte, the 32-byte configuration
/// area, a signer flag (never set by this protocol) and a writable flag.
/// Constant addresses and derivations carry the tags the host interface's
/// own encoding gives them; the key-reference kind takes a tag the host
/// leaves unused.
pub open spec fn spec_encode_descriptor(d: ValidationDescriptorView) -> Seq<u8> {
    match d {
        ValidationDescriptorView::Fixed { address } => seq![0u8] + address + seq![0u8, 0u8],
        ValidationDescriptorView::AccountKeyRef { index } => seq![3u8] + (seq![index] + spec_zeros(
            (KEY_LEN - 1) as nat,
        )) + seq![0u8, 0u8],
        ValidationDescriptorView::PdaFromSeeds { seeds, writable } => seq![1u8] + spec_seed_config(
            seeds,
        ) + seq![0u8, if writable { 1u8 } else { 0u8 }],
        ValidationDescriptorView::ExternalPda { authority_index, seeds, writable } => seq![
            (128 + authority_index) as u8,
        ] + spec_seed_config(seeds) + seq![0u8, if writable { 1u8 } else { 0u8 }],
    }
}

/// The encoded forms of a descriptor list, in order.
pub open spec fn spec_encode_descriptor_list(ds: Seq<ValidationDescriptorView>) -> Seq<u8>
    decreases ds.len(),
{
    if ds.len() == 0 {
        Seq::empty()
    } else {
        spec_encode_descriptor(ds[0]) + spec_encode_descriptor_list(ds.skip(1))
    }
}

/// The full store layout: the instruction tag the list is filed under, the
/// little-endian byte length of what follows, the little-endian descriptor
/// count, then the encoded descriptors.
pub open spec fn spec_encode_validation(tag: Seq<u8>, ds: Seq<ValidationDescriptorView>) -> Seq<
    u8,
> {
    tag + spec_le32((4 + spec_descriptor_len() * ds.len()) as u32) + spec_le32(ds.len() as u32)
        + spec_encode_descriptor_list(ds)
}

/// Exact byte size of a store holding `count` descriptors.
pub open spec fn spec_validation_len(count: nat) -> nat {
    (TAG_LEN + 4 + 4 + spec_descriptor_len() * count) as nat
}

/// The serialized descriptor list of `n` well-formed descriptors is exactly
/// `n` entries long.
pub proof fn lemma_encode_descriptor_list_len(ds: Seq<ValidationDescriptorView>)
    requires
        descriptors_wf(ds),
    ensures
        spec_encode_descriptor_list(ds).len() == spec_descriptor_len() * ds.len(),
    decreases ds.len(),
{
    if ds.len() > 0 {
        assert(descriptor_wf(ds[0]));
        assert(descriptors_wf(ds.skip(1)));
        lemma_encode_descriptor_list_len(ds.skip(1));
        assert(spec_descriptor_len() * ds.len() == spec_descriptor_len() + spec_descriptor_len() * (
        ds.len() - 1)) by (nonlinear_arith);
    }
}

/// Appending a descriptor appends its bytes.
pub proof fn lemma_encode_descriptor_list_push(
    ds: Seq<ValidationDescriptorView>,
    d: ValidationDescriptorView,
)
    ensures
        spec_encode_descriptor_list(ds.push(d)) == spec_encode_descriptor_list(ds)
            + spec_encode_descriptor(d),
    decreases ds.len(),
{
    if ds.len() == 0 {
        assert(ds.push(d)[0] == d);
        assert(ds.push(d).skip(1) =~= ds);
        assert(spec_encode_descriptor_list(ds.push(d)) =~= spec_encode_descriptor_list(ds)
            + spec_encode_descriptor(d));
    } else {
        assert(ds.push(d).skip(1) =~= ds.skip(1).push(d));
        lemma_encode_descriptor_list_push(ds.skip(1), d);
        assert(spec_encode_descriptor_list(ds.push(d)) =~= spec_encode_descriptor_list(ds)
            + spec_encode_descriptor(d));
    }
}

/// Append `n` zero bytes to `dst`.
fn push_zeros(dst: &mut Vec<u8>, n: usize)
    ensures
        final(dst)@ == old(dst)@ + spec_zeros(n as nat),
{
    let mut i: usize = 0;
    while i < n
        invariant
            i <= n,
            dst@ == old(dst)@ + spec_zeros(i as nat),
        decreases n - i,
    {
        dst.push(0);
        assert(dst@ =~= old(dst)@ + spec_zeros((i + 1) as nat));
        i += 1;
    }
}

/// Append the packed form of one seed.
fn push_seed(dst: &mut Vec<u8>, s: &SeedSpec)
    requires
        spec_seed_size(s@) <= KEY_LEN,
    ensures
        final(dst)@ == old(dst)@ + spec_encode_seed(s@),
{
    match s {
        SeedSpec::Literal { bytes } => {
            dst.push(1);
            dst.push(bytes.len() as u8);
            push_bytes(dst, bytes);
            assert(dst@ =~= old(dst)@ + spec_encode_seed(s@));
        },
        SeedSpec::AccountKey { index } => {
            dst.push(3);
            dst.push(*index);
            assert(dst@ =~= old(dst)@ + spec_encode_seed(s@));
        },
        SeedSpec::AccountDataSlice { account_index, offset, length } => {
            dst.push(4);
            dst.push(*account_index);
            dst.push(*offset);
            dst.push(*length);
            assert(dst@ =~= old(dst)@ + spec_encode_seed(s@));
        },
    }
}

/// The view of a vector of seeds.
pub open spec fn seed_views(ss: Seq<SeedSpec>) -> Seq<SeedSpecView> {
    Seq::new(ss.len(), |i: int| ss[i]@)
}

/// Packing one more seed appends its bytes.
proof fn lemma_encode_seed_list_push(ss: Seq<SeedSpecView>, s: SeedSpecView)
    ensures
        spec_encode_seed_list(ss.push(s)) == spec_encode_seed_list(ss) + spec_encode_seed(s),
    decreases ss.len(),
{
    if ss.len() == 0 {
        assert(ss.push(s)[0] == s);
        assert(ss.push(s).skip(1) =~= ss);
        assert(spec_encode_seed_list(ss.push(s)) =~= spec_encode_seed_list(ss) + spec_encode_seed(
            s,
        ));
    } else {
        assert(ss.push(s).skip(1) =~= ss.skip(1).push(s));
        lemma_encode_seed_list_push(ss.skip(1), s);
        assert(spec_encode_seed_list(ss.push(s)) =~= spec_encode_seed_list(ss) + spec_encode_seed(
            s,
        ));
    }
}

/// A prefix of a seed list packs to a prefix of its bytes.
proof fn lemma_encode_seed_list_take(ss: Seq<SeedSpecView>, i: int)
    requires
        0 <= i < ss.len(),
    ensures
        spec_encode_seed_list(ss.take(i + 1)) == spec_encode_seed_list(ss.take(i))
            + spec_encode_seed(ss[i]),
        spec_encode_seed_list(ss.take(i + 1)).len() <= spec_encode_seed_list(ss).len(),
    decreases ss.len() - i,
{
    assert(ss.take(i + 1) =~= ss.take(i).push(ss[i]));
    lemma_encode_seed_list_push(ss.take(i), ss[i]);
    if i + 1 < ss.len() {
        lemma_encode_seed_list_take(ss, i + 1);
    } else {
        assert(ss.take(i + 1) =~= ss);
    }
}

/// Build the 32-byte configuration area of a packed seed list.
fn encode_seed_config(seeds: &Vec<SeedSpec>) -> (r: Vec<u8>)
    requires
        seeds_wf(seed_views(seeds@)),
    ensures
        r@ == spec_seed_config(seed_views(seeds@)),
        r@.len() == KEY_LEN,
{
    let ghost all = seed_views(seeds@);
    let mut out: Vec<u8> = Vec::new();
    let mut i: usize = 0;
    while i < seeds.len()
        invariant
            i <= seeds@.len(),
            all == seed_views(seeds@),
            seeds_wf(all),
            out@ == spec_encode_seed_list(all.take(i as int)),
            out@.len() <= KEY_LEN,
        decreases seeds@.len() - i,
    {
        proof {
            lemma_encode_seed_list_take(all, i as int);
            assert(spec_seed_size(all[i as int]) <= KEY_LEN);
        }
        push_seed(&mut out, &seeds[i]);
        proof {
            assert(all.take(i + 1) =~= all.take(i as int).push(all[i as int]));
        }
        i += 1;
    }
    proof {
        assert(all.take(seeds@.len() as int) =~= all);
    }
    let pad = 32 - out.len();
    push_zeros(&mut out, pad);
    out
}

/// Encode one descriptor into its fixed-size entry.
pub fn encode_descriptor(d: &ValidationDescriptor) -> (r: Vec<u8>)
    requires
        descriptor_wf(d@),
    ensures
        r@ == spec_encode_descriptor(d@),
        r@.len() == spec_descriptor_len(),
{
    let mut out: Vec<u8> = Vec::new();
    match d {
        ValidationDescriptor::Fixed { address } => {
            out.push(0);
            push_bytes(&mut out, address);
            out.push(0);
            out.push(0);
            assert(out@ =~= spec_encode_descriptor(d@));
        },
        ValidationDescriptor::AccountKeyRef { index } => {
            out.push(3);
            out.push(*index);
            push_zeros(&mut out, 31);
            out.push(0);
            out.push(0);
            assert(out@ =~= spec_encode_descriptor(d@));
        },
        ValidationDescriptor::PdaFromSeeds { seeds, writable } => {
            out.push(1);
            let config = encode_seed_config(seeds);
            push_bytes(&mut out, &config);
            out.push(0);
            out.push(if *writable { 1 } else { 0 });
            assert(out@ =~= spec_encode_descriptor(d@));
        },
        ValidationDescriptor::ExternalPda { authority_index, seeds, writable } => {
            out.push(128 + *authority_index);
            let config = encode_seed_config(seeds);
            push_bytes(&mut out, &config);
            out.push(0);
            out.push(if *writable { 1 } else { 0 });
            assert(out@ =~= spec_encode_descriptor(d@));
        },
    }
    out
}

/// The view of a vector of descriptors.
pub open spec fn descriptor_views(ds: Seq<ValidationDescriptor>) -> Seq<ValidationDescriptorView> {
    Seq::new(ds.len(), |i: int| ds[i]@)
}

/// Serialize a full store: tag, length, count, then every descriptor.
pub fn encode_validation_data(tag: &Vec<u8>, descriptors: &Vec<ValidationDescriptor>) -> (r: Vec<
    u8,
>)
    requires
        tag@.len() == TAG_LEN,
        descriptors_wf(descriptor_views(descriptors@)),
        spec_validation_len(descriptors@.len() as nat) <= u32::MAX,
    ensures
        r@ == spec_encode_validation(tag@, descriptor_views(descriptors@)),
        r@.len() == spec_validation_len(descriptors@.len() as nat),
{
    let ghost all = descriptor_views(descriptors@);
    let n = descriptors.len();
    let mut out: Vec<u8> = Vec::new();
    push_bytes(&mut out, tag);
    push_le32(&mut out, (4 + 35 * n) as u32);
    push_le32(&mut out, n as u32);
    let mut i: usize = 0;
    while i < n
        invariant
            n == descriptors@.len(),
            spec_validation_len(n as nat) <= u32::MAX,
            i <= n,
            all == descriptor_views(descriptors@),
            descriptors_wf(all),
            tag@.len() == TAG_LEN,
            out@ == tag@ + spec_le32((4 + spec_descriptor_len() * n) as u32) + spec_le32(n as u32)
                + spec_encode_descriptor_list(all.take(i as int)),
        decreases n - i,
    {
        proof {
            assert(descriptor_wf(all[i as int]));
        }
        let entry = encode_descriptor(&descriptors[i]);
        push_bytes(&mut out, &entry);
        proof {
            assert(all.take(i + 1) =~= all.take(i as int).push(all[i as int]));
            lemma_encode_descriptor_list_push(all.take(i as int), all[i as int]);
        }
        i += 1;
    }
    proof {
        assert(all.take(n as int) =~= all);
        lemma_encode_descriptor_list_len(all);
    }
    out
}

/// The derivation of a mint's validation account under the program.
pub open spec fn spec_validation_pda(mint: Seq<u8>, program_id: Seq<u8>) -> Option<(Seq<u8>, u8)> {
    pda_of(seq![spec_extra_account_metas_seed(), mint], program_id)
}

/// The canonical descriptor list of this protocol, for a given token
/// program, associated-token authority and soulbound mint. Positions refer
/// to the hook invocation's account list: the descriptors fill positions
/// five through twelve behind the four transfer accounts and the store
/// itself.
pub open spec fn spec_extra_metas(
    token_program_id: Seq<u8>,
    ata_program_id: Seq<u8>,
    soulbound_mint: Seq<u8>,
) -> Seq<ValidationDescriptorView> {
    seq![
        ValidationDescriptorView::Fixed { address: token_program_id },
        ValidationDescriptorView::Fixed { address: ata_program_id },
        ValidationDescriptorView::Fixed { address: soulbound_mint },
        ValidationDescriptorView::ExternalPda {
            authority_index: 6,
            seeds: seq![
                SeedSpecView::AccountKey { index: 3 },
                SeedSpecView::AccountKey { index: 5 },
                SeedSpecView::AccountKey { index: 7 },
            ],
            writable: false,
        },
        ValidationDescriptorView::PdaFromSeeds {
            seeds: seq![
                SeedSpecView::Literal { bytes: spec_profile_seed() },
                SeedSpecView::AccountKey { index: 3 },
            ],
            writable: true,
        },
        ValidationDescriptorView::ExternalPda {
            authority_index: 6,
            seeds: seq![
                SeedSpecView::AccountDataSlice { account_index: 2, offset: 32, length: 32 },
                SeedSpecView::AccountKey { index: 5 },
                SeedSpecView::AccountKey { index: 7 },
            ],
            writable: false,
        },
        ValidationDescriptorView::PdaFromSeeds {
            seeds: seq![
                SeedSpecView::Literal { bytes: spec_profile_seed() },
                SeedSpecView::AccountDataSlice { account_index: 2, offset: 32, length: 32 },
            ],
            writable: true,
        },
        ValidationDescriptorView::PdaFromSeeds {
            seeds: seq![SeedSpecView::Literal { bytes: spec_order_tracker_seed() }],
            writable: true,
        },
    ]
}

pub struct ValidationData;

impl ValidationData {
    /// Number of descriptors in this protocol's store.
    pub const NUM_EXTRA_ACCOUNTS: usize = 8;

    /// Exact byte size of this protocol's store. Callers must allocate the
    /// store's region with exactly this size.
    pub fn get_len() -> (r: usize)
        ensures
            r == spec_validation_len(ValidationData::NUM_EXTRA_ACCOUNTS as nat),
    {
        16 + 35 * ValidationData::NUM_EXTRA_ACCOUNTS
    }

    /// Derive the validation account's address for `mint`.
    pub fn address(mint: &Vec<u8>, program_id: &Vec<u8>) -> (r: Option<Vec<u8>>)
        requires
            mint@.len() == KEY_LEN,
            program_id@.len() == KEY_LEN,
        ensures
            r is Some <==> spec_validation_pda(mint@, program_id@) is Some,
            r matches Some(key) ==> key@ == spec_validation_pda(mint@, program_id@).unwrap().0
                && key@.len() == KEY_LEN,
    {
        let mut seeds: Vec<Vec<u8>> = Vec::new();
        seeds.push(extra_account_metas_seed());
        seeds.push(mint.clone());
        proof {
            assert(views_of(seeds@) =~= seq![spec_extra_account_metas_seed(), mint@]);
        }
        match derive_address(&seeds, program_id) {
            Some(found) => Some(found.0),
            None => None,
        }
    }

    /// Build the canonical descriptor list, or `None` when the soulbound
    /// mint's derivation fails.
    pub fn extra_metas(config: &ProtocolConfig) -> (r: Option<Vec<ValidationDescriptor>>)
        requires
            config.wf(),
        ensures
            r is Some <==> spec_soulbound_pda(config.program_id@) is Some,
            r matches Some(ds) ==> descriptor_views(ds@) == spec_extra_metas(
                config.token_program_id@,
                config.ata_program_id@,
                spec_soulbound_pda(config.program_id@).unwrap().0,
            ) && descriptors_wf(descriptor_views(ds@)) && ds@.len()
                == ValidationData::NUM_EXTRA_ACCOUNTS,
    {
        let mint = match Soulbound::address(&config.program_id) {
            Some(mint) => mint,
            None => {
                return None;
            },
        };
        let mut ds: Vec<ValidationDescriptor> = Vec::new();
        ds.push(ValidationDescriptor::Fixed { address: config.token_program_id.clone() });
        ds.push(ValidationDescriptor::Fixed { address: config.ata_program_id.clone() });
        ds.push(ValidationDescriptor::Fixed { address: mint });
        let mut source_token_seeds: Vec<SeedSpec> = Vec::new();
        source_token_seeds.push(SeedSpec::AccountKey { index: 3 });
        source_token_seeds.push(SeedSpec::AccountKey { index: 5 });
        source_token_seeds.push(SeedSpec::AccountKey { index: 7 });
        ds.push(ValidationDescriptor::ExternalPda {
            authority_index: 6,
            seeds: source_token_seeds,
            writable: false,
        });
        let mut source_profile_seeds: Vec<SeedSpec> = Vec::new();
        source_profile_seeds.push(SeedSpec::Literal { bytes: profile_seed() });
        source_profile_seeds.push(SeedSpec::AccountKey { index: 3 });
        ds.push(ValidationDescriptor::PdaFromSeeds {
            seeds: source_profile_seeds,
            writable: true,
        });
        let mut destination_token_seeds: Vec<SeedSpec> = Vec::new();
        destination_token_seeds.push(
            SeedSpec::AccountDataSlice { account_index: 2, offset: 32, length: 32 },
        );
        destination_token_seeds.push(SeedSpec::AccountKey { index: 5 });
        destination_token_seeds.push(SeedSpec::AccountKey { index: 7 });
        ds.push(ValidationDescriptor::ExternalPda {
            authority_index: 6,
            seeds: destination_token_seeds,
            writable: false,
        });
        let mut destination_profile_seeds: Vec<SeedSpec> = Vec::new();
        destination_profile_seeds.push(SeedSpec::Literal { bytes: profile_seed() });
        destination_profile_seeds.push(
            SeedSpec::AccountDataSlice { account_index: 2, offset: 32, length: 32 },
        );
        ds.push(ValidationDescriptor::PdaFromSeeds {
            seeds: destination_profile_seeds,
            writable: true,
        });
        let mut tracker_seeds: Vec<SeedSpec> = Vec::new();
        tracker_seeds.push(SeedSpec::Literal { bytes: order_tracker_seed() });
        ds.push(ValidationDescriptor::PdaFromSeeds { seeds: tracker_seeds, writable: true });
        proof {
            let expected = spec_extra_metas(
                config.token_program_id@,
                config.ata_program_id@,
                spec_soulbound_pda(config.program_id@).unwrap().0,
            );
            assert(ds@[0]@ =~~= expected[0]);
            assert(ds@[1]@ =~~= expected[1]);
            assert(ds@[2]@ =~~= expected[2]);
            assert(ds@[3]@ =~~= expected[3]);
            assert(ds@[4]@ =~~= expected[4]);
            assert(ds@[5]@ =~~= expected[5]);
            assert(ds@[6]@ =~~= expected[6]);
            assert(ds@[7]@ =~~= expected[7]);
            assert(descriptor_views(ds@) =~~= expected);
            reveal_with_fuel(spec_encode_seed_list, 5);
            assert(descriptor_wf(expected[0]));
            assert(descriptor_wf(expected[1]));
            assert(descriptor_wf(expected[2]));
            assert(descriptor_wf(expected[3]));
            assert(descriptor_wf(expected[4]));
            assert(descriptor_wf(expected[5]));
            assert(descriptor_wf(expected[6]));
            assert(descriptor_wf(expected[7]));
            assert forall|i: int|
                0 <= i < descriptor_views(ds@).len() implies #[trigger] descriptor_wf(
                descriptor_views(ds@)[i],
            ) by {
                assert(descriptor_views(ds@)[i] == expected[i]);
            }
        }
        Some(ds)
    }

    /// Serialize the canonical list into the region backing the store. The
    /// region must have been allocated with at least `get_len` bytes; on any
    /// failure the region is untouched.
    pub fn write_validation_data(data: &mut Vec<u8>, config: &ProtocolConfig) -> (r: Result<
        (),
        ProcessError,
    >)
        requires
            config.wf(),
        ensures
            r is Ok <==> spec_soulbound_pda(config.program_id@) is Some && old(data)@.len()
                >= spec_validation_len(ValidationData::NUM_EXTRA_ACCOUNTS as nat),
            r is Ok ==> final(data)@ == spec_encode_validation(
                config.execute_tag@,
                spec_extra_metas(
                    config.token_program_id@,
                    config.ata_program_id@,
                    spec_soulbound_pda(config.program_id@).unwrap().0,
                ),
            ) + old(data)@.skip(
                spec_validation_len(ValidationData::NUM_EXTRA_ACCOUNTS as nat) as int,
            ),
            r matches Err(e) ==> final(data)@ == old(data)@ && (e == ProcessError::DerivationFailed
                || e == ProcessError::BufferTooSmall),
            r matches Err(e) ==> (e == ProcessError::DerivationFailed <==> spec_soulbound_pda(
                config.program_id@,
            ) is None),
    {
        let metas = match ValidationData::extra_metas(config) {
            Some(metas) => metas,
            None => {
                return Err(ProcessError::DerivationFailed);
            },
        };
        let encoded = encode_validation_data(&config.execute_tag, &metas);
        if data.len() < encoded.len() {
            return Err(ProcessError::BufferTooSmall);
        }
        write_prefix(data, &encoded);
        Ok(())
    }
}

} // verus!
