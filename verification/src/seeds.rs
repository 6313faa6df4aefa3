//! The literal derivation seeds of the protocol, each as a spec constant
//! with the executable function that materializes it.

use vstd::prelude::*;

verus! {

/// The bytes of `"soulbound"`, the derivation seed of the soulbound mint.
pub open spec fn spec_soulbound_seed() -> Seq<u8> {
    seq![115u8, 111, 117, 108, 98, 111, 117, 110, 100]
}

/// Build the derivation seed of the soulbound mint.
pub fn soulbound_seed() -> (r: Vec<u8>)
    ensures
        r@ == spec_soulbound_seed(),
{
    let mut v: Vec<u8> = Vec::new();
    v.push(115);
    v.push(111);
    v.push(117);
    v.push(108);
    v.push(98);
    v.push(111);
    v.push(117);
    v.push(110);
    v.push(100);
    assert(v@ =~= spec_soulbound_seed());
    v
}

/// The bytes of `"mint_authority"`, the derivation seed of the soulbound mint authority.
pub open spec fn spec_mint_authority_seed() -> Seq<u8> {
    seq![109u8, 105, 110, 116, 95, 97, 117, 116, 104, 111, 114, 105, 116, 121]
}

/// Build the derivation seed of the soulbound mint authority.
pub fn mint_authority_seed() -> (r: Vec<u8>)
    ensures
        r@ == spec_mint_authority_seed(),
{
    let mut v: Vec<u8> = Vec::new();
    v.push(109);
    v.push(105);
    v.push(110);
    v.push(116);
    v.push(95);
    v.push(97);
    v.push(117);
    v.push(116);
    v.push(104);
    v.push(111);
    v.push(114);
    v.push(105);
    v.push(116);
    v.push(121);
    assert(v@ =~= spec_mint_authority_seed());
    v
}

/// The bytes of `"profile"`, the derivation seed of a user's profile.
pub open spec fn spec_profile_seed() -> Seq<u8> {
    seq![112u8, 114, 111, 102, 105, 108, 101]
}

/// Build the derivation seed of a user's profile.
pub fn profile_seed() -> (r: Vec<u8>)
    ensures
        r@ == spec_profile_seed(),
{
    let mut v: Vec<u8> = Vec::new();
    v.push(112);
    v.push(114);
    v.push(111);
    v.push(102);
    v.push(105);
    v.push(108);
    v.push(101);
    assert(v@ =~= spec_profile_seed());
    v
}

/// The bytes of `"order_tracker"`, the derivation seed of the global order tracker.
pub open spec fn spec_order_tracker_seed() -> Seq<u8> {
    seq![111u8, 114, 100, 101, 114, 95, 116, 114, 97, 99, 107, 101, 114]
}

/// Build the derivation seed of the global order tracker.
pub fn order_tracker_seed() -> (r: Vec<u8>)
    ensures
        r@ == spec_order_tracker_seed(),
{
    let mut v: Vec<u8> = Vec::new();
    v.push(111);
    v.push(114);
    v.push(100);
    v.push(101);
    v.push(114);
    v.push(95);
    v.push(116);
    v.push(114);
    v.push(97);
    v.push(99);
    v.push(107);
    v.push(101);
    v.push(114);
    assert(v@ =~= spec_order_tracker_seed());
    v
}

/// The bytes of `"extra-account-metas"`, the derivation seed of a mint's validation account, fixed by the transfer-hook interface.
pub open spec fn spec_extra_account_metas_seed() -> Seq<u8> {
    seq![101u8, 120, 116, 114, 97, 45, 97, 99, 99, 111, 117, 110, 116, 45, 109, 101, 116, 97, 115]
}

/// Build the derivation seed of a mint's validation account, fixed by the transfer-hook interface.
pub fn extra_account_metas_seed() -> (r: Vec<u8>)
    ensures
        r@ == spec_extra_account_metas_seed(),
{
    let mut v: Vec<u8> = Vec::new();
    v.push(101);
    v.push(120);
    v.push(116);
    v.push(114);
    v.push(97);
    v.push(45);
    v.push(97);
    v.push(99);
    v.push(99);
    v.push(111);
    v.push(117);
    v.push(110);
    v.push(116);
    v.push(45);
    v.push(109);
    v.push(101);
    v.push(116);
    v.push(97);
    v.push(115);
    assert(v@ =~= spec_extra_account_metas_seed());
    v
}

} // verus!