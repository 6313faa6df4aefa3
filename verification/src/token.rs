//! Trusted readers for state owned by the host token ledger: the base fields
//! of a token account, its mid-transfer marker, and the hook instruction
//! envelope. Each result is a pure function of the bytes handed in, so the
//! contracts name what the host's decoders return.

use vstd::prelude::*;
use crate::bytes::spec_le64;
use spl_token_2022::extension::{BaseStateWithExtensions, StateWithExtensions};
use spl_token_2022::extension::transfer_hook::TransferHookAccount;
use spl_token_2022::state::Account;
use spl_transfer_hook_interface::instruction::TransferHookInstruction;

verus! {

/// Whether the host ledger's decoder accepts `data` as a token account,
/// possibly carrying extensions. A function of the bytes alone.
pub uninterp spec fn token_unpack_ok(data: Seq<u8>) -> bool;

/// The mid-transfer marker of the token account encoded in `data`: `None`
/// when the bytes do not decode as a token account carrying the hook's
/// extension, otherwise whether the host ledger currently has this account
/// mid-transfer. A function of the bytes alone.
pub uninterp spec fn token_transferring_of(data: Seq<u8>) -> Option<bool>;

/// What the hook instruction envelope decodes to: `None` when `data` carries
/// no known discriminator, `Some(None)` for a hook instruction other than an
/// execution, and `Some(Some(amount))` for an execution of `amount`. A
/// function of the bytes alone.
pub uninterp spec fn hook_instruction_of(data: Seq<u8>) -> Option<Option<u64>>;

/// Relies on `spl_token_2022::extension::StateWithExtensions::<Account>::unpack`:
/// it accepts the bytes or fails as a function of the bytes alone, and the
/// base record it returns reads the owner at bytes 32 to 64 and the
/// little-endian amount at bytes 64 to 72, as the fixed account layout
/// prescribes.
#[verifier::external_body]
pub fn unpack_token_account(data: &Vec<u8>) -> (r: Option<(Vec<u8>, u64)>)
    ensures
        r is Some <==> token_unpack_ok(data@),
        r matches Some(base) ==> {
            &&& data@.len() >= 165
            &&& base.0@ == data@.subrange(32, 64)
            &&& base.0@.len() == 32
            &&& spec_le64(base.1) == data@.subrange(64, 72)
        },
{
    match StateWithExtensions::<Account>::unpack(data.as_slice()) {
        Ok(state) => Some((state.base.owner.to_bytes().to_vec(), state.base.amount)),
        Err(_) => None,
    }
}

/// Relies on `StateWithExtensions::<Account>::unpack` and its
/// `get_extension::<TransferHookAccount>`: both accept or fail as a function
/// of the bytes alone, and the extension's `transferring` flag is the host
/// ledger's mid-transfer marker.
#[verifier::external_body]
pub fn token_account_transferring(data: &Vec<u8>) -> (r: Option<bool>)
    ensures
        r == token_transferring_of(data@),
{
    let state = match StateWithExtensions::<Account>::unpack(data.as_slice()) {
        Ok(state) => state,
        Err(_) => return None,
    };
    match state.get_extension::<TransferHookAccount>() {
        Ok(extension) => Some(extension.transferring.into()),
        Err(_) => None,
    }
}

/// Relies on
/// `spl_transfer_hook_interface::instruction::TransferHookInstruction::unpack`:
/// it decodes as a function of the bytes alone, and an execution decodes an
/// eight-byte discriminator followed by the little-endian amount.
#[verifier::external_body]
pub fn unpack_hook_instruction(data: &Vec<u8>) -> (r: Option<Option<u64>>)
    ensures
        r == hook_instruction_of(data@),
        r matches Some(inner) ==> (inner matches Some(amount) ==> data@.len() >= 16 && spec_le64(
            amount,
        ) == data@.subrange(8, 16)),
{
    match TransferHookInstruction::unpack(data.as_slice()) {
        Ok(TransferHookInstruction::Execute { amount }) => Some(Some(amount)),
        Ok(TransferHookInstruction::InitializeExtraAccountMetaList { .. }) => Some(None),
        Ok(TransferHookInstruction::UpdateExtraAccountMetaList { .. }) => Some(None),
        Err(_) => None,
    }
}

} // verus!
