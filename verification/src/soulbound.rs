//! The soulbound token: the non-transferable eligibility credential, its
//! mint's derived address, the mint authority, and the associated token
//! account that holds one owner's credential.

use vstd::prelude::*;
use crate::{KEY_LEN, ProtocolConfig};
use crate::pda::{pda_of, derive_address, views_of};
use crate::seeds::{mint_authority_seed, soulbound_seed, spec_mint_authority_seed,
    spec_soulbound_seed};

verus! {

/// The derivation of the soulbound mint's address under the program.
pub open spec fn spec_soulbound_pda(program_id: Seq<u8>) -> Option<(Seq<u8>, u8)> {
    pda_of(seq![spec_soulbound_seed()], program_id)
}

/// The derivation of the soulbound mint authority under the program.
pub open spec fn spec_mint_authority_pda(program_id: Seq<u8>) -> Option<(Seq<u8>, u8)> {
    pda_of(seq![spec_mint_authority_seed()], program_id)
}

/// The derivation of an associated token account: the wallet, the token
/// program and the mint, derived under the associated-token authority.
pub open spec fn spec_ata_pda(
    wallet: Seq<u8>,
    mint: Seq<u8>,
    token_program_id: Seq<u8>,
    ata_program_id: Seq<u8>,
) -> Option<(Seq<u8>, u8)> {
    pda_of(seq![wallet, token_program_id, mint], ata_program_id)
}

/// The address holding `wallet`'s soulbound credential: the associated token
/// account of the soulbound mint, or `None` when either derivation fails.
pub open spec fn spec_soulbound_token_account(
    wallet: Seq<u8>,
    program_id: Seq<u8>,
    token_program_id: Seq<u8>,
    ata_program_id: Seq<u8>,
) -> Option<Seq<u8>> {
    match spec_soulbound_pda(program_id) {
        None => None,
        Some(mint) => match spec_ata_pda(wallet, mint.0, token_program_id, ata_program_id) {
            None => None,
            Some(ata) => Some(ata.0),
        },
    }
}

/// A soulbound token.
pub struct Soulbound;

impl Soulbound {
    /// The credential is a whole, indivisible unit.
    pub const DECIMALS: u8 = 0;

    /// Derive the soulbound mint's address.
    pub fn address(program_id: &Vec<u8>) -> (r: Option<Vec<u8>>)
        requires
            program_id@.len() == KEY_LEN,
        ensures
            r is Some <==> spec_soulbound_pda(program_id@) is Some,
            r matches Some(key) ==> key@ == spec_soulbound_pda(program_id@).unwrap().0
                && key@.len() == KEY_LEN,
    {
        let mut seeds: Vec<Vec<u8>> = Vec::new();
        seeds.push(soulbound_seed());
        proof {
            assert(views_of(seeds@) =~= seq![spec_soulbound_seed()]);
        }
        match derive_address(&seeds, program_id) {
            Some(found) => Some(found.0),
            None => None,
        }
    }

    /// Derive the associated token account that holds `wallet_address`'s
    /// soulbound credential.
    pub fn token_account(wallet_address: &Vec<u8>, config: &ProtocolConfig) -> (r: Option<Vec<u8>>)
        requires
            wallet_address@.len() == KEY_LEN,
            config.wf(),
        ensures
            r is Some <==> spec_soulbound_token_account(
                wallet_address@,
                config.program_id@,
                config.token_program_id@,
                config.ata_program_id@,
            ) is Some,
            r matches Some(key) ==> key@ == spec_soulbound_token_account(
                wallet_address@,
                config.program_id@,
                config.token_program_id@,
                config.ata_program_id@,
            ).unwrap() && key@.len() == KEY_LEN,
    {
        let mint = match Soulbound::address(&config.program_id) {
            Some(mint) => mint,
            None => {
                return None;
            },
        };
        let mut seeds: Vec<Vec<u8>> = Vec::new();
        seeds.push(wallet_address.clone());
        seeds.push(config.token_program_id.clone());
        seeds.push(mint);
        proof {
            assert(views_of(seeds@) =~= seq![
                wallet_address@,
                config.token_program_id@,
                spec_soulbound_pda(config.program_id@).unwrap().0,
            ]);
        }
        match derive_address(&seeds, &config.ata_program_id) {
            Some(found) => Some(found.0),
            None => None,
        }
    }
}

/// The protocol's soulbound token mint authority.
pub struct MintAuthority;

impl MintAuthority {
    /// The seed under which the mint authority is derived.
    pub fn seed() -> (r: Vec<u8>)
        ensures
            r@ == spec_mint_authority_seed(),
    {
        mint_authority_seed()
    }

    /// Derive the mint authority's address and bump.
    pub fn address_with_bump(program_id: &Vec<u8>) -> (r: Option<(Vec<u8>, u8)>)
        requires
            program_id@.len() == KEY_LEN,
        ensures
            r is Some <==> spec_mint_authority_pda(program_id@) is Some,
            r matches Some(found) ==> {
                &&& found.0@ == spec_mint_authority_pda(program_id@).unwrap().0
                &&& found.1 == spec_mint_authority_pda(program_id@).unwrap().1
                &&& found.0@.len() == KEY_LEN
            },
    {
        let mut seeds: Vec<Vec<u8>> = Vec::new();
        seeds.push(MintAuthority::seed());
        proof {
            assert(views_of(seeds@) =~= seq![spec_mint_authority_seed()]);
        }
        derive_address(&seeds, program_id)
    }

    /// Derive the mint authority's address.
    pub fn address(program_id: &Vec<u8>) -> (r: Option<Vec<u8>>)
        requires
            program_id@.len() == KEY_LEN,
        ensures
            r is Some <==> spec_mint_authority_pda(program_id@) is Some,
            r matches Some(key) ==> key@ == spec_mint_authority_pda(program_id@).unwrap().0
                && key@.len() == KEY_LEN,
    {
        match MintAuthority::address_with_bump(program_id) {
            Some(found) => Some(found.0),
            None => None,
        }
    }
}

} // verus!
