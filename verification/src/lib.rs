//! A transfer-hook extension of a token ledger: whenever value moves between
//! two participants, the hook verifies that both hold a non-transferable
//! eligibility credential and a registered profile, then grows the source
//! owner's cumulative volume and the global per-mint volume ledger. The
//! descriptor store and the resolver let the hook's caller compute every
//! auxiliary account the hook needs before the transfer is submitted.

pub mod account;
pub mod bytes;
pub mod error;
pub mod instruction;
pub mod order_tracker;
pub mod pda;
pub mod processor;
pub mod profile;
pub mod resolve;
pub mod seeds;
pub mod soulbound;
pub mod token;
pub mod validation;

use vstd::prelude::*;

verus! {

/// Length in bytes of every account address handled by this library.
pub const KEY_LEN: usize = 32;

/// Length in bytes of an instruction discriminator tag.
pub const TAG_LEN: usize = 8;

/// The deployment-fixed identities under which the protocol derives its
/// addresses, and the tag under which the validation list is filed. A
/// deployment builds this once from the host SDK's constants and hands it to
/// every entry point of the crate.
pub struct ProtocolConfig {
    /// This program's own identity, the default derivation authority.
    pub program_id: Vec<u8>,
    /// The identity of the host token ledger program.
    pub token_program_id: Vec<u8>,
    /// The identity of the associated-token-account derivation authority.
    pub ata_program_id: Vec<u8>,
    /// The discriminator of the hook's execute instruction, under which the
    /// validation list is filed in its account.
    pub execute_tag: Vec<u8>,
}

impl ProtocolConfig {
    /// Every identity has address length and the tag has tag length.
    pub open spec fn wf(&self) -> bool {
        &&& self.program_id@.len() == KEY_LEN
        &&& self.token_program_id@.len() == KEY_LEN
        &&& self.ata_program_id@.len() == KEY_LEN
        &&& self.execute_tag@.len() == TAG_LEN
    }
}

/// Compare two byte vectors for equality, element by element.
pub fn bytes_eq(a: &Vec<u8>, b: &Vec<u8>) -> (r: bool)
    ensures
        r == (a@ == b@),
{
    if a.len() != b.len() {
        assert(a@ != b@);
        return false;
    }
    let mut i: usize = 0;
    while i < a.len()
        invariant
            i <= a.len(),
            a.len() == b.len(),
            forall|j: int| 0 <= j < i ==> a@[j] == b@[j],
        decreases a.len() - i,
    {
        if a[i] != b[i] {
            assert(a@ != b@);
            return false;
        }
        i += 1;
    }
    assert(a@ =~= b@);
    true
}

} // verus!
