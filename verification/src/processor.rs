//! The processors: for each instruction, the ordered precondition checks and
//! the exact bytes the invocation writes back. Every check aborts the whole
//! invocation with one specific error and no partial effect; the host ledger
//! supplies atomicity around the writes the effects describe.

use vstd::prelude::*;
use crate::{bytes_eq, ProtocolConfig};
use crate::account::{account_views, accounts_wf, AccountValue, AccountView};
use crate::error::{ProcessError, ProtocolError};
use crate::order_tracker::{encode_tracker, spec_encode_tracker, OrderTracker, VolumeEntryView};
use crate::profile::{encode_profile, Profile, spec_encode_profile};
use crate::soulbound::{spec_soulbound_pda, spec_soulbound_token_account, Soulbound};
use crate::validation::{spec_encode_validation, spec_extra_metas, spec_validation_len,
    spec_validation_pda, ValidationData};

verus! {

/// Number of accounts the protocol-initialization instruction expects.
pub const INIT_ACCOUNTS: usize = 4;

/// Number of accounts the mint-creation instruction expects.
pub const CREATE_MINT_ACCOUNTS: usize = 4;

/// Number of accounts the profile-initialization instruction expects.
pub const INITIALIZE_PROFILE_ACCOUNTS: usize = 7;

/// What a successful protocol initialization writes.
pub struct InitEffects {
    /// The initial content of the order tracker's account: the encoding of a
    /// tracker with no entries.
    pub tracker_data: Vec<u8>,
}

/// The outcome of a protocol initialization, decided by the account list
/// alone: the content to write, or the first failing check's error.
pub open spec fn spec_process_init(accounts: Seq<AccountValue>) -> Result<Seq<u8>, ProcessError> {
    if accounts.len() < INIT_ACCOUNTS {
        Err(ProcessError::NotEnoughAccountKeys)
    } else if !accounts[2].is_signer {
        Err(ProcessError::MissingRequiredSignature)
    } else {
        Ok(spec_encode_tracker(Seq::<VolumeEntryView>::empty()))
    }
}

/// Initialize the protocol. The payer at position two must sign; the effect
/// is the empty tracker's encoding, to be written into the tracker account
/// at position one.
pub fn process_init(accounts: &Vec<AccountView>) -> (r: Result<InitEffects, ProcessError>)
    ensures
        r matches Ok(effects) ==> spec_process_init(account_views(accounts@)) == Ok::<
            Seq<u8>,
            ProcessError,
        >(effects.tracker_data@),
        r matches Err(e) ==> spec_process_init(account_views(accounts@)) == Err::<
            Seq<u8>,
            ProcessError,
        >(e),
{
    if accounts.len() < INIT_ACCOUNTS {
        return Err(ProcessError::NotEnoughAccountKeys);
    }
    if !accounts[2].is_signer {
        proof {
            assert(account_views(accounts@)[2].is_signer == accounts@[2].is_signer);
        }
        return Err(ProcessError::MissingRequiredSignature);
    }
    let tracker = OrderTracker::new();
    let tracker_data = encode_tracker(&tracker);
    Ok(InitEffects { tracker_data })
}

/// What a successful mint creation writes.
pub struct CreateMintEffects {
    /// The new content of the validation account: the canonical descriptor
    /// list, followed by whatever trailed it in the region.
    pub validation_data: Vec<u8>,
}

/// The outcome of a mint creation, decided by the account list alone: the
/// validation account's new content, or the first failing check's error.
/// The mint sits at position zero, the validation account at one, the mint
/// authority at two.
pub open spec fn spec_process_create_mint(
    program_id: Seq<u8>,
    token_program_id: Seq<u8>,
    ata_program_id: Seq<u8>,
    execute_tag: Seq<u8>,
    accounts: Seq<AccountValue>,
) -> Result<Seq<u8>, ProcessError> {
    if accounts.len() < CREATE_MINT_ACCOUNTS {
        Err(ProcessError::NotEnoughAccountKeys)
    } else {
        match spec_validation_pda(accounts[0].key, program_id) {
            None => Err(ProcessError::DerivationFailed),
            Some(validation) => if accounts[1].key != validation.0 {
                Err(ProcessError::Protocol(ProtocolError::IncorrectValidationAccount))
            } else if !accounts[2].is_signer {
                Err(ProcessError::MissingRequiredSignature)
            } else {
                match spec_soulbound_pda(program_id) {
                    None => Err(ProcessError::DerivationFailed),
                    Some(mint) => if accounts[1].data.len() < spec_validation_len(
                        ValidationData::NUM_EXTRA_ACCOUNTS as nat,
                    ) {
                        Err(ProcessError::BufferTooSmall)
                    } else {
                        Ok(
                            spec_encode_validation(
                                execute_tag,
                                spec_extra_metas(token_program_id, ata_program_id, mint.0),
                            ) + accounts[1].data.skip(
                                spec_validation_len(ValidationData::NUM_EXTRA_ACCOUNTS as nat) as int,
                            ),
                        )
                    },
                }
            },
        }
    }
}

/// Create a tracked mint: check that the supplied validation account is the
/// derived one and that the mint authority signed, then produce the
/// validation account's new content.
pub fn process_create_mint(config: &ProtocolConfig, accounts: &Vec<AccountView>) -> (r: Result<
    CreateMintEffects,
    ProcessError,
>)
    requires
        config.wf(),
        accounts_wf(account_views(accounts@)),
    ensures
        r matches Ok(effects) ==> spec_process_create_mint(
            config.program_id@,
            config.token_program_id@,
            config.ata_program_id@,
            config.execute_tag@,
            account_views(accounts@),
        ) == Ok::<Seq<u8>, ProcessError>(effects.validation_data@),
        r matches Err(e) ==> spec_process_create_mint(
            config.program_id@,
            config.token_program_id@,
            config.ata_program_id@,
            config.execute_tag@,
            account_views(accounts@),
        ) == Err::<Seq<u8>, ProcessError>(e),
{
    if accounts.len() < CREATE_MINT_ACCOUNTS {
        return Err(ProcessError::NotEnoughAccountKeys);
    }
    proof {
        assert(account_views(accounts@)[0] == accounts@[0]@);
        assert(account_views(accounts@)[1] == accounts@[1]@);
        assert(account_views(accounts@)[2] == accounts@[2]@);
        assert(account_views(accounts@)[0].wf());
    }
    let validation_key = match ValidationData::address(&accounts[0].key, &config.program_id) {
        Some(key) => key,
        None => {
            return Err(ProcessError::DerivationFailed);
        },
    };
    if !bytes_eq(&accounts[1].key, &validation_key) {
        return Err(ProcessError::Protocol(ProtocolError::IncorrectValidationAccount));
    }
    if !accounts[2].is_signer {
        return Err(ProcessError::MissingRequiredSignature);
    }
    let mut validation_data = crate::bytes::read_bytes(&accounts[1].data, 0, accounts[1].data.len());
    proof {
        assert(validation_data@ =~= accounts@[1].data@);
    }
    match ValidationData::write_validation_data(&mut validation_data, config) {
        Ok(()) => Ok(CreateMintEffects { validation_data }),
        Err(e) => Err(e),
    }
}

/// What a successful profile initialization writes and mints.
pub struct ProfileEffects {
    /// The new content of the profile account: the fresh profile's encoding.
    pub profile_data: Vec<u8>,
    /// How many credential tokens are minted to the user's soulbound token
    /// account: always one.
    pub mint_amount: u64,
}

/// The outcome of a profile initialization, decided by the account list and
/// the requested display name. The soulbound mint sits at position zero, the
/// user's soulbound token account at one, the profile at two, the signing
/// wallet at three.
pub open spec fn spec_process_initialize_profile(
    program_id: Seq<u8>,
    token_program_id: Seq<u8>,
    ata_program_id: Seq<u8>,
    accounts: Seq<AccountValue>,
    username: Seq<u8>,
) -> Result<Seq<u8>, ProcessError> {
    if accounts.len() < INITIALIZE_PROFILE_ACCOUNTS {
        Err(ProcessError::NotEnoughAccountKeys)
    } else {
        match spec_soulbound_pda(program_id) {
            None => Err(ProcessError::DerivationFailed),
            Some(mint) => if accounts[0].key != mint.0 {
                Err(ProcessError::Protocol(ProtocolError::IncorrectSoulboundMint))
            } else {
                match spec_soulbound_token_account(
                    accounts[3].key,
                    program_id,
                    token_program_id,
                    ata_program_id,
                ) {
                    None => Err(ProcessError::DerivationFailed),
                    Some(token_account) => if accounts[1].key != token_account {
                        Err(ProcessError::Protocol(ProtocolError::IncorrectSoulboundTokenAccount))
                    } else if !crate::token::token_unpack_ok(accounts[1].data) {
                        Err(ProcessError::InvalidAccountData)
                    } else if spec_token_amount(accounts[1].data) != 0 {
                        Err(ProcessError::Protocol(ProtocolError::SoulboundTokenAccountHasTokens))
                    } else if accounts[2].lamports != 0 {
                        Err(ProcessError::Protocol(ProtocolError::ProfileAlreadyInitialized))
                    } else if username.len() > Profile::MAX_LEN {
                        Err(ProcessError::Protocol(ProtocolError::UsernameTooLong))
                    } else if !accounts[3].is_signer {
                        Err(ProcessError::MissingRequiredSignature)
                    } else {
                        Ok(
                            spec_encode_profile(
                                crate::profile::ProfileView {
                                    wallet_address: accounts[3].key,
                                    username: username,
                                    order_volume: 0,
                                },
                            ),
                        )
                    },
                }
            },
        }
    }
}

/// The owner recorded in a token account's bytes, at the layout's fixed
/// position.
pub open spec fn spec_token_owner(data: Seq<u8>) -> Seq<u8> {
    data.subrange(32, 64)
}

/// The amount recorded in a token account's bytes, at the layout's fixed
/// position.
pub open spec fn spec_token_amount(data: Seq<u8>) -> u64 {
    crate::bytes::spec_u64_of_le(data.subrange(64, 72))
}

/// Initialize a user's profile: check the derived addresses, that the
/// credential account is empty, that the profile does not exist yet, that
/// the display name is within bounds and that the wallet signed; then
/// produce the profile account's content and mint one credential.
pub fn process_initialize_profile(
    config: &ProtocolConfig,
    accounts: &Vec<AccountView>,
    username: &Vec<u8>,
) -> (r: Result<ProfileEffects, ProcessError>)
    requires
        config.wf(),
        accounts_wf(account_views(accounts@)),
    ensures
        r matches Ok(effects) ==> spec_process_initialize_profile(
            config.program_id@,
            config.token_program_id@,
            config.ata_program_id@,
            account_views(accounts@),
            username@,
        ) == Ok::<Seq<u8>, ProcessError>(effects.profile_data@) && effects.mint_amount == 1,
        r matches Err(e) ==> spec_process_initialize_profile(
            config.program_id@,
            config.token_program_id@,
            config.ata_program_id@,
            account_views(accounts@),
            username@,
        ) == Err::<Seq<u8>, ProcessError>(e),
{
    if accounts.len() < INITIALIZE_PROFILE_ACCOUNTS {
        return Err(ProcessError::NotEnoughAccountKeys);
    }
    proof {
        assert(account_views(accounts@)[0] == accounts@[0]@);
        assert(account_views(accounts@)[1] == accounts@[1]@);
        assert(account_views(accounts@)[2] == accounts@[2]@);
        assert(account_views(accounts@)[3] == accounts@[3]@);
        assert(account_views(accounts@)[3].wf());
    }
    let mint_key = match Soulbound::address(&config.program_id) {
        Some(key) => key,
        None => {
            return Err(ProcessError::DerivationFailed);
        },
    };
    if !bytes_eq(&accounts[0].key, &mint_key) {
        return Err(ProcessError::Protocol(ProtocolError::IncorrectSoulboundMint));
    }
    let token_account_key = match Soulbound::token_account(&accounts[3].key, config) {
        Some(key) => key,
        None => {
            return Err(ProcessError::DerivationFailed);
        },
    };
    if !bytes_eq(&accounts[1].key, &token_account_key) {
        return Err(ProcessError::Protocol(ProtocolError::IncorrectSoulboundTokenAccount));
    }
    let token_amount = match crate::token::unpack_token_account(&accounts[1].data) {
        Some(base) => base.1,
        None => {
            return Err(ProcessError::InvalidAccountData);
        },
    };
    proof {
        crate::bytes::lemma_le64_roundtrip(token_amount);
    }
    if token_amount != 0 {
        return Err(ProcessError::Protocol(ProtocolError::SoulboundTokenAccountHasTokens));
    }
    if accounts[2].lamports != 0 {
        return Err(ProcessError::Protocol(ProtocolError::ProfileAlreadyInitialized));
    }
    if username.len() > Profile::MAX_LEN {
        return Err(ProcessError::Protocol(ProtocolError::UsernameTooLong));
    }
    if !accounts[3].is_signer {
        return Err(ProcessError::MissingRequiredSignature);
    }
    let profile = Profile::new(&accounts[3].key, crate::bytes::read_bytes(username, 0, username.len()));
    proof {
        assert(profile@.username =~= username@);
    }
    let profile_data = encode_profile(&profile);
    Ok(ProfileEffects { profile_data, mint_amount: 1 })
}

/// Number of accounts the hook execution expects: the four transfer
/// accounts, the validation account, and the eight resolved accounts.
pub const EXECUTE_ACCOUNTS: usize = 13;

/// What a successful hook execution writes.
pub struct ExecuteEffects {
    /// The new content of the source owner's profile account: same length as
    /// before, with the volume counter grown by the transferred amount.
    pub source_profile_data: Vec<u8>,
    /// The exact byte size the tracker's region must be resized to before
    /// `tracker_data` is written.
    pub tracker_size: usize,
    /// The new content of the tracker's account.
    pub tracker_data: Vec<u8>,
}

/// The mathematical value of a hook execution's effects.
#[verifier::ext_equal]
pub ghost struct ExecuteOutcome {
    /// The new content of the source owner's profile account.
    pub profile_data: Seq<u8>,
    /// The exact byte size the tracker's region must be resized to before
    /// the new content is written.
    pub tracker_size: int,
    /// The new content of the tracker's account.
    pub tracker_data: Seq<u8>,
}

/// One credential check: the expected owner is read from `owner_data` (a
/// token account's content), and `cred` must be that owner's derived
/// soulbound token account, belong to its own recorded owner, and hold at
/// least one credential. `None` when the check passes.
pub open spec fn spec_check_credential(
    cred: AccountValue,
    owner_data: Seq<u8>,
    program_id: Seq<u8>,
    token_program_id: Seq<u8>,
    ata_program_id: Seq<u8>,
) -> Option<ProcessError> {
    if !crate::token::token_unpack_ok(owner_data) {
        Some(ProcessError::InvalidAccountData)
    } else if !crate::token::token_unpack_ok(cred.data) {
        Some(ProcessError::InvalidAccountData)
    } else {
        let expected_owner = spec_token_owner(owner_data);
        let actual_owner = spec_token_owner(cred.data);
        match spec_soulbound_token_account(
            expected_owner,
            program_id,
            token_program_id,
            ata_program_id,
        ) {
            None => Some(ProcessError::DerivationFailed),
            Some(expected_ata) => match spec_soulbound_token_account(
                actual_owner,
                program_id,
                token_program_id,
                ata_program_id,
            ) {
                None => Some(ProcessError::DerivationFailed),
                Some(owner_ata) => if cred.key != expected_ata || cred.key != owner_ata {
                    Some(ProcessError::Protocol(ProtocolError::IncorrectSoulboundTokenAccount))
                } else if spec_token_amount(cred.data) < 1 {
                    Some(ProcessError::Protocol(ProtocolError::SoulboundTokenAccountIsEmpty))
                } else {
                    None
                },
            },
        }
    }
}

/// Every check of a hook execution, in invocation order, and the exact
/// effects when all of them pass. The transfer's source sits at position
/// zero, the transferred mint at one, the destination at two, the validation
/// account at four, the soulbound mint at seven, the credential accounts at
/// eight and ten, the profiles at nine and eleven, the tracker at twelve.
pub open spec fn spec_execute_outcome(
    program_id: Seq<u8>,
    token_program_id: Seq<u8>,
    ata_program_id: Seq<u8>,
    accounts: Seq<AccountValue>,
    amount: u64,
) -> Result<ExecuteOutcome, ProcessError> {
    if accounts.len() < EXECUTE_ACCOUNTS {
        Err(ProcessError::NotEnoughAccountKeys)
    } else {
        match spec_validation_pda(accounts[1].key, program_id) {
            None => Err(ProcessError::DerivationFailed),
            Some(validation) => if accounts[4].key != validation.0 {
                Err(ProcessError::Protocol(ProtocolError::IncorrectValidationAccount))
            } else {
                match spec_soulbound_pda(program_id) {
                    None => Err(ProcessError::DerivationFailed),
                    Some(mint) => if accounts[7].key != mint.0 {
                        Err(ProcessError::Protocol(ProtocolError::IncorrectSoulboundMint))
                    } else {
                        match spec_check_credential(
                            accounts[8],
                            accounts[0].data,
                            program_id,
                            token_program_id,
                            ata_program_id,
                        ) {
                            Some(e) => Err(e),
                            None => match spec_check_credential(
                                accounts[10],
                                accounts[2].data,
                                program_id,
                                token_program_id,
                                ata_program_id,
                            ) {
                                Some(e) => Err(e),
                                None => spec_execute_updates(accounts, amount),
                            },
                        }
                    },
                }
            },
        }
    }
}

/// The tail of a hook execution: profile existence, the mid-transfer guard,
/// and the two counter updates.
pub open spec fn spec_execute_updates(accounts: Seq<AccountValue>, amount: u64) -> Result<
    ExecuteOutcome,
    ProcessError,
> {
    if accounts[9].lamports == 0 {
        Err(ProcessError::Protocol(ProtocolError::ProfileNotInitialized))
    } else if accounts[11].lamports == 0 {
        Err(ProcessError::Protocol(ProtocolError::ProfileNotInitialized))
    } else {
        match crate::token::token_transferring_of(accounts[0].data) {
            None => Err(ProcessError::InvalidAccountData),
            Some(false) => Err(ProcessError::CalledOutsideOfTransfer),
            Some(true) => match crate::token::token_transferring_of(accounts[2].data) {
                None => Err(ProcessError::InvalidAccountData),
                Some(false) => Err(ProcessError::CalledOutsideOfTransfer),
                Some(true) => if !crate::profile::spec_profile_decodes(accounts[9].data) {
                    Err(ProcessError::InvalidAccountData)
                } else if !crate::order_tracker::spec_tracker_decodes(accounts[12].data) {
                    Err(ProcessError::InvalidAccountData)
                } else {
                    let p = crate::profile::spec_profile_of(accounts[9].data);
                    let grown_profile = crate::profile::ProfileView {
                        wallet_address: p.wallet_address,
                        username: p.username,
                        order_volume: (p.order_volume + amount) as u64,
                    };
                    let entries = crate::order_tracker::spec_tracker_of(accounts[12].data);
                    let grown_entries = crate::order_tracker::spec_increment(
                        entries,
                        accounts[1].key,
                        amount,
                    );
                    Ok(
                        ExecuteOutcome {
                            profile_data: spec_encode_profile(grown_profile),
                            tracker_size: (4 + crate::order_tracker::spec_entry_len()
                                * grown_entries.len()) as int,
                            tracker_data: spec_encode_tracker(grown_entries),
                        },
                    )
                },
            },
        }
    }
}

/// Whether the two counters a successful execution grows stay within range,
/// and the tracker's entry count stays countable. Machine limits only: the
/// host's counters are 64-bit and the entry count is 32-bit.
pub open spec fn spec_execute_fits(accounts: Seq<AccountValue>, amount: u64) -> bool {
    &&& crate::profile::spec_profile_of(accounts[9].data).order_volume + amount <= u64::MAX
    &&& crate::order_tracker::spec_can_increment(
        crate::order_tracker::spec_tracker_of(accounts[12].data),
        accounts[1].key,
        amount,
    )
    &&& crate::order_tracker::spec_tracker_of(accounts[12].data).len() < u32::MAX
}

/// One credential check of a hook execution.
fn check_soulbound_token_account(
    cred: &AccountView,
    owner_data: &Vec<u8>,
    config: &ProtocolConfig,
) -> (r: Option<ProcessError>)
    requires
        config.wf(),
    ensures
        r == spec_check_credential(
            cred@,
            owner_data@,
            config.program_id@,
            config.token_program_id@,
            config.ata_program_id@,
        ),
{
    let expected_owner = match crate::token::unpack_token_account(owner_data) {
        Some(base) => base.0,
        None => {
            return Some(ProcessError::InvalidAccountData);
        },
    };
    let (actual_owner, cred_amount) = match crate::token::unpack_token_account(&cred.data) {
        Some(base) => base,
        None => {
            return Some(ProcessError::InvalidAccountData);
        },
    };
    proof {
        crate::bytes::lemma_le64_roundtrip(cred_amount);
    }
    let expected_ata = match Soulbound::token_account(&expected_owner, config) {
        Some(key) => key,
        None => {
            return Some(ProcessError::DerivationFailed);
        },
    };
    let owner_ata = match Soulbound::token_account(&actual_owner, config) {
        Some(key) => key,
        None => {
            return Some(ProcessError::DerivationFailed);
        },
    };
    if !bytes_eq(&cred.key, &expected_ata) || !bytes_eq(&cred.key, &owner_ata) {
        return Some(ProcessError::Protocol(ProtocolError::IncorrectSoulboundTokenAccount));
    }
    if cred_amount < 1 {
        return Some(ProcessError::Protocol(ProtocolError::SoulboundTokenAccountIsEmpty));
    }
    None
}

/// Execute the hook for one transfer of `amount`: run every check of
/// `spec_execute_outcome` in order, then grow the source owner's volume
/// counter and the transferred mint's tracker entry. The tracker's region
/// must be resized to exactly `tracker_size` before `tracker_data` is
/// written: the new form may be one entry longer than the old.
pub fn process_execute(config: &ProtocolConfig, accounts: &Vec<AccountView>, amount: u64) -> (r:
    Result<ExecuteEffects, ProcessError>)
    requires
        config.wf(),
        accounts_wf(account_views(accounts@)),
        spec_execute_outcome(
            config.program_id@,
            config.token_program_id@,
            config.ata_program_id@,
            account_views(accounts@),
            amount,
        ) is Ok ==> spec_execute_fits(account_views(accounts@), amount),
    ensures
        r matches Ok(effects) ==> spec_execute_outcome(
            config.program_id@,
            config.token_program_id@,
            config.ata_program_id@,
            account_views(accounts@),
            amount,
        ) == Ok::<ExecuteOutcome, ProcessError>(
            ExecuteOutcome {
                profile_data: effects.source_profile_data@,
                tracker_size: effects.tracker_size as int,
                tracker_data: effects.tracker_data@,
            },
        ),
        r matches Err(e) ==> spec_execute_outcome(
            config.program_id@,
            config.token_program_id@,
            config.ata_program_id@,
            account_views(accounts@),
            amount,
        ) == Err::<ExecuteOutcome, ProcessError>(e),
{
    let ghost accs = account_views(accounts@);
    if accounts.len() < EXECUTE_ACCOUNTS {
        return Err(ProcessError::NotEnoughAccountKeys);
    }
    proof {
        assert forall|i: int| 0 <= i < accs.len() implies accs[i] == accounts@[i]@ by {}
        assert(accs[1].wf());
    }
    let validation_key = match ValidationData::address(&accounts[1].key, &config.program_id) {
        Some(key) => key,
        None => {
            return Err(ProcessError::DerivationFailed);
        },
    };
    if !bytes_eq(&accounts[4].key, &validation_key) {
        return Err(ProcessError::Protocol(ProtocolError::IncorrectValidationAccount));
    }
    let mint_key = match Soulbound::address(&config.program_id) {
        Some(key) => key,
        None => {
            return Err(ProcessError::DerivationFailed);
        },
    };
    if !bytes_eq(&accounts[7].key, &mint_key) {
        return Err(ProcessError::Protocol(ProtocolError::IncorrectSoulboundMint));
    }
    if let Some(e) = check_soulbound_token_account(&accounts[8], &accounts[0].data, config) {
        return Err(e);
    }
    if let Some(e) = check_soulbound_token_account(&accounts[10], &accounts[2].data, config) {
        return Err(e);
    }
    if accounts[9].lamports == 0 {
        return Err(ProcessError::Protocol(ProtocolError::ProfileNotInitialized));
    }
    if accounts[11].lamports == 0 {
        return Err(ProcessError::Protocol(ProtocolError::ProfileNotInitialized));
    }
    match crate::token::token_account_transferring(&accounts[0].data) {
        Some(true) => {},
        Some(false) => {
            return Err(ProcessError::CalledOutsideOfTransfer);
        },
        None => {
            return Err(ProcessError::InvalidAccountData);
        },
    }
    match crate::token::token_account_transferring(&accounts[2].data) {
        Some(true) => {},
        Some(false) => {
            return Err(ProcessError::CalledOutsideOfTransfer);
        },
        None => {
            return Err(ProcessError::InvalidAccountData);
        },
    }
    let mut profile = match crate::profile::decode_profile(&accounts[9].data) {
        Some(profile) => profile,
        None => {
            return Err(ProcessError::InvalidAccountData);
        },
    };
    let mut tracker = match crate::order_tracker::decode_tracker(&accounts[12].data) {
        Some(tracker) => tracker,
        None => {
            return Err(ProcessError::InvalidAccountData);
        },
    };
    proof {
        crate::profile::lemma_profile_of(accs[9].data, profile@);
        crate::order_tracker::lemma_tracker_of(accs[12].data, tracker@);
        assert(spec_execute_outcome(
            config.program_id@,
            config.token_program_id@,
            config.ata_program_id@,
            accs,
            amount,
        ) is Ok);
    }
    profile.order_volume = profile.order_volume + amount;
    let source_profile_data = encode_profile(&profile);
    tracker.increment(&accounts[1].key, amount);
    proof {
        let old_entries = crate::order_tracker::spec_tracker_of(accs[12].data);
        assert(accs[1] == accounts@[1]@);
        assert(accs[12] == accounts@[12]@);
        assert(tracker@ == crate::order_tracker::spec_increment(old_entries, accs[1].key, amount));
        crate::order_tracker::lemma_increment_volume(old_entries, accs[1].key, amount);
        assert(tracker@.len() <= old_entries.len() + 1);
    }
    let tracker_data = encode_tracker(&tracker);
    let tracker_size = tracker_data.len();
    proof {
        crate::order_tracker::lemma_encode_entries_len(tracker@);
    }
    Ok(ExecuteEffects { source_profile_data, tracker_size, tracker_data })
}

/// What one invocation writes, by instruction.
pub enum ProcessEffects {
    /// A protocol initialization's writes.
    Init(InitEffects),
    /// A mint creation's writes.
    CreateMint(CreateMintEffects),
    /// A profile initialization's writes.
    InitializeProfile(ProfileEffects),
    /// A hook execution's writes.
    Execute(ExecuteEffects),
}

/// The mathematical value of one invocation's writes.
#[verifier::ext_equal]
pub ghost enum ProcessOutcome {
    /// A protocol initialization's writes.
    Init { tracker_data: Seq<u8> },
    /// A mint creation's writes.
    CreateMint { validation_data: Seq<u8> },
    /// A profile initialization's writes.
    InitializeProfile { profile_data: Seq<u8> },
    /// A hook execution's writes.
    Execute { outcome: ExecuteOutcome },
}

/// The outcome of one invocation: the instruction payload decodes under this
/// protocol's own discriminator space first, then under the hook interface's;
/// an input under neither is rejected.
pub open spec fn spec_process(
    program_id: Seq<u8>,
    token_program_id: Seq<u8>,
    ata_program_id: Seq<u8>,
    execute_tag: Seq<u8>,
    accounts: Seq<AccountValue>,
    input: Seq<u8>,
) -> Result<ProcessOutcome, ProcessError> {
    match crate::instruction::spec_unpack_instruction(input) {
        Some(crate::instruction::ProtocolInstructionView::InitializeProtocol) => match
            spec_process_init(accounts) {
            Ok(tracker_data) => Ok(ProcessOutcome::Init { tracker_data }),
            Err(e) => Err(e),
        },
        Some(crate::instruction::ProtocolInstructionView::CreateMint { .. }) => match
            spec_process_create_mint(
            program_id,
            token_program_id,
            ata_program_id,
            execute_tag,
            accounts,
        ) {
            Ok(validation_data) => Ok(ProcessOutcome::CreateMint { validation_data }),
            Err(e) => Err(e),
        },
        Some(crate::instruction::ProtocolInstructionView::InitializeProfile { username }) => match
            spec_process_initialize_profile(
            program_id,
            token_program_id,
            ata_program_id,
            accounts,
            username,
        ) {
            Ok(profile_data) => Ok(ProcessOutcome::InitializeProfile { profile_data }),
            Err(e) => Err(e),
        },
        None => match crate::token::hook_instruction_of(input) {
            Some(Some(amount)) => match spec_execute_outcome(
                program_id,
                token_program_id,
                ata_program_id,
                accounts,
                amount,
            ) {
                Ok(outcome) => Ok(ProcessOutcome::Execute { outcome }),
                Err(e) => Err(e),
            },
            Some(None) => Err(ProcessError::InvalidInstructionData),
            None => Err(ProcessError::InvalidInstructionData),
        },
    }
}

/// The view of one invocation's effects.
pub open spec fn effects_view(effects: ProcessEffects) -> ProcessOutcome {
    match effects {
        ProcessEffects::Init(e) => ProcessOutcome::Init { tracker_data: e.tracker_data@ },
        ProcessEffects::CreateMint(e) => ProcessOutcome::CreateMint {
            validation_data: e.validation_data@,
        },
        ProcessEffects::InitializeProfile(e) => ProcessOutcome::InitializeProfile {
            profile_data: e.profile_data@,
        },
        ProcessEffects::Execute(e) => ProcessOutcome::Execute {
            outcome: ExecuteOutcome {
                profile_data: e.source_profile_data@,
                tracker_size: e.tracker_size as int,
                tracker_data: e.tracker_data@,
            },
        },
    }
}

/// Process one invocation: decode the instruction, dispatch it, and return
/// what it writes, or the first failing check's error.
pub fn process(config: &ProtocolConfig, accounts: &Vec<AccountView>, input: &Vec<u8>) -> (r: Result<
    ProcessEffects,
    ProcessError,
>)
    requires
        config.wf(),
        accounts_wf(account_views(accounts@)),
        forall|amount: u64|
            crate::instruction::spec_unpack_instruction(input@) is None
                && crate::token::hook_instruction_of(input@) == Some(Some(amount))
                && spec_execute_outcome(
                config.program_id@,
                config.token_program_id@,
                config.ata_program_id@,
                account_views(accounts@),
                amount,
            ) is Ok ==> spec_execute_fits(account_views(accounts@), amount),
    ensures
        r matches Ok(effects) ==> spec_process(
            config.program_id@,
            config.token_program_id@,
            config.ata_program_id@,
            config.execute_tag@,
            account_views(accounts@),
            input@,
        ) == Ok::<ProcessOutcome, ProcessError>(effects_view(effects)),
        r matches Err(e) ==> spec_process(
            config.program_id@,
            config.token_program_id@,
            config.ata_program_id@,
            config.execute_tag@,
            account_views(accounts@),
            input@,
        ) == Err::<ProcessOutcome, ProcessError>(e),
{
    match crate::instruction::ProtocolInstruction::unpack(input) {
        Ok(crate::instruction::ProtocolInstruction::InitializeProtocol) => match process_init(
            accounts,
        ) {
            Ok(effects) => Ok(ProcessEffects::Init(effects)),
            Err(e) => Err(e),
        },
        Ok(crate::instruction::ProtocolInstruction::CreateMint(..)) => match process_create_mint(
            config,
            accounts,
        ) {
            Ok(effects) => Ok(ProcessEffects::CreateMint(effects)),
            Err(e) => Err(e),
        },
        Ok(crate::instruction::ProtocolInstruction::InitializeProfile(data)) => match
            process_initialize_profile(config, accounts, &data.username) {
            Ok(effects) => Ok(ProcessEffects::InitializeProfile(effects)),
            Err(e) => Err(e),
        },
        Err(_) => match crate::token::unpack_hook_instruction(input) {
            Some(Some(amount)) => match process_execute(config, accounts, amount) {
                Ok(effects) => Ok(ProcessEffects::Execute(effects)),
                Err(e) => Err(e),
            },
            Some(None) => Err(ProcessError::InvalidInstructionData),
            None => Err(ProcessError::InvalidInstructionData),
        },
    }
}

/// Process one invocation, testing first that a hook execution's two
/// counters stay within range: `None` exactly when an execution decodes and
/// its updates would overflow a counter, which the host's 64-bit ledger
/// cannot represent. Unverified callers use this entry point.
pub fn process_checked(config: &ProtocolConfig, accounts: &Vec<AccountView>, input: &Vec<u8>) -> (r:
    Option<Result<ProcessEffects, ProcessError>>)
    requires
        config.wf(),
        accounts_wf(account_views(accounts@)),
    ensures
        r matches Some(inner) ==> {
            let outcome = spec_process(
                config.program_id@,
                config.token_program_id@,
                config.ata_program_id@,
                config.execute_tag@,
                account_views(accounts@),
                input@,
            );
            &&& (inner matches Ok(effects) ==> outcome == Ok::<ProcessOutcome, ProcessError>(
                effects_view(effects),
            ))
            &&& (inner matches Err(e) ==> outcome == Err::<ProcessOutcome, ProcessError>(e))
        },
        r is None ==> exists|amount: u64|
            crate::token::hook_instruction_of(input@) == Some(Some(amount))
                && !spec_execute_fits(account_views(accounts@), amount),
{
    let ghost accs = account_views(accounts@);
    if let Some(Some(amount)) = crate::token::unpack_hook_instruction(input) {
        if accounts.len() >= EXECUTE_ACCOUNTS {
            proof {
                assert(accs[9] == accounts@[9]@);
                assert(accs[12] == accounts@[12]@);
                assert(accs[1] == accounts@[1]@);
            }
            if let Some(profile) = crate::profile::decode_profile(&accounts[9].data) {
                proof {
                    crate::profile::lemma_profile_of(accs[9].data, profile@);
                }
                if profile.order_volume > u64::MAX - amount {
                    proof {
                        assert(crate::token::hook_instruction_of(input@) == Some(Some(amount))
                            && !spec_execute_fits(accs, amount));
                    }
                    return None;
                }
                if let Some(tracker) = crate::order_tracker::decode_tracker(&accounts[12].data) {
                    proof {
                        crate::order_tracker::lemma_tracker_of(accs[12].data, tracker@);
                    }
                    if !tracker.can_increment(&accounts[1].key, amount) {
                        proof {
                            assert(crate::token::hook_instruction_of(input@) == Some(Some(amount))
                                && !spec_execute_fits(accs, amount));
                        }
                        return None;
                    }
                    if tracker.volume.len() >= u32::MAX as usize {
                        proof {
                            assert(tracker@.len() >= u32::MAX);
                            assert(crate::token::hook_instruction_of(input@) == Some(Some(amount))
                                && !spec_execute_fits(accs, amount));
                        }
                        return None;
                    }
                }
            }
        }
    }
    proof {
        let i = crate::instruction::spec_unpack_instruction(input@);
        let h = crate::token::hook_instruction_of(input@);
        assert forall|amount: u64|
            i is None && h == Some(Some(amount)) && spec_execute_outcome(
                config.program_id@,
                config.token_program_id@,
                config.ata_program_id@,
                accs,
                amount,
            ) is Ok implies spec_execute_fits(accs, amount) by {
            let outcome = spec_execute_outcome(
                config.program_id@,
                config.token_program_id@,
                config.ata_program_id@,
                accs,
                amount,
            );
            assert(outcome is Ok);
        }
    }
    Some(process(config, accounts, input))
}

/// Guard correctness: a hook execution invoked while the host ledger has no
/// transfer in progress on the source or the destination fails with
/// `CalledOutsideOfTransfer`, however valid every other account is.
pub proof fn lemma_guard_rejects_direct_invocation(
    program_id: Seq<u8>,
    token_program_id: Seq<u8>,
    ata_program_id: Seq<u8>,
    accounts: Seq<AccountValue>,
    amount: u64,
)
    requires
        accounts.len() >= EXECUTE_ACCOUNTS,
        spec_validation_pda(accounts[1].key, program_id) is Some,
        accounts[4].key == spec_validation_pda(accounts[1].key, program_id).unwrap().0,
        spec_soulbound_pda(program_id) is Some,
        accounts[7].key == spec_soulbound_pda(program_id).unwrap().0,
        spec_check_credential(
            accounts[8],
            accounts[0].data,
            program_id,
            token_program_id,
            ata_program_id,
        ) is None,
        spec_check_credential(
            accounts[10],
            accounts[2].data,
            program_id,
            token_program_id,
            ata_program_id,
        ) is None,
        accounts[9].lamports != 0,
        accounts[11].lamports != 0,
        crate::token::token_transferring_of(accounts[0].data) == Some(false) || (
        crate::token::token_transferring_of(accounts[0].data) == Some(true)
            && crate::token::token_transferring_of(accounts[2].data) == Some(false)),
    ensures
        spec_execute_outcome(program_id, token_program_id, ata_program_id, accounts, amount)
            == Err::<ExecuteOutcome, ProcessError>(ProcessError::CalledOutsideOfTransfer),
{
}

} // verus!
