//! The account resolver: given the accounts visible so far, each validation
//! descriptor deterministically names one more account. Descriptors resolve
//! strictly in list order, so a descriptor may reference any base account and
//! any account resolved by an earlier descriptor, and nothing later.

use vstd::prelude::*;
use crate::KEY_LEN;
use crate::account::{account_views, accounts_wf, AccountValue, AccountView};
use crate::bytes::read_bytes;
use crate::error::ResolveError;
use crate::pda::{pda_of, derive_address, views_of};
use crate::validation::{descriptor_views, descriptor_wf, descriptors_wf, seed_views, SeedSpec,
    SeedSpecView, ValidationDescriptor, ValidationDescriptorView};

verus! {

/// The bytes one seed contributes, or the first failure: a reference to an
/// account index not yet available, or a slice past an account's content.
pub open spec fn spec_resolve_seed(s: SeedSpecView, accounts: Seq<AccountValue>) -> Result<
    Seq<u8>,
    ResolveError,
> {
    match s {
        SeedSpecView::Literal { bytes } => Ok(bytes),
        SeedSpecView::AccountKey { index } => if index < accounts.len() {
            Ok(accounts[index as int].key)
        } else {
            Err(ResolveError::UnresolvedReference)
        },
        SeedSpecView::AccountDataSlice { account_index, offset, length } => if account_index
            < accounts.len() {
            if offset + length <= accounts[account_index as int].data.len() {
                Ok(accounts[account_index as int].data.subrange(
                    offset as int,
                    offset + length,
                ))
            } else {
                Err(ResolveError::OutOfBounds)
            }
        } else {
            Err(ResolveError::UnresolvedReference)
        },
    }
}

/// The seed bytes of a whole list, in order; the first failing seed decides.
pub open spec fn spec_resolve_seed_list(ss: Seq<SeedSpecView>, accounts: Seq<AccountValue>)
    -> Result<Seq<Seq<u8>>, ResolveError>
    decreases ss.len(),
{
    if ss.len() == 0 {
        Ok(Seq::empty())
    } else {
        match spec_resolve_seed(ss[0], accounts) {
            Err(e) => Err(e),
            Ok(first) => match spec_resolve_seed_list(ss.skip(1), accounts) {
                Err(e) => Err(e),
                Ok(rest) => Ok(seq![first] + rest),
            },
        }
    }
}

/// The address one descriptor names, given the accounts visible so far.
pub open spec fn spec_resolve_descriptor(
    d: ValidationDescriptorView,
    accounts: Seq<AccountValue>,
    program_id: Seq<u8>,
) -> Result<Seq<u8>, ResolveError> {
    match d {
        ValidationDescriptorView::Fixed { address } => Ok(address),
        ValidationDescriptorView::AccountKeyRef { index } => if index < accounts.len() {
            Ok(accounts[index as int].key)
        } else {
            Err(ResolveError::UnresolvedReference)
        },
        ValidationDescriptorView::PdaFromSeeds { seeds, .. } => match spec_resolve_seed_list(
            seeds,
            accounts,
        ) {
            Err(e) => Err(e),
            Ok(seed_bytes) => match pda_of(seed_bytes, program_id) {
                None => Err(ResolveError::DerivationFailed),
                Some(found) => Ok(found.0),
            },
        },
        ValidationDescriptorView::ExternalPda { authority_index, seeds, .. } => if authority_index
            < accounts.len() {
            match spec_resolve_seed_list(seeds, accounts) {
                Err(e) => Err(e),
                Ok(seed_bytes) => match pda_of(seed_bytes, accounts[authority_index as int].key) {
                    None => Err(ResolveError::DerivationFailed),
                    Some(found) => Ok(found.0),
                },
            }
        } else {
            Err(ResolveError::UnresolvedReference)
        },
    }
}

/// Whether a descriptor asks for write access to the account it names.
pub open spec fn spec_descriptor_writable(d: ValidationDescriptorView) -> bool {
    match d {
        ValidationDescriptorView::Fixed { .. } => false,
        ValidationDescriptorView::AccountKeyRef { .. } => false,
        ValidationDescriptorView::PdaFromSeeds { writable, .. } => writable,
        ValidationDescriptorView::ExternalPda { writable, .. } => writable,
    }
}

/// The placeholder under which a freshly resolved address joins the visible
/// account list: an address alone, with no funds and no content.
pub open spec fn spec_resolved_entry(key: Seq<u8>, writable: bool) -> AccountValue {
    AccountValue {
        key: key,
        lamports: 0,
        data: Seq::empty(),
        is_signer: false,
        is_writable: writable,
    }
}

/// The account list after resolving every descriptor in order: each resolved
/// address is appended before the next descriptor runs; the first failing
/// descriptor decides the error.
pub open spec fn spec_resolve_all(
    ds: Seq<ValidationDescriptorView>,
    accounts: Seq<AccountValue>,
    program_id: Seq<u8>,
) -> Result<Seq<AccountValue>, ResolveError>
    decreases ds.len(),
{
    if ds.len() == 0 {
        Ok(accounts)
    } else {
        match spec_resolve_descriptor(ds[0], accounts, program_id) {
            Err(e) => Err(e),
            Ok(key) => spec_resolve_all(
                ds.skip(1),
                accounts.push(spec_resolved_entry(key, spec_descriptor_writable(ds[0]))),
                program_id,
            ),
        }
    }
}

/// Resolve the bytes of one seed.
pub fn resolve_seed(s: &SeedSpec, accounts: &Vec<AccountView>) -> (r: Result<Vec<u8>, ResolveError>)
    requires
        accounts_wf(account_views(accounts@)),
    ensures
        r matches Ok(bytes) ==> spec_resolve_seed(s@, account_views(accounts@)) == Ok::<
            Seq<u8>,
            ResolveError,
        >(bytes@),
        r matches Err(e) ==> spec_resolve_seed(s@, account_views(accounts@)) == Err::<
            Seq<u8>,
            ResolveError,
        >(e),
{
    match s {
        SeedSpec::Literal { bytes } => {
            let r = read_bytes(bytes, 0, bytes.len());
            proof {
                assert(r@ =~= bytes@);
            }
            Ok(r)
        },
        SeedSpec::AccountKey { index } => {
            let i = *index as usize;
            if i < accounts.len() {
                let key = &accounts[i].key;
                let r = read_bytes(key, 0, key.len());
                proof {
                    assert(r@ =~= key@);
                    assert(account_views(accounts@)[i as int].key == key@);
                }
                Ok(r)
            } else {
                Err(ResolveError::UnresolvedReference)
            }
        },
        SeedSpec::AccountDataSlice { account_index, offset, length } => {
            let i = *account_index as usize;
            if i < accounts.len() {
                let off = *offset as usize;
                let len = *length as usize;
                let data = &accounts[i].data;
                if off + len <= data.len() {
                    Ok(read_bytes(data, off, len))
                } else {
                    Err(ResolveError::OutOfBounds)
                }
            } else {
                Err(ResolveError::UnresolvedReference)
            }
        },
    }
}

/// Resolve the seed bytes of a whole list, in declared order.
pub fn resolve_seed_list(seeds: &Vec<SeedSpec>, accounts: &Vec<AccountView>) -> (r: Result<
    Vec<Vec<u8>>,
    ResolveError,
>)
    requires
        accounts_wf(account_views(accounts@)),
    ensures
        r matches Ok(bytes) ==> spec_resolve_seed_list(seed_views(seeds@), account_views(accounts@))
            == Ok::<Seq<Seq<u8>>, ResolveError>(views_of(bytes@)),
        r matches Err(e) ==> spec_resolve_seed_list(seed_views(seeds@), account_views(accounts@))
            == Err::<Seq<Seq<u8>>, ResolveError>(e),
{
    let ghost all = seed_views(seeds@);
    let ghost accs = account_views(accounts@);
    let mut out: Vec<Vec<u8>> = Vec::new();
    let mut i: usize = 0;
    proof {
        assert(all.skip(0) =~= all);
        if spec_resolve_seed_list(all, accs) is Ok {
            assert(views_of(out@) + spec_resolve_seed_list(all, accs).unwrap()
                =~= spec_resolve_seed_list(all, accs).unwrap());
        }
    }
    while i < seeds.len()
        invariant
            i <= seeds@.len(),
            all == seed_views(seeds@),
            accs == account_views(accounts@),
            accounts_wf(accs),
            spec_resolve_seed_list(all, accs) == (match spec_resolve_seed_list(
                all.skip(i as int),
                accs,
            ) {
                Ok(rest) => Ok::<Seq<Seq<u8>>, ResolveError>(views_of(out@) + rest),
                Err(e) => Err::<Seq<Seq<u8>>, ResolveError>(e),
            }),
        decreases seeds@.len() - i,
    {
        proof {
            assert(all.skip(i as int)[0] == all[i as int]);
            assert(all.skip(i as int).skip(1) =~= all.skip(i + 1));
        }
        let bytes = match resolve_seed(&seeds[i], accounts) {
            Ok(bytes) => bytes,
            Err(e) => {
                return Err(e);
            },
        };
        let ghost prior = out@;
        out.push(bytes);
        proof {
            assert(views_of(out@) =~= views_of(prior) + seq![bytes@]);
            if spec_resolve_seed_list(all.skip(i + 1), accs) is Ok {
                let rest = spec_resolve_seed_list(all.skip(i + 1), accs).unwrap();
                assert(views_of(prior) + (seq![bytes@] + rest) =~= views_of(out@) + rest);
            }
        }
        i += 1;
    }
    proof {
        assert(all.skip(seeds@.len() as int) =~= Seq::<SeedSpecView>::empty());
        assert(spec_resolve_seed_list(Seq::<SeedSpecView>::empty(), accs) == Ok::<
            Seq<Seq<u8>>,
            ResolveError,
        >(Seq::empty()));
        assert(views_of(out@) + Seq::<Seq<u8>>::empty() =~= views_of(out@));
    }
    Ok(out)
}

/// Resolve the address one descriptor names.
pub fn resolve_descriptor(
    d: &ValidationDescriptor,
    accounts: &Vec<AccountView>,
    program_id: &Vec<u8>,
) -> (r: Result<Vec<u8>, ResolveError>)
    requires
        accounts_wf(account_views(accounts@)),
        program_id@.len() == KEY_LEN,
    ensures
        r matches Ok(key) ==> spec_resolve_descriptor(d@, account_views(accounts@), program_id@)
            == Ok::<Seq<u8>, ResolveError>(key@),
        r matches Err(e) ==> spec_resolve_descriptor(d@, account_views(accounts@), program_id@)
            == Err::<Seq<u8>, ResolveError>(e),
        r matches Ok(key) ==> (descriptor_wf(d@) ==> key@.len() == KEY_LEN),
{
    match d {
        ValidationDescriptor::Fixed { address } => {
            let r = read_bytes(address, 0, address.len());
            proof {
                assert(r@ =~= address@);
            }
            Ok(r)
        },
        ValidationDescriptor::AccountKeyRef { index } => {
            let i = *index as usize;
            if i < accounts.len() {
                let key = &accounts[i].key;
                let r = read_bytes(key, 0, key.len());
                proof {
                    assert(r@ =~= key@);
                    assert(account_views(accounts@)[i as int].key == key@);
                }
                Ok(r)
            } else {
                Err(ResolveError::UnresolvedReference)
            }
        },
        ValidationDescriptor::PdaFromSeeds { seeds, .. } => {
            let seed_bytes = match resolve_seed_list(seeds, accounts) {
                Ok(seed_bytes) => seed_bytes,
                Err(e) => {
                    return Err(e);
                },
            };
            match derive_address(&seed_bytes, program_id) {
                Some(found) => Ok(found.0),
                None => Err(ResolveError::DerivationFailed),
            }
        },
        ValidationDescriptor::ExternalPda { authority_index, seeds, .. } => {
            let i = *authority_index as usize;
            if i < accounts.len() {
                let seed_bytes = match resolve_seed_list(seeds, accounts) {
                    Ok(seed_bytes) => seed_bytes,
                    Err(e) => {
                        return Err(e);
                    },
                };
                proof {
                    assert(account_views(accounts@)[i as int].key == accounts@[i as int].key@);
                    assert(account_views(accounts@)[i as int].wf());
                }
                match derive_address(&seed_bytes, &accounts[i].key) {
                    Some(found) => Ok(found.0),
                    None => Err(ResolveError::DerivationFailed),
                }
            } else {
                Err(ResolveError::UnresolvedReference)
            }
        },
    }
}

/// Resolve every descriptor in declared order, appending each resolved
/// address to the visible account list before the next descriptor runs.
/// Returns the full list: the supplied accounts, then one resolved account
/// per descriptor.
pub fn resolve_all(
    descriptors: &Vec<ValidationDescriptor>,
    accounts: &Vec<AccountView>,
    program_id: &Vec<u8>,
) -> (r: Result<Vec<AccountView>, ResolveError>)
    requires
        accounts_wf(account_views(accounts@)),
        program_id@.len() == KEY_LEN,
        descriptors_wf(descriptor_views(descriptors@)),
    ensures
        r matches Ok(resolved) ==> spec_resolve_all(
            descriptor_views(descriptors@),
            account_views(accounts@),
            program_id@,
        ) == Ok::<Seq<AccountValue>, ResolveError>(account_views(resolved@)) && accounts_wf(
            account_views(resolved@),
        ),
        r matches Err(e) ==> spec_resolve_all(
            descriptor_views(descriptors@),
            account_views(accounts@),
            program_id@,
        ) == Err::<Seq<AccountValue>, ResolveError>(e),
{
    let ghost all = descriptor_views(descriptors@);
    let ghost base = account_views(accounts@);
    let mut cur: Vec<AccountView> = Vec::new();
    let mut j: usize = 0;
    while j < accounts.len()
        invariant
            j <= accounts@.len(),
            cur@.len() == j,
            forall|k: int| 0 <= k < j ==> cur@[k]@ == #[trigger] account_views(accounts@)[k],
            accounts_wf(account_views(accounts@)),
        decreases accounts@.len() - j,
    {
        let a = &accounts[j];
        cur.push(
            AccountView {
                key: read_bytes(&a.key, 0, a.key.len()),
                lamports: a.lamports,
                data: read_bytes(&a.data, 0, a.data.len()),
                is_signer: a.is_signer,
                is_writable: a.is_writable,
            },
        );
        proof {
            assert(a.key@.subrange(0, a.key@.len() as int) =~= a.key@);
            assert(a.data@.subrange(0, a.data@.len() as int) =~= a.data@);
            assert(cur@[j as int]@ =~= account_views(accounts@)[j as int]);
        }
        j += 1;
    }
    proof {
        assert(account_views(cur@) =~= base);
        assert(all.skip(0) =~= all);
    }
    let mut i: usize = 0;
    while i < descriptors.len()
        invariant
            i <= descriptors@.len(),
            all == descriptor_views(descriptors@),
            base == account_views(accounts@),
            program_id@.len() == KEY_LEN,
            accounts_wf(account_views(cur@)),
            descriptors_wf(all),
            spec_resolve_all(all, base, program_id@) == spec_resolve_all(
                all.skip(i as int),
                account_views(cur@),
                program_id@,
            ),
        decreases descriptors@.len() - i,
    {
        proof {
            assert(all.skip(i as int)[0] == all[i as int]);
            assert(all.skip(i as int).skip(1) =~= all.skip(i + 1));
            assert(descriptor_wf(all[i as int]));
        }
        let key = match resolve_descriptor(&descriptors[i], &cur, program_id) {
            Ok(key) => key,
            Err(e) => {
                return Err(e);
            },
        };
        let d = &descriptors[i];
        let writable = match d {
            ValidationDescriptor::Fixed { .. } => false,
            ValidationDescriptor::AccountKeyRef { .. } => false,
            ValidationDescriptor::PdaFromSeeds { writable, .. } => *writable,
            ValidationDescriptor::ExternalPda { writable, .. } => *writable,
        };
        proof {
            assert(writable == spec_descriptor_writable(all[i as int]));
        }
        let ghost prior = account_views(cur@);
        cur.push(
            AccountView { key, lamports: 0, data: Vec::new(), is_signer: false, is_writable: writable },
        );
        proof {
            assert(account_views(cur@) =~= prior.push(
                spec_resolved_entry(key@, spec_descriptor_writable(all[i as int])),
            ));
        }
        i += 1;
    }
    proof {
        assert(all.skip(descriptors@.len() as int) =~= Seq::<ValidationDescriptorView>::empty());
    }
    Ok(cur)
}

/// Whether one seed references only account indices below `avail`.
pub open spec fn seed_refs_bounded(s: SeedSpecView, avail: int) -> bool {
    match s {
        SeedSpecView::Literal { .. } => true,
        SeedSpecView::AccountKey { index } => (index as int) < avail,
        SeedSpecView::AccountDataSlice { account_index, .. } => (account_index as int) < avail,
    }
}

/// Whether every seed of the list references only indices below `avail`.
pub open spec fn seeds_refs_bounded(ss: Seq<SeedSpecView>, avail: int) -> bool {
    forall|j: int| 0 <= j < ss.len() ==> seed_refs_bounded(#[trigger] ss[j], avail)
}

/// Whether a descriptor references only account indices below `avail`.
pub open spec fn descriptor_refs_bounded(d: ValidationDescriptorView, avail: int) -> bool {
    match d {
        ValidationDescriptorView::Fixed { .. } => true,
        ValidationDescriptorView::AccountKeyRef { index } => (index as int) < avail,
        ValidationDescriptorView::PdaFromSeeds { seeds, .. } => seeds_refs_bounded(seeds, avail),
        ValidationDescriptorView::ExternalPda { authority_index, seeds, .. } => (authority_index
            as int) < avail && seeds_refs_bounded(seeds, avail),
    }
}

/// A seed list whose references are within the available accounts never
/// fails with an unresolved reference.
proof fn lemma_seed_list_no_unresolved(ss: Seq<SeedSpecView>, accounts: Seq<AccountValue>)
    requires
        seeds_refs_bounded(ss, accounts.len() as int),
    ensures
        spec_resolve_seed_list(ss, accounts) != Err::<Seq<Seq<u8>>, ResolveError>(
            ResolveError::UnresolvedReference,
        ),
    decreases ss.len(),
{
    if ss.len() > 0 {
        assert(seed_refs_bounded(ss[0], accounts.len() as int));
        assert(seeds_refs_bounded(ss.skip(1), accounts.len() as int)) by {
            assert forall|j: int| 0 <= j < ss.skip(1).len() implies seed_refs_bounded(
                #[trigger] ss.skip(1)[j],
                accounts.len() as int,
            ) by {
                assert(ss.skip(1)[j] == ss[j + 1]);
            }
        }
        lemma_seed_list_no_unresolved(ss.skip(1), accounts);
    }
}

/// A descriptor whose references are within the available accounts never
/// fails with an unresolved reference.
pub proof fn lemma_descriptor_no_unresolved(
    d: ValidationDescriptorView,
    accounts: Seq<AccountValue>,
    program_id: Seq<u8>,
)
    requires
        descriptor_refs_bounded(d, accounts.len() as int),
    ensures
        spec_resolve_descriptor(d, accounts, program_id) != Err::<Seq<u8>, ResolveError>(
            ResolveError::UnresolvedReference,
        ),
{
    match d {
        ValidationDescriptorView::PdaFromSeeds { seeds, .. } => {
            lemma_seed_list_no_unresolved(seeds, accounts);
        },
        ValidationDescriptorView::ExternalPda { seeds, .. } => {
            lemma_seed_list_no_unresolved(seeds, accounts);
        },
        _ => {},
    }
}

/// A descriptor that references an index not yet resolved fails with an
/// unresolved reference: the referencing index of an `AccountKeyRef`, and
/// the authority index of an `ExternalPda`.
pub proof fn lemma_unresolved_reference(
    d: ValidationDescriptorView,
    accounts: Seq<AccountValue>,
    program_id: Seq<u8>,
)
    requires
        (d matches ValidationDescriptorView::AccountKeyRef { index } && (index as int)
            >= accounts.len()) || (d matches ValidationDescriptorView::ExternalPda {
            authority_index,
            ..
        } && (authority_index as int) >= accounts.len()),
    ensures
        spec_resolve_descriptor(d, accounts, program_id) == Err::<Seq<u8>, ResolveError>(
            ResolveError::UnresolvedReference,
        ),
{
}

/// Resolution in declared order never leaves a reference unresolved: when
/// each descriptor references only the base accounts and accounts resolved
/// by earlier descriptors, the whole resolution never fails with an
/// unresolved reference.
pub proof fn lemma_resolution_in_order(
    ds: Seq<ValidationDescriptorView>,
    accounts: Seq<AccountValue>,
    program_id: Seq<u8>,
)
    requires
        forall|k: int|
            0 <= k < ds.len() ==> descriptor_refs_bounded(
                #[trigger] ds[k],
                accounts.len() + k,
            ),
    ensures
        spec_resolve_all(ds, accounts, program_id) != Err::<Seq<AccountValue>, ResolveError>(
            ResolveError::UnresolvedReference,
        ),
    decreases ds.len(),
{
    if ds.len() > 0 {
        assert(descriptor_refs_bounded(ds[0], accounts.len() as int));
        lemma_descriptor_no_unresolved(ds[0], accounts, program_id);
        match spec_resolve_descriptor(ds[0], accounts, program_id) {
            Err(e) => {},
            Ok(key) => {
                let grown = accounts.push(
                    spec_resolved_entry(key, spec_descriptor_writable(ds[0])),
                );
                assert forall|k: int| 0 <= k < ds.skip(1).len() implies descriptor_refs_bounded(
                    #[trigger] ds.skip(1)[k],
                    grown.len() + k,
                ) by {
                    assert(ds.skip(1)[k] == ds[k + 1]);
                    assert(descriptor_refs_bounded(ds[k + 1], accounts.len() + (k + 1)));
                }
                lemma_resolution_in_order(ds.skip(1), grown, program_id);
            },
        }
    }
}

/// The canonical descriptor list of this protocol resolves in declared order
/// with the five transfer accounts as the base: no reference is ever
/// unresolved.
pub proof fn lemma_canonical_metas_resolve_in_order(
    token_program_id: Seq<u8>,
    ata_program_id: Seq<u8>,
    soulbound_mint: Seq<u8>,
    accounts: Seq<AccountValue>,
    program_id: Seq<u8>,
)
    requires
        accounts.len() >= 5,
    ensures
        spec_resolve_all(
            crate::validation::spec_extra_metas(token_program_id, ata_program_id, soulbound_mint),
            accounts,
            program_id,
        ) != Err::<Seq<AccountValue>, ResolveError>(ResolveError::UnresolvedReference),
{
    let ds = crate::validation::spec_extra_metas(
        token_program_id,
        ata_program_id,
        soulbound_mint,
    );
    assert forall|k: int| 0 <= k < ds.len() implies descriptor_refs_bounded(
        #[trigger] ds[k],
        accounts.len() + k,
    ) by {
        assert(descriptor_refs_bounded(ds[0], accounts.len() as int + 0));
        assert(descriptor_refs_bounded(ds[1], accounts.len() as int + 1));
        assert(descriptor_refs_bounded(ds[2], accounts.len() as int + 2));
        assert(descriptor_refs_bounded(ds[3], accounts.len() as int + 3));
        assert(descriptor_refs_bounded(ds[4], accounts.len() as int + 4));
        assert(descriptor_refs_bounded(ds[5], accounts.len() as int + 5));
        assert(descriptor_refs_bounded(ds[6], accounts.len() as int + 6));
        assert(descriptor_refs_bounded(ds[7], accounts.len() as int + 7));
    }
    lemma_resolution_in_order(ds, accounts, program_id);
}

/// One resolution step: a descriptor that resolves appends its account, a
/// descriptor that fails decides the whole resolution.
proof fn lemma_resolve_all_step(
    ds: Seq<ValidationDescriptorView>,
    accounts: Seq<AccountValue>,
    program_id: Seq<u8>,
)
    requires
        ds.len() > 0,
    ensures
        spec_resolve_descriptor(ds[0], accounts, program_id) matches Ok(key)
            ==> spec_resolve_all(ds, accounts, program_id) == spec_resolve_all(
            ds.skip(1),
            accounts.push(spec_resolved_entry(key, spec_descriptor_writable(ds[0]))),
            program_id,
        ),
        spec_resolve_descriptor(ds[0], accounts, program_id) matches Err(e)
            ==> spec_resolve_all(ds, accounts, program_id) == Err::<
            Seq<AccountValue>,
            ResolveError,
        >(e),
{
}

/// A two-seed list resolves to its two byte strings.
proof fn lemma_seed_list_two(
    s0: SeedSpecView,
    s1: SeedSpecView,
    accounts: Seq<AccountValue>,
    b0: Seq<u8>,
    b1: Seq<u8>,
)
    requires
        spec_resolve_seed(s0, accounts) == Ok::<Seq<u8>, ResolveError>(b0),
        spec_resolve_seed(s1, accounts) == Ok::<Seq<u8>, ResolveError>(b1),
    ensures
        spec_resolve_seed_list(seq![s0, s1], accounts) == Ok::<Seq<Seq<u8>>, ResolveError>(
            seq![b0, b1],
        ),
{
    reveal_with_fuel(spec_resolve_seed_list, 3);
    let ss = seq![s0, s1];
    assert(ss.skip(1) =~= seq![s1]);
    assert(seq![s1].skip(1) =~= Seq::<SeedSpecView>::empty());
    assert(seq![b1] + Seq::<Seq<u8>>::empty() =~= seq![b1]);
    assert(seq![b0] + seq![b1] =~= seq![b0, b1]);
}

/// A three-seed list resolves to its three byte strings.
proof fn lemma_seed_list_three(
    s0: SeedSpecView,
    s1: SeedSpecView,
    s2: SeedSpecView,
    accounts: Seq<AccountValue>,
    b0: Seq<u8>,
    b1: Seq<u8>,
    b2: Seq<u8>,
)
    requires
        spec_resolve_seed(s0, accounts) == Ok::<Seq<u8>, ResolveError>(b0),
        spec_resolve_seed(s1, accounts) == Ok::<Seq<u8>, ResolveError>(b1),
        spec_resolve_seed(s2, accounts) == Ok::<Seq<u8>, ResolveError>(b2),
    ensures
        spec_resolve_seed_list(seq![s0, s1, s2], accounts) == Ok::<Seq<Seq<u8>>, ResolveError>(
            seq![b0, b1, b2],
        ),
{
    let ss = seq![s0, s1, s2];
    assert(ss.skip(1) =~= seq![s1, s2]);
    lemma_seed_list_two(s1, s2, accounts, b1, b2);
    assert(seq![b0] + seq![b1, b2] =~= seq![b0, b1, b2]);
}

/// A one-seed list resolves to its byte string.
proof fn lemma_seed_list_one(s0: SeedSpecView, accounts: Seq<AccountValue>, b0: Seq<u8>)
    requires
        spec_resolve_seed(s0, accounts) == Ok::<Seq<u8>, ResolveError>(b0),
    ensures
        spec_resolve_seed_list(seq![s0], accounts) == Ok::<Seq<Seq<u8>>, ResolveError>(seq![b0]),
{
    reveal_with_fuel(spec_resolve_seed_list, 2);
    assert(seq![s0].skip(1) =~= Seq::<SeedSpecView>::empty());
    assert(seq![b0] + Seq::<Seq<u8>>::empty() =~= seq![b0]);
}

/// Coherence of the two subsystems: when the canonical descriptor list
/// resolves over the five transfer accounts, the accounts it appends are
/// exactly the ones the hook execution's checks expect at positions five
/// through twelve: the two program identities, the soulbound mint, the two
/// owners' credential accounts and profiles, and the tracker. The source
/// owner is the account at position three; the destination owner is read
/// from the destination account's content, as the descriptors prescribe.
#[verifier::rlimit(100)]
pub proof fn lemma_canonical_resolution_names_hook_accounts(
    program_id: Seq<u8>,
    token_program_id: Seq<u8>,
    ata_program_id: Seq<u8>,
    base: Seq<AccountValue>,
)
    requires
        base.len() == 5,
        crate::soulbound::spec_soulbound_pda(program_id) is Some,
        spec_resolve_all(
            crate::validation::spec_extra_metas(
                token_program_id,
                ata_program_id,
                crate::soulbound::spec_soulbound_pda(program_id).unwrap().0,
            ),
            base,
            program_id,
        ) is Ok,
    ensures
        ({
            let mint = crate::soulbound::spec_soulbound_pda(program_id).unwrap().0;
            let resolved = spec_resolve_all(
                crate::validation::spec_extra_metas(token_program_id, ata_program_id, mint),
                base,
                program_id,
            ).unwrap();
            let source_owner = base[3].key;
            let destination_owner = base[2].data.subrange(32, 64);
            &&& resolved.len() == 13
            &&& (forall|i: int| 0 <= i < 5 ==> resolved[i] == base[i])
            &&& resolved[5].key == token_program_id
            &&& resolved[6].key == ata_program_id
            &&& resolved[7].key == mint
            &&& resolved[8].key == crate::soulbound::spec_soulbound_token_account(
                source_owner,
                program_id,
                token_program_id,
                ata_program_id,
            ).unwrap()
            &&& resolved[9].key == crate::profile::spec_profile_pda(
                source_owner,
                program_id,
            ).unwrap().0
            &&& resolved[10].key == crate::soulbound::spec_soulbound_token_account(
                destination_owner,
                program_id,
                token_program_id,
                ata_program_id,
            ).unwrap()
            &&& resolved[11].key == crate::profile::spec_profile_pda(
                destination_owner,
                program_id,
            ).unwrap().0
            &&& resolved[12].key == crate::order_tracker::spec_order_tracker_pda(
                program_id,
            ).unwrap().0
        }),
{
    let mint = crate::soulbound::spec_soulbound_pda(program_id).unwrap().0;
    let ds = crate::validation::spec_extra_metas(token_program_id, ata_program_id, mint);
    let source_owner = base[3].key;
    let destination_owner = base[2].data.subrange(32, 64);

    lemma_resolve_all_step(ds, base, program_id);
    let a6 = base.push(spec_resolved_entry(token_program_id, false));
    assert(ds.skip(1)[0] == ds[1]);
    lemma_resolve_all_step(ds.skip(1), a6, program_id);
    assert(ds.skip(1).skip(1) =~= ds.skip(2));
    let a7 = a6.push(spec_resolved_entry(ata_program_id, false));
    assert(ds.skip(2)[0] == ds[2]);
    lemma_resolve_all_step(ds.skip(2), a7, program_id);
    assert(ds.skip(2).skip(1) =~= ds.skip(3));
    let a8 = a7.push(spec_resolved_entry(mint, false));
    assert(spec_resolve_all(ds, base, program_id) == spec_resolve_all(
        ds.skip(3),
        a8,
        program_id,
    ));

    // Source owner's credential account: an external derivation under the
    // associated-token authority at position six.
    assert(ds.skip(3)[0] == ds[3]);
    assert(a8[3].key == source_owner && a8[5].key == token_program_id && a8[7].key == mint
        && a8[6].key == ata_program_id);
    lemma_seed_list_three(
        SeedSpecView::AccountKey { index: 3 },
        SeedSpecView::AccountKey { index: 5 },
        SeedSpecView::AccountKey { index: 7 },
        a8,
        source_owner,
        token_program_id,
        mint,
    );
    lemma_resolve_all_step(ds.skip(3), a8, program_id);
    assert(ds.skip(3).skip(1) =~= ds.skip(4));
    assert(pda_of(seq![source_owner, token_program_id, mint], ata_program_id) is Some) by {
        if pda_of(seq![source_owner, token_program_id, mint], ata_program_id) is None {
            assert(spec_resolve_descriptor(ds[3], a8, program_id) == Err::<Seq<u8>, ResolveError>(
                ResolveError::DerivationFailed,
            ));
        }
    }
    let source_credential = pda_of(
        seq![source_owner, token_program_id, mint],
        ata_program_id,
    ).unwrap().0;
    let a9 = a8.push(spec_resolved_entry(source_credential, false));
    assert(spec_resolve_all(ds, base, program_id) == spec_resolve_all(
        ds.skip(4),
        a9,
        program_id,
    ));

    // Source owner's profile: a derivation under the hook program itself.
    assert(ds.skip(4)[0] == ds[4]);
    assert(a9[3].key == source_owner);
    lemma_seed_list_two(
        SeedSpecView::Literal { bytes: crate::seeds::spec_profile_seed() },
        SeedSpecView::AccountKey { index: 3 },
        a9,
        crate::seeds::spec_profile_seed(),
        source_owner,
    );
    lemma_resolve_all_step(ds.skip(4), a9, program_id);
    assert(ds.skip(4).skip(1) =~= ds.skip(5));
    assert(pda_of(seq![crate::seeds::spec_profile_seed(), source_owner], program_id) is Some) by {
        if pda_of(seq![crate::seeds::spec_profile_seed(), source_owner], program_id) is None {
            assert(spec_resolve_descriptor(ds[4], a9, program_id) == Err::<Seq<u8>, ResolveError>(
                ResolveError::DerivationFailed,
            ));
        }
    }
    let source_profile = pda_of(
        seq![crate::seeds::spec_profile_seed(), source_owner],
        program_id,
    ).unwrap().0;
    let a10 = a9.push(spec_resolved_entry(source_profile, true));
    assert(spec_resolve_all(ds, base, program_id) == spec_resolve_all(
        ds.skip(5),
        a10,
        program_id,
    ));

    // Destination owner's credential account: the owner is read from the
    // destination account's content.
    assert(ds.skip(5)[0] == ds[5]);
    assert(base[2].data.len() >= 64) by {
        if base[2].data.len() < 64 {
            assert(spec_resolve_seed(
                SeedSpecView::AccountDataSlice { account_index: 2, offset: 32, length: 32 },
                a10,
            ) == Err::<Seq<u8>, ResolveError>(ResolveError::OutOfBounds));
            reveal_with_fuel(spec_resolve_seed_list, 2);
            lemma_resolve_all_step(ds.skip(5), a10, program_id);
        }
    }
    assert(a10[2].data =~= base[2].data);
    lemma_seed_list_three(
        SeedSpecView::AccountDataSlice { account_index: 2, offset: 32, length: 32 },
        SeedSpecView::AccountKey { index: 5 },
        SeedSpecView::AccountKey { index: 7 },
        a10,
        destination_owner,
        token_program_id,
        mint,
    );
    lemma_resolve_all_step(ds.skip(5), a10, program_id);
    assert(ds.skip(5).skip(1) =~= ds.skip(6));
    assert(pda_of(seq![destination_owner, token_program_id, mint], ata_program_id) is Some) by {
        if pda_of(seq![destination_owner, token_program_id, mint], ata_program_id) is None {
            assert(spec_resolve_descriptor(ds[5], a10, program_id) == Err::<Seq<u8>, ResolveError>(
                ResolveError::DerivationFailed,
            ));
        }
    }
    let destination_credential = pda_of(
        seq![destination_owner, token_program_id, mint],
        ata_program_id,
    ).unwrap().0;
    let a11 = a10.push(spec_resolved_entry(destination_credential, false));
    assert(spec_resolve_all(ds, base, program_id) == spec_resolve_all(
        ds.skip(6),
        a11,
        program_id,
    ));

    // Destination owner's profile.
    assert(ds.skip(6)[0] == ds[6]);
    assert(a11[2].data =~= base[2].data);
    lemma_seed_list_two(
        SeedSpecView::Literal { bytes: crate::seeds::spec_profile_seed() },
        SeedSpecView::AccountDataSlice { account_index: 2, offset: 32, length: 32 },
        a11,
        crate::seeds::spec_profile_seed(),
        destination_owner,
    );
    lemma_resolve_all_step(ds.skip(6), a11, program_id);
    assert(ds.skip(6).skip(1) =~= ds.skip(7));
    assert(pda_of(seq![crate::seeds::spec_profile_seed(), destination_owner], program_id)
        is Some) by {
        if pda_of(seq![crate::seeds::spec_profile_seed(), destination_owner], program_id)
            is None {
            assert(spec_resolve_descriptor(ds[6], a11, program_id) == Err::<Seq<u8>, ResolveError>(
                ResolveError::DerivationFailed,
            ));
        }
    }
    let destination_profile = pda_of(
        seq![crate::seeds::spec_profile_seed(), destination_owner],
        program_id,
    ).unwrap().0;
    let a12 = a11.push(spec_resolved_entry(destination_profile, true));
    assert(spec_resolve_all(ds, base, program_id) == spec_resolve_all(
        ds.skip(7),
        a12,
        program_id,
    ));

    // The global order tracker.
    assert(ds.skip(7)[0] == ds[7]);
    lemma_seed_list_one(
        SeedSpecView::Literal { bytes: crate::seeds::spec_order_tracker_seed() },
        a12,
        crate::seeds::spec_order_tracker_seed(),
    );
    lemma_resolve_all_step(ds.skip(7), a12, program_id);
    assert(ds.skip(7).skip(1) =~= ds.skip(8));
    assert(pda_of(seq![crate::seeds::spec_order_tracker_seed()], program_id) is Some) by {
        if pda_of(seq![crate::seeds::spec_order_tracker_seed()], program_id) is None {
            assert(spec_resolve_descriptor(ds[7], a12, program_id) == Err::<Seq<u8>, ResolveError>(
                ResolveError::DerivationFailed,
            ));
        }
    }
    let tracker = pda_of(seq![crate::seeds::spec_order_tracker_seed()], program_id).unwrap().0;
    let a13 = a12.push(spec_resolved_entry(tracker, true));
    assert(ds.skip(8) =~= Seq::<ValidationDescriptorView>::empty());
    assert(spec_resolve_all(ds, base, program_id) == Ok::<Seq<AccountValue>, ResolveError>(a13));
}

} // verus!
