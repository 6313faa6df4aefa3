//! The global order tracker: one record mapping each mint to the cumulative
//! volume of orders on it, with its persisted byte layout and derived
//! address. The record grows by one fixed-size entry whenever a mint is seen
//! for the first time, so the region that backs it must be resized to the
//! exact new serialized length before the new form is written.

use vstd::prelude::*;
use crate::KEY_LEN;
use crate::bytes::{push_bytes, push_le32, push_le64, read_bytes, read_le32, read_le64, spec_le32,
    spec_le64, lemma_le32_injective, lemma_le64_injective};
use crate::pda::{pda_of, derive_address, views_of};
use crate::seeds::{order_tracker_seed, spec_order_tracker_seed};
use crate::bytes_eq;

verus! {

/// The cumulative order volume recorded for one mint.
pub struct VolumeEntry {
    /// The mint the volume is recorded for.
    pub mint: Vec<u8>,
    /// Cumulative volume of orders on that mint.
    pub amount: u64,
}

/// The mathematical value of a `VolumeEntry`.
pub ghost struct VolumeEntryView {
    /// The mint the volume is recorded for.
    pub mint: Seq<u8>,
    /// Cumulative volume of orders on that mint.
    pub amount: u64,
}

impl View for VolumeEntry {
    type V = VolumeEntryView;

    open spec fn view(&self) -> VolumeEntryView {
        VolumeEntryView { mint: self.mint@, amount: self.amount }
    }
}

/// Tracks the volume of orders on mints.
pub struct OrderTracker {
    /// One entry per mint that has seen an order, in order of first sight.
    pub volume: Vec<VolumeEntry>,
}

impl View for OrderTracker {
    type V = Seq<VolumeEntryView>;

    open spec fn view(&self) -> Seq<VolumeEntryView> {
        Seq::new(self.volume@.len(), |i: int| self.volume@[i]@)
    }
}

/// Every entry names a full-length mint address.
pub open spec fn entries_wf(es: Seq<VolumeEntryView>) -> bool {
    forall|i: int| 0 <= i < es.len() ==> #[trigger] es[i].mint.len() == KEY_LEN
}

/// No two entries name the same mint.
pub open spec fn keys_unique(es: Seq<VolumeEntryView>) -> bool {
    forall|i: int, j: int| 0 <= i < j < es.len() ==> #[trigger] es[i].mint != #[trigger] es[j].mint
}

/// Position of the first entry recorded for `mint`, if any.
pub open spec fn spec_find_mint(es: Seq<VolumeEntryView>, mint: Seq<u8>) -> Option<int>
    decreases es.len(),
{
    if es.len() == 0 {
        None
    } else if es[0].mint == mint {
        Some(0)
    } else {
        match spec_find_mint(es.skip(1), mint) {
            Some(i) => Some(i + 1),
            None => None,
        }
    }
}

/// What `spec_find_mint` finds: the first entry recorded for `mint`.
pub proof fn lemma_find_mint_props(es: Seq<VolumeEntryView>, mint: Seq<u8>)
    ensures
        spec_find_mint(es, mint) matches Some(i) ==> 0 <= i < es.len() && es[i].mint == mint
            && (forall|j: int| 0 <= j < i ==> #[trigger] es[j].mint != mint),
        spec_find_mint(es, mint) is None ==> forall|j: int|
            0 <= j < es.len() ==> #[trigger] es[j].mint != mint,
    decreases es.len(),
{
    if es.len() > 0 && es[0].mint != mint {
        lemma_find_mint_props(es.skip(1), mint);
        assert forall|j: int| 1 <= j < es.len() implies #[trigger] es[j].mint == es.skip(1)[j - 1].mint by {
        }
    }
}

/// Converse: the first matching position is what `spec_find_mint` returns.
pub proof fn lemma_find_mint_first(es: Seq<VolumeEntryView>, mint: Seq<u8>, i: int)
    requires
        0 <= i < es.len(),
        es[i].mint == mint,
        forall|j: int| 0 <= j < i ==> #[trigger] es[j].mint != mint,
    ensures
        spec_find_mint(es, mint) == Some(i),
    decreases es.len(),
{
    if i > 0 {
        lemma_find_mint_first(es.skip(1), mint, i - 1);
    }
}

/// The volume recorded for `mint`: its entry's counter, or zero when no
/// order on `mint` was ever recorded.
pub open spec fn spec_volume_of(es: Seq<VolumeEntryView>, mint: Seq<u8>) -> u64 {
    match spec_find_mint(es, mint) {
        Some(i) => es[i].amount,
        None => 0,
    }
}

/// The tracker after recording an order of `amount` on `mint`: the existing
/// entry is incremented, or a new entry is appended on first sight.
pub open spec fn spec_increment(es: Seq<VolumeEntryView>, mint: Seq<u8>, amount: u64) -> Seq<
    VolumeEntryView,
> {
    match spec_find_mint(es, mint) {
        Some(i) => es.update(
            i,
            VolumeEntryView { mint: es[i].mint, amount: (es[i].amount + amount) as u64 },
        ),
        None => es.push(VolumeEntryView { mint, amount }),
    }
}

/// Whether recording `amount` on `mint` stays within the counter's range.
pub open spec fn spec_can_increment(es: Seq<VolumeEntryView>, mint: Seq<u8>, amount: u64) -> bool {
    match spec_find_mint(es, mint) {
        Some(i) => es[i].amount + amount <= u64::MAX,
        None => true,
    }
}

/// The persisted layout of one tracker entry: the mint's address followed by
/// the little-endian volume counter.
pub open spec fn spec_encode_entry(e: VolumeEntryView) -> Seq<u8> {
    e.mint + spec_le64(e.amount)
}

/// Byte size of one persisted tracker entry.
pub open spec fn spec_entry_len() -> nat {
    (KEY_LEN + 8) as nat
}

/// The persisted layout of the entry list: each entry in order.
pub open spec fn spec_encode_entries(es: Seq<VolumeEntryView>) -> Seq<u8>
    decreases es.len(),
{
    if es.len() == 0 {
        Seq::empty()
    } else {
        spec_encode_entry(es[0]) + spec_encode_entries(es.skip(1))
    }
}

/// The persisted layout of the tracker: the little-endian entry count, then
/// the entries in order of first sight.
pub open spec fn spec_encode_tracker(es: Seq<VolumeEntryView>) -> Seq<u8> {
    spec_le32(es.len() as u32) + spec_encode_entries(es)
}

/// The serialized entry list of `n` well-formed entries is exactly `n` times
/// the entry size.
pub proof fn lemma_encode_entries_len(es: Seq<VolumeEntryView>)
    requires
        entries_wf(es),
    ensures
        spec_encode_entries(es).len() == spec_entry_len() * es.len(),
    decreases es.len(),
{
    if es.len() > 0 {
        assert(entries_wf(es.skip(1)));
        lemma_encode_entries_len(es.skip(1));
        assert(spec_entry_len() * es.len() == spec_entry_len() + spec_entry_len() * (es.len() - 1))
            by (nonlinear_arith);
    }
}

/// Appending an entry appends its bytes.
pub proof fn lemma_encode_entries_push(es: Seq<VolumeEntryView>, e: VolumeEntryView)
    ensures
        spec_encode_entries(es.push(e)) == spec_encode_entries(es) + spec_encode_entry(e),
    decreases es.len(),
{
    if es.len() == 0 {
        assert(es.push(e)[0] == e);
        assert(es.push(e).skip(1) =~= es);
        assert(spec_encode_entries(es.push(e)) =~= spec_encode_entries(es) + spec_encode_entry(e));
    } else {
        assert(es.push(e).skip(1) =~= es.skip(1).push(e));
        lemma_encode_entries_push(es.skip(1), e);
        assert(spec_encode_entries(es.push(e)) =~= spec_encode_entries(es) + spec_encode_entry(e));
    }
}

/// In the serialized entry list, entry `i` sits at byte offset `i` times the
/// entry size.
pub proof fn lemma_encode_entries_index(es: Seq<VolumeEntryView>, i: int)
    requires
        entries_wf(es),
        0 <= i < es.len(),
    ensures
        spec_encode_entries(es).subrange(
            spec_entry_len() * i,
            spec_entry_len() * i + spec_entry_len(),
        ) == spec_encode_entry(es[i]),
    decreases i,
{
    lemma_encode_entries_len(es);
    if i == 0 {
        lemma_encode_entries_len(es.skip(1));
        assert(spec_encode_entries(es).subrange(0, spec_entry_len() as int) =~= spec_encode_entry(
            es[0],
        ));
    } else {
        assert(entries_wf(es.skip(1)));
        lemma_encode_entries_index(es.skip(1), i - 1);
        lemma_encode_entries_len(es.skip(1));
        assert(spec_entry_len() * i == spec_entry_len() + spec_entry_len() * (i - 1))
            by (nonlinear_arith);
        assert(spec_encode_entries(es).subrange(
            spec_entry_len() * i,
            spec_entry_len() * i + spec_entry_len(),
        ) =~= spec_encode_entries(es.skip(1)).subrange(
            spec_entry_len() * (i - 1),
            spec_entry_len() * (i - 1) + spec_entry_len(),
        ));
    }
}

/// The derivation of the tracker's address under the program.
pub open spec fn spec_order_tracker_pda(program_id: Seq<u8>) -> Option<(Seq<u8>, u8)> {
    pda_of(seq![spec_order_tracker_seed()], program_id)
}

impl OrderTracker {
    /// A tracker with no recorded orders.
    pub fn new() -> (r: OrderTracker)
        ensures
            r@ == Seq::<VolumeEntryView>::empty(),
    {
        let t = OrderTracker { volume: Vec::new() };
        proof {
            assert(t@ =~= Seq::<VolumeEntryView>::empty());
        }
        t
    }

    /// The seed under which the tracker's address is derived.
    pub fn seed() -> (r: Vec<u8>)
        ensures
            r@ == spec_order_tracker_seed(),
    {
        order_tracker_seed()
    }

    /// Derive the tracker's address.
    pub fn address(program_id: &Vec<u8>) -> (r: Option<Vec<u8>>)
        requires
            program_id@.len() == KEY_LEN,
        ensures
            r is Some <==> spec_order_tracker_pda(program_id@) is Some,
            r matches Some(key) ==> key@ == spec_order_tracker_pda(program_id@).unwrap().0
                && key@.len() == KEY_LEN,
    {
        let mut seeds: Vec<Vec<u8>> = Vec::new();
        seeds.push(OrderTracker::seed());
        proof {
            assert(views_of(seeds@) =~= seq![spec_order_tracker_seed()]);
        }
        match derive_address(&seeds, program_id) {
            Some(found) => Some(found.0),
            None => None,
        }
    }

    /// Whether recording `amount` on `mint` stays within the counter's
    /// range.
    pub fn can_increment(&self, mint: &Vec<u8>, amount: u64) -> (r: bool)
        ensures
            r == spec_can_increment(self@, mint@, amount),
    {
        let ghost es = self@;
        let n = self.volume.len();
        let mut i: usize = 0;
        while i < n
            invariant
                n == self.volume@.len(),
                i <= n,
                es == self@,
                forall|j: int| 0 <= j < i ==> #[trigger] es[j].mint != mint@,
            decreases n - i,
        {
            if bytes_eq(&self.volume[i].mint, mint) {
                proof {
                    lemma_find_mint_first(es, mint@, i as int);
                }
                return self.volume[i].amount <= u64::MAX - amount;
            }
            i += 1;
        }
        proof {
            lemma_find_mint_props(es, mint@);
            if spec_find_mint(es, mint@) is Some {
                let k = spec_find_mint(es, mint@).unwrap();
                assert(es[k].mint != mint@);
            }
        }
        true
    }

    /// Record an order of `amount` on `mint`: increment the mint's entry, or
    /// append a fresh entry on first sight. Existing entries keep their
    /// position; the volume of every other mint is untouched.
    pub fn increment(&mut self, mint: &Vec<u8>, amount: u64)
        requires
            entries_wf(old(self)@),
            mint@.len() == KEY_LEN,
            spec_can_increment(old(self)@, mint@, amount),
        ensures
            final(self)@ == spec_increment(old(self)@, mint@, amount),
            entries_wf(final(self)@),
            keys_unique(old(self)@) ==> keys_unique(final(self)@),
    {
        let ghost es = self@;
        let n = self.volume.len();
        let mut i: usize = 0;
        while i < n
            invariant
                n == self.volume@.len(),
                i <= n,
                es == old(self)@,
                self@ == es,
                entries_wf(es),
                mint@.len() == KEY_LEN,
                spec_can_increment(es, mint@, amount),
                forall|j: int| 0 <= j < i ==> #[trigger] es[j].mint != mint@,
            decreases n - i,
        {
            if bytes_eq(&self.volume[i].mint, mint) {
                proof {
                    lemma_find_mint_first(es, mint@, i as int);
                }
                let new_amount = self.volume[i].amount + amount;
                let entry = VolumeEntry { mint: read_bytes(mint, 0, mint.len()), amount: new_amount };
                proof {
                    assert(mint@.subrange(0, mint@.len() as int) =~= mint@);
                }
                let ghost eview = entry@;
                self.volume[i] = entry;
                proof {
                    assert(eview == VolumeEntryView {
                        mint: es[i as int].mint,
                        amount: (es[i as int].amount + amount) as u64,
                    });
                    assert forall|j: int| 0 <= j < self@.len() && j != i implies self@[j] == es[j] by {
                        assert(self.volume@[j]@ == es[j]);
                    }
                    assert(self@[i as int] == eview);
                    assert(self@ =~= spec_increment(es, mint@, amount));
                    assert(entries_wf(self@));
                    if keys_unique(es) {
                        assert forall|a: int, b: int|
                            0 <= a < b < self@.len() implies #[trigger] self@[a].mint
                            != #[trigger] self@[b].mint by {
                            assert(self@[a].mint == es[a].mint);
                            assert(self@[b].mint == es[b].mint);
                        }
                    }
                }
                return ;
            }
            i += 1;
        }
        proof {
            lemma_find_mint_props(es, mint@);
            if spec_find_mint(es, mint@) is Some {
                let i = spec_find_mint(es, mint@).unwrap();
                assert(es[i].mint != mint@);
            }
        }
        let entry = VolumeEntry { mint: read_bytes(mint, 0, mint.len()), amount };
        proof {
            assert(mint@.subrange(0, mint@.len() as int) =~= mint@);
        }
        self.volume.push(entry);
        proof {
            assert(self@ =~= spec_increment(es, mint@, amount));
            assert(entries_wf(self@));
            if keys_unique(es) {
                assert forall|a: int, b: int| 0 <= a < b < self@.len() implies #[trigger] self@[a].mint
                    != #[trigger] self@[b].mint by {
                    if b == self@.len() - 1 {
                        assert(es[a].mint != mint@);
                    }
                }
            }
        }
    }
}

/// Serialize the tracker into its persisted layout.
pub fn encode_tracker(t: &OrderTracker) -> (r: Vec<u8>)
    requires
        entries_wf(t@),
        t@.len() <= u32::MAX,
    ensures
        r@ == spec_encode_tracker(t@),
        r@.len() == 4 + spec_entry_len() * t@.len(),
{
    let n = t.volume.len();
    let mut out: Vec<u8> = Vec::new();
    push_le32(&mut out, n as u32);
    let mut i: usize = 0;
    while i < n
        invariant
            n == t.volume@.len(),
            i <= n,
            entries_wf(t@),
            out@ == spec_le32(n as u32) + spec_encode_entries(t@.take(i as int)),
        decreases n - i,
    {
        let entry = &t.volume[i];
        push_bytes(&mut out, &entry.mint);
        push_le64(&mut out, entry.amount);
        proof {
            lemma_encode_entries_push(t@.take(i as int), t@[i as int]);
            assert(t@.take(i + 1) =~= t@.take(i as int).push(t@[i as int]));
            assert(out@ =~= spec_le32(n as u32) + spec_encode_entries(t@.take(i + 1)));
        }
        i += 1;
    }
    proof {
        assert(t@.take(n as int) =~= t@);
        lemma_encode_entries_len(t@);
    }
    out
}

/// Whether `data` is the persisted layout of some well-formed tracker.
pub open spec fn spec_tracker_decodes(data: Seq<u8>) -> bool {
    exists|es: Seq<VolumeEntryView>|
        entries_wf(es) && es.len() <= u32::MAX && data == spec_encode_tracker(es)
}

/// Parse a persisted tracker record. Returns `None` exactly when `data` is
/// not the encoding of any well-formed tracker.
pub fn decode_tracker(data: &Vec<u8>) -> (r: Option<OrderTracker>)
    ensures
        r is Some <==> spec_tracker_decodes(data@),
        r matches Some(t) ==> entries_wf(t@) && t@.len() <= u32::MAX && data@ == spec_encode_tracker(
            t@,
        ),
{
    let len = data.len();
    if len < 4 {
        proof {
            assert forall|es: Seq<VolumeEntryView>| entries_wf(es) implies data@
                != spec_encode_tracker(es) by {
                assert(spec_encode_tracker(es).len() >= 4);
            }
        }
        return None;
    }
    let n_u32 = read_le32(data, 0);
    let n = n_u32 as usize;
    let expected: u64 = 4u64 + 40u64 * (n_u32 as u64);
    if (len as u64) != expected {
        proof {
            assert forall|es: Seq<VolumeEntryView>|
                entries_wf(es) && es.len() <= u32::MAX implies data@ != spec_encode_tracker(es) by {
                if data@ == spec_encode_tracker(es) {
                    assert(spec_encode_tracker(es).subrange(0, 4) == spec_le32(es.len() as u32));
                    assert(data@.subrange(0, 4) == spec_le32(n_u32));
                    lemma_le32_injective(n_u32, es.len() as u32);
                    lemma_encode_entries_len(es);
                }
            }
        }
        return None;
    }
    let mut volume: Vec<VolumeEntry> = Vec::new();
    let mut i: usize = 0;
    while i < n
        invariant
            i <= n,
            n <= u32::MAX,
            data@.len() == 4 + spec_entry_len() * n,
            data@.len() <= usize::MAX,
            volume@.len() == i,
            forall|j: int| 0 <= j < i ==> #[trigger] volume@[j]@.mint.len() == KEY_LEN,
            spec_encode_entries(Seq::new(volume@.len(), |j: int| volume@[j]@)) == data@.subrange(
                4,
                4 + spec_entry_len() * i,
            ),
        decreases n - i,
    {
        proof {
            assert(spec_entry_len() * i + spec_entry_len() <= spec_entry_len() * n) by (nonlinear_arith)
                requires i < n;
        }
        let off = 4 + 40 * i;
        let mint = read_bytes(data, off, 32);
        let amount = read_le64(data, off + 32);
        let ghost prior = Seq::new(volume@.len(), |j: int| volume@[j]@);
        volume.push(VolumeEntry { mint, amount });
        proof {
            let now = Seq::new(volume@.len(), |j: int| volume@[j]@);
            assert(now =~= prior.push(VolumeEntryView { mint: mint@, amount }));
            lemma_encode_entries_push(prior, VolumeEntryView { mint: mint@, amount });
            assert(spec_encode_entry(VolumeEntryView { mint: mint@, amount }) =~= data@.subrange(
                4 + spec_entry_len() * i,
                4 + spec_entry_len() * (i + 1),
            ));
            assert(spec_entry_len() * (i + 1) == spec_entry_len() * i + spec_entry_len())
                by (nonlinear_arith);
            assert(spec_encode_entries(now) =~= data@.subrange(4, 4 + spec_entry_len() * (i + 1)));
        }
        i += 1;
    }
    let t = OrderTracker { volume };
    proof {
        assert(t@ =~= Seq::new(t.volume@.len(), |j: int| t.volume@[j]@));
        assert(data@ =~= spec_encode_tracker(t@));
    }
    Some(t)
}

/// After an order on a fresh mint, the tracker's serialized length is
/// exactly the header plus one entry for each mint seen so far, and the
/// bytes of every previously recorded entry are intact at their offsets.
pub proof fn lemma_resize_preserves_entries(es: Seq<VolumeEntryView>, mint: Seq<u8>, amount: u64)
    requires
        entries_wf(es),
        mint.len() == KEY_LEN,
        spec_find_mint(es, mint) is None,
    ensures
        spec_encode_tracker(spec_increment(es, mint, amount)).len() == 4 + spec_entry_len() * (
        es.len() + 1),
        forall|i: int|
            0 <= i < es.len() ==> spec_encode_tracker(spec_increment(es, mint, amount)).subrange(
                4 + spec_entry_len() * i,
                4 + spec_entry_len() * i + spec_entry_len(),
            ) == #[trigger] spec_encode_entry(es[i]),
        forall|i: int|
            0 <= i < es.len() ==> spec_encode_tracker(es).subrange(
                4 + spec_entry_len() * i,
                4 + spec_entry_len() * i + spec_entry_len(),
            ) == #[trigger] spec_encode_entry(es[i]),
{
    let grown = spec_increment(es, mint, amount);
    assert(grown == es.push(VolumeEntryView { mint, amount }));
    assert(entries_wf(grown));
    lemma_encode_entries_len(es);
    lemma_encode_entries_len(grown);
    assert(spec_entry_len() * (es.len() + 1) == spec_entry_len() * es.len() + spec_entry_len())
        by (nonlinear_arith);
    assert forall|i: int| 0 <= i < es.len() implies spec_encode_tracker(grown).subrange(
        4 + spec_entry_len() * i,
        4 + spec_entry_len() * i + spec_entry_len(),
    ) == #[trigger] spec_encode_entry(es[i]) by {
        lemma_encode_entries_index(grown, i);
        assert(spec_entry_len() * i + spec_entry_len() <= spec_entry_len() * grown.len())
            by (nonlinear_arith)
            requires i < grown.len();
        assert(spec_encode_tracker(grown).subrange(
            4 + spec_entry_len() * i,
            4 + spec_entry_len() * i + spec_entry_len(),
        ) =~= spec_encode_entries(grown).subrange(
            spec_entry_len() * i,
            spec_entry_len() * i + spec_entry_len(),
        ));
    }
    assert forall|i: int| 0 <= i < es.len() implies spec_encode_tracker(es).subrange(
        4 + spec_entry_len() * i,
        4 + spec_entry_len() * i + spec_entry_len(),
    ) == #[trigger] spec_encode_entry(es[i]) by {
        lemma_encode_entries_index(es, i);
        assert(spec_entry_len() * i + spec_entry_len() <= spec_entry_len() * es.len())
            by (nonlinear_arith)
            requires i < es.len();
        assert(spec_encode_tracker(es).subrange(
            4 + spec_entry_len() * i,
            4 + spec_entry_len() * i + spec_entry_len(),
        ) =~= spec_encode_entries(es).subrange(
            spec_entry_len() * i,
            spec_entry_len() * i + spec_entry_len(),
        ));
    }
}

/// Finding a mint in a list with one entry appended: an existing entry is
/// still found first; otherwise only the appended entry can match.
proof fn lemma_find_mint_push(es: Seq<VolumeEntryView>, e: VolumeEntryView, m: Seq<u8>)
    ensures
        spec_find_mint(es.push(e), m) == (if spec_find_mint(es, m) is Some {
            spec_find_mint(es, m)
        } else if e.mint == m {
            Some(es.len() as int)
        } else {
            None::<int>
        }),
    decreases es.len(),
{
    if es.len() == 0 {
        assert(es.push(e)[0] == e);
        assert(es.push(e).skip(1) =~= es);
    } else {
        assert(es.push(e).skip(1) =~= es.skip(1).push(e));
        lemma_find_mint_push(es.skip(1), e, m);
    }
}

/// Replacing an entry with one for the same mint moves no find position.
proof fn lemma_find_mint_update(es: Seq<VolumeEntryView>, i: int, e: VolumeEntryView, m: Seq<u8>)
    requires
        0 <= i < es.len(),
        e.mint == es[i].mint,
    ensures
        spec_find_mint(es.update(i, e), m) == spec_find_mint(es, m),
    decreases es.len(),
{
    let fs = es.update(i, e);
    assert(fs[0].mint == es[0].mint);
    if es[0].mint != m {
        if i == 0 {
            assert(fs.skip(1) =~= es.skip(1));
        } else {
            assert(fs.skip(1) =~= es.skip(1).update(i - 1, e));
            lemma_find_mint_update(es.skip(1), i - 1, e, m);
        }
    }
}

/// Recording an order moves exactly one counter: the mint's own volume grows
/// by the amount, every other mint's volume is unchanged, and the entry
/// count grows only on first sight.
pub proof fn lemma_increment_volume(es: Seq<VolumeEntryView>, mint: Seq<u8>, amount: u64)
    requires
        entries_wf(es),
        spec_can_increment(es, mint, amount),
    ensures
        spec_volume_of(spec_increment(es, mint, amount), mint) == spec_volume_of(es, mint)
            + amount,
        forall|other: Seq<u8>|
            other != mint ==> #[trigger] spec_volume_of(spec_increment(es, mint, amount), other)
                == spec_volume_of(es, other),
        spec_increment(es, mint, amount).len() == if spec_find_mint(es, mint) is Some {
            es.len() as int
        } else {
            (es.len() + 1) as int
        },
{
    let grown = spec_increment(es, mint, amount);
    lemma_find_mint_props(es, mint);
    match spec_find_mint(es, mint) {
        Some(i) => {
            let e = VolumeEntryView { mint: es[i].mint, amount: (es[i].amount + amount) as u64 };
            lemma_find_mint_update(es, i, e, mint);
            assert forall|other: Seq<u8>| other != mint implies #[trigger] spec_volume_of(
                grown,
                other,
            ) == spec_volume_of(es, other) by {
                lemma_find_mint_update(es, i, e, other);
                lemma_find_mint_props(es, other);
                if spec_find_mint(es, other) is Some {
                    let j = spec_find_mint(es, other).unwrap();
                    assert(es[j].mint == other);
                    assert(grown[j] == es[j]);
                }
            }
        },
        None => {
            let e = VolumeEntryView { mint, amount };
            lemma_find_mint_push(es, e, mint);
            assert forall|other: Seq<u8>| other != mint implies #[trigger] spec_volume_of(
                grown,
                other,
            ) == spec_volume_of(es, other) by {
                lemma_find_mint_push(es, e, other);
                lemma_find_mint_props(es, other);
                if spec_find_mint(es, other) is Some {
                    let j = spec_find_mint(es, other).unwrap();
                    assert(grown[j] == es[j]);
                }
            }
        },
    }
}

/// Two well-formed trackers with the same encoding hold the same entries.
pub proof fn lemma_tracker_encoding_injective(a: Seq<VolumeEntryView>, b: Seq<VolumeEntryView>)
    requires
        entries_wf(a),
        entries_wf(b),
        a.len() <= u32::MAX,
        b.len() <= u32::MAX,
        spec_encode_tracker(a) == spec_encode_tracker(b),
    ensures
        a == b,
{
    assert(spec_encode_tracker(a).subrange(0, 4) =~= spec_le32(a.len() as u32));
    assert(spec_encode_tracker(b).subrange(0, 4) =~= spec_le32(b.len() as u32));
    lemma_le32_injective(a.len() as u32, b.len() as u32);
    assert(a.len() == b.len());
    assert forall|i: int| 0 <= i < a.len() implies a[i] == b[i] by {
        lemma_encode_entries_len(a);
        lemma_encode_entries_len(b);
        lemma_encode_entries_index(a, i);
        lemma_encode_entries_index(b, i);
        assert(spec_entry_len() * i + spec_entry_len() <= spec_entry_len() * a.len())
            by (nonlinear_arith)
            requires i < a.len();
        assert(spec_encode_entries(a) =~= spec_encode_tracker(a).skip(4));
        assert(spec_encode_entries(b) =~= spec_encode_tracker(b).skip(4));
        let ea = spec_encode_entry(a[i]);
        let eb = spec_encode_entry(b[i]);
        assert(ea == eb);
        assert(a[i].mint =~= ea.subrange(0, KEY_LEN as int));
        assert(b[i].mint =~= eb.subrange(0, KEY_LEN as int));
        assert(spec_le64(a[i].amount) =~= ea.subrange(KEY_LEN as int, KEY_LEN + 8));
        assert(spec_le64(b[i].amount) =~= eb.subrange(KEY_LEN as int, KEY_LEN + 8));
        lemma_le64_injective(a[i].amount, b[i].amount);
    }
    assert(a =~= b);
}

/// The unique well-formed entry list that `data` encodes; meaningful only
/// when `spec_tracker_decodes(data)` holds.
pub open spec fn spec_tracker_of(data: Seq<u8>) -> Seq<VolumeEntryView> {
    choose|es: Seq<VolumeEntryView>|
        entries_wf(es) && es.len() <= u32::MAX && data == spec_encode_tracker(es)
}

/// Whatever well-formed entry list encodes to `data` is the list `data`
/// names.
pub proof fn lemma_tracker_of(data: Seq<u8>, es: Seq<VolumeEntryView>)
    requires
        entries_wf(es),
        es.len() <= u32::MAX,
        data == spec_encode_tracker(es),
    ensures
        spec_tracker_of(data) == es,
{
    let fs = spec_tracker_of(data);
    assert(entries_wf(fs) && fs.len() <= u32::MAX && data == spec_encode_tracker(fs)) by {
        assert(entries_wf(es) && es.len() <= u32::MAX && data == spec_encode_tracker(es));
    }
    lemma_tracker_encoding_injective(es, fs);
}

/// The tracker after a sequence of recorded orders, one mint and amount per
/// step, in order.
pub open spec fn spec_record_all(
    es: Seq<VolumeEntryView>,
    mints: Seq<Seq<u8>>,
    amounts: Seq<u64>,
) -> Seq<VolumeEntryView>
    decreases mints.len(),
{
    if mints.len() == 0 {
        es
    } else {
        spec_record_all(spec_increment(es, mints[0], amounts[0]), mints.skip(1), amounts.skip(1))
    }
}

/// Resize accounting over a run: after orders on `n` distinct mints none of
/// which the tracker had seen, the tracker holds exactly `n` more entries,
/// so its serialized form is exactly the header plus one entry slot per mint
/// seen.
pub proof fn lemma_distinct_mints_accumulate(
    es: Seq<VolumeEntryView>,
    mints: Seq<Seq<u8>>,
    amounts: Seq<u64>,
)
    requires
        entries_wf(es),
        mints.len() == amounts.len(),
        forall|i: int| 0 <= i < mints.len() ==> (#[trigger] mints[i]).len() == KEY_LEN,
        forall|i: int| 0 <= i < mints.len() ==> spec_find_mint(es, #[trigger] mints[i]) is None,
        forall|i: int, j: int| 0 <= i < j < mints.len() ==> mints[i] != mints[j],
    ensures
        spec_record_all(es, mints, amounts).len() == es.len() + mints.len(),
        entries_wf(spec_record_all(es, mints, amounts)),
        spec_encode_tracker(spec_record_all(es, mints, amounts)).len() == 4 + spec_entry_len() * (
        es.len() + mints.len()),
    decreases mints.len(),
{
    if mints.len() == 0 {
        lemma_encode_entries_len(es);
    } else {
        let stepped = spec_increment(es, mints[0], amounts[0]);
        lemma_find_mint_props(es, mints[0]);
        assert(stepped == es.push(VolumeEntryView { mint: mints[0], amount: amounts[0] }));
        assert(entries_wf(stepped));
        assert forall|i: int| 0 <= i < mints.skip(1).len() implies spec_find_mint(
            stepped,
            #[trigger] mints.skip(1)[i],
        ) is None by {
            assert(mints.skip(1)[i] == mints[i + 1]);
            lemma_find_mint_push(
                es,
                VolumeEntryView { mint: mints[0], amount: amounts[0] },
                mints[i + 1],
            );
        }
        lemma_distinct_mints_accumulate(stepped, mints.skip(1), amounts.skip(1));
    }
}

} // verus!
