use vstd::prelude::*;
use crate::channels::{bit_channel, in_range, is_row, slice_channel, slice_channel_at, word_channel, NUM_CHANNELS, SLICE_WIDTH};
use crate::directives::DataMode;
use crate::error::Arc2Error;

verus! {

/// Bytes of one result slab (64 samples of 32 bits).
pub const SLAB_BYTES: u64 = 256;
/// Bytes of result memory.
pub const RESULT_MEMORY_BYTES: u64 = 1_073_741_824;
/// Number of result slabs.
pub const RESULT_SLABS: u64 = 4_194_304;

/// Entry `i` of a masked slice: the value read on the `i`-th channel
/// crossing `low` when the mask selects that channel, nothing otherwise.
pub open spec fn masked_entry<T>(values: Seq<T>, low: int, mask: Seq<usize>, i: int) -> Option<T> {
    if mask.contains(slice_channel(low, i) as usize) {
        Some(values[i])
    } else {
        None
    }
}

/// Keeps the values of a full slice read at the channels the mask selects.
/// The result has one entry per channel crossing `low`, in ascending
/// channel order, so positions keep their meaning.
pub fn mask_slice<T: Copy>(values: &Vec<T>, low: usize, mask: &[usize]) -> (r: Vec<Option<T>>)
    requires
        values@.len() == SLICE_WIDTH,
    ensures
        r@.len() == SLICE_WIDTH,
        forall|i: int| 0 <= i < SLICE_WIDTH ==> r@[i] == masked_entry(values@, low as int, mask@, i),
{
    let row = is_row(low);
    let mut r: Vec<Option<T>> = Vec::new();
    let mut i: usize = 0;
    while i < SLICE_WIDTH
        invariant
            i <= SLICE_WIDTH,
            values@.len() == SLICE_WIDTH,
            row == crate::channels::is_row_spec(low as int),
            r@.len() == i,
            forall|j: int| 0 <= j < i ==> r@[j] == masked_entry(values@, low as int, mask@, j),
        decreases SLICE_WIDTH - i,
    {
        let ch = slice_channel_at(row, i);
        let mut k: usize = 0;
        let mut found = false;
        while k < mask.len()
            invariant
                k <= mask@.len(),
                found == (exists|m: int| 0 <= m < k && mask@[m] == ch),
            decreases mask@.len() - k,
        {
            if mask[k] == ch {
                found = true;
            }
            k = k + 1;
        }
        proof {
            if found {
                let m = choose|m: int| 0 <= m < k && mask@[m] == ch;
                assert(mask@.contains(ch));
            } else {
                assert(!mask@.contains(ch));
            }
        }
        if found {
            r.push(Some(values[i]));
        } else {
            r.push(None);
        }
        i = i + 1;
    }
    r
}

/// The samples of `frame` at the given channels, in the order given.
pub fn pick_channels<T: Copy>(frame: &Vec<T>, chans: &[usize]) -> (r: Vec<T>)
    requires
        frame@.len() == NUM_CHANNELS,
        in_range(chans@),
    ensures
        r@.len() == chans@.len(),
        forall|i: int| 0 <= i < chans@.len() ==> r@[i] == frame@[chans@[i] as int],
{
    let mut r: Vec<T> = Vec::new();
    let mut i: usize = 0;
    while i < chans.len()
        invariant
            i <= chans@.len(),
            frame@.len() == NUM_CHANNELS,
            in_range(chans@),
            r@.len() == i,
            forall|j: int| 0 <= j < i ==> r@[j] == frame@[chans@[j] as int],
        decreases chans@.len() - i,
    {
        r.push(frame[chans[i]]);
        i = i + 1;
    }
    r
}

/// The channel whose sample stands at position `i` of a frame returned in
/// mode `mode`.
pub open spec fn frame_channel(mode: DataMode, i: int) -> int {
    match mode {
        DataMode::Words => word_channel(i),
        DataMode::Bits => bit_channel(i),
        DataMode::All => i,
    }
}

/// Number of samples a frame returned in mode `mode` holds.
pub open spec fn frame_width(mode: DataMode) -> int {
    match mode {
        DataMode::All => NUM_CHANNELS as int,
        _ => SLICE_WIDTH as int,
    }
}

/// Restricts a full frame (one sample per channel) to the word lines, the
/// bit lines, or keeps it whole, in ascending channel order.
pub fn select_frame<T: Copy>(frame: &Vec<T>, mode: DataMode) -> (r: Vec<T>)
    requires
        frame@.len() == NUM_CHANNELS,
    ensures
        r@.len() == frame_width(mode),
        forall|i: int| 0 <= i < frame_width(mode) ==> r@[i] == frame@[frame_channel(mode, i)],
{
    let width: usize = match mode {
        DataMode::All => NUM_CHANNELS,
        _ => SLICE_WIDTH,
    };
    let mut r: Vec<T> = Vec::new();
    let mut i: usize = 0;
    while i < width
        invariant
            width == frame_width(mode),
            frame@.len() == NUM_CHANNELS,
            i <= width,
            r@.len() == i,
            forall|j: int| 0 <= j < i ==> r@[j] == frame@[frame_channel(mode, j)],
        decreases width - i,
    {
        let ch: usize = match mode {
            DataMode::Words => slice_channel_at(true, i),
            DataMode::Bits => slice_channel_at(false, i),
            DataMode::All => i,
        };
        r.push(frame[ch]);
        i = i + 1;
    }
    r
}

/// How many times `c` occurs in `s`.
pub open spec fn occurrences(s: Seq<usize>, c: usize) -> nat
    decreases s.len(),
{
    if s.len() == 0 {
        0
    } else {
        occurrences(s.drop_last(), c) + if s.last() == c { 1nat } else { 0nat }
    }
}

/// The channels of `s` below `k`, in ascending order, each as often as it
/// occurs in `s`.
pub open spec fn ascending_below(s: Seq<usize>, k: int) -> Seq<usize>
    decreases k,
{
    if k <= 0 {
        Seq::empty()
    } else {
        ascending_below(s, k - 1) + Seq::new(occurrences(s, (k - 1) as usize), |_i: int| (k - 1) as usize)
    }
}

/// The channels of `s` in ascending order, duplicates kept.
pub open spec fn ascending(s: Seq<usize>) -> Seq<usize> {
    ascending_below(s, NUM_CHANNELS as int)
}

proof fn lemma_occurrences_push(s: Seq<usize>, x: usize, c: usize)
    ensures
        occurrences(s.push(x), c) == occurrences(s, c) + if x == c { 1nat } else { 0nat },
{
    assert(s.push(x).drop_last() =~= s);
}

/// Every entry of `ascending_below(s, k)` is below `k`, and the sequence is
/// sorted.
proof fn lemma_ascending_below_sorted(s: Seq<usize>, k: int)
    requires
        0 <= k <= NUM_CHANNELS,
    ensures
        forall|i: int| 0 <= i < ascending_below(s, k).len() ==> #[trigger] ascending_below(s, k)[i] < k,
        forall|i: int, j: int|
            0 <= i <= j < ascending_below(s, k).len() ==> ascending_below(s, k)[i]
                <= ascending_below(s, k)[j],
    decreases k,
{
    if k > 0 {
        lemma_ascending_below_sorted(s, k - 1);
        let a = ascending_below(s, k - 1);
        let b = Seq::new(occurrences(s, (k - 1) as usize), |_i: int| (k - 1) as usize);
        assert(ascending_below(s, k) == a + b);
        assert forall|i: int| 0 <= i < (a + b).len() implies #[trigger] (a + b)[i] < k by {
            if i < a.len() {
                assert((a + b)[i] == a[i]);
            } else {
                assert((a + b)[i] == b[i - a.len()]);
            }
        }
        assert forall|i: int, j: int| 0 <= i <= j < (a + b).len() implies (a + b)[i] <= (a + b)[j] by {
            if j < a.len() {
                assert((a + b)[i] == a[i]);
                assert((a + b)[j] == a[j]);
            } else if i < a.len() {
                assert((a + b)[i] == a[i]);
                assert(a[i] < k - 1);
                assert((a + b)[j] == b[j - a.len()]);
            } else {
                assert((a + b)[i] == b[i - a.len()]);
                assert((a + b)[j] == b[j - a.len()]);
            }
        }
    }
}

/// The result of `ascending` is sorted.
pub proof fn lemma_ascending_sorted(s: Seq<usize>)
    ensures
        forall|i: int, j: int|
            0 <= i <= j < ascending(s).len() ==> ascending(s)[i] <= ascending(s)[j],
{
    lemma_ascending_below_sorted(s, NUM_CHANNELS as int);
}

proof fn lemma_occurrences_concat(a: Seq<usize>, b: Seq<usize>, c: usize)
    ensures
        occurrences(a + b, c) == occurrences(a, c) + occurrences(b, c),
    decreases b.len(),
{
    if b.len() == 0 {
        assert(a + b =~= a);
    } else {
        assert((a + b).drop_last() =~= a + b.drop_last());
        lemma_occurrences_concat(a, b.drop_last(), c);
    }
}

proof fn lemma_occurrences_repeat(n: nat, k: usize, c: usize)
    ensures
        occurrences(Seq::new(n, |_i: int| k), c) == if c == k { n } else { 0 },
    decreases n,
{
    if n > 0 {
        assert(Seq::new(n, |_i: int| k).drop_last() =~= Seq::new((n - 1) as nat, |_i: int| k));
        lemma_occurrences_repeat((n - 1) as nat, k, c);
    }
}

/// How many entries of `s` are below `k`.
pub open spec fn count_below(s: Seq<usize>, k: int) -> nat
    decreases s.len(),
{
    if s.len() == 0 {
        0
    } else {
        count_below(s.drop_last(), k) + if (s.last() as int) < k { 1nat } else { 0nat }
    }
}

proof fn lemma_count_below_step(s: Seq<usize>, k: int)
    requires
        1 <= k <= NUM_CHANNELS,
    ensures
        count_below(s, k) == count_below(s, k - 1) + occurrences(s, (k - 1) as usize),
    decreases s.len(),
{
    if s.len() > 0 {
        lemma_count_below_step(s.drop_last(), k);
    }
}

proof fn lemma_count_below_all(s: Seq<usize>)
    requires
        in_range(s),
    ensures
        count_below(s, NUM_CHANNELS as int) == s.len(),
    decreases s.len(),
{
    if s.len() > 0 {
        lemma_count_below_all(s.drop_last());
    }
}

proof fn lemma_ascending_below_counts(s: Seq<usize>, k: int)
    requires
        0 <= k <= NUM_CHANNELS,
    ensures
        ascending_below(s, k).len() == count_below(s, k),
        forall|c: usize|
            #[trigger] occurrences(ascending_below(s, k), c) == if (c as int) < k {
                occurrences(s, c)
            } else {
                0
            },
    decreases k,
{
    if k == 0 {
        assert forall|c: usize| #[trigger] occurrences(ascending_below(s, k), c) == 0 by {
            assert(ascending_below(s, k).len() == 0);
        }
        lemma_count_below_zero(s);
    } else {
        lemma_ascending_below_counts(s, k - 1);
        lemma_count_below_step(s, k);
        let b = Seq::new(occurrences(s, (k - 1) as usize), |_i: int| (k - 1) as usize);
        assert forall|c: usize| #[trigger] occurrences(ascending_below(s, k), c) == if (c as int)
            < k {
            occurrences(s, c)
        } else {
            0
        } by {
            lemma_occurrences_concat(ascending_below(s, k - 1), b, c);
            lemma_occurrences_repeat(occurrences(s, (k - 1) as usize), (k - 1) as usize, c);
        }
    }
}

proof fn lemma_count_below_zero(s: Seq<usize>)
    ensures
        count_below(s, 0) == 0,
    decreases s.len(),
{
    if s.len() > 0 {
        lemma_count_below_zero(s.drop_last());
    }
}

/// The ascending order of existing channels is a rearrangement of them: it
/// has as many entries, and names each channel as often.
pub proof fn lemma_ascending_permutation(s: Seq<usize>)
    requires
        in_range(s),
    ensures
        ascending(s).len() == s.len(),
        forall|c: usize| #[trigger] occurrences(ascending(s), c) == occurrences(s, c),
{
    lemma_ascending_below_counts(s, NUM_CHANNELS as int);
    lemma_count_below_all(s);
    assert forall|c: usize| #[trigger] occurrences(ascending(s), c) == occurrences(s, c) by {
        if c >= NUM_CHANNELS {
            lemma_no_occurrences_above(s, c);
        }
    }
}

proof fn lemma_no_occurrences_above(s: Seq<usize>, c: usize)
    requires
        in_range(s),
        c >= NUM_CHANNELS,
    ensures
        occurrences(s, c) == 0,
    decreases s.len(),
{
    if s.len() > 0 {
        lemma_no_occurrences_above(s.drop_last(), c);
    }
}

/// Orders channels ascending, keeping duplicates.
pub fn ascending_channels(chans: &[usize]) -> (r: Vec<usize>)
    requires
        in_range(chans@),
    ensures
        r@ == ascending(chans@),
{
    let mut r: Vec<usize> = Vec::new();
    let mut c: usize = 0;
    while c < NUM_CHANNELS
        invariant
            c <= NUM_CHANNELS,
            r@ == ascending_below(chans@, c as int),
        decreases NUM_CHANNELS - c,
    {
        let ghost base = r@;
        let mut i: usize = 0;
        while i < chans.len()
            invariant
                c < NUM_CHANNELS,
                i <= chans@.len(),
                base == ascending_below(chans@, c as int),
                r@ == base + Seq::new(occurrences(chans@.take(i as int), c), |_j: int| c),
            decreases chans@.len() - i,
        {
            proof {
                assert(chans@.take(i as int + 1) =~= chans@.take(i as int).push(chans@[i as int]));
                lemma_occurrences_push(chans@.take(i as int), chans@[i as int], c);
            }
            if chans[i] == c {
                r.push(c);
                assert(r@ =~= base + Seq::new(
                    occurrences(chans@.take(i as int + 1), c),
                    |_j: int| c,
                ));
            } else {
                assert(Seq::new(occurrences(chans@.take(i as int + 1), c), |_j: int| c) =~= Seq::new(
                    occurrences(chans@.take(i as int), c),
                    |_j: int| c,
                ));
            }
            i = i + 1;
        }
        proof {
            assert(chans@.take(chans@.len() as int) =~= chans@);
            assert(r@ =~= ascending_below(chans@, c as int + 1));
        }
        c = c + 1;
    }
    r
}

/// A result-memory address is well formed when it starts a slab inside
/// result memory.
pub open spec fn slab_address_valid(addr: u64) -> bool {
    addr % SLAB_BYTES == 0 && addr < RESULT_MEMORY_BYTES
}

/// Checks a result-memory address before its slab is read.
pub fn check_slab_address(addr: u64) -> (r: Result<(), Arc2Error>)
    ensures
        r is Ok <==> slab_address_valid(addr),
        r is Err ==> r == Err::<(), Arc2Error>(Arc2Error::MemoryAccessFailure(addr)),
{
    if addr % SLAB_BYTES == 0 && addr < RESULT_MEMORY_BYTES {
        Ok(())
    } else {
        Err(Arc2Error::MemoryAccessFailure(addr))
    }
}

/// Whether `ch` crosses the line of low channel `low`.
pub open spec fn crosses(low: int, ch: int) -> bool {
    if crate::channels::is_row_spec(low) {
        (16 <= ch < 32) || (48 <= ch < 64)
    } else {
        (0 <= ch < 16) || (32 <= ch < 48)
    }
}

/// A masked slice keeps positional correspondence with the full slice: it
/// has one entry per channel of the line, an entry holds a value exactly
/// when its channel is in the mask, that value is the full read's, and when
/// the mask lies within the line every masked channel has its entry.
pub proof fn lemma_mask_round_trip<T>(values: Seq<T>, low: usize, mask: Seq<usize>)
    requires
        values.len() == SLICE_WIDTH,
    ensures
        forall|i: int|
            0 <= i < SLICE_WIDTH ==> ((#[trigger] masked_entry(values, low as int, mask, i)) is Some
                <==> mask.contains(slice_channel(low as int, i) as usize)),
        forall|i: int|
            0 <= i < SLICE_WIDTH && (#[trigger] masked_entry(values, low as int, mask, i)) is Some
                ==> masked_entry(values, low as int, mask, i)->Some_0 == values[i],
        (forall|k: int| 0 <= k < mask.len() ==> crosses(low as int, #[trigger] mask[k] as int))
            ==> forall|k: int|
            0 <= k < mask.len() ==> exists|i: int|
                0 <= i < SLICE_WIDTH && slice_channel(low as int, i) == #[trigger] mask[k] as int
                    && masked_entry(values, low as int, mask, i) == Some(values[i]),
{
    if forall|k: int| 0 <= k < mask.len() ==> crosses(low as int, #[trigger] mask[k] as int) {
        assert forall|k: int| 0 <= k < mask.len() implies exists|i: int|
            0 <= i < SLICE_WIDTH && slice_channel(low as int, i) == #[trigger] mask[k] as int
                && masked_entry(values, low as int, mask, i) == Some(values[i]) by {
            let ch = mask[k] as int;
            assert(crosses(low as int, ch));
            let i = if ch < 16 || (32 <= ch && ch < 48) {
                if ch < 16 { ch } else { ch - 16 }
            } else {
                if ch < 32 { ch - 16 } else { ch - 32 }
            };
            assert(slice_channel(low as int, i) == ch);
            assert(mask.contains(slice_channel(low as int, i) as usize));
        }
    }
}

proof fn lemma_ascending_below_depends_on_counts(s1: Seq<usize>, s2: Seq<usize>, k: int)
    requires
        0 <= k <= NUM_CHANNELS,
        forall|c: usize| c < NUM_CHANNELS ==> occurrences(s1, c) == occurrences(s2, c),
    ensures
        ascending_below(s1, k) == ascending_below(s2, k),
    decreases k,
{
    if k > 0 {
        lemma_ascending_below_depends_on_counts(s1, s2, k - 1);
        assert(occurrences(s1, (k - 1) as usize) == occurrences(s2, (k - 1) as usize));
    }
}

/// The ascending order of channels is sorted and depends only on how often
/// each channel is named, not on the order in which they are named.
pub proof fn lemma_ascending_order_independent(s1: Seq<usize>, s2: Seq<usize>)
    requires
        forall|c: usize| c < NUM_CHANNELS ==> occurrences(s1, c) == occurrences(s2, c),
    ensures
        ascending(s1) == ascending(s2),
        forall|i: int, j: int|
            0 <= i <= j < ascending(s1).len() ==> ascending(s1)[i] <= ascending(s1)[j],
{
    lemma_ascending_below_depends_on_counts(s1, s2, NUM_CHANNELS as int);
    lemma_ascending_sorted(s1);
}

} // verus!
