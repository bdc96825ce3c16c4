use vstd::prelude::*;
use crate::error::Arc2Error;

verus! {

/// Number of analogue channels of the instrument.
pub const NUM_CHANNELS: usize = 64;
/// Channels per high-speed cluster.
pub const CLUSTER_WIDTH: usize = 8;
/// Number of high-speed clusters.
pub const NUM_CLUSTERS: usize = 8;
/// Channels on one side of the 32×32 array.
pub const SLICE_WIDTH: usize = 32;
/// Number of selector lines.
pub const NUM_SELECTORS: usize = 32;
/// Number of digital I/O lines, in four clusters of eight.
pub const NUM_GPIOS: usize = 32;

/// The smallest index below `n` where `p` holds, or `n` when there is none.
pub open spec fn first_index(n: int, p: spec_fn(int) -> bool) -> int
    decreases n,
{
    if n <= 0 {
        0
    } else {
        let k = first_index(n - 1, p);
        if k < n - 1 {
            k
        } else if p(n - 1) {
            n - 1
        } else {
            n
        }
    }
}

/// `first_index` lies in `[0, n]`, nothing before it satisfies `p`, and it
/// satisfies `p` unless it is `n`.
pub proof fn lemma_first_index(n: int, p: spec_fn(int) -> bool)
    requires
        n >= 0,
    ensures
        0 <= first_index(n, p) <= n,
        forall|j: int| 0 <= j < first_index(n, p) ==> !#[trigger] p(j),
        first_index(n, p) < n ==> p(first_index(n, p)),
    decreases n,
{
    if n > 0 {
        lemma_first_index(n - 1, p);
    }
}

/// An index that has the three properties of `first_index` is `first_index`.
pub proof fn lemma_first_index_unique(n: int, p: spec_fn(int) -> bool, i: int)
    requires
        0 <= i <= n,
        forall|j: int| 0 <= j < i ==> !#[trigger] p(j),
        i < n ==> p(i),
    ensures
        first_index(n, p) == i,
{
    lemma_first_index(n, p);
}

/// Low channels 0–15 and 32–47 are rows of the 32×32 array.
pub open spec fn is_row_spec(ch: int) -> bool {
    ch < 16 || (32 <= ch && ch < 48)
}

/// The `i`-th word-line channel in ascending order (16–31, then 48–63).
pub open spec fn word_channel(i: int) -> int {
    if i < 16 { 16 + i } else { 32 + i }
}

/// The `i`-th bit-line channel in ascending order (0–15, then 32–47).
pub open spec fn bit_channel(i: int) -> int {
    if i < 16 { i } else { 16 + i }
}

/// The `i`-th channel crossing the line of low channel `low`: a row is
/// crossed by the word lines, a column by the bit lines.
pub open spec fn slice_channel(low: int, i: int) -> int {
    if is_row_spec(low) { word_channel(i) } else { bit_channel(i) }
}

pub open spec fn in_range(chans: Seq<usize>) -> bool {
    forall|i: int| 0 <= i < chans.len() ==> chans[i] < NUM_CHANNELS
}

/// Whether `ch` addresses a row of the 32×32 array.
pub fn is_row(ch: usize) -> (r: bool)
    ensures
        r == is_row_spec(ch as int),
{
    ch < 16 || (32 <= ch && ch < 48)
}

/// The high-speed cluster a channel belongs to.
pub fn cluster_of(ch: usize) -> (r: usize)
    ensures
        r == ch / CLUSTER_WIDTH,
{
    ch / CLUSTER_WIDTH
}

/// The `i`-th channel crossing a row (`row`) or a column.
pub fn slice_channel_at(row: bool, i: usize) -> (r: usize)
    requires
        i < SLICE_WIDTH,
    ensures
        r == (if row { word_channel(i as int) } else { bit_channel(i as int) }),
{
    if row {
        if i < 16 { 16 + i } else { 32 + i }
    } else {
        if i < 16 { i } else { 16 + i }
    }
}

/// The GPIO cluster a digital I/O line belongs to; clusters share one
/// direction setting.
pub fn gpio_cluster_of(line: usize) -> (r: Result<usize, Arc2Error>)
    ensures
        line < NUM_GPIOS ==> r == Ok::<usize, Arc2Error>(line / CLUSTER_WIDTH),
        line >= NUM_GPIOS ==> r == Err::<usize, Arc2Error>(Arc2Error::InvalidChannel(line)),
{
    if line < NUM_GPIOS {
        Ok(line / CLUSTER_WIDTH)
    } else {
        Err(Arc2Error::InvalidChannel(line))
    }
}

/// The 32 channels crossing the line of `low`, in ascending order.
pub fn slice_channels(low: usize) -> (r: Vec<usize>)
    ensures
        r@.len() == SLICE_WIDTH,
        forall|i: int| 0 <= i < SLICE_WIDTH ==> r@[i] == slice_channel(low as int, i),
{
    let row = is_row(low);
    let mut r: Vec<usize> = Vec::new();
    let mut i: usize = 0;
    while i < SLICE_WIDTH
        invariant
            i <= SLICE_WIDTH,
            row == is_row_spec(low as int),
            r@.len() == i,
            forall|j: int| 0 <= j < i ==> r@[j] == slice_channel(low as int, j),
        decreases SLICE_WIDTH - i,
    {
        r.push(slice_channel_at(row, i));
        i = i + 1;
    }
    r
}

pub open spec fn all_below(s: Seq<usize>, limit: usize) -> bool {
    forall|i: int| 0 <= i < s.len() ==> s[i] < limit
}

/// Index of the first entry of `s` that is not below `limit`.
pub open spec fn first_not_below(s: Seq<usize>, limit: usize) -> int {
    first_index(s.len() as int, |i: int| s[i] >= limit)
}

/// Accepts indices below `limit`; otherwise names the first one that is not.
pub open spec fn index_verdict(s: Seq<usize>, limit: usize) -> Result<(), Arc2Error> {
    if all_below(s, limit) {
        Ok(())
    } else {
        Err(Arc2Error::InvalidChannel(s[first_not_below(s, limit)]))
    }
}

/// Accepts channels the instrument has; otherwise names the first one it
/// does not have.
pub open spec fn channel_verdict(s: Seq<usize>) -> Result<(), Arc2Error> {
    index_verdict(s, NUM_CHANNELS)
}

/// Checks that every index of `s` is below `limit`.
pub fn check_below(s: &[usize], limit: usize) -> (r: Result<(), Arc2Error>)
    ensures
        r == index_verdict(s@, limit),
{
    let mut i: usize = 0;
    while i < s.len()
        invariant
            i <= s@.len(),
            forall|j: int| 0 <= j < i ==> s@[j] < limit,
        decreases s@.len() - i,
    {
        if s[i] >= limit {
            proof {
                lemma_first_index_unique(s@.len() as int, |k: int| s@[k] >= limit, i as int);
            }
            return Err(Arc2Error::InvalidChannel(s[i]));
        }
        i = i + 1;
    }
    Ok(())
}

/// Checks that every channel of `chans` exists; otherwise names the first
/// one that does not.
pub fn check_channels(chans: &[usize]) -> (r: Result<(), Arc2Error>)
    ensures
        r == channel_verdict(chans@),
        r is Ok <==> in_range(chans@),
{
    check_below(chans, NUM_CHANNELS)
}

} // verus!
