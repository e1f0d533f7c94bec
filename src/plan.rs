//! Splitting a file of known size into contiguous byte ranges.
use crate::text::{decimal, push_decimal};
use vstd::prelude::*;

verus! {

/// A contiguous byte range `[offset, offset + length)` of the target file.
#[derive(Clone, Copy, Debug, PartialEq, Eq, Structural)]
pub struct Segment {
    pub offset: u64,
    pub length: u64,
}

impl Segment {
    /// One past the last byte of the segment.
    pub open spec fn end(self) -> nat {
        (self.offset + self.length) as nat
    }

    pub open spec fn contains(self, x: nat) -> bool {
        self.offset <= x < self.end()
    }

    /// The two segments share no byte.
    pub open spec fn disjoint(self, other: Segment) -> bool {
        self.end() <= other.offset || other.end() <= self.offset
    }
}

/// The piece length used for a file of `size` bytes and `parallelism` workers.
pub open spec fn piece_len(size: nat, parallelism: nat) -> nat {
    if size < parallelism {
        size
    } else {
        size / parallelism
    }
}

/// How many segments the planner emits: one per whole piece, the last one
/// taking the remainder.
pub open spec fn segment_count(size: nat, parallelism: nat) -> nat {
    if size == 0 {
        0
    } else {
        size / piece_len(size, parallelism)
    }
}

/// The `i`-th planned segment.
pub open spec fn planned_segment(size: nat, parallelism: nat, i: nat) -> Segment {
    let piece = piece_len(size, parallelism);
    let offset = i * piece;
    let length = if i + 1 == segment_count(size, parallelism) {
        size - offset
    } else {
        piece as int
    };
    Segment { offset: offset as u64, length: length as u64 }
}

/// The planner's output for a file of `size` bytes and `parallelism` workers.
pub open spec fn plan(size: nat, parallelism: nat) -> Seq<Segment> {
    Seq::new(segment_count(size, parallelism), |i: int| planned_segment(size, parallelism, i as nat))
}

/// `segs` tiles `[0, size)`: it starts at 0, each segment begins where the
/// previous one ends, the last one ends at `size`, and none is empty.
pub open spec fn tiles(segs: Seq<Segment>, size: nat) -> bool {
    &&& segs.len() == 0 <==> size == 0
    &&& segs.len() > 0 ==> segs[0].offset == 0 && segs.last().end() == size
    &&& forall|i: int| 0 <= i < segs.len() ==> #[trigger] segs[i].length > 0
    &&& forall|i: int| 0 <= i < segs.len() - 1 ==> #[trigger] segs[i].end() == segs[i + 1].offset
}

proof fn lemma_piece_len(size: nat, parallelism: nat)
    requires
        parallelism >= 1,
        size > 0,
    ensures
        1 <= piece_len(size, parallelism) <= size,
        1 <= segment_count(size, parallelism),
        segment_count(size, parallelism) * piece_len(size, parallelism) <= size,
        size < (segment_count(size, parallelism) + 1) * piece_len(size, parallelism),
{
    let piece = piece_len(size, parallelism);
    if size >= parallelism {
        vstd::arithmetic::div_mod::lemma_div_is_ordered(parallelism as int, size as int, parallelism as int);
        vstd::arithmetic::div_mod::lemma_div_by_self(parallelism as int);
        vstd::arithmetic::div_mod::lemma_div_is_ordered_by_denominator(size as int, 1, parallelism as int);
    }
    let n = size / piece;
    let r = size % piece;
    vstd::arithmetic::div_mod::lemma_fundamental_div_mod(size as int, piece as int);
    assert(n >= 1) by {
        vstd::arithmetic::div_mod::lemma_div_is_ordered(piece as int, size as int, piece as int);
        vstd::arithmetic::div_mod::lemma_div_by_self(piece as int);
    }
    assert(n * piece <= size) by (nonlinear_arith)
        requires size == piece * n + r, r >= 0;
    assert(size < (n + 1) * piece) by (nonlinear_arith)
        requires size == piece * n + r, r < piece;
}

/// Every planned offset `i * piece` leaves room for a whole piece.
proof fn lemma_offset_room(size: nat, parallelism: nat, i: nat)
    requires
        parallelism >= 1,
        size > 0,
        i < segment_count(size, parallelism),
    ensures
        i * piece_len(size, parallelism) + piece_len(size, parallelism) <= size,
        (i + 1) * piece_len(size, parallelism) == i * piece_len(size, parallelism) + piece_len(size, parallelism),
{
    lemma_piece_len(size, parallelism);
    let piece = piece_len(size, parallelism);
    let n = segment_count(size, parallelism);
    assert(i * piece + piece <= n * piece) by (nonlinear_arith)
        requires i + 1 <= n;
    assert((i + 1) * piece == i * piece + piece) by (nonlinear_arith);
}

/// The plan has the shape of a tiling: it starts at 0, each segment begins
/// where the previous one ends, the last ends at `size`, none is empty.
pub proof fn lemma_plan_tiles(size: nat, parallelism: nat)
    requires
        parallelism >= 1,
        size <= u64::MAX,
    ensures
        tiles(plan(size, parallelism), size),
{
    let segs = plan(size, parallelism);
    if size > 0 {
        lemma_piece_len(size, parallelism);
        let piece = piece_len(size, parallelism);
        let n = segment_count(size, parallelism);
        assert forall|i: int| 0 <= i < n implies #[trigger] segs[i].length > 0 by {
            lemma_offset_room(size, parallelism, i as nat);
        }
        assert forall|i: int| 0 <= i < n - 1 implies #[trigger] segs[i].end() == segs[i + 1].offset by {
            lemma_offset_room(size, parallelism, i as nat);
            lemma_offset_room(size, parallelism, (i + 1) as nat);
        }
        assert(segs[0].offset == 0);
        assert(segs.last().end() == size) by {
            lemma_offset_room(size, parallelism, (n - 1) as nat);
        }
    }
}

/// Some segment of `segs` holds byte `x`.
pub open spec fn covers(segs: Seq<Segment>, x: nat) -> bool {
    exists|i: int| 0 <= i < segs.len() && (#[trigger] segs[i]).contains(x)
}

/// The sum of the segments' lengths.
pub open spec fn total_length(segs: Seq<Segment>) -> nat
    decreases segs.len(),
{
    if segs.len() == 0 {
        0
    } else {
        total_length(segs.drop_last()) + segs.last().length as nat
    }
}

proof fn lemma_tiles_order(segs: Seq<Segment>, size: nat, i: int, j: int)
    requires
        tiles(segs, size),
        0 <= i < j < segs.len(),
    ensures
        segs[i].end() <= segs[j].offset,
    decreases j - i,
{
    if j > i + 1 {
        lemma_tiles_order(segs, size, i, j - 1);
        assert(segs[j - 1].end() == segs[j - 1 + 1].offset);
    } else {
        assert(segs[i].end() == segs[i + 1].offset);
    }
}

proof fn lemma_tiles_cover(segs: Seq<Segment>, size: nat, k: int, x: nat)
    requires
        tiles(segs, size),
        0 <= k < segs.len(),
        x < segs[k].end(),
    ensures
        exists|i: int| 0 <= i <= k && (#[trigger] segs[i]).contains(x),
    decreases k,
{
    if x >= segs[k].offset {
        assert(segs[k].contains(x));
    } else {
        assert(segs[k - 1].end() == segs[k - 1 + 1].offset);
        lemma_tiles_cover(segs, size, k - 1, x);
    }
}

proof fn lemma_tiles_total(segs: Seq<Segment>, size: nat, k: int)
    requires
        tiles(segs, size),
        1 <= k <= segs.len(),
    ensures
        total_length(segs.take(k)) == segs[k - 1].end(),
    decreases k,
{
    assert(segs.take(k).drop_last() =~= segs.take(k - 1));
    assert(segs.take(k).last() == segs[k - 1]);
    assert(total_length(segs.take(k)) == total_length(segs.take(k - 1)) + segs[k - 1].length);
    if k > 1 {
        lemma_tiles_total(segs, size, k - 1);
        assert(segs[k - 2].end() == segs[k - 2 + 1].offset);
    } else {
        assert(total_length(segs.take(0)) == 0);
        assert(segs[0].offset == 0);
    }
}

/// The planned segments cover exactly `[0, size)` and no two of them share
/// a byte.
pub proof fn lemma_plan_partition(size: u64, parallelism: u64)
    requires
        parallelism >= 1,
    ensures
        forall|x: nat| x < size <==> #[trigger] covers(plan(size as nat, parallelism as nat), x),
        forall|i: int, j: int|
            0 <= i < plan(size as nat, parallelism as nat).len() && 0 <= j < plan(
                size as nat,
                parallelism as nat,
            ).len() && i != j ==> #[trigger] plan(size as nat, parallelism as nat)[i].disjoint(
                #[trigger] plan(size as nat, parallelism as nat)[j],
            ),
{
    let segs = plan(size as nat, parallelism as nat);
    lemma_plan_tiles(size as nat, parallelism as nat);
    assert forall|x: nat| x < size implies #[trigger] covers(segs, x) by {
        lemma_tiles_cover(segs, size as nat, segs.len() - 1, x);
    }
    assert forall|x: nat| #[trigger] covers(segs, x) implies x < size by {
        let i = choose|i: int| 0 <= i < segs.len() && (#[trigger] segs[i]).contains(x);
        if i < segs.len() - 1 {
            lemma_tiles_order(segs, size as nat, i, segs.len() - 1);
        }
    }
    assert forall|i: int, j: int|
        0 <= i < segs.len() && 0 <= j < segs.len() && i != j implies #[trigger] segs[i].disjoint(
        #[trigger] segs[j],
    ) by {
        if i < j {
            lemma_tiles_order(segs, size as nat, i, j);
        } else {
            lemma_tiles_order(segs, size as nat, j, i);
        }
    }
}

/// The planned offsets strictly increase.
pub proof fn lemma_plan_monotonic(size: u64, parallelism: u64)
    requires
        parallelism >= 1,
    ensures
        forall|i: int, j: int|
            0 <= i < j < plan(size as nat, parallelism as nat).len() ==> (#[trigger] plan(
                size as nat,
                parallelism as nat,
            )[i]).offset < (#[trigger] plan(size as nat, parallelism as nat)[j]).offset,
{
    let segs = plan(size as nat, parallelism as nat);
    lemma_plan_tiles(size as nat, parallelism as nat);
    assert forall|i: int, j: int| 0 <= i < j < segs.len() implies (#[trigger] segs[i]).offset < (
    #[trigger] segs[j]).offset by {
        lemma_tiles_order(segs, size as nat, i, j);
    }
}

/// The plan is empty exactly for an empty file.
pub proof fn lemma_plan_empty(size: u64, parallelism: u64)
    requires
        parallelism >= 1,
    ensures
        plan(size as nat, parallelism as nat).len() == 0 <==> size == 0,
{
    if size > 0 {
        lemma_piece_len(size as nat, parallelism as nat);
    }
}

/// The plan holds at most `parallelism + 1` segments when the remainder
/// `size % parallelism` is below twice the piece length, as it always is for
/// a file smaller than `parallelism`.
pub proof fn lemma_plan_count(size: u64, parallelism: u64)
    requires
        parallelism >= 1,
        size < parallelism || size % parallelism < 2 * (size / parallelism),
    ensures
        plan(size as nat, parallelism as nat).len() <= parallelism + 1,
{
    if size > 0 {
        lemma_piece_len(size as nat, parallelism as nat);
        if size >= parallelism {
            let q = size / parallelism;
            let r = size % parallelism;
            let n = segment_count(size as nat, parallelism as nat);
            vstd::arithmetic::div_mod::lemma_fundamental_div_mod(size as int, parallelism as int);
            assert(n * q <= size);
            assert(size < (parallelism + 2) * q) by (nonlinear_arith)
                requires size == parallelism * q + r, r < 2 * q;
            assert(n < parallelism + 2) by (nonlinear_arith)
                requires n * q <= size, size < (parallelism + 2) * q, q >= 1;
        }
    }
}

/// The planned lengths add up to `size`.
pub proof fn lemma_plan_total(size: u64, parallelism: u64)
    requires
        parallelism >= 1,
    ensures
        total_length(plan(size as nat, parallelism as nat)) == size,
{
    let segs = plan(size as nat, parallelism as nat);
    lemma_plan_tiles(size as nat, parallelism as nat);
    if segs.len() > 0 {
        lemma_tiles_total(segs, size as nat, segs.len() as int);
        assert(segs.take(segs.len() as int) =~= segs);
    }
}

/// The piece length for `size` bytes and `parallelism` workers.
pub fn piece_length(size: u64, parallelism: u64) -> (r: u64)
    requires
        parallelism >= 1,
    ensures
        r == piece_len(size as nat, parallelism as nat),
{
    if size < parallelism {
        size
    } else {
        size / parallelism
    }
}

/// The number of segments planned for `size` bytes and `parallelism` workers.
pub fn count_segments(size: u64, parallelism: u64) -> (r: u64)
    requires
        parallelism >= 1,
    ensures
        r == segment_count(size as nat, parallelism as nat),
{
    if size == 0 {
        0
    } else {
        proof {
            lemma_piece_len(size as nat, parallelism as nat);
        }
        size / piece_length(size, parallelism)
    }
}

/// The `i`-th planned segment, from the piece length and the segment count.
pub fn nth_segment(size: u64, parallelism: u64, piece: u64, count: u64, i: u64) -> (r: Segment)
    requires
        parallelism >= 1,
        piece == piece_len(size as nat, parallelism as nat),
        count == segment_count(size as nat, parallelism as nat),
        i < count,
    ensures
        r == planned_segment(size as nat, parallelism as nat, i as nat),
        r.length > 0,
        r.end() <= size,
{
    proof {
        lemma_piece_len(size as nat, parallelism as nat);
        lemma_offset_room(size as nat, parallelism as nat, i as nat);
    }
    let offset = i * piece;
    let length = if i + 1 == count {
        size - offset
    } else {
        piece
    };
    Segment { offset, length }
}

/// Splits a file of `size` bytes into the segments that `parallelism`
/// workers download: pieces of `size / parallelism` bytes (the whole file
/// when it is smaller than `parallelism`), the last one taking the
/// remainder. An empty file gives no segment.
pub fn plan_segments(size: u64, parallelism: u64) -> (r: Vec<Segment>)
    requires
        parallelism >= 1,
    ensures
        r@ == plan(size as nat, parallelism as nat),
        tiles(r@, size as nat),
{
    proof {
        lemma_plan_tiles(size as nat, parallelism as nat);
    }
    let piece = piece_length(size, parallelism);
    let count = count_segments(size, parallelism);
    let mut segs: Vec<Segment> = Vec::new();
    let mut i: u64 = 0;
    while i < count
        invariant
            parallelism >= 1,
            piece == piece_len(size as nat, parallelism as nat),
            count == segment_count(size as nat, parallelism as nat),
            i <= count,
            segs@ =~= plan(size as nat, parallelism as nat).take(i as int),
        decreases count - i,
    {
        let seg = nth_segment(size, parallelism, piece, count, i);
        segs.push(seg);
        i = i + 1;
    }
    assert(segs@ =~= plan(size as nat, parallelism as nat));
    segs
}

/// The value of the `Range` header that asks for the bytes of `seg`:
/// `bytes=<first>-<last>`, both ends included.
pub open spec fn range_value(seg: Segment) -> Seq<char> {
    "bytes="@ + decimal(seg.offset as nat) + "-"@ + decimal((seg.end() - 1) as nat)
}

/// Builds the `Range` header value for `seg`.
pub fn range_header(seg: Segment) -> (r: String)
    requires
        seg.length > 0,
        seg.end() - 1 <= u64::MAX,
    ensures
        r@ == range_value(seg),
{
    let mut out = String::from_str("bytes=");
    push_decimal(&mut out, seg.offset);
    out.append("-");
    push_decimal(&mut out, seg.offset + (seg.length - 1));
    out
}

/// `floor < n <= ceiling`.
pub fn is_between(n: u64, floor: u64, ceiling: u64) -> (r: bool)
    ensures
        r == (floor < n <= ceiling),
{
    n > floor && n <= ceiling
}

/// The piece length that common torrent practice recommends for a file of
/// `size` bytes: the whole file up to 8 KiB, then from 8 KiB to 2 MiB as the
/// file grows.
pub open spec fn torrent_piece_len(size: u64) -> u64 {
    if size <= 8_192 {
        size
    } else if size <= 131_072 {
        8_192
    } else if size <= 52_428_800 {
        32_768
    } else if size <= 157_286_400 {
        65_536
    } else if size <= 367_001_600 {
        131_072
    } else if size <= 536_870_900 {
        262_144
    } else if size <= 1_073_742_000 {
        524_288
    } else if size <= 2_147_484_000 {
        1_048_576
    } else {
        2_097_152
    }
}

/// Picks the piece length for a file of `file_size` bytes by the torrent
/// table.
pub fn calc_piece_size(file_size: u64) -> (r: u64)
    ensures
        r == torrent_piece_len(file_size),
{
    if file_size <= 8_192 {
        file_size
    } else if is_between(file_size, 8_192, 131_072) {
        8_192
    } else if is_between(file_size, 131_072, 52_428_800) {
        32_768
    } else if is_between(file_size, 52_428_800, 157_286_400) {
        65_536
    } else if is_between(file_size, 157_286_400, 367_001_600) {
        131_072
    } else if is_between(file_size, 367_001_600, 536_870_900) {
        262_144
    } else if is_between(file_size, 536_870_900, 1_073_742_000) {
        524_288
    } else if is_between(file_size, 1_073_742_000, 2_147_484_000) {
        1_048_576
    } else {
        2_097_152
    }
}

/// The offsets `0, piece, 2 * piece, ...` below `size`.
pub fn gen_offsets(file_size: u64, piece_size: u64) -> (r: Vec<u64>)
    requires
        piece_size > 0 || file_size == 0,
    ensures
        forall|i: int| 0 <= i < r@.len() ==> r@[i] == i * piece_size,
        r@.len() == 0 <==> file_size == 0,
        r@.len() > 0 ==> (r@.len() - 1) * piece_size < file_size <= r@.len() * piece_size,
{
    let mut offsets: Vec<u64> = Vec::new();
    if file_size == 0 {
        return offsets;
    }
    let mut offset: u64 = 0;
    assert(offsets@.len() * piece_size == 0) by (nonlinear_arith)
        requires offsets@.len() == 0;
    loop
        invariant
            piece_size > 0,
            offset < file_size,
            offset == offsets@.len() * piece_size,
            forall|i: int| 0 <= i < offsets@.len() ==> offsets@[i] == i * piece_size,
        decreases file_size - offset,
    {
        offsets.push(offset);
        assert((offsets@.len() - 1) * piece_size == offset) by (nonlinear_arith)
            requires offset == (offsets@.len() - 1) * piece_size;
        if file_size - offset <= piece_size {
            assert(offsets@.len() * piece_size == offset + piece_size) by (nonlinear_arith)
                requires offset == (offsets@.len() - 1) * piece_size;
            return offsets;
        }
        assert(offsets@.len() * piece_size == offset + piece_size) by (nonlinear_arith)
            requires offset == (offsets@.len() - 1) * piece_size;
        offset = offset + piece_size;
    }
}

} // verus!
