//! Positioned writes of the pieces into the target file, as a model.
//!
//! Pieces finish in any order, each writing its bytes at its own offset into
//! a file that was created empty. Because the planned segments tile the file,
//! the result is the remote body byte for byte, whatever the order.
use crate::plan::{covers, lemma_plan_partition, lemma_plan_tiles, lemma_plan_total, plan, Segment};
use vstd::prelude::*;

verus! {

/// The file after writing `data` at `offset`: bytes past the old end and
/// before `offset` read as zero, as a positioned write leaves them.
pub open spec fn write_at(file: Seq<u8>, offset: nat, data: Seq<u8>) -> Seq<u8> {
    let len = if file.len() >= offset + data.len() {
        file.len()
    } else {
        offset + data.len()
    };
    Seq::new(
        len,
        |i: int|
            if offset <= i < offset + data.len() {
                data[i - offset]
            } else if i < file.len() {
                file[i]
            } else {
                0u8
            },
    )
}

/// Piece `k` is in `order`.
pub open spec fn appears(order: Seq<int>, k: int) -> bool {
    exists|j: int| 0 <= j < order.len() && #[trigger] order[j] == k
}

/// The file after the pieces `order[0]`, `order[1]`, ... of `segs` wrote
/// their part of `body`, in that order.
pub open spec fn write_pieces(file: Seq<u8>, body: Seq<u8>, segs: Seq<Segment>, order: Seq<int>) -> Seq<u8>
    decreases order.len(),
{
    if order.len() == 0 {
        file
    } else {
        let seg = segs[order.last()];
        write_at(
            write_pieces(file, body, segs, order.drop_last()),
            seg.offset as nat,
            body.subrange(seg.offset as int, seg.end() as int),
        )
    }
}

proof fn lemma_write_prefix(body: Seq<u8>, segs: Seq<Segment>, order: Seq<int>)
    requires
        forall|j: int| 0 <= j < order.len() ==> 0 <= #[trigger] order[j] < segs.len(),
        forall|k: int| 0 <= k < segs.len() ==> (#[trigger] segs[k]).end() <= body.len(),
    ensures
        write_pieces(Seq::empty(), body, segs, order).len() <= body.len(),
        forall|j: int|
            0 <= j < order.len() ==> (#[trigger] segs[order[j]]).end() <= write_pieces(
                Seq::empty(),
                body,
                segs,
                order,
            ).len(),
        forall|j: int, i: nat|
            0 <= j < order.len() && (#[trigger] segs[order[j]]).contains(i) ==> #[trigger] write_pieces(
                Seq::empty(),
                body,
                segs,
                order,
            )[i as int] == body[i as int],
    decreases order.len(),
{
    if order.len() > 0 {
        let prev = order.drop_last();
        lemma_write_prefix(body, segs, prev);
        let f = write_pieces(Seq::empty(), body, segs, prev);
        let g = write_pieces(Seq::empty(), body, segs, order);
        let seg = segs[order.last()];
        assert forall|j: int| 0 <= j < order.len() implies (#[trigger] segs[order[j]]).end() <= g.len() by {
            if j < order.len() - 1 {
                assert(prev[j] == order[j]);
            }
        }
        assert forall|j: int, i: nat|
            0 <= j < order.len() && (#[trigger] segs[order[j]]).contains(i) implies #[trigger] g[i as int]
            == body[i as int] by {
            if !seg.contains(i) {
                assert(prev[j] == order[j]);
                assert(segs[prev[j]].contains(i));
                assert(f[i as int] == body[i as int]);
            }
        }
    }
}

/// Writing every planned segment's part of a body of `size` bytes into a
/// new, empty file, with the pieces finishing in any order (each at least
/// once), leaves a file of exactly `size` bytes equal to the body.
pub proof fn lemma_scatter_rebuilds_body(
    body: Seq<u8>,
    size: u64,
    parallelism: u64,
    order: Seq<int>,
)
    requires
        parallelism >= 1,
        body.len() == size,
        forall|j: int| 0 <= j < order.len() ==> 0 <= #[trigger] order[j] < plan(
            size as nat,
            parallelism as nat,
        ).len(),
        forall|k: int|
            0 <= k < plan(size as nat, parallelism as nat).len() ==> #[trigger] appears(order, k),
    ensures
        write_pieces(Seq::empty(), body, plan(size as nat, parallelism as nat), order) == body,
{
    let segs = plan(size as nat, parallelism as nat);
    lemma_plan_partition(size, parallelism);
    lemma_plan_total(size, parallelism);
    lemma_plan_tiles(size as nat, parallelism as nat);
    assert forall|k: int| 0 <= k < segs.len() implies (#[trigger] segs[k]).end() <= body.len() by {
        assert(segs[k].length > 0);
        assert(segs[k].contains((segs[k].end() - 1) as nat));
        assert(covers(segs, (segs[k].end() - 1) as nat));
    }
    lemma_write_prefix(body, segs, order);
    let f = write_pieces(Seq::empty(), body, segs, order);
    if size > 0 {
        assert(covers(segs, (size - 1) as nat));
        let k = choose|k: int| 0 <= k < segs.len() && (#[trigger] segs[k]).contains((size - 1) as nat);
        assert(appears(order, k));
        let j = choose|j: int| 0 <= j < order.len() && #[trigger] order[j] == k;
        assert(segs[order[j]].end() <= f.len());
    }
    assert forall|i: int| 0 <= i < body.len() implies #[trigger] f[i] == body[i] by {
        let x = i as nat;
        assert(covers(segs, x));
        let k = choose|k: int| 0 <= k < segs.len() && (#[trigger] segs[k]).contains(x);
        assert(appears(order, k));
        let j = choose|j: int| 0 <= j < order.len() && #[trigger] order[j] == k;
        assert(segs[order[j]].contains(x));
        assert(f[x as int] == body[x as int]);
    }
    assert(f =~= body);
}

} // verus!
