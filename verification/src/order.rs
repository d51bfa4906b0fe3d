//! Decoder for the recency order list (`MRUListEx`): a blob of 4-byte
//! little-endian unsigned integers in which the all-ones value is a
//! sentinel that carries no rank and must never reach the output.

use vstd::prelude::*;

use crate::error::DecodeError;

verus! {

/// The all-ones 32-bit value: padding at the end of an order list,
/// never a valid rank entry.
pub const ORDER_SENTINEL: u32 = 0xFFFF_FFFF;

/// The 4-byte little-endian group of `b` starting at byte `4 * i`.
pub open spec fn group_at(b: Seq<u8>, i: int) -> u32 {
    (b[4 * i] + b[4 * i + 1] * 0x100 + b[4 * i + 2] * 0x1_0000 + b[4 * i + 3] * 0x100_0000) as u32
}

/// All 4-byte little-endian groups of `b`, in decode order.
pub open spec fn groups(b: Seq<u8>) -> Seq<u32> {
    Seq::new((b.len() / 4) as nat, |i: int| group_at(b, i))
}

/// Whether a decoded group survives into the order list.
pub open spec fn keeps_rank(x: u32) -> bool {
    x != ORDER_SENTINEL
}

/// The surviving groups of `s`, in order.
pub open spec fn rank_filter(s: Seq<u32>) -> Seq<u32> {
    s.filter(|x: u32| keeps_rank(x))
}

/// The decoded order list of a well-formed blob: every 4-byte group in
/// decode order, with the sentinel groups dropped.
pub open spec fn order_spec(b: Seq<u8>) -> Seq<u32> {
    rank_filter(groups(b))
}

/// Decodes a recency order list. The blob must be a whole number of
/// 4-byte groups; each group is read as a little-endian `u32` and kept,
/// in decode order, unless it is the sentinel. Position 0 of the result
/// is the most recently used entry.
pub fn decode_order(raw: &Vec<u8>) -> (r: Result<Vec<u32>, DecodeError>)
    ensures
        r is Ok <==> raw@.len() % 4 == 0,
        r matches Ok(v) ==> v@ == order_spec(raw@),
        r is Err ==> r == Err::<Vec<u32>, DecodeError>(DecodeError::MalformedOrderList),
{
    if raw.len() % 4 != 0 {
        return Err(DecodeError::MalformedOrderList);
    }
    let n = raw.len() / 4;
    let mut out: Vec<u32> = Vec::new();
    let mut i: usize = 0;
    while i < n
        invariant
            4 * (n as int) == raw@.len(),
            raw@.len() <= usize::MAX,
            i <= n,
            out@ == rank_filter(groups(raw@).take(i as int)),
        decreases n - i,
    {
        let b0 = raw[4 * i] as u32;
        let b1 = raw[4 * i + 1] as u32;
        let b2 = raw[4 * i + 2] as u32;
        let b3 = raw[4 * i + 3] as u32;
        let g = b0 + b1 * 0x100 + b2 * 0x1_0000 + b3 * 0x100_0000;
        if g != ORDER_SENTINEL {
            out.push(g);
        }
        proof {
            let gs = groups(raw@);
            let t1 = gs.take(i as int + 1);
            assert(t1.drop_last() =~= gs.take(i as int));
            assert(t1.last() == group_at(raw@, i as int));
            assert(g == group_at(raw@, i as int));
            reveal_with_fuel(Seq::<_>::filter, 2);
            if keeps_rank(g) {
                assert(rank_filter(t1) == rank_filter(gs.take(i as int)).push(g));
            } else {
                assert(rank_filter(t1) == rank_filter(gs.take(i as int)));
            }
        }
        i = i + 1;
    }
    proof {
        assert(groups(raw@).take(n as int) =~= groups(raw@));
    }
    Ok(out)
}

/// The sentinel never appears in a decoded order list, whatever the blob
/// held: every element of the output is a surviving rank entry.
pub proof fn lemma_order_excludes_sentinel(b: Seq<u8>, i: int)
    requires
        0 <= i < order_spec(b).len(),
    ensures
        order_spec(b)[i] != ORDER_SENTINEL,
{
    groups(b).lemma_filter_pred(|x: u32| keeps_rank(x), i);
}

/// Decoding preserves order: a surviving group lands in the output at
/// the position given by the number of surviving groups before it, so
/// the Nth surviving 4-byte group decodes to the Nth element.
pub proof fn lemma_order_preserving(b: Seq<u8>, i: int)
    requires
        0 <= i < groups(b).len(),
        keeps_rank(groups(b)[i]),
    ensures
        rank_filter(groups(b).take(i)).len() < order_spec(b).len(),
        order_spec(b)[rank_filter(groups(b).take(i)).len() as int] == groups(b)[i],
{
    let g = groups(b);
    let pred = |x: u32| keeps_rank(x);
    assert(g =~= g.take(i) + g.skip(i));
    Seq::filter_distributes_over_add(g.take(i), g.skip(i), pred);
    assert(g.skip(i) =~= seq![g[i]] + g.skip(i + 1));
    Seq::filter_distributes_over_add(seq![g[i]], g.skip(i + 1), pred);
    assert(seq![g[i]].filter(pred) =~= seq![g[i]]) by {
        reveal_with_fuel(Seq::<_>::filter, 3);
        assert(seq![g[i]].drop_last() =~= Seq::<u32>::empty());
    }
    assert(order_spec(b) == g.take(i).filter(pred) + (seq![g[i]] + g.skip(i + 1).filter(pred)));
}

} // verus!
