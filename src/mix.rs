use vstd::prelude::*;

verus! {

/// Adds `frame` sample-wise into `block` with `sum`: sample `j` of the block becomes
/// `sum(block[j], frame[j])` for every position that both have; the rest of the block
/// is left as it is.
pub fn add_frame_into<S: Copy, F: Fn(S, S) -> S>(block: &mut Vec<S>, frame: &Vec<S>, sum: &F)
    requires
        forall|a: S, b: S| sum.requires((a, b)),
    ensures
        final(block)@.len() == old(block)@.len(),
        forall|j: int|
            0 <= j < old(block)@.len() && j < frame@.len() ==> sum.ensures(
                (old(block)@[j], frame@[j]),
                #[trigger] final(block)@[j],
            ),
        forall|j: int|
            frame@.len() <= j < old(block)@.len() ==> #[trigger] final(block)@[j] == old(block)@[j],
{
    let n = if block.len() < frame.len() {
        block.len()
    } else {
        frame.len()
    };
    let mut j: usize = 0;
    while j < n
        invariant
            n <= old(block)@.len(),
            n <= frame@.len(),
            n == old(block)@.len() || n == frame@.len(),
            j <= n,
            block@.len() == old(block)@.len(),
            forall|a: S, b: S| sum.requires((a, b)),
            forall|i: int| 0 <= i < j ==> sum.ensures((old(block)@[i], frame@[i]), #[trigger] block@[i]),
            forall|i: int| j <= i < old(block)@.len() ==> #[trigger] block@[i] == old(block)@[i],
        decreases n - j,
    {
        let s = sum(block[j], frame[j]);
        block.set(j, s);
        j = j + 1;
    }
}

} // verus!
