use vstd::prelude::*;

verus! {

/// Number of frames of length `f` needed to hold `len` samples: `ceil(len / f)`.
pub open spec fn frame_count(len: nat, f: nat) -> nat
    recommends
        f > 0,
{
    if len % f == 0 {
        len / f
    } else {
        len / f + 1
    }
}

/// Frame `i` of `data` cut into frames of length `f`, where the samples past the end
/// of `data` are `zero`.
pub open spec fn padded_frame<S>(data: Seq<S>, f: nat, i: int, zero: S) -> Seq<S> {
    Seq::new(f, |j: int| if i * f + j < data.len() { data[i * f + j] } else { zero })
}

/// The frames of `data`, each of length `f`, the last one padded with `zero`.
pub open spec fn chunked<S>(data: Seq<S>, f: nat, zero: S) -> Seq<Seq<S>> {
    Seq::new(frame_count(data.len(), f), |i: int| padded_frame(data, f, i, zero))
}

/// The samples of a sequence of frames, laid end to end.
pub open spec fn concat_frames<S>(frames: Seq<Seq<S>>) -> Seq<S>
    decreases frames.len(),
{
    if frames.len() == 0 {
        Seq::empty()
    } else {
        concat_frames(frames.drop_last()) + frames.last()
    }
}

/// The views of a sequence of frames.
pub open spec fn frames_view<S>(frames: Seq<Vec<S>>) -> Seq<Seq<S>> {
    frames.map_values(|v: Vec<S>| v@)
}

proof fn lemma_frame_count_bounds(len: nat, f: nat)
    requires
        f > 0,
    ensures
        frame_count(len, f) * f >= len,
        len > 0 ==> (frame_count(len, f) - 1) * f < len,
        len == 0 ==> frame_count(len, f) == 0,
{
    let n = frame_count(len, f);
    if len == 0 {
        vstd::arithmetic::div_mod::lemma_small_mod(0, f);
        vstd::arithmetic::div_mod::lemma_basic_div(0, f as int);
    }
    vstd::arithmetic::div_mod::lemma_fundamental_div_mod(len as int, f as int);
    if len % f == 0 {
        assert(n * f == len) by (nonlinear_arith)
            requires
                n == len / f,
                len == f * (len / f) + len % f,
                len % f == 0,
        ;
        if len > 0 {
            assert((n - 1) * f < len) by (nonlinear_arith)
                requires
                    n * f == len,
                    f > 0,
            ;
        }
    } else {
        assert(n * f >= len && (n - 1) * f < len) by (nonlinear_arith)
            requires
                n == len / f + 1,
                len == f * (len / f) + len % f,
                0 < len % f < f,
        ;
    }
}

/// Sample `k` of frames of equal length `f` laid end to end is sample `k % f` of
/// frame `k / f`.
proof fn lemma_concat_index<S>(frames: Seq<Seq<S>>, f: nat, k: int)
    requires
        f > 0,
        forall|i: int| 0 <= i < frames.len() ==> #[trigger] frames[i].len() == f,
        0 <= k < frames.len() * f,
    ensures
        concat_frames(frames).len() == frames.len() * f,
        0 <= k / (f as int) < frames.len(),
        0 <= k % (f as int) < f,
        concat_frames(frames)[k] == frames[k / (f as int)][k % (f as int)],
    decreases frames.len(),
{
    let n = frames.len();
    assert(n > 0) by (nonlinear_arith)
        requires
            0 <= k < n * f,
    ;
    let init = frames.drop_last();
    assert forall|i: int| 0 <= i < init.len() implies #[trigger] init[i].len() == f by {
        assert(init[i] == frames[i]);
    }
    lemma_concat_len(init, f);
    assert(n * f == (n - 1) * f + f) by (nonlinear_arith);
    vstd::arithmetic::div_mod::lemma_fundamental_div_mod(k, f as int);
    vstd::arithmetic::div_mod::lemma_mod_bound(k, f as int);
    if k < (n - 1) * f {
        lemma_concat_index(init, f, k);
        assert(init[k / (f as int)] == frames[k / (f as int)]);
    } else {
        let j = k - (n - 1) * f;
        assert(k == (n - 1) * f + j);
        vstd::arithmetic::div_mod::lemma_fundamental_div_mod_converse(k, f as int, n - 1, j);
    }
}

proof fn lemma_concat_len<S>(frames: Seq<Seq<S>>, f: nat)
    requires
        forall|i: int| 0 <= i < frames.len() ==> #[trigger] frames[i].len() == f,
    ensures
        concat_frames(frames).len() == frames.len() * f,
    decreases frames.len(),
{
    if frames.len() > 0 {
        let init = frames.drop_last();
        assert forall|i: int| 0 <= i < init.len() implies #[trigger] init[i].len() == f by {
            assert(init[i] == frames[i]);
        }
        lemma_concat_len(init, f);
        assert(frames.len() * f == (frames.len() - 1) * f + f) by (nonlinear_arith);
    }
}

/// Cutting `data` into frames of length `f` gives `ceil(len / f)` frames of length `f`,
/// and the frames laid end to end and cut back to the length of `data` are `data` again.
pub proof fn lemma_chunking_round_trip<S>(data: Seq<S>, f: nat, zero: S)
    requires
        f > 0,
    ensures
        chunked(data, f, zero).len() == frame_count(data.len(), f),
        forall|i: int|
            0 <= i < chunked(data, f, zero).len() ==> #[trigger] chunked(data, f, zero)[i].len()
                == f,
        concat_frames(chunked(data, f, zero)).subrange(0, data.len() as int) == data,
{
    let frames = chunked(data, f, zero);
    let n = frames.len();
    lemma_frame_count_bounds(data.len(), f);
    lemma_concat_len(frames, f);
    assert forall|k: int| 0 <= k < data.len() implies #[trigger] concat_frames(frames)[k]
        == data[k] by {
        assert(k < n * f);
        lemma_concat_index(frames, f, k);
        vstd::arithmetic::div_mod::lemma_fundamental_div_mod(k, f as int);
        let q = k / f as int;
        let r = k % f as int;
        vstd::arithmetic::div_mod::lemma_mod_bound(k, f as int);
        assert(q * f + r == k) by (nonlinear_arith)
            requires
                k == f * q + r,
        ;
    }
    assert(concat_frames(frames).subrange(0, data.len() as int) =~= data);
}

/// Cuts `audio_data` into consecutive frames of `chunk_size` samples; the last frame
/// is filled up with `zero` where the data does not divide evenly.
pub fn get_chunks<S: Copy>(
    audio_data: &Vec<S>,
    chunk_size: usize,
    zero: S,
) -> (frames: Vec<Vec<S>>)
    requires
        chunk_size > 0,
    ensures
        frames_view(frames@) == chunked(audio_data@, chunk_size as nat, zero),
{
    let len = audio_data.len();
    let count: usize = if len % chunk_size == 0 {
        len / chunk_size
    } else {
        proof {
            assert(chunk_size >= 2);
            vstd::arithmetic::div_mod::lemma_div_is_ordered_by_denominator(
                len as int,
                2,
                chunk_size as int,
            );
        }
        len / chunk_size + 1
    };
    proof {
        lemma_frame_count_bounds(len as nat, chunk_size as nat);
    }
    let mut frames: Vec<Vec<S>> = Vec::new();
    let mut i: usize = 0;
    while i < count
        invariant
            count == frame_count(len as nat, chunk_size as nat),
            len == audio_data@.len(),
            chunk_size > 0,
            i <= count,
            count * chunk_size >= len,
            len > 0 ==> (count - 1) * chunk_size < len,
            len == 0 ==> count == 0,
            frames@.len() == i,
            forall|k: int|
                0 <= k < i ==> #[trigger] frames@[k]@ == padded_frame(
                    audio_data@,
                    chunk_size as nat,
                    k,
                    zero,
                ),
        decreases count - i,
    {
        assert(i * chunk_size <= (count - 1) * chunk_size) by (nonlinear_arith)
            requires
                i <= count - 1,
        ;
        let start = i * chunk_size;
        let mut frame: Vec<S> = Vec::new();
        let mut j: usize = 0;
        while j < chunk_size
            invariant
                j <= chunk_size,
                start < len,
                len == audio_data@.len(),
                start == i * chunk_size,
                frame@.len() == j,
                forall|m: int|
                    0 <= m < j ==> #[trigger] frame@[m] == (if i * chunk_size + m < len {
                        audio_data@[i * chunk_size + m]
                    } else {
                        zero
                    }),
            decreases chunk_size - j,
        {
            if j < len - start {
                frame.push(audio_data[start + j]);
            } else {
                frame.push(zero);
            }
            j = j + 1;
        }
        assert(frame@ =~= padded_frame(audio_data@, chunk_size as nat, i as int, zero));
        frames.push(frame);
        i = i + 1;
    }
    assert(frames_view(frames@) =~= chunked(audio_data@, chunk_size as nat, zero));
    frames
}

} // verus!
