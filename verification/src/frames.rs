//! Raw BGRA frame buffers: sizing, concatenation of captured frames into one
//! buffer, and splitting such a buffer back into whole frames.
use vstd::prelude::*;
use vstd::arithmetic::div_mod::{
    lemma_fundamental_div_mod, lemma_fundamental_div_mod_converse, lemma_mod_pos_bound,
};
use vstd::slice::{slice_subrange, slice_to_vec};

verus! {

/// Bytes per pixel of a packed BGRA frame.
pub const BGRA_BYTES_PER_PIXEL: usize = 4;

/// The contents of a list of byte vectors.
pub open spec fn views(frames: Seq<Vec<u8>>) -> Seq<Seq<u8>> {
    frames.map_values(|f: Vec<u8>| f@)
}

/// The whole frames of `frame_len` bytes that `buf` holds, in order; a trailing
/// partial frame is not among them.
pub open spec fn whole_frames(buf: Seq<u8>, frame_len: nat) -> Seq<Seq<u8>>
    recommends
        frame_len > 0,
{
    Seq::new(
        buf.len() / frame_len,
        |i: int| buf.subrange(i * frame_len, i * frame_len + frame_len),
    )
}

/// Every frame of `frames` is `frame_len` bytes long.
pub open spec fn all_of_len(frames: Seq<Seq<u8>>, frame_len: nat) -> bool {
    forall|i: int| 0 <= i < frames.len() ==> (#[trigger] frames[i]).len() == frame_len
}

/// Size in bytes of one BGRA frame of `width` by `height` pixels.
pub fn frame_byte_len(width: u32, height: u32) -> (len: usize)
    requires
        width as int * height as int * 4 <= usize::MAX,
    ensures
        len == width as int * height as int * 4,
{
    let w = width as usize;
    let h = height as usize;
    assert(w * h <= w * h * 4) by (nonlinear_arith)
        requires
            0 <= w,
            0 <= h,
    ;
    w * h * BGRA_BYTES_PER_PIXEL
}

/// Concatenates the captured frames into one buffer, in order.
pub fn flatten_frames(frames: &Vec<Vec<u8>>) -> (buf: Vec<u8>)
    ensures
        buf@ == views(frames@).flatten(),
{
    let mut buf: Vec<u8> = Vec::new();
    let mut i: usize = 0;
    while i < frames.len()
        invariant
            i <= frames.len(),
            buf@ == views(frames@.take(i as int)).flatten(),
        decreases frames.len() - i,
    {
        let ghost before = buf@;
        buf.extend_from_slice(frames[i].as_slice());
        proof {
            let done = views(frames@.take(i as int));
            assert(views(frames@.take(i + 1)) =~= done.push(frames@[i as int]@));
            done.lemma_flatten_push(frames@[i as int]@);
            assert(buf@ =~= before + frames@[i as int]@);
        }
        i = i + 1;
    }
    assert(frames@.take(frames.len() as int) =~= frames@);
    buf
}

/// Splits `buf` into consecutive whole frames of `frame_len` bytes, dropping a
/// trailing partial frame.
pub fn split_frames(buf: &[u8], frame_len: usize) -> (frames: Vec<Vec<u8>>)
    requires
        frame_len > 0,
    ensures
        views(frames@) == whole_frames(buf@, frame_len as nat),
{
    let mut frames: Vec<Vec<u8>> = Vec::new();
    let mut start: usize = 0;
    assert(frames@.len() * frame_len == 0) by (nonlinear_arith)
        requires
            frames@.len() == 0,
    ;
    while frame_len <= buf.len() - start
        invariant
            frame_len > 0,
            start <= buf@.len(),
            start == frames@.len() * frame_len,
            forall|k: int|
                0 <= k < frames@.len() ==> (#[trigger] frames@[k])@ == buf@.subrange(
                    k * frame_len,
                    k * frame_len + frame_len,
                ),
        decreases buf.len() - start,
    {
        let chunk = slice_to_vec(slice_subrange(buf, start, start + frame_len));
        let ghost k = frames@.len();
        frames.push(chunk);
        proof {
            assert((k + 1) * frame_len == k * frame_len + frame_len) by (nonlinear_arith);
        }
        start = start + frame_len;
    }
    proof {
        lemma_fundamental_div_mod_converse(
            buf@.len() as int,
            frame_len as int,
            frames@.len() as int,
            buf@.len() - start,
        );
        assert(views(frames@) =~= whole_frames(buf@, frame_len as nat));
    }
    frames
}

/// Frames that all have `frame_len` bytes concatenate to `len * frame_len` bytes.
pub proof fn lemma_flatten_len(frames: Seq<Seq<u8>>, frame_len: nat)
    requires
        all_of_len(frames, frame_len),
    ensures
        frames.flatten().len() == frames.len() * frame_len,
    decreases frames.len(),
{
    if frames.len() > 0 {
        let init = frames.drop_last();
        assert(frames =~= init.push(frames.last()));
        init.lemma_flatten_push(frames.last());
        lemma_flatten_len(init, frame_len);
        assert(init.len() * frame_len + frame_len == frames.len() * frame_len) by (nonlinear_arith)
            requires
                init.len() + 1 == frames.len(),
        ;
    }
}

/// Splitting the concatenation of frames of one size gives back those frames.
pub proof fn lemma_split_after_flatten(frames: Seq<Seq<u8>>, frame_len: nat)
    requires
        frame_len > 0,
        all_of_len(frames, frame_len),
    ensures
        whole_frames(frames.flatten(), frame_len) == frames,
    decreases frames.len(),
{
    let f = frames.flatten();
    let k = frames.len();
    lemma_flatten_len(frames, frame_len);
    lemma_fundamental_div_mod_converse(f.len() as int, frame_len as int, k as int, 0);
    if k > 0 {
        let init = frames.drop_last();
        let last = frames.last();
        assert(frames =~= init.push(last));
        init.lemma_flatten_push(last);
        lemma_split_after_flatten(init, frame_len);
        lemma_flatten_len(init, frame_len);
        assert forall|i: int| 0 <= i < k implies #[trigger] whole_frames(f, frame_len)[i]
            == frames[i] by {
            if i < k - 1 {
                assert(i * frame_len + frame_len <= (k - 1) * frame_len) by (nonlinear_arith)
                    requires
                        i + 1 <= k - 1,
                ;
                assert(0 <= i * frame_len) by (nonlinear_arith)
                    requires
                        0 <= i,
                ;
                assert(f.subrange(i * frame_len, i * frame_len + frame_len) =~= init.flatten().subrange(
                    i * frame_len,
                    i * frame_len + frame_len,
                ));
                assert(whole_frames(init.flatten(), frame_len)[i] == init[i]);
            } else {
                assert(f.subrange(i * frame_len, i * frame_len + frame_len) =~= last);
            }
        }
    }
    assert(whole_frames(f, frame_len) =~= frames);
}

/// The first `count` whole frames of `buf` concatenate to the first
/// `count * frame_len` bytes of `buf`.
proof fn lemma_whole_frames_prefix(buf: Seq<u8>, frame_len: nat, count: nat)
    requires
        frame_len > 0,
        count <= buf.len() / frame_len,
    ensures
        whole_frames(buf, frame_len).take(count as int).flatten() == buf.take((count * frame_len) as int),
    decreases count,
{
    let w = whole_frames(buf, frame_len);
    lemma_fundamental_div_mod(buf.len() as int, frame_len as int);
    lemma_mod_pos_bound(buf.len() as int, frame_len as int);
    if count == 0 {
        assert(w.take(0) =~= Seq::<Seq<u8>>::empty());
        assert(buf.take(0) =~= Seq::<u8>::empty());
    } else {
        let j = (count - 1) as nat;
        lemma_whole_frames_prefix(buf, frame_len, j);
        assert(w.take(count as int) =~= w.take(j as int).push(w[j as int]));
        w.take(j as int).lemma_flatten_push(w[j as int]);
        assert(j * frame_len + frame_len <= frame_len * (buf.len() / frame_len)) by (nonlinear_arith)
            requires
                j + 1 <= buf.len() / frame_len,
        ;
        assert(j * frame_len + frame_len == count * frame_len) by (nonlinear_arith)
            requires
                j + 1 == count,
        ;
        assert(buf.take((count * frame_len) as int) =~= buf.take((j * frame_len) as int) + buf.subrange(
            (j * frame_len) as int,
            (j * frame_len + frame_len) as int,
        ));
    }
}

/// Splitting keeps every byte of `buf` in order but the trailing partial frame,
/// which is shorter than one frame.
pub proof fn lemma_flatten_after_split(buf: Seq<u8>, frame_len: nat)
    requires
        frame_len > 0,
    ensures
        whole_frames(buf, frame_len).flatten() == buf.take(
            (whole_frames(buf, frame_len).len() * frame_len) as int,
        ),
        buf.len() - whole_frames(buf, frame_len).len() * frame_len < frame_len,
        whole_frames(buf, frame_len).len() * frame_len <= buf.len(),
{
    let w = whole_frames(buf, frame_len);
    lemma_whole_frames_prefix(buf, frame_len, w.len());
    assert(w.take(w.len() as int) =~= w);
    lemma_fundamental_div_mod(buf.len() as int, frame_len as int);
    lemma_mod_pos_bound(buf.len() as int, frame_len as int);
    assert(w.len() * frame_len == frame_len * (buf.len() / frame_len)) by (nonlinear_arith)
        requires
            w.len() == buf.len() / frame_len,
    ;
}

} // verus!
