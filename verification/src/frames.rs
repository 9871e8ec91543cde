//! Request bodies on the wire: a payload is carried as a sequence of frames,
//! each at most one frame's worth of bytes, and drained back into the bytes
//! that were sent. The round trip is exact: what the client sends is, byte
//! for byte, what the server drains.

use vstd::prelude::*;

verus! {

/// Largest payload one protocol frame carries.
pub const FRAME_MAX: usize = 65536;

/// Default request payload length: one byte past a frame boundary, so the
/// body spans two frames.
pub const DEFAULT_PAYLOAD_LEN: usize = 65537;

/// The bytes a sequence of frames carries, in order.
pub open spec fn concat_frames(frames: Seq<Seq<u8>>) -> Seq<u8>
    decreases frames.len(),
{
    if frames.len() == 0 {
        Seq::empty()
    } else {
        frames[0] + concat_frames(frames.skip(1))
    }
}

/// Appending one frame appends its bytes.
proof fn lemma_concat_push(frames: Seq<Seq<u8>>, f: Seq<u8>)
    ensures
        concat_frames(frames.push(f)) == concat_frames(frames) + f,
    decreases frames.len(),
{
    if frames.len() == 0 {
        let u = frames.push(f);
        assert(u.skip(1) =~= Seq::<Seq<u8>>::empty());
        assert(concat_frames(Seq::<Seq<u8>>::empty()) =~= Seq::<u8>::empty());
        assert(u[0] == f);
        assert(concat_frames(u) =~= f + Seq::<u8>::empty());
        assert(frames =~= Seq::<Seq<u8>>::empty());
        assert(f + Seq::<u8>::empty() =~= f);
        assert(Seq::<u8>::empty() + f =~= f);
        assert(concat_frames(frames.push(f)) =~= concat_frames(frames) + f);
    } else {
        assert(frames.push(f).skip(1) =~= frames.skip(1).push(f));
        lemma_concat_push(frames.skip(1), f);
        assert(concat_frames(frames.push(f)) =~= concat_frames(frames) + f);
    }
}

/// A run of zero bytes of the given length, the request payload the harness
/// sends.
pub fn zero_payload(len: usize) -> (v: Vec<u8>)
    ensures
        v@ == Seq::new(len as nat, |i: int| 0u8),
{
    let mut v: Vec<u8> = Vec::new();
    let mut i: usize = 0;
    while i < len
        invariant
            i <= len,
            v@ =~= Seq::new(i as nat, |k: int| 0u8),
        decreases len - i,
    {
        v.push(0u8);
        i = i + 1;
    }
    proof {
        assert(v@ =~= Seq::new(len as nat, |i: int| 0u8));
    }
    v
}

/// Cut a body into frames: every frame holds between one byte and
/// `frame_max` bytes, and together the frames carry exactly the body.
pub fn split_frames(body: &Vec<u8>, frame_max: usize) -> (frames: Vec<Vec<u8>>)
    requires
        frame_max >= 1,
    ensures
        concat_frames(frames@.map_values(|c: Vec<u8>| c@)) == body@,
        forall|i: int| 0 <= i < frames@.len() ==> 1 <= (#[trigger] frames@[i])@.len() <= frame_max,
{
    let n = body.len();
    let mut frames: Vec<Vec<u8>> = Vec::new();
    let mut pos: usize = 0;
    proof {
        assert(body@.subrange(0, 0) =~= Seq::<u8>::empty());
    }
    while pos < n
        invariant
            n == body@.len(),
            pos <= n,
            frame_max >= 1,
            concat_frames(frames@.map_values(|c: Vec<u8>| c@)) == body@.subrange(0, pos as int),
            forall|i: int| 0 <= i < frames@.len() ==> 1 <= (#[trigger] frames@[i])@.len()
                <= frame_max,
        decreases n - pos,
    {
        let end = if n - pos < frame_max {
            n
        } else {
            pos + frame_max
        };
        let mut chunk: Vec<u8> = Vec::new();
        let mut j = pos;
        while j < end
            invariant
                pos <= j <= end <= n,
                n == body@.len(),
                chunk@ =~= body@.subrange(pos as int, j as int),
            decreases end - j,
        {
            chunk.push(body[j]);
            proof {
                assert(body@.subrange(pos as int, j as int + 1) =~= body@.subrange(
                    pos as int,
                    j as int,
                ).push(body@[j as int]));
            }
            j = j + 1;
        }
        let ghost before = frames@;
        proof {
            lemma_concat_push(before.map_values(|c: Vec<u8>| c@), chunk@);
        }
        frames.push(chunk);
        proof {
            assert(frames@.map_values(|c: Vec<u8>| c@) =~= before.map_values(
                |c: Vec<u8>| c@,
            ).push(body@.subrange(pos as int, end as int)));
            assert(body@.subrange(0, end as int) =~= body@.subrange(0, pos as int)
                + body@.subrange(pos as int, end as int));
        }
        pos = end;
    }
    proof {
        assert(body@.subrange(0, n as int) =~= body@);
    }
    frames
}

/// Drain a sequence of frames back into one body: exactly the bytes the
/// frames carry, in order.
pub fn drain_frames(frames: &Vec<Vec<u8>>) -> (body: Vec<u8>)
    ensures
        body@ == concat_frames(frames@.map_values(|c: Vec<u8>| c@)),
{
    let mut body: Vec<u8> = Vec::new();
    let mut i: usize = 0;
    proof {
        assert(frames@.subrange(0, 0).map_values(|c: Vec<u8>| c@)
            =~= Seq::<Seq<u8>>::empty());
    }
    while i < frames.len()
        invariant
            i <= frames@.len(),
            body@ == concat_frames(frames@.subrange(0, i as int).map_values(|c: Vec<u8>| c@)),
        decreases frames@.len() - i,
    {
        let frame = &frames[i];
        let mut j: usize = 0;
        let ghost base = body@;
        while j < frame.len()
            invariant
                j <= frame@.len(),
                frame@ == frames@[i as int]@,
                i < frames@.len(),
                body@ =~= base + frame@.subrange(0, j as int),
            decreases frame@.len() - j,
        {
            body.push(frame[j]);
            proof {
                assert(frame@.subrange(0, j as int + 1) =~= frame@.subrange(0, j as int).push(
                    frame@[j as int],
                ));
            }
            j = j + 1;
        }
        proof {
            assert(frame@.subrange(0, frame@.len() as int) =~= frame@);
            lemma_concat_push(frames@.subrange(0, i as int).map_values(|c: Vec<u8>| c@), frame@);
            assert(frames@.subrange(0, i as int + 1).map_values(|c: Vec<u8>| c@)
                =~= frames@.subrange(0, i as int).map_values(|c: Vec<u8>| c@).push(frame@));
        }
        i = i + 1;
    }
    proof {
        assert(frames@.subrange(0, frames@.len() as int) =~= frames@);
    }
    body
}

/// Round-trip law: a body cut into frames and drained on the other side is
/// recovered byte for byte, for every body and every positive frame size.
pub fn frame_round_trip(body: &Vec<u8>, frame_max: usize) -> (out: Vec<u8>)
    requires
        frame_max >= 1,
    ensures
        out@ == body@,
{
    let frames = split_frames(body, frame_max);
    drain_frames(&frames)
}

} // verus!
