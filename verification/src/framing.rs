//! The length-delimited framing of the IPC transports: each frame is a 4-byte big-endian
//! payload length followed by the payload.
use crate::digits::be_value;
use vstd::prelude::*;

verus! {

/// The size of the length prefix, in bytes.
pub const LENGTH_PREFIX_BYTES: usize = 4;

/// The number of whole frames in `buf` from position `offset` on, walking the length
/// prefixes; a frame cut short ends the count.
pub open spec fn frames_from(buf: Seq<u8>, offset: nat) -> nat
    decreases buf.len() - offset,
{
    if buf.len() < offset + 4 {
        0
    } else {
        let end = offset + 4 + be_value(buf.subrange(offset as int, offset + 4int));
        if buf.len() < end {
            0
        } else {
            1 + frames_from(buf, end)
        }
    }
}

/// The whole frames already in a read buffer. While the reader may be in the middle of a
/// frame the buffer does not start at a length prefix, so nothing is counted.
pub fn buffered_frames(buf: &[u8], maybe_partial: bool) -> (r: usize)
    ensures
        r == if maybe_partial {
            0
        } else {
            frames_from(buf@, 0)
        },
{
    if maybe_partial {
        return 0;
    }
    let len = buf.len();
    let mut offset: usize = 0;
    let mut frames: usize = 0;
    loop
        invariant
            !maybe_partial,
            len == buf@.len(),
            offset <= len,
            frames * 4 <= offset,
            frames_from(buf@, 0) == frames + frames_from(buf@, offset as nat),
        decreases len - offset,
    {
        if len - offset < LENGTH_PREFIX_BYTES {
            return frames;
        }
        let ghost prefix = buf@.subrange(offset as int, offset + 4int);
        let b0 = buf[offset];
        let b1 = buf[offset + 1];
        let b2 = buf[offset + 2];
        let b3 = buf[offset + 3];
        proof {
            let p1 = prefix.drop_last().drop_last().drop_last();
            let p2 = prefix.drop_last().drop_last();
            let p3 = prefix.drop_last();
            assert(p1.drop_last() =~= Seq::<u8>::empty());
            assert(be_value(p1.drop_last()) == 0);
            assert(p1.last() == b0);
            assert(be_value(p1) == b0);
            assert(p2.last() == b1);
            assert(be_value(p2) == b0 * 256 + b1);
            assert(p3.last() == b2);
            assert(be_value(p3) == (b0 * 256 + b1) * 256 + b2);
            assert(prefix.last() == b3);
        }
        let payload: u128 = ((b0 as u128 * 256 + b1 as u128) * 256 + b2 as u128) * 256 + b3 as u128;
        assert(payload == be_value(prefix));
        let end: u128 = offset as u128 + 4 + payload;
        if (len as u128) < end {
            return frames;
        }
        offset = end as usize;
        frames = frames + 1;
    }
}

} // verus!
