//! Simple helpers to forward bytes from a source to a sink.

use crate::LittleError;
use vstd::prelude::*;
use vstd::slice::slice_subrange;

verus! {

/// A source of bytes that is read on demand.
pub trait ByteStream {
    /// Pulls some bytes into `buf` and returns how many: no more than
    /// `buf` has room for.
    fn read(&mut self, buf: &mut [u8]) -> (r: Result<usize, LittleError>)
        ensures
            final(buf)@.len() == old(buf)@.len(),
            r matches Ok(n) ==> n <= old(buf)@.len(),
    ;
}

/// The `count` bytes that lie behind the first `from` bytes, as far as
/// `bytes` has them.
pub open spec fn window(bytes: Seq<u8>, from: nat, count: nat) -> Seq<u8> {
    let start = if from <= bytes.len() {
        from
    } else {
        bytes.len()
    };
    let end = if from + count <= bytes.len() {
        from + count
    } else {
        bytes.len()
    };
    bytes.subrange(start as int, end as int)
}

/// What a buffer holds after `bytes` went through it piece by piece: each
/// piece, as long as the buffer has room or as short as the rest of the
/// bytes, was laid over the buffer's front in its turn.
pub open spec fn scratch(buf: Seq<u8>, bytes: Seq<u8>) -> Seq<u8>
    decreases bytes.len(),
{
    if buf.len() == 0 || bytes.len() == 0 {
        buf
    } else {
        let n = if bytes.len() < buf.len() {
            bytes.len() as int
        } else {
            buf.len() as int
        };
        scratch(bytes.take(n) + buf.skip(n), bytes.skip(n))
    }
}

/// Copies `src` over the front of `dst`.
pub(crate) fn fill(dst: &mut [u8], src: &[u8])
    requires
        src@.len() <= old(dst)@.len(),
    ensures
        final(dst)@ == src@ + old(dst)@.skip(src@.len() as int),
{
    let n = src.len();
    let mut i: usize = 0;
    while i < n
        invariant
            i <= n,
            n == src@.len(),
            n <= dst@.len(),
            dst@.len() == old(dst)@.len(),
            dst@.take(i as int) == src@.take(i as int),
            dst@.skip(i as int) == old(dst)@.skip(i as int),
        decreases n - i,
    {
        let ghost before = dst@;
        dst[i] = src[i];
        i += 1;
        proof {
            assert(dst@.take(i as int) =~= src@.take(i as int)) by {
                assert forall|j: int| 0 <= j < i - 1 implies dst@[j] == src@[j] by {
                    assert(before.take(i - 1)[j] == src@.take(i - 1)[j]);
                }
            }
            assert(dst@.skip(i as int) =~= old(dst)@.skip(i as int)) by {
                assert forall|j: int| i <= j < dst@.len() implies dst@[j] == old(dst)@[j] by {
                    assert(before.skip(i - 1)[j - (i - 1)] == old(dst)@.skip(i - 1)[j - (i - 1)]);
                }
            }
        }
    }
    proof {
        assert(src@.take(n as int) =~= src@);
        assert(dst@ =~= dst@.take(n as int) + dst@.skip(n as int));
    }
}

/// Copy all bytes from `reader` to the end of `writer` using `buf`, piece
/// by piece, and return how many were copied. With a `buf` without room
/// nothing can be read, and nothing is copied.
pub fn buf_copy(buf: &mut [u8], reader: &[u8], writer: &mut Vec<u8>) -> (written: u64)
    ensures
        final(buf)@ == scratch(old(buf)@, reader@),
        final(buf)@.len() == old(buf)@.len(),
        old(buf)@.len() > 0 ==> written == reader@.len() && final(writer)@ == old(writer)@
            + reader@,
        old(buf)@.len() == 0 ==> written == 0 && final(writer)@ == old(writer)@,
{
    let mut written: u64 = 0;
    let mut at: usize = 0;
    let room = buf.len();
    let total = reader.len();
    proof {
        assert(writer@ + reader@.take(0) =~= writer@);
        assert(reader@.skip(0) =~= reader@);
    }
    loop
        invariant
            scratch(old(buf)@, reader@) == scratch(buf@, reader@.skip(at as int)),
            at <= total,
            total == reader@.len(),
            room == buf@.len(),
            room == old(buf)@.len(),
            written == at,
            room == 0 ==> at == 0,
            writer@ == old(writer)@ + reader@.take(at as int),
        ensures
            room > 0 ==> at == total,
            buf@ == scratch(old(buf)@, reader@),
        decreases total - at,
    {
        let len = if total - at < room {
            total - at
        } else {
            room
        };
        if len == 0 {
            break ;
        }
        let piece = slice_subrange(reader, at, at + len);
        let ghost before = buf@;
        fill(buf, piece);
        proof {
            let rest = reader@.skip(at as int);
            assert(rest.take(len as int) =~= piece@);
            assert(rest.skip(len as int) =~= reader@.skip(at + len));
            assert(buf@ == rest.take(len as int) + before.skip(len as int));
        }
        writer.extend_from_slice(slice_subrange(buf, 0, len));
        proof {
            assert(buf@.subrange(0, len as int) =~= reader@.subrange(at as int, at + len));
            assert(writer@ =~= old(writer)@ + reader@.take(at + len));
        }
        at += len;
        written += len as u64;
    }
    proof {
        if room > 0 {
            assert(reader@.take(total as int) =~= reader@);
        }
    }
    written
}

/// Copy `len` bytes from `input` to the end of `output` using `buf`, from
/// the position `loc` on. A position behind the end is allowed: there is
/// nothing to copy from it. Where `input` ends before `len` bytes are
/// copied, the copy ends with it.
pub fn seek_and_buf_copy(loc: u64, len: u64, buf: &mut [u8], input: &[u8], output: &mut Vec<u8>) -> (written:
    u64)
    ensures
        final(buf)@ == scratch(old(buf)@, window(input@, loc as nat, len as nat)),
        final(buf)@.len() == old(buf)@.len(),
        old(buf)@.len() > 0 ==> written == window(input@, loc as nat, len as nat).len()
            && final(output)@ == old(output)@ + window(input@, loc as nat, len as nat),
        old(buf)@.len() == 0 ==> written == 0 && final(output)@ == old(output)@,
{
    let total = input.len();
    let start: usize = if loc <= total as u64 {
        loc as usize
    } else {
        total
    };
    let end: usize = if len <= (total - start) as u64 {
        start + len as usize
    } else {
        total
    };
    buf_copy(buf, slice_subrange(input, start, end), output)
}

} // verus!
