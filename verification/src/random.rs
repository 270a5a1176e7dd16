//! Generate random values.

use vstd::prelude::*;

verus! {

/// The most bytes that one call to the random service asks for.
pub const MAX_REQUEST: usize = 255;

/// The content of the call that asks for `need` more bytes: that number, or
/// the most that one call can ask for.
pub fn request(need: usize) -> (r: u8)
    ensures
        r == (if need < MAX_REQUEST {
            need
        } else {
            MAX_REQUEST
        }),
{
    if need < MAX_REQUEST {
        need as u8
    } else {
        MAX_REQUEST as u8
    }
}

/// Puts the bytes of a reply into `dest` from `offset`, as many as fit.
/// Returns how many.
pub fn take(dest: &mut [u8], offset: usize, src: &[u8]) -> (n: usize)
    requires
        offset <= old(dest)@.len(),
    ensures
        n == (if src@.len() < old(dest)@.len() - offset {
            src@.len() as int
        } else {
            old(dest)@.len() - offset
        }),
        final(dest)@ == old(dest)@.subrange(0, offset as int) + src@.subrange(0, n as int)
            + old(dest)@.subrange(offset + n, old(dest)@.len() as int),
{
    let room: usize = dest.len() - offset;
    let n: usize = if src.len() < room {
        src.len()
    } else {
        room
    };
    let mut i: usize = 0;
    let len: usize = dest.len();
    while i < n
        invariant
            i <= n,
            offset + n <= len,
            n <= src@.len(),
            len == dest@.len(),
            len == old(dest)@.len(),
            dest@ == old(dest)@.subrange(0, offset as int) + src@.subrange(0, i as int)
                + old(dest)@.subrange(offset + i, len as int),
        decreases n - i,
    {
        dest[offset + i] = src[i];
        i += 1;
        assert(dest@ =~= old(dest)@.subrange(0, offset as int) + src@.subrange(0, i as int)
            + old(dest)@.subrange(offset + i, len as int));
    }
    assert(old(dest)@.subrange(0, offset as int) + src@.subrange(0, 0) + old(dest)@.subrange(
        offset + 0,
        len as int,
    ) =~= old(dest)@);
    n
}

} // verus!
