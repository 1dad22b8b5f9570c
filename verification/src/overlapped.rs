use vstd::prelude::*;

verus! {

/// The file offset of an overlapped operation as the two 32-bit halves that the `OVERLAPPED`
/// structure holds: (low, high). No offset is offset zero.
pub fn split_offset(offset: Option<u64>) -> (r: (u32, u32))
    ensures
        r.0 + r.1 * 0x1_0000_0000 == match offset {
            Some(v) => v as int,
            None => 0int,
        },
{
    match offset {
        Some(v) => {
            let low = (v & 0xffff_ffff) as u32;
            let high = (v >> 32u64) as u32;
            assert(low + high * 0x1_0000_0000 == v) by (bit_vector)
                requires
                    low == (v & 0xffff_ffff) as u32,
                    high == (v >> 32u64) as u32,
            ;
            (low, high)
        },
        None => (0, 0),
    }
}

/// How many bytes one overlapped operation on a buffer of `len` bytes moves: the length field
/// of a `WSABUF` is 32 bits wide.
pub fn transfer_len(len: usize) -> (r: u32)
    ensures
        r == if len <= u32::MAX {
            len as int
        } else {
            u32::MAX as int
        },
{
    if len <= u32::MAX as usize {
        len as u32
    } else {
        u32::MAX
    }
}

/// Copies the `data` that a receive brought into the start of the caller's buffer `dst`,
/// and gives the number of bytes copied.
pub fn copy_received(dst: &mut [u8], data: &[u8]) -> (n: usize)
    requires
        data@.len() <= old(dst)@.len(),
    ensures
        n == data@.len(),
        final(dst)@ == data@ + old(dst)@.skip(data@.len() as int),
{
    let n = data.len();
    for i in 0..n
        invariant
            n == data@.len(),
            n <= dst@.len(),
            dst@.len() == old(dst)@.len(),
            forall|j: int| 0 <= j < i ==> dst@[j] == data@[j],
            forall|j: int| i <= j < dst@.len() ==> dst@[j] == old(dst)@[j],
    {
        dst[i] = data[i];
    }
    assert(dst@ =~= data@ + old(dst)@.skip(n as int));
    n
}

} // verus!
