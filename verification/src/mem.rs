use vstd::prelude::*;

verus! {

/// A memory buffer that an overlapped operation reads into or writes from. Its memory stays
/// where it is for as long as the buffer lives, whatever happens to the future that started
/// the operation.
pub struct Buffer {
    data: Vec<u8>,
}

impl View for Buffer {
    type V = Seq<u8>;

    closed spec fn view(&self) -> Seq<u8> {
        self.data@
    }
}

impl Buffer {
    /// A zeroed buffer of `len` bytes.
    pub fn new(len: usize) -> (r: Self)
        requires
            len > 0,
        ensures
            r@ == Seq::new(len as nat, |i: int| 0u8),
    {
        let data = vec![0u8; len];
        assert(data@ =~= Seq::new(len as nat, |i: int| 0u8));
        Buffer { data }
    }

    /// The size of the buffer.
    pub fn len(&self) -> (r: usize)
        ensures
            r == self@.len(),
    {
        self.data.len()
    }

    /// The memory of the buffer.
    pub fn get(&self) -> (r: &[u8])
        ensures
            r@ == self@,
    {
        self.data.as_slice()
    }

    /// The memory of the buffer, to be written by an operation.
    pub fn get_mut(&mut self) -> (r: &mut [u8])
        ensures
            r@ == old(self)@,
            final(r)@ == final(self)@,
    {
        self.data.as_mut_slice()
    }

    /// The first `len` bytes of the buffer, as a vector.
    pub fn into_vec(self, len: usize) -> (r: Vec<u8>)
        requires
            len <= self@.len(),
        ensures
            r@ == self@.take(len as int),
    {
        let mut data = self.data;
        data.truncate(len);
        data
    }

    /// A buffer that holds a copy of `v`; `Err` when `v` is empty.
    pub fn try_from(v: &[u8]) -> (r: Result<Self, ()>)
        ensures
            v@.len() == 0 <==> r is Err,
            r matches Ok(b) ==> b@ == v@,
    {
        if v.len() == 0 {
            return Err(());
        }
        let mut data: Vec<u8> = Vec::new();
        for i in 0..v.len()
            invariant
                data@ == v@.take(i as int),
        {
            data.push(v[i]);
            assert(v@.take(i + 1) =~= v@.take(i as int).push(v@[i as int]));
        }
        assert(v@.take(v@.len() as int) =~= v@);
        Ok(Buffer { data })
    }
}

} // verus!
