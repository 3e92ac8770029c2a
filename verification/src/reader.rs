//! A forward-only cursor over a byte slice.

use crate::endian::{u16_from_be, u16_from_be_bytes, u64_from_be, u64_from_be_bytes};
use vstd::prelude::*;
use vstd::slice::{slice_subrange, slice_to_vec};

verus! {

/// A position in a byte slice. Its view is the bytes not yet read.
///
/// Every read either takes exactly what it was asked for, or fails and
/// leaves the reader where it was.
#[derive(Clone, Copy, Debug)]
pub struct ByteReader<'a> {
    data: &'a [u8],
    pos: usize,
}

impl<'a> View for ByteReader<'a> {
    type V = Seq<u8>;

    closed spec fn view(&self) -> Seq<u8> {
        self.data@.subrange(self.pos as int, self.data@.len() as int)
    }
}

impl<'a> ByteReader<'a> {
    #[verifier::type_invariant]
    spec fn in_bounds(self) -> bool {
        self.pos <= self.data@.len()
    }

    /// A reader at the start of `data`.
    pub fn new(data: &'a [u8]) -> (reader: Self)
        ensures
            reader@ == data@,
    {
        let reader = ByteReader { data, pos: 0 };
        assert(reader@ =~= data@);
        reader
    }

    /// The number of bytes not yet read.
    pub fn remaining(&self) -> (count: usize)
        ensures
            count == self@.len(),
    {
        proof {
            use_type_invariant(self);
        }
        self.data.len() - self.pos
    }

    /// Takes the next `count` bytes, if there are that many.
    pub fn read_slice(&mut self, count: usize) -> (bytes: Option<&'a [u8]>)
        ensures
            bytes is Some <==> count <= old(self)@.len(),
            bytes matches Some(b) ==> b@ == old(self)@.take(count as int) && final(self)@ == old(
                self,
            )@.skip(count as int),
            bytes is None ==> *final(self) == *old(self),
    {
        proof {
            use_type_invariant(&*self);
        }
        if count > self.data.len() - self.pos {
            return None;
        }
        let start = self.pos;
        let bytes = slice_subrange(self.data, start, start + count);
        self.pos = start + count;
        assert(bytes@ =~= old(self)@.take(count as int));
        assert(self@ =~= old(self)@.skip(count as int));
        Some(bytes)
    }

    /// Takes the next byte.
    pub fn read_u8(&mut self) -> (byte: Option<u8>)
        ensures
            byte is Some <==> old(self)@.len() >= 1,
            byte matches Some(b) ==> b == old(self)@[0] && final(self)@ == old(self)@.skip(1),
            byte is None ==> *final(self) == *old(self),
    {
        match self.read_slice(1) {
            Some(bytes) => Some(bytes[0]),
            None => None,
        }
    }

    /// Takes the next two bytes as a big-endian integer.
    pub fn read_u16_be(&mut self) -> (value: Option<u16>)
        ensures
            value is Some <==> old(self)@.len() >= 2,
            value matches Some(v) ==> v == u16_from_be_bytes(old(self)@.take(2)) && final(self)@
                == old(self)@.skip(2),
            value is None ==> *final(self) == *old(self),
    {
        match self.read_slice(2) {
            Some(bytes) => Some(u16_from_be(bytes)),
            None => None,
        }
    }

    /// Takes the next eight bytes as a big-endian integer.
    pub fn read_u64_be(&mut self) -> (value: Option<u64>)
        ensures
            value is Some <==> old(self)@.len() >= 8,
            value matches Some(v) ==> v == u64_from_be_bytes(old(self)@.take(8)) && final(self)@
                == old(self)@.skip(8),
            value is None ==> *final(self) == *old(self),
    {
        match self.read_slice(8) {
            Some(bytes) => Some(u64_from_be(bytes)),
            None => None,
        }
    }

    /// Takes the next `count` bytes into a vector of their own.
    pub fn read_vec(&mut self, count: usize) -> (bytes: Option<Vec<u8>>)
        ensures
            bytes is Some <==> count <= old(self)@.len(),
            bytes matches Some(b) ==> b@ == old(self)@.take(count as int) && final(self)@ == old(
                self,
            )@.skip(count as int),
            bytes is None ==> *final(self) == *old(self),
    {
        match self.read_slice(count) {
            Some(bytes) => Some(slice_to_vec(bytes)),
            None => None,
        }
    }

    /// Takes the next `N` bytes into an array.
    pub fn read_array<const N: usize>(&mut self) -> (bytes: Option<[u8; N]>)
        ensures
            bytes is Some <==> N <= old(self)@.len(),
            bytes matches Some(b) ==> b@ == old(self)@.take(N as int) && final(self)@ == old(
                self,
            )@.skip(N as int),
            bytes is None ==> *final(self) == *old(self),
    {
        match self.read_slice(N) {
            Some(bytes) => {
                let mut array = [0u8; N];
                let mut i: usize = 0;
                while i < N
                    invariant
                        i <= N,
                        bytes@.len() == N,
                        forall|j: int| 0 <= j < i ==> array@[j] == bytes@[j],
                    decreases N - i,
                {
                    array[i] = bytes[i];
                    i += 1;
                }
                assert(array@ =~= bytes@);
                Some(array)
            },
            None => None,
        }
    }
}

} // verus!
