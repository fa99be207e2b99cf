//! A byte source held in memory.

use vstd::prelude::*;
use vstd::slice::slice_subrange;

verus! {

/// Bytes to read from, and how many of them have been taken.
///
/// This is what the decoders and the reading encoders pull their input
/// from. It plays the part of a buffered reader whose buffer is the whole
/// input.
#[derive(Debug)]
pub struct Source {
    pub data: Vec<u8>,
    pub pos: usize,
}

impl Source {
    /// The bytes not yet taken.
    pub open spec fn rest(&self) -> Seq<u8> {
        if self.pos <= self.data@.len() {
            self.data@.subrange(self.pos as int, self.data@.len() as int)
        } else {
            Seq::empty()
        }
    }

    /// The bytes already taken.
    pub open spec fn taken(&self) -> Seq<u8> {
        if self.pos <= self.data@.len() {
            self.data@.subrange(0, self.pos as int)
        } else {
            self.data@
        }
    }

    /// A source over `data`, with nothing taken.
    pub fn new(data: Vec<u8>) -> (r: Source)
        ensures
            r.data == data,
            r.pos == 0,
            r.rest() == data@,
    {
        let r = Source { data, pos: 0 };
        assert(r.rest() =~= r.data@);
        r
    }

    /// The bytes not yet taken; empty at the end of the input.
    pub fn fill_buf(&self) -> (r: &[u8])
        ensures
            r@ == self.rest(),
    {
        let n = self.data.len();
        if self.pos <= n {
            slice_subrange(self.data.as_slice(), self.pos, n)
        } else {
            slice_subrange(self.data.as_slice(), n, n)
        }
    }

    /// Marks `amt` more bytes as taken, or all that are left where fewer
    /// are.
    pub fn consume(&mut self, amt: usize)
        ensures
            final(self).data == old(self).data,
            old(self).pos <= final(self).pos,
            amt <= old(self).rest().len() ==> final(self).pos == old(self).pos + amt,
            amt <= old(self).rest().len() ==> final(self).rest() == old(self).rest().skip(
                amt as int,
            ),
            amt > old(self).rest().len() ==> final(self).rest().len() == 0,
    {
        let n = self.data.len();
        if self.pos <= n {
            if amt <= n - self.pos {
                self.pos = self.pos + amt;
            } else {
                self.pos = n;
            }
        }
        assert(amt <= old(self).rest().len() ==> self.rest() =~= old(self).rest().skip(
            amt as int,
        ));
    }

    /// The whole input.
    pub fn get_ref(&self) -> (r: &Vec<u8>)
        ensures
            *r == self.data,
    {
        &self.data
    }

    /// The whole input, for change. Shortening it below what has been taken
    /// leaves nothing to read.
    pub fn get_mut(&mut self) -> (r: &mut Vec<u8>)
        ensures
            *r == old(self).data,
            final(self).data == *final(r),
            final(self).pos == old(self).pos,
    {
        &mut self.data
    }

    /// Gives the input back.
    pub fn into_inner(self) -> (r: Vec<u8>)
        ensures
            r == self.data,
    {
        self.data
    }
}

} // verus!
