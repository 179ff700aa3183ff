//! The two capabilities a buffer needs to take part in asynchronous I/O.
use vstd::prelude::*;

verus! {

/// A buffer that a read can fill. The region must stay where it is when
/// the buffer value is moved (it lives on the heap, or is borrowed), since
/// the kernel is given its address.
pub trait RdBuf {
    /// The bytes of the region that a read may fill.
    spec fn rd_view(&self) -> Seq<u8>;

    /// The region that a read may fill, as a mutable slice. What is
    /// written through the slice becomes the region's new content (a
    /// slice keeps its length, which is all the second clause asks).
    fn rdbuf(&mut self) -> (r: &mut [u8])
        ensures
            r@ == old(self).rd_view(),
            final(r)@.len() == r@.len() ==> final(self).rd_view() == final(r)@,
    ;

    /// The region that a read may fill, as a shared slice: where it is.
    fn rdslice(&self) -> (r: &[u8])
        ensures
            r@ == self.rd_view(),
    ;

    /// The length of the region that a read may fill.
    fn rdlen(&self) -> (r: usize)
        ensures
            r == self.rd_view().len(),
    ;

    /// Called to indicate that the bytes `[base, base + len)` of the region
    /// were filled by a read.
    fn rdupdate(&mut self, base: usize, len: usize);
}

/// A buffer that a write can take its bytes from. Like a read buffer, its
/// bytes must stay where they are when the buffer value is moved.
pub trait WrBuf {
    /// The bytes that a write sends.
    spec fn wr_view(&self) -> Seq<u8>;

    /// The bytes that a write sends, as a slice.
    fn wrbuf(&self) -> (r: &[u8])
        ensures
            r@ == self.wr_view(),
    ;
}

impl RdBuf for Vec<u8> {
    open spec fn rd_view(&self) -> Seq<u8> {
        self@
    }

    /// The vector's elements are the region a read fills.
    fn rdbuf(&mut self) -> (r: &mut [u8]) {
        self.as_mut_slice()
    }

    fn rdslice(&self) -> (r: &[u8]) {
        self.as_slice()
    }

    fn rdlen(&self) -> (r: usize) {
        self.len()
    }

    /// Keep only the bytes up to the end of the filled range, when that
    /// range ends inside the vector.
    fn rdupdate(&mut self, base: usize, len: usize)
        ensures
            final(self)@ == (if base + len <= old(self)@.len() {
                old(self)@.subrange(0, base + len)
            } else {
                old(self)@
            }),
    {
        if len <= self.len() && base <= self.len() - len {
            self.truncate(base + len);
        }
    }
}

impl WrBuf for Vec<u8> {
    open spec fn wr_view(&self) -> Seq<u8> {
        self@
    }

    fn wrbuf(&self) -> (r: &[u8]) {
        self.as_slice()
    }
}

/// A borrowed byte slice, which can serve as either kind of buffer.
pub type Buf<'b> = &'b mut [u8];

impl<'b> RdBuf for Buf<'b> {
    open spec fn rd_view(&self) -> Seq<u8> {
        (**self)@
    }

    /// The whole slice.
    fn rdbuf(&mut self) -> (r: &mut [u8]) {
        &mut **self
    }

    fn rdslice(&self) -> (r: &[u8]) {
        &**self
    }

    fn rdlen(&self) -> (r: usize) {
        (**self).len()
    }

    /// Nothing to record: the slice has no notion of a valid prefix.
    fn rdupdate(&mut self, base: usize, len: usize) {
    }
}

impl<'b> WrBuf for Buf<'b> {
    open spec fn wr_view(&self) -> Seq<u8> {
        (**self)@
    }

    fn wrbuf(&self) -> (r: &[u8]) {
        &**self
    }
}

} // verus!
