//! Aligned memory buffers for direct I/O.
use vstd::prelude::*;
use vstd::slice::slice_subrange;
use crate::addr::address_of;
use crate::buf::{RdBuf, WrBuf};

verus! {

/// Whether `n` is a power of two: 1, or twice a power of two.
pub open spec fn is_pow2(n: nat) -> bool
    decreases n,
{
    if n == 0 {
        false
    } else if n == 1 {
        true
    } else {
        n % 2 == 0 && is_pow2(n / 2)
    }
}

/// Whether `n` is a power of two.
pub fn ispower2(n: usize) -> (r: bool)
    ensures
        r == is_pow2(n as nat),
{
    let mut m = n;
    while m > 1 && m % 2 == 0
        invariant
            is_pow2(m as nat) == is_pow2(n as nat),
        decreases m,
    {
        m = m / 2;
    }
    m == 1
}

/// `size` rounded up to a multiple of `align`.
pub open spec fn round_up(size: nat, align: nat) -> nat
    recommends
        align > 0,
{
    if size % align == 0 {
        size
    } else {
        (size + (align - size % align)) as nat
    }
}

/// Allocate and manage buffers with fixed memory alignment.
///
/// This is intended for direct I/O, which has such requirements. The
/// buffer has two sizes associated with it: the number of allocated bytes,
/// which is always a multiple of the alignment, and the number of valid
/// (initialized) bytes, a prefix of the allocation.
pub struct AlignedBuf {
    /// Backing storage; the buffer is the `len` bytes from `base` on.
    storage: Vec<u8>,
    /// The address of the storage's first byte.
    addr: usize,
    base: usize,
    align: usize,
    len: usize,
    valid: usize,
}

/// Zeroed storage for `sz` bytes that start at a multiple of `align`:
/// the storage, its address, and the offset of the aligned start.
fn alloc_storage(sz: usize, align: usize) -> (r: Option<(Vec<u8>, usize, usize)>)
    requires
        align > 0,
    ensures
        r is None <==> sz + align - 1 > usize::MAX,
        r matches Some((v, addr, base)) ==> {
            &&& base < align
            &&& base + sz <= v@.len()
            &&& (addr + base) % (align as int) == 0
            &&& v@ == Seq::new(v@.len(), |i: int| 0u8)
            &&& v@.len() <= usize::MAX
            &&& sz + align - 1 <= usize::MAX
        },
{
    match sz.checked_add(align - 1) {
        None => None,
        Some(total) => {
            let v: Vec<u8> = vec![0u8; total];
            proof {
                assert forall|i: int| 0 <= i < v@.len() implies v@[i] == 0u8 by {
                    assert(cloned(0u8, v@[i]));
                }
                assert(v@ =~= Seq::new(v@.len(), |i: int| 0u8));
            }
            let addr = address_of(v.as_slice());
            let m = addr % align;
            let base = if m == 0 { 0 } else { align - m };
            proof {
                let a = align as int;
                if m != 0 {
                    assert((addr as int) == a * ((addr as int) / a) + m) by (nonlinear_arith)
                        requires
                            a > 0,
                            m == (addr as int) % a,
                    ;
                    assert((addr as int) + base == a * ((addr as int) / a + 1)) by (nonlinear_arith)
                        requires
                            (addr as int) == a * ((addr as int) / a) + m,
                            base == a - m,
                    ;
                    assert(((addr as int) + base) % a == 0) by (nonlinear_arith)
                        requires
                            a > 0,
                            (addr as int) + base == a * ((addr as int) / a + 1),
                    ;
                }
            }
            Some((v, addr, base))
        },
    }
}

/// `size` rounded up to a multiple of `align`, when that fits.
fn round_size(size: usize, align: usize) -> (r: Option<usize>)
    requires
        align > 0,
    ensures
        r is None <==> round_up(size as nat, align as nat) > usize::MAX,
        r matches Some(n) ==> n == round_up(size as nat, align as nat),
{
    let rem = size % align;
    if rem == 0 {
        Some(size)
    } else {
        size.checked_add(align - rem)
    }
}

/// Rounding up gives a multiple of the alignment, no smaller than the
/// size and less than one alignment above it.
pub proof fn lemma_round_up(size: nat, align: nat)
    requires
        align > 0,
    ensures
        round_up(size, align) % align == 0,
        size <= round_up(size, align) < size + align,
{
    let r = size % align;
    if r != 0 {
        let q = size / align;
        assert(size == align * q + r) by (nonlinear_arith)
            requires
                align > 0,
                r == size % align,
                q == size / align,
        ;
        assert(size + (align - r) == align * (q + 1)) by (nonlinear_arith)
            requires
                size == align * q + r,
        ;
        assert((align * (q + 1)) % align == 0) by (nonlinear_arith)
            requires
                align > 0,
        ;
    }
}

impl AlignedBuf {
    /// The whole allocation.
    pub closed spec fn view(&self) -> Seq<u8> {
        self.storage@.subrange(self.base as int, self.base + self.len)
    }

    /// The valid prefix.
    pub open spec fn valid_view(&self) -> Seq<u8> {
        self.view().subrange(0, self.valid_spec() as int)
    }

    /// The number of allocated bytes.
    pub closed spec fn capacity(&self) -> nat {
        self.len as nat
    }

    pub closed spec fn align_spec(&self) -> nat {
        self.align as nat
    }

    pub closed spec fn valid_spec(&self) -> nat {
        self.valid as nat
    }

    /// The address of the buffer's first byte.
    pub closed spec fn address(&self) -> int {
        self.addr + self.base
    }

    /// Well-formedness: the alignment is a positive power of two, the
    /// allocation is a multiple of it and starts at an address that is a
    /// multiple of it, and the valid prefix lies within the allocation.
    pub closed spec fn wf(&self) -> bool {
        &&& is_pow2(self.align as nat)
        &&& self.len % self.align == 0
        &&& self.valid <= self.len
        &&& self.base + self.len <= self.storage@.len() <= usize::MAX
        &&& self.len + self.align - 1 <= usize::MAX
        &&& (self.addr + self.base) % (self.align as int) == 0
    }

    /// The buffer's layout: its first byte's address is a multiple of the
    /// alignment, its length is a multiple of the alignment, and its valid
    /// prefix is no longer than the buffer.
    pub proof fn lemma_layout(&self)
        requires
            self.wf(),
        ensures
            self.address() % (self.align_spec() as int) == 0,
            self.view().len() % self.align_spec() == 0,
            self.valid_spec() <= self.view().len(),
            self.view().len() == self.capacity(),
            self.align_spec() > 0,
            self.in_bounds(),
    {
    }

    /// Allocate a buffer of `size` bytes rounded up to the alignment, with
    /// no valid bytes. Returns `None` when the allocation cannot be made.
    pub fn alloc_uninit(size: usize, align: usize) -> (r: Option<AlignedBuf>)
        requires
            is_pow2(align as nat),
        ensures
            r is None <==> round_up(size as nat, align as nat) + align - 1 > usize::MAX,
            r matches Some(b) ==> {
                &&& b.wf()
                &&& b.view() == Seq::new(round_up(size as nat, align as nat), |i: int| 0u8)
                &&& b.valid_spec() == 0
                &&& b.align_spec() == align
            },
    {
        match round_size(size, align) {
            None => None,
            Some(sz) => match alloc_storage(sz, align) {
                None => None,
                Some((storage, addr, base)) => {
                    let b = AlignedBuf { storage, addr, base, align, len: sz, valid: 0 };
                    proof {
                        lemma_round_up(size as nat, align as nat);
                        assert(b.view() =~= Seq::new(sz as nat, |i: int| 0u8));
                    }
                    Some(b)
                },
            },
        }
    }

    /// Allocate a buffer of `size` bytes rounded up to the alignment, all
    /// zero and all valid.
    pub fn alloc_zeroed(size: usize, align: usize) -> (r: Option<AlignedBuf>)
        requires
            is_pow2(align as nat),
        ensures
            r is None <==> round_up(size as nat, align as nat) + align - 1 > usize::MAX,
            r matches Some(b) ==> {
                &&& b.wf()
                &&& b.view() == Seq::new(round_up(size as nat, align as nat), |i: int| 0u8)
                &&& b.valid_spec() == b.view().len()
                &&& b.align_spec() == align
            },
    {
        match AlignedBuf::alloc_uninit(size, align) {
            None => None,
            Some(mut b) => {
                b.valid = b.len;
                Some(b)
            },
        }
    }

    /// Allocate a buffer holding `data`, followed by zeros up to the
    /// alignment; all of it is valid.
    pub fn from_slice(data: &[u8], align: usize) -> (r: Option<AlignedBuf>)
        requires
            is_pow2(align as nat),
        ensures
            r is None <==> round_up(data@.len(), align as nat) + align - 1 > usize::MAX,
            r matches Some(b) ==> {
                &&& b.wf()
                &&& b.view() == data@ + Seq::new(
                    (round_up(data@.len(), align as nat) - data@.len()) as nat,
                    |i: int| 0u8,
                )
                &&& b.valid_spec() == b.view().len()
                &&& b.align_spec() == align
            },
    {
        proof {
            lemma_round_up(data@.len(), align as nat);
        }
        let sz = match round_size(data.len(), align) {
            None => {
                return None;
            },
            Some(sz) => sz,
        };
        let (mut storage, addr, base) = match alloc_storage(sz, align) {
            None => {
                return None;
            },
            Some(t) => t,
        };
        let mut i: usize = 0;
        while i < data.len()
            invariant
                i <= data@.len() <= sz,
                base + sz <= storage@.len() <= usize::MAX,
                forall|k: int| 0 <= k < i ==> #[trigger] storage@[base + k] == data@[k],
                forall|k: int| i <= k < sz ==> #[trigger] storage@[base + k] == 0u8,
            decreases data@.len() - i,
        {
            storage.set(base + i, data[i]);
            i = i + 1;
        }
        let b = AlignedBuf { storage, addr, base, align, len: sz, valid: sz };
        proof {
            assert(b.view() =~= data@ + Seq::new((sz - data@.len()) as nat, |i: int| 0u8)) by {
                assert forall|k: int| 0 <= k < sz implies #[trigger] b.view()[k] == (data@ + Seq::new(
                    (sz - data@.len()) as nat,
                    |i: int| 0u8,
                ))[k] by {
                    assert(b.view()[k] == b.storage@[base + k]);
                }
            }
        }
        Some(b)
    }

    /// The number of allocated bytes.
    pub fn len(&self) -> (r: usize)
        requires
            self.wf(),
        ensures
            r == self.view().len(),
    {
        self.len
    }

    /// The number of valid bytes.
    pub fn valid(&self) -> (r: usize)
        ensures
            r == self.valid_spec(),
    {
        self.valid
    }

    /// The alignment.
    pub fn alignment(&self) -> (r: usize)
        ensures
            r == self.align_spec(),
    {
        self.align
    }

    /// The valid prefix, as a slice.
    pub fn as_slice(&self) -> (r: &[u8])
        requires
            self.wf(),
        ensures
            r@ == self.valid_view(),
    {
        let s = slice_subrange(self.storage.as_slice(), self.base, self.base + self.valid);
        proof {
            assert(s@ =~= self.valid_view());
        }
        s
    }
    /// Grow the buffer to `size` bytes rounded up to the alignment, keeping
    /// its bytes and its valid prefix; the added bytes are zero but not
    /// valid. Returns false, changing nothing, when the rounded size is
    /// smaller than the buffer or cannot be allocated.
    pub fn extend_uninit(&mut self, size: usize) -> (r: bool)
        requires
            old(self).wf(),
        ensures
            final(self).wf(),
            r <==> (old(self).view().len() <= round_up(size as nat, old(self).align_spec())
                && round_up(size as nat, old(self).align_spec()) + old(self).align_spec() - 1 <= usize::MAX),
            !r ==> *final(self) == *old(self),
            r ==> {
                &&& final(self).view() == old(self).view() + Seq::new(
                    (round_up(size as nat, old(self).align_spec()) - old(self).view().len()) as nat,
                    |i: int| 0u8,
                )
                &&& final(self).valid_spec() == old(self).valid_spec()
                &&& final(self).align_spec() == old(self).align_spec()
            },
    {
        proof {
            lemma_round_up(size as nat, self.align as nat);
        }
        let sz = match round_size(size, self.align) {
            None => {
                return false;
            },
            Some(sz) => sz,
        };
        if sz < self.len {
            return false;
        }
        if sz == self.len {
            proof {
                assert(self.view() =~= self.view() + Seq::new(0, |i: int| 0u8));
            }
            return true;
        }
        let (mut storage, addr, base) = match alloc_storage(sz, self.align) {
            None => {
                return false;
            },
            Some(t) => t,
        };
        let ghost old_view = self.view();
        let mut i: usize = 0;
        while i < self.len
            invariant
                self.wf(),
                *self == *old(self),
                old_view == self.view(),
                i <= self.len < sz,
                base + sz <= storage@.len() <= usize::MAX,
                forall|k: int| 0 <= k < i ==> #[trigger] storage@[base + k] == old_view[k],
                forall|k: int| i <= k < sz ==> #[trigger] storage@[base + k] == 0u8,
            decreases self.len - i,
        {
            let x = self.storage[self.base + i];
            storage.set(base + i, x);
            i = i + 1;
        }
        *self = AlignedBuf { storage, addr, base, align: self.align, len: sz, valid: self.valid };
        proof {
            assert(self.view() =~= old_view + Seq::new((sz - old_view.len()) as nat, |i: int| 0u8)) by {
                assert forall|k: int| 0 <= k < sz implies #[trigger] self.view()[k] == (old_view + Seq::new(
                    (sz - old_view.len()) as nat,
                    |i: int| 0u8,
                ))[k] by {
                    assert(self.view()[k] == self.storage@[base + k]);
                }
            }
        }
        true
    }

    /// Grow the buffer to `size` bytes rounded up to the alignment, with
    /// the added bytes zero; when it grows, all of it becomes valid.
    /// Returns false, changing nothing, when the rounded size is smaller
    /// than the buffer or cannot be allocated.
    pub fn extend(&mut self, size: usize) -> (r: bool)
        requires
            old(self).wf(),
        ensures
            final(self).wf(),
            r <==> (old(self).view().len() <= round_up(size as nat, old(self).align_spec())
                && round_up(size as nat, old(self).align_spec()) + old(self).align_spec() - 1 <= usize::MAX),
            !r ==> *final(self) == *old(self),
            r ==> {
                &&& final(self).view() == old(self).view() + Seq::new(
                    (round_up(size as nat, old(self).align_spec()) - old(self).view().len()) as nat,
                    |i: int| 0u8,
                )
                &&& final(self).valid_spec() == (if final(self).view().len() > old(self).view().len() {
                    final(self).view().len()
                } else {
                    old(self).valid_spec()
                })
                &&& final(self).align_spec() == old(self).align_spec()
            },
    {
        let origsz = self.len;
        let ok = self.extend_uninit(size);
        if ok && self.len > origsz {
            self.valid = self.len;
        }
        ok
    }

    /// Shrink the buffer to `size` bytes rounded up to the alignment; all
    /// of what remains is valid. Returns false, changing nothing, when the
    /// rounded size is larger than the buffer.
    pub fn shrink(&mut self, size: usize) -> (r: bool)
        requires
            old(self).wf(),
        ensures
            final(self).wf(),
            r <==> round_up(size as nat, old(self).align_spec()) <= old(self).view().len(),
            !r ==> *final(self) == *old(self),
            r ==> {
                &&& final(self).view() == old(self).view().subrange(
                    0,
                    round_up(size as nat, old(self).align_spec()) as int,
                )
                &&& final(self).valid_spec() == final(self).view().len()
                &&& final(self).align_spec() == old(self).align_spec()
            },
    {
        proof {
            lemma_round_up(size as nat, self.align as nat);
        }
        let sz = match round_size(size, self.align) {
            None => {
                return false;
            },
            Some(sz) => sz,
        };
        if sz > self.len {
            return false;
        }
        let ghost old_view = self.view();
        self.valid = sz;
        self.len = sz;
        proof {
            assert(self.view() =~= old_view.subrange(0, sz as int));
        }
        true
    }

    /// A copy of the buffer: the same size and alignment, with the valid
    /// prefix copied; the rest is zero.
    pub fn clone(&self) -> (r: AlignedBuf)
        requires
            self.wf(),
        ensures
            r.wf(),
            r.view().len() == self.view().len(),
            r.align_spec() == self.align_spec(),
            r.valid_spec() == self.valid_spec(),
            r.valid_view() == self.valid_view(),
    {
        proof {
            lemma_round_up(self.len as nat, self.align as nat);
            assert(round_up(self.len as nat, self.align as nat) == self.len) by {
                assert((self.len as nat) % (self.align as nat) == 0);
            }
        }
        let (mut storage, addr, base) = match alloc_storage(self.len, self.align) {
            None => vstd::pervasive::unreached(),
            Some(t) => t,
        };
        let mut i: usize = 0;
        while i < self.valid
            invariant
                self.wf(),
                i <= self.valid,
                base + self.len <= storage@.len() <= usize::MAX,
                forall|k: int| 0 <= k < i ==> #[trigger] storage@[base + k] == self.view()[k],
            decreases self.valid - i,
        {
            let x = self.storage[self.base + i];
            storage.set(base + i, x);
            i = i + 1;
        }
        let b = AlignedBuf { storage, addr, base, align: self.align, len: self.len, valid: self.valid };
        proof {
            assert(b.valid_view() =~= self.valid_view()) by {
                assert forall|k: int| 0 <= k < self.valid implies #[trigger] b.valid_view()[k]
                    == self.valid_view()[k] by {
                    assert(b.view()[k] == b.storage@[base + k]);
                }
            }
        }
        b
    }
}

impl AlignedBuf {
    /// Whether the buffer lies within its storage, which holds of every
    /// well-formed buffer.
    pub closed spec fn in_bounds(&self) -> bool {
        self.base + self.len <= self.storage@.len() && self.valid <= self.len
    }

    fn check_bounds(&self) -> (r: bool)
        ensures
            r == self.in_bounds(),
    {
        self.base <= self.storage.len() && self.len <= self.storage.len() - self.base && self.valid <= self.len
    }
}

impl RdBuf for AlignedBuf {
    /// The whole buffer.
    open spec fn rd_view(&self) -> Seq<u8> {
        if self.in_bounds() {
            self.view()
        } else {
            Seq::empty()
        }
    }

    /// The whole buffer; what a read puts there becomes valid only through
    /// `rdupdate`.
    fn rdbuf(&mut self) -> (r: &mut [u8]) {
        let ok = self.check_bounds();
        let base = self.base;
        let len = self.len;
        let whole = self.storage.as_mut_slice();
        if ok {
            let (_, rest) = whole.split_at_mut(base);
            let (mid, _) = rest.split_at_mut(len);
            mid
        } else {
            let (empty, _) = whole.split_at_mut(0);
            empty
        }
    }

    fn rdslice(&self) -> (r: &[u8]) {
        let n = self.storage.len();
        if self.check_bounds() {
            slice_subrange(self.storage.as_slice(), self.base, self.base + self.len)
        } else {
            slice_subrange(self.storage.as_slice(), 0, 0)
        }
    }

    fn rdlen(&self) -> (r: usize) {
        if self.check_bounds() {
            self.len
        } else {
            0
        }
    }

    /// Advance the valid prefix to `base + len` when the range starts
    /// within the valid prefix, reaches past it and lies within the
    /// buffer; otherwise leave it as it is.
    fn rdupdate(&mut self, base: usize, len: usize)
        ensures
            final(self).view() == old(self).view(),
            final(self).valid_spec() == (if base <= old(self).valid_spec() && base + len > old(self).valid_spec()
                && base + len <= old(self).capacity() {
                (base + len) as nat
            } else {
                old(self).valid_spec()
            }),
    {
        if base <= self.valid && len <= self.len && base <= self.len - len && base + len > self.valid {
            self.valid = base + len;
        }
    }
}

impl WrBuf for AlignedBuf {
    /// The valid prefix.
    open spec fn wr_view(&self) -> Seq<u8> {
        if self.in_bounds() {
            self.valid_view()
        } else {
            Seq::empty()
        }
    }

    fn wrbuf(&self) -> (r: &[u8]) {
        let n = self.storage.len();
        if self.check_bounds() {
            slice_subrange(self.storage.as_slice(), self.base, self.base + self.valid)
        } else {
            slice_subrange(self.storage.as_slice(), 0, 0)
        }
    }
}

} // verus!
