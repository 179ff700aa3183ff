//! The submission and completion engine.
//!
//! An [`Iocontext`] owns every buffer and token between queueing and
//! completion. Each queued operation lives in a slot of a fixed-capacity
//! pool, together with its control block, whose `data` field names the
//! slot. The context records which slots are batched (not yet handed to
//! the kernel, in queueing order) and which the kernel holds. The kernel
//! calls themselves are made by the caller, which reports their outcome
//! back through [`Iocontext::submit_done`], and through
//! [`Iocontext::complete`] or [`Iocontext::harvest`] for completion events.
use vstd::prelude::*;
use crate::addr::address_of;
use crate::aioabi::{iocmd_code, Iocmd, Struct_io_event, Struct_iocb, IOCB_FLAG_RESFD};
use crate::buf::{RdBuf, WrBuf};
use crate::pool::Pool;

verus! {

/// An operation together with the resources it owns.
#[derive(Debug)]
pub enum IoOp<T, Wb, Rb> {
    /// No operation - placeholder.
    Noop,
    /// Read - returns read buffer, that may be partially or completely filled.
    Pread(Rb, T),
    /// Readv - read into a vector of buffers, starting at the first.
    Preadv(Vec<Rb>, T),
    /// Write - returns the buffer used as the source for writes, unmodified.
    Pwrite(Wb, T),
    /// Writev - write from a vector of buffers.
    Pwritev(Vec<Wb>, T),
    /// Sync a file descriptor to stable storage.
    Fsync(T),
    /// Sync the data of a file descriptor, not necessarily its metadata.
    Fdsync(T),
}

/// A pool entry: the control block, the operation it describes, and for
/// a vector operation the iovec array that the control block points at,
/// laid out as the kernel reads it (address, then length, per segment).
/// The array lives with the operation, so it stays in place until the
/// operation completes.
pub struct Iocb<T, Wb, Rb> {
    pub iocb: Struct_iocb,
    pub op: IoOp<T, Wb, Rb>,
    pub iov: Vec<u64>,
}

/// `iov` describes segments of lengths `lens`, in order.
pub open spec fn segment_lens(iov: Seq<u64>, lens: Seq<int>) -> bool {
    &&& iov.len() == 2 * lens.len()
    &&& forall|i: int| 0 <= i < lens.len() ==> #[trigger] iov[2 * i + 1] == lens[i]
}

/// The lengths of the regions that reads into `bufs` may fill.
pub open spec fn rd_lens<Rb: RdBuf>(bufs: Seq<Rb>) -> Seq<int> {
    Seq::new(bufs.len(), |i: int| bufs[i].rd_view().len() as int)
}

/// The lengths of what writes from `bufs` send.
pub open spec fn wr_lens<Wb: WrBuf>(bufs: Seq<Wb>) -> Seq<int> {
    Seq::new(bufs.len(), |i: int| bufs[i].wr_view().len() as int)
}

/// The iovec array for reads into `bufs`.
fn rd_segments<Rb: RdBuf>(bufs: &Vec<Rb>) -> (r: Vec<u64>)
    ensures
        segment_lens(r@, rd_lens(bufs@)),
{
    let mut r: Vec<u64> = Vec::new();
    let mut i: usize = 0;
    while i < bufs.len()
        invariant
            i <= bufs@.len(),
            segment_lens(r@, rd_lens(bufs@.subrange(0, i as int))),
        decreases bufs@.len() - i,
    {
        let b = &bufs[i];
        let ghost prev = r@;
        r.push(address_of(b.rdslice()) as u64);
        r.push(b.rdlen() as u64);
        proof {
            assert forall|k: int| 0 <= k < i + 1 implies #[trigger] r@[2 * k + 1] == rd_lens(
                bufs@.subrange(0, i + 1),
            )[k] by {
                if k < i {
                    assert(prev[2 * k + 1] == rd_lens(bufs@.subrange(0, i as int))[k]);
                }
            }
        }
        i = i + 1;
    }
    proof {
        assert(bufs@.subrange(0, i as int) =~= bufs@);
    }
    r
}

/// The iovec array for writes from `bufs`.
fn wr_segments<Wb: WrBuf>(bufs: &Vec<Wb>) -> (r: Vec<u64>)
    ensures
        segment_lens(r@, wr_lens(bufs@)),
{
    let mut r: Vec<u64> = Vec::new();
    let mut i: usize = 0;
    while i < bufs.len()
        invariant
            i <= bufs@.len(),
            segment_lens(r@, wr_lens(bufs@.subrange(0, i as int))),
        decreases bufs@.len() - i,
    {
        let w = bufs[i].wrbuf();
        let ghost prev = r@;
        r.push(address_of(w) as u64);
        r.push(w.len() as u64);
        proof {
            assert forall|k: int| 0 <= k < i + 1 implies #[trigger] r@[2 * k + 1] == wr_lens(
                bufs@.subrange(0, i + 1),
            )[k] by {
                if k < i {
                    assert(prev[2 * k + 1] == wr_lens(bufs@.subrange(0, i as int))[k]);
                }
            }
        }
        i = i + 1;
    }
    proof {
        assert(bufs@.subrange(0, i as int) =~= bufs@);
    }
    r
}

/// All control blocks, and the slots of those batched for the next
/// submission, in queueing order.
pub struct Iobatch<T, Wb, Rb> {
    iocb: Pool<Iocb<T, Wb, Rb>>,
    iocbp: Vec<usize>,
}

impl<T, Wb, Rb> Iobatch<T, Wb, Rb> {
    /// The pool's entries.
    pub closed spec fn slots(&self) -> Seq<Option<Iocb<T, Wb, Rb>>> {
        self.iocb@
    }

    /// The batched slots, oldest first.
    pub closed spec fn queue(&self) -> Seq<usize> {
        self.iocbp@
    }

    /// The free slots, in the order in which they will be used.
    pub closed spec fn free_list(&self) -> Seq<usize> {
        self.iocb.free_list()
    }

    /// The number of occupied slots.
    pub closed spec fn used(&self) -> nat {
        self.iocb.used_spec()
    }

    pub open spec fn occupied(&self, i: int) -> bool {
        0 <= i < self.slots().len() && self.slots()[i] is Some
    }

    /// Well-formedness: the pool is well formed, every batched slot is
    /// occupied and batched once, and every occupied slot's control block
    /// names its own slot in `data`.
    pub closed spec fn wf(&self) -> bool {
        &&& self.iocb.wf()
        &&& self.iocbp@.no_duplicates()
        &&& forall|k: int| 0 <= k < self.iocbp@.len() ==> self.occupied(#[trigger] self.iocbp@[k] as int)
        &&& forall|i: int|
            0 <= i < self.slots().len() && #[trigger] self.slots()[i] is Some ==> self.slots()[i]->Some_0.iocb.data == i
    }

    pub fn new(maxops: usize) -> (r: Iobatch<T, Wb, Rb>)
        requires
            0 < maxops <= isize::MAX,
        ensures
            r.wf(),
            r.slots() == Seq::new(maxops as nat, |i: int| None::<Iocb<T, Wb, Rb>>),
            r.queue() == Seq::<usize>::empty(),
            r.used() == 0,
            r.free_list() == Seq::new(maxops as nat, |i: int| (maxops - 1 - i) as usize),
    {
        Iobatch { iocb: Pool::new(maxops), iocbp: Vec::with_capacity(maxops) }
    }

    /// The number of batched control blocks.
    pub fn len(&self) -> (r: usize)
        ensures
            r == self.queue().len(),
    {
        self.iocbp.len()
    }

    /// The batched slots, oldest first.
    pub fn batch(&self) -> (r: &Vec<usize>)
        ensures
            r@ == self.queue(),
    {
        &self.iocbp
    }

    /// Store `init` in a free slot, point its `data` field at that slot
    /// and batch it. When no slot is free, `init` is handed back.
    pub fn alloc_iocb(&mut self, init: Iocb<T, Wb, Rb>) -> (r: Result<usize, Iocb<T, Wb, Rb>>)
        requires
            old(self).wf(),
        ensures
            final(self).wf(),
            r is Err <==> old(self).free_list().len() == 0,
            r is Err ==> r->Err_0 == init && *final(self) == *old(self),
            r is Ok ==> {
                let idx = r->Ok_0;
                &&& idx == old(self).free_list()[0]
                &&& !old(self).occupied(idx as int)
                &&& final(self).slots() == old(self).slots().update(
                    idx as int,
                    Some(Iocb { iocb: Struct_iocb { data: idx as u64, ..init.iocb }, op: init.op, iov: init.iov }),
                )
                &&& final(self).queue() == old(self).queue().push(idx)
                &&& final(self).free_list() == old(self).free_list().drop_first()
                &&& final(self).used() == old(self).used() + 1
            },
    {
        match self.iocb.allocidx(init) {
            Err(v) => Err(v),
            Ok(idx) => {
                proof {
                    self.iocb.lemma_accounting();
                    assert(!self.iocbp@.contains(idx)) by {
                        if self.iocbp@.contains(idx) {
                            let k = choose|k: int| 0 <= k < self.iocbp@.len() && self.iocbp@[k] == idx;
                            assert(old(self).occupied(self.iocbp@[k] as int));
                        }
                    }
                }
                let entry = self.iocb.index_mut(idx);
                entry.iocb.data = idx as u64;
                self.iocbp.push(idx);
                proof {
                    assert forall|k: int| 0 <= k < self.iocbp@.len() implies self.occupied(
                        #[trigger] self.iocbp@[k] as int,
                    ) by {
                        if k < old(self).iocbp@.len() {
                            assert(old(self).occupied(old(self).iocbp@[k] as int));
                        }
                    }
                    assert forall|i: int| #[trigger] self.occupied(i) implies self.slots()[i]->Some_0.iocb.data
                        == i by {
                        if i != idx {
                            assert(old(self).occupied(i));
                        }
                    }
                }
                Ok(idx)
            },
        }
    }

    /// Release an occupied slot that is not batched, returning its entry.
    pub fn free_iocb(&mut self, idx: usize) -> (r: Iocb<T, Wb, Rb>)
        requires
            old(self).wf(),
            old(self).occupied(idx as int),
            !old(self).queue().contains(idx),
        ensures
            final(self).wf(),
            Some(r) == old(self).slots()[idx as int],
            final(self).slots() == old(self).slots().update(idx as int, None),
            final(self).queue() == old(self).queue(),
            final(self).free_list() == seq![idx].add(old(self).free_list()),
            final(self).used() == old(self).used() - 1,
    {
        let r = self.iocb.freeidx(idx);
        proof {
            assert forall|k: int| 0 <= k < self.iocbp@.len() implies self.occupied(
                #[trigger] self.iocbp@[k] as int,
            ) by {
                assert(old(self).occupied(old(self).iocbp@[k] as int));
            }
            assert forall|i: int| #[trigger] self.occupied(i) implies self.slots()[i]->Some_0.iocb.data
                == i by {
                assert(old(self).occupied(i));
            }
        }
        r
    }
}

/// Context for asynchronous I/O. Every request carries a token of type
/// `T`, which is handed back with its result; `Wb` and `Rb` are the write
/// and read buffer types. Each operation takes ownership of the resources
/// it needs and returns them once it completes, success or failure.
pub struct Iocontext<T, Wb, Rb> {
    maxops: usize,
    batch: Iobatch<T, Wb, Rb>,
    evfd: Option<i32>,
    submitted: usize,
    /// The slots that the kernel holds.
    inflight: Ghost<Set<usize>>,
}

/// What a completion's `res` field means: a byte count, or the negated
/// error number.
pub open spec fn res_of(res: i64) -> Result<usize, u64> {
    if res >= 0 {
        Ok(res as usize)
    } else {
        Err((-res) as u64)
    }
}

/// Convert a completion's `res` field into a byte count or an error
/// number.
pub fn io_result(res: i64) -> (r: Result<usize, u64>)
    ensures
        r == res_of(res),
{
    if res >= 0 {
        Ok(res as usize)
    } else {
        Err(((-(res + 1)) as u64) + 1)
    }
}

impl<T, Wb, Rb> Iocontext<T, Wb, Rb> {
    /// The pool's entries.
    pub closed spec fn slots(&self) -> Seq<Option<Iocb<T, Wb, Rb>>> {
        self.batch.slots()
    }

    /// The batched slots, oldest first.
    pub closed spec fn queue(&self) -> Seq<usize> {
        self.batch.queue()
    }

    /// The slots that the kernel holds.
    pub closed spec fn inflight(&self) -> Set<usize> {
        self.inflight@
    }

    /// The free slots, in the order in which they will be used.
    pub closed spec fn free_list(&self) -> Seq<usize> {
        self.batch.free_list()
    }

    pub closed spec fn maxops_spec(&self) -> nat {
        self.maxops as nat
    }

    pub closed spec fn submitted_spec(&self) -> nat {
        self.submitted as nat
    }

    /// The completion event fd, once one is attached.
    pub closed spec fn evfd_spec(&self) -> Option<i32> {
        self.evfd
    }

    pub open spec fn batched_spec(&self) -> nat {
        self.queue().len()
    }

    pub open spec fn pending_spec(&self) -> nat {
        self.batched_spec() + self.submitted_spec()
    }

    pub open spec fn full_spec(&self) -> bool {
        self.pending_spec() >= self.maxops_spec()
    }

    pub open spec fn occupied(&self, i: int) -> bool {
        0 <= i < self.slots().len() && self.slots()[i] is Some
    }

    /// The slot that the next queued operation will take.
    pub open spec fn next_slot(&self) -> usize {
        self.free_list()[0]
    }

    /// Well-formedness: the batch is well formed over `maxops` slots; the
    /// slots that the kernel holds are exactly the occupied ones that are
    /// not batched, and there are `submitted` of them; so that batched and
    /// submitted operations together occupy the pool.
    pub closed spec fn wf(&self) -> bool {
        &&& self.batch.wf()
        &&& self.batch.slots().len() == self.maxops
        &&& 0 < self.maxops <= isize::MAX
        &&& self.inflight@.finite()
        &&& forall|j: usize| #[trigger]
            self.inflight@.contains(j) <==> (self.occupied(j as int) && !self.queue().contains(j))
        &&& self.submitted == self.inflight@.len()
        &&& self.batch.used() == self.queue().len() + self.submitted
    }

    /// The control block for an operation queued in slot `data`, whose
    /// bytes or iovec array are at address `buf`.
    pub open spec fn control_block(&self, cmd: Iocmd, fd: i32, off: u64, count: u64, buf: u64, data: u64) -> Struct_iocb {
        Struct_iocb {
            data,
            key: 0,
            aio_reserved1: 0,
            aio_lio_opcode: iocmd_code(cmd),
            aio_reqprio: 0,
            aio_fildes: fd as u32,
            aio_buf: buf,
            aio_count: count,
            aio_offset: off,
            aio_reserved2: 0,
            aio_flags: if self.evfd_spec() is Some { IOCB_FLAG_RESFD } else { 0 },
            aio_resfd: match self.evfd_spec() {
                Some(e) => e as u32,
                None => 0,
            },
        }
    }

    /// The entry that `new` holds in the slot that `self` would use next.
    pub open spec fn stored(&self, new: &Self) -> Iocb<T, Wb, Rb> {
        new.slots()[self.next_slot() as int]->Some_0
    }

    /// `new` is `self` with `op` queued in the next free slot, which was
    /// free, under the control block that `cmd`, `fd`, `off` and `count`
    /// describe (with the address of the operation's bytes or iovec array).
    pub open spec fn queued(&self, new: &Self, cmd: Iocmd, fd: i32, off: u64, count: u64, op: IoOp<T, Wb, Rb>) -> bool {
        let idx = self.next_slot();
        let e = self.stored(new);
        &&& idx < self.slots().len()
        &&& !self.occupied(idx as int)
        &&& new.slots() == self.slots().update(idx as int, Some(e))
        &&& e.op == op
        &&& e.iocb == self.control_block(cmd, fd, off, count, e.iocb.aio_buf, idx as u64)
        &&& new.queue() == self.queue().push(idx)
        &&& new.free_list() == self.free_list().drop_first()
        &&& new.inflight() == self.inflight()
        &&& new.submitted_spec() == self.submitted_spec()
        &&& new.maxops_spec() == self.maxops_spec()
        &&& new.evfd_spec() == self.evfd_spec()
    }

    /// A context for at most `maxops` pending operations.
    pub fn new(maxops: usize) -> (r: Iocontext<T, Wb, Rb>)
        requires
            0 < maxops <= isize::MAX,
        ensures
            r.wf(),
            r.maxops_spec() == maxops,
            r.slots() == Seq::new(maxops as nat, |i: int| None::<Iocb<T, Wb, Rb>>),
            r.queue() == Seq::<usize>::empty(),
            r.submitted_spec() == 0,
            r.inflight() == Set::<usize>::empty(),
            r.evfd_spec() is None,
            r.free_list() == Seq::new(maxops as nat, |i: int| (maxops - 1 - i) as usize),
    {
        let r = Iocontext {
            maxops,
            batch: Iobatch::new(maxops),
            evfd: None,
            submitted: 0,
            inflight: Ghost(Set::empty()),
        };
        r
    }

    /// Attach a completion event fd: the control blocks of operations
    /// queued from now on ask the kernel to signal it.
    pub fn set_evfd(&mut self, fd: i32)
        requires
            old(self).wf(),
        ensures
            final(self).wf(),
            final(self).evfd_spec() == Some(fd),
            final(self).slots() == old(self).slots(),
            final(self).queue() == old(self).queue(),
            final(self).free_list() == old(self).free_list(),
            final(self).inflight() == old(self).inflight(),
            final(self).submitted_spec() == old(self).submitted_spec(),
            final(self).maxops_spec() == old(self).maxops_spec(),
    {
        self.evfd = Some(fd);
    }

    /// The attached completion event fd, if any.
    pub fn evfd(&self) -> (r: Option<i32>)
        ensures
            r == self.evfd_spec(),
    {
        self.evfd
    }

    /// Return number of batched entries for the next submission.
    pub fn batched(&self) -> (r: usize)
        ensures
            r == self.batched_spec(),
    {
        self.batch.len()
    }

    /// Number of outstanding submitted ops.
    pub fn submitted(&self) -> (r: usize)
        ensures
            r == self.submitted_spec(),
    {
        self.submitted
    }

    /// Total number of pending operations, batched and submitted.
    pub fn pending(&self) -> (r: usize)
        requires
            self.wf(),
        ensures
            r == self.pending_spec(),
    {
        proof {
            self.batch.iocb.lemma_accounting();
        }
        self.batch.len() + self.submitted
    }

    /// Return max number pending of operations.
    pub fn maxops(&self) -> (r: usize)
        ensures
            r == self.maxops_spec(),
    {
        self.maxops
    }

    /// Returns true if there are already the maximum number of pending
    /// operations.
    pub fn full(&self) -> (r: bool)
        requires
            self.wf(),
        ensures
            r == self.full_spec(),
    {
        self.pending() >= self.maxops
    }

    /// The batched slots, oldest first.
    pub fn batch(&self) -> (r: &Vec<usize>)
        ensures
            r@ == self.queue(),
    {
        self.batch.batch()
    }
}

impl<T, Wb: WrBuf, Rb: RdBuf> Iocontext<T, Wb, Rb> {
    /// The control block for an operation, before it has a slot.
    fn pack_iocb(&self, cmd: Iocmd, fd: i32, off: u64, count: u64, buf: u64) -> (r: Struct_iocb)
        ensures
            r == self.control_block(cmd, fd, off, count, buf, 0),
    {
        Struct_iocb {
            data: 0,
            key: 0,
            aio_reserved1: 0,
            aio_lio_opcode: cmd.code(),
            aio_reqprio: 0,
            aio_fildes: fd as u32,
            aio_buf: buf,
            aio_count: count,
            aio_offset: off,
            aio_reserved2: 0,
            aio_flags: match self.evfd {
                Some(_) => IOCB_FLAG_RESFD,
                None => 0,
            },
            aio_resfd: match self.evfd {
                Some(e) => e as u32,
                None => 0,
            },
        }
    }

    /// Queue `op` under a fresh control block. The context is not full, so
    /// a slot is free.
    fn prep_iocb(&mut self, cmd: Iocmd, fd: i32, off: u64, count: u64, buf: u64, iov: Vec<u64>, op: IoOp<T, Wb, Rb>)
        requires
            old(self).wf(),
            !old(self).full_spec(),
        ensures
            final(self).wf(),
            old(self).queued(final(self), cmd, fd, off, count, op),
            old(self).stored(final(self)).iocb.aio_buf == buf,
            old(self).stored(final(self)).iov == iov,
    {
        let cb = self.pack_iocb(cmd, fd, off, count, buf);
        proof {
            self.batch.iocb.lemma_accounting();
        }
        let ghost old_self = *self;
        match self.batch.alloc_iocb(Iocb { iocb: cb, op, iov }) {
            Ok(idx) => {
                proof {
                    let ctl = old_self.control_block(cmd, fd, off, count, buf, idx as u64);
                    assert(Struct_iocb { data: idx as u64, ..cb } == ctl);
                    assert forall|j: usize| #[trigger]
                        self.inflight@.contains(j) <==> (self.occupied(j as int) && !self.queue().contains(j)) by {
                        if j != idx {
                            assert(old_self.queue().contains(j) <==> self.queue().contains(j)) by {
                                if self.queue().contains(j) {
                                    let k = choose|k: int| 0 <= k < self.queue().len() && self.queue()[k] == j;
                                    assert(old_self.queue()[k] == j);
                                }
                                if old_self.queue().contains(j) {
                                    let k = choose|k: int| 0 <= k < old_self.queue().len() && old_self.queue()[k] == j;
                                    assert(self.queue()[k] == j);
                                }
                            }
                        } else {
                            assert(self.queue()[self.queue().len() - 1] == idx);
                            assert(!old_self.occupied(j as int));
                        }
                    }
                }
            },
            Err(_) => {
                proof {
                    assert(false);
                }
            },
        }
    }

    /// Queue up a pread operation: read into `buf` from offset `off` of
    /// `fd`. When the context is full, the buffer and token are handed back.
    pub fn pread(&mut self, fd: i32, buf: Rb, off: u64, tok: T) -> (r: Result<(), (Rb, T)>)
        requires
            old(self).wf(),
        ensures
            final(self).wf(),
            r is Err <==> old(self).full_spec(),
            r is Err ==> r->Err_0 == (buf, tok) && *final(self) == *old(self),
            r is Ok ==> old(self).queued(
                final(self),
                Iocmd::IO_CMD_PREAD,
                fd,
                off,
                buf.rd_view().len() as u64,
                IoOp::Pread(buf, tok),
            ),
            r is Ok ==> old(self).stored(final(self)).iov@.len() == 0,
    {
        if self.full() {
            Err((buf, tok))
        } else {
            let count = buf.rdlen() as u64;
            let addr = address_of(buf.rdslice()) as u64;
            self.prep_iocb(Iocmd::IO_CMD_PREAD, fd, off, count, addr, Vec::new(), IoOp::Pread(buf, tok));
            Ok(())
        }
    }

    /// Queue up a preadv operation: read into each of `bufv` in turn, from
    /// offset `off` of `fd`.
    pub fn preadv(&mut self, fd: i32, bufv: Vec<Rb>, off: u64, tok: T) -> (r: Result<(), (Vec<Rb>, T)>)
        requires
            old(self).wf(),
        ensures
            final(self).wf(),
            r is Err <==> old(self).full_spec(),
            r is Err ==> r->Err_0 == (bufv, tok) && *final(self) == *old(self),
            r is Ok ==> old(self).queued(
                final(self),
                Iocmd::IO_CMD_PREADV,
                fd,
                off,
                bufv@.len() as u64,
                IoOp::Preadv(bufv, tok),
            ),
            r is Ok ==> segment_lens(old(self).stored(final(self)).iov@, rd_lens(bufv@)),
    {
        if self.full() {
            Err((bufv, tok))
        } else {
            let count = bufv.len() as u64;
            let iov = rd_segments(&bufv);
            let addr = address_of(iov.as_slice()) as u64;
            self.prep_iocb(Iocmd::IO_CMD_PREADV, fd, off, count, addr, iov, IoOp::Preadv(bufv, tok));
            Ok(())
        }
    }

    /// Queue up a pwrite operation: write the bytes of `buf` at offset
    /// `off` of `fd`.
    pub fn pwrite(&mut self, fd: i32, buf: Wb, off: u64, tok: T) -> (r: Result<(), (Wb, T)>)
        requires
            old(self).wf(),
        ensures
            final(self).wf(),
            r is Err <==> old(self).full_spec(),
            r is Err ==> r->Err_0 == (buf, tok) && *final(self) == *old(self),
            r is Ok ==> old(self).queued(
                final(self),
                Iocmd::IO_CMD_PWRITE,
                fd,
                off,
                buf.wr_view().len() as u64,
                IoOp::Pwrite(buf, tok),
            ),
            r is Ok ==> old(self).stored(final(self)).iov@.len() == 0,
    {
        if self.full() {
            Err((buf, tok))
        } else {
            let w = buf.wrbuf();
            let count = w.len() as u64;
            let addr = address_of(w) as u64;
            self.prep_iocb(Iocmd::IO_CMD_PWRITE, fd, off, count, addr, Vec::new(), IoOp::Pwrite(buf, tok));
            Ok(())
        }
    }

    /// Queue up a pwritev operation: write the bytes of each of `bufv` in
    /// turn, from offset `off` of `fd`.
    pub fn pwritev(&mut self, fd: i32, bufv: Vec<Wb>, off: u64, tok: T) -> (r: Result<(), (Vec<Wb>, T)>)
        requires
            old(self).wf(),
        ensures
            final(self).wf(),
            r is Err <==> old(self).full_spec(),
            r is Err ==> r->Err_0 == (bufv, tok) && *final(self) == *old(self),
            r is Ok ==> old(self).queued(
                final(self),
                Iocmd::IO_CMD_PWRITEV,
                fd,
                off,
                bufv@.len() as u64,
                IoOp::Pwritev(bufv, tok),
            ),
            r is Ok ==> segment_lens(old(self).stored(final(self)).iov@, wr_lens(bufv@)),
    {
        if self.full() {
            Err((bufv, tok))
        } else {
            let count = bufv.len() as u64;
            let iov = wr_segments(&bufv);
            let addr = address_of(iov.as_slice()) as u64;
            self.prep_iocb(Iocmd::IO_CMD_PWRITEV, fd, off, count, addr, iov, IoOp::Pwritev(bufv, tok));
            Ok(())
        }
    }

    /// Queue up an fsync operation on `fd`.
    pub fn fsync(&mut self, fd: i32, tok: T) -> (r: Result<(), T>)
        requires
            old(self).wf(),
        ensures
            final(self).wf(),
            r is Err <==> old(self).full_spec(),
            r is Err ==> r->Err_0 == tok && *final(self) == *old(self),
            r is Ok ==> old(self).queued(final(self), Iocmd::IO_CMD_FSYNC, fd, 0, 0, IoOp::Fsync(tok)),
            r is Ok ==> old(self).stored(final(self)).iov@.len() == 0 && old(self).stored(final(self)).iocb.aio_buf == 0,
    {
        if self.full() {
            Err(tok)
        } else {
            self.prep_iocb(Iocmd::IO_CMD_FSYNC, fd, 0, 0, 0, Vec::new(), IoOp::Fsync(tok));
            Ok(())
        }
    }

    /// Queue up an fdatasync operation on `fd`.
    pub fn fdsync(&mut self, fd: i32, tok: T) -> (r: Result<(), T>)
        requires
            old(self).wf(),
        ensures
            final(self).wf(),
            r is Err <==> old(self).full_spec(),
            r is Err ==> r->Err_0 == tok && *final(self) == *old(self),
            r is Ok ==> old(self).queued(final(self), Iocmd::IO_CMD_FDSYNC, fd, 0, 0, IoOp::Fdsync(tok)),
            r is Ok ==> old(self).stored(final(self)).iov@.len() == 0 && old(self).stored(final(self)).iocb.aio_buf == 0,
    {
        if self.full() {
            Err(tok)
        } else {
            self.prep_iocb(Iocmd::IO_CMD_FDSYNC, fd, 0, 0, 0, Vec::new(), IoOp::Fdsync(tok));
            Ok(())
        }
    }
}

impl<T, Wb, Rb> Iocontext<T, Wb, Rb> {
    /// Record the outcome of handing the batch to the kernel, which
    /// returned `r`: the number of control blocks it accepted from the
    /// front of the batch, or a negated error number. Accepted entries
    /// leave the batch and count as submitted; on an error the batch is
    /// kept whole.
    pub fn submit_done(&mut self, r: i64) -> (res: Result<usize, u64>)
        requires
            old(self).wf(),
            r <= old(self).batched_spec(),
        ensures
            final(self).wf(),
            r < 0 ==> res == Err::<usize, u64>((-r) as u64) && *final(self) == *old(self),
            r >= 0 ==> {
                &&& res == Ok::<usize, u64>(r as usize)
                &&& final(self).queue() == old(self).queue().subrange(r as int, old(self).queue().len() as int)
                &&& final(self).inflight() == old(self).inflight().union(
                    old(self).queue().subrange(0, r as int).to_set(),
                )
                &&& final(self).submitted_spec() == old(self).submitted_spec() + r
                &&& final(self).pending_spec() == old(self).pending_spec()
                &&& final(self).slots() == old(self).slots()
                &&& final(self).free_list() == old(self).free_list()
                &&& final(self).maxops_spec() == old(self).maxops_spec()
                &&& final(self).evfd_spec() == old(self).evfd_spec()
            },
    {
        if r < 0 {
            return Err(((-(r + 1)) as u64) + 1);
        }
        let blen = self.batch.len();
        let n = r as usize;
        let ghost q0 = self.queue();
        let mut i: usize = 0;
        while i < n
            invariant
                self.wf(),
                0 <= i <= n <= q0.len(),
                n == r,
                self.queue() == q0.subrange(i as int, q0.len() as int),
                self.inflight() == old(self).inflight().union(q0.subrange(0, i as int).to_set()),
                self.submitted_spec() == old(self).submitted_spec() + i,
                self.slots() == old(self).slots(),
                self.free_list() == old(self).free_list(),
                self.maxops_spec() == old(self).maxops_spec(),
                self.evfd_spec() == old(self).evfd_spec(),
            decreases n - i,
        {
            let ghost before = *self;
            proof {
                self.batch.iocb.lemma_accounting();
            }
            let s = self.batch.iocbp.remove(0);
            proof {
                assert(before.queue()[0] == s);
                assert(before.occupied(s as int));
                assert(!self.queue().contains(s)) by {
                    if self.queue().contains(s) {
                        let k = choose|k: int| 0 <= k < self.queue().len() && self.queue()[k] == s;
                        assert(before.queue()[k + 1] == s);
                    }
                }
                assert(!self.inflight@.contains(s)) by {
                    assert(before.queue().contains(s));
                }
                self.inflight@ = self.inflight@.insert(s);
            }
            self.submitted = self.submitted + 1;
            i = i + 1;
            proof {
                assert(self.queue() =~= q0.subrange(i as int, q0.len() as int));
                let m: int = i - 1;
                let pre = q0.subrange(0, m);
                let cur = q0.subrange(0, i as int);
                assert(cur.to_set() =~= pre.to_set().insert(s)) by {
                    assert(q0[m] == s);
                    assert forall|x: usize| cur.to_set().contains(x) implies pre.to_set().insert(s).contains(x) by {
                        let k = choose|k: int| 0 <= k < cur.len() && cur[k] == x;
                        if k < m {
                            assert(pre[k] == x);
                        }
                    }
                    assert forall|x: usize| pre.to_set().insert(s).contains(x) implies cur.to_set().contains(x) by {
                        if x == s {
                            assert(cur[m] == x);
                        } else {
                            let k = choose|k: int| 0 <= k < pre.len() && pre[k] == x;
                            assert(cur[k] == x);
                        }
                    }
                }
                assert forall|j: usize| #[trigger]
                    self.inflight@.contains(j) <==> (self.occupied(j as int) && !self.queue().contains(j)) by {
                    if j != s {
                        assert(before.queue().contains(j) <==> self.queue().contains(j)) by {
                            if self.queue().contains(j) {
                                let k = choose|k: int| 0 <= k < self.queue().len() && self.queue()[k] == j;
                                assert(before.queue()[k + 1] == j);
                            }
                            if before.queue().contains(j) {
                                let k = choose|k: int| 0 <= k < before.queue().len() && before.queue()[k] == j;
                                assert(k != 0);
                                assert(self.queue()[k - 1] == j);
                            }
                        }
                    }
                }
                assert(self.batch.iocbp@.no_duplicates()) by {
                    assert forall|a: int, b: int| 0 <= a < b < self.queue().len() implies self.queue()[a]
                        != self.queue()[b] by {
                        assert(before.queue()[a + 1] == self.queue()[a]);
                        assert(before.queue()[b + 1] == self.queue()[b]);
                    }
                }
                assert forall|k: int| 0 <= k < self.batch.iocbp@.len() implies self.batch.occupied(
                    #[trigger] self.batch.iocbp@[k] as int,
                ) by {
                    assert(before.batch.iocbp@[k + 1] == self.batch.iocbp@[k]);
                    assert(before.batch.occupied(before.batch.iocbp@[k + 1] as int));
                }
            }
        }
        Ok(n)
    }

    /// Whether slot `idx` is batched.
    fn is_queued(&self, idx: usize) -> (r: bool)
        ensures
            r == self.queue().contains(idx),
    {
        let q = self.batch.batch();
        let mut k: usize = 0;
        while k < q.len()
            invariant
                q@ == self.queue(),
                k <= q@.len(),
                forall|m: int| 0 <= m < k ==> q@[m] != idx,
            decreases q@.len() - k,
        {
            if q[k] == idx {
                return true;
            }
            k = k + 1;
        }
        false
    }

    /// Handle a completion event: release the slot that its `data` field
    /// names and return the operation, with its buffers and token, and the
    /// operation's result. An event that names no slot the kernel holds
    /// changes nothing and gives `None`.
    pub fn complete(&mut self, ev: &Struct_io_event) -> (r: Option<(IoOp<T, Wb, Rb>, Result<usize, u64>)>)
        requires
            old(self).wf(),
        ensures
            final(self).wf(),
            r is Some <==> (ev.data <= usize::MAX && old(self).inflight().contains(ev.data as usize)),
            r is None ==> *final(self) == *old(self),
            r is Some ==> {
                let idx = ev.data as usize;
                &&& r->Some_0.0 == old(self).slots()[idx as int]->Some_0.op
                &&& r->Some_0.1 == res_of(ev.res)
                &&& final(self).slots() == old(self).slots().update(idx as int, None)
                &&& final(self).queue() == old(self).queue()
                &&& final(self).inflight() == old(self).inflight().remove(idx)
                &&& final(self).submitted_spec() == old(self).submitted_spec() - 1
                &&& final(self).free_list() == seq![idx].add(old(self).free_list())
                &&& final(self).maxops_spec() == old(self).maxops_spec()
                &&& final(self).evfd_spec() == old(self).evfd_spec()
            },
    {
        if ev.data > usize::MAX as u64 {
            return None;
        }
        let idx = ev.data as usize;
        if !self.batch.iocb.is_alloc(idx) || self.is_queued(idx) {
            return None;
        }
        let ghost before = *self;
        proof {
            assert(self.inflight@.contains(idx));
            assert(self.inflight@.remove(idx).len() == self.inflight@.len() - 1);
        }
        let entry = self.batch.free_iocb(idx);
        self.submitted = self.submitted - 1;
        proof {
            self.inflight@ = self.inflight@.remove(idx);
            assert forall|j: usize| #[trigger]
                self.inflight@.contains(j) <==> (self.occupied(j as int) && !self.queue().contains(j)) by {
                if j != idx {
                    assert(before.inflight@.contains(j) <==> (before.occupied(j as int) && !before.queue().contains(j)));
                }
            }
        }
        let res = io_result(ev.res);
        Some((entry.op, res))
    }

    /// The control blocks of the batch, oldest first: what the next
    /// submission hands to the kernel, apart from buffer addresses.
    pub fn batch_iocbs(&self) -> (r: Vec<Struct_iocb>)
        requires
            self.wf(),
        ensures
            r@.len() == self.queue().len(),
            forall|k: int|
                0 <= k < self.queue().len() ==> #[trigger] r@[k] == self.slots()[self.queue()[k] as int]->Some_0.iocb,
            forall|k: int| 0 <= k < self.queue().len() ==> #[trigger] r@[k].data == self.queue()[k],
    {
        let q = self.batch.batch();
        let mut out: Vec<Struct_iocb> = Vec::with_capacity(q.len());
        let mut k: usize = 0;
        while k < q.len()
            invariant
                self.wf(),
                q@ == self.queue(),
                k <= q@.len(),
                out@.len() == k,
                forall|m: int| 0 <= m < k ==> #[trigger] out@[m] == self.slots()[q@[m] as int]->Some_0.iocb,
                forall|m: int| 0 <= m < k ==> #[trigger] out@[m].data == q@[m],
            decreases q@.len() - k,
        {
            let s = q[k];
            proof {
                assert(self.batch.occupied(q@[k as int] as int));
            }
            out.push(self.batch.iocb.index(s).iocb);
            k = k + 1;
        }
        out
    }

    /// Whether slot `idx` holds an operation.
    pub fn occupied_slot(&self, idx: usize) -> (r: bool)
        requires
            self.wf(),
        ensures
            r == self.occupied(idx as int),
    {
        self.batch.iocb.is_alloc(idx)
    }

    /// The entry of occupied slot `idx`.
    pub fn iocb(&self, idx: usize) -> (r: &Iocb<T, Wb, Rb>)
        requires
            self.wf(),
            self.occupied(idx as int),
        ensures
            Some(*r) == self.slots()[idx as int],
    {
        self.batch.iocb.index(idx)
    }

    /// Mutable access to the operation in occupied slot `idx`, to work on
    /// its buffers in place. The control block and iovec array stay as they
    /// are, so buffers must not be replaced while the operation is pending.
    pub fn op_mut(&mut self, idx: usize) -> (r: &mut IoOp<T, Wb, Rb>)
        requires
            old(self).wf(),
            old(self).occupied(idx as int),
        ensures
            *r == old(self).slots()[idx as int]->Some_0.op,
            final(self).wf(),
            final(self).slots() == old(self).slots().update(
                idx as int,
                Some(
                    Iocb {
                        iocb: old(self).slots()[idx as int]->Some_0.iocb,
                        op: *final(r),
                        iov: old(self).slots()[idx as int]->Some_0.iov,
                    },
                ),
            ),
            final(self).queue() == old(self).queue(),
            final(self).inflight() == old(self).inflight(),
            final(self).free_list() == old(self).free_list(),
            final(self).submitted_spec() == old(self).submitted_spec(),
            final(self).maxops_spec() == old(self).maxops_spec(),
            final(self).evfd_spec() == old(self).evfd_spec(),
    {
        let entry = self.batch.iocb.index_mut(idx);
        &mut entry.op
    }
}

impl<T, Wb, Rb> Iocontext<T, Wb, Rb> {
    /// Batched and submitted operations together never exceed `maxops`,
    /// and a context that is not full has a free slot, so queueing into it
    /// succeeds. Every operation of the context keeps `wf`, so this holds
    /// after any sequence of queueing, submission and completion.
    pub proof fn lemma_pending_bounded(&self)
        requires
            self.wf(),
        ensures
            self.pending_spec() <= self.maxops_spec(),
            !self.full_spec() ==> self.free_list().len() > 0,
            self.slots().len() == self.maxops_spec(),
    {
        self.batch.iocb.lemma_accounting();
    }

    /// A batched slot is not in flight, so a completion event naming it is
    /// refused and leaves the context, and so its count of batched
    /// operations, as it was.
    pub proof fn lemma_batched_not_in_flight(&self, idx: usize)
        requires
            self.wf(),
            self.queue().contains(idx),
        ensures
            !self.inflight().contains(idx),
    {
    }

    /// A slot that the kernel holds is occupied and not batched.
    pub proof fn lemma_inflight_occupied(&self, idx: usize)
        requires
            self.wf(),
            self.inflight().contains(idx),
        ensures
            self.occupied(idx as int),
            !self.queue().contains(idx),
    {
    }

    /// An operation just queued sits in a batched slot: until the kernel
    /// accepts it, no completion can free it, and the batch has grown by
    /// one.
    pub proof fn lemma_queued_stays_batched(
        &self,
        new: &Self,
        cmd: Iocmd,
        fd: i32,
        off: u64,
        count: u64,
        op: IoOp<T, Wb, Rb>,
    )
        requires
            self.wf(),
            new.wf(),
            self.queued(new, cmd, fd, off, count, op),
        ensures
            new.queue().contains(self.next_slot()),
            !new.inflight().contains(self.next_slot()),
            new.batched_spec() == self.batched_spec() + 1,
    {
        assert(new.queue()[new.queue().len() - 1] == self.next_slot());
    }

    /// The operation that a completion hands back is the one queued in
    /// that slot, with the same buffers and token: queueing stores it,
    /// submission leaves the slots as they are, and completion returns the
    /// slot's operation.
    pub proof fn lemma_completion_returns_queued(
        &self,
        queued: &Self,
        submitted: &Self,
        cmd: Iocmd,
        fd: i32,
        off: u64,
        count: u64,
        op: IoOp<T, Wb, Rb>,
        returned: IoOp<T, Wb, Rb>,
    )
        requires
            self.wf(),
            !self.full_spec(),
            self.queued(queued, cmd, fd, off, count, op),
            submitted.slots() == queued.slots(),
            returned == submitted.slots()[self.next_slot() as int]->Some_0.op,
        ensures
            returned == op,
            submitted.slots()[self.next_slot() as int]->Some_0.iocb == self.control_block(
                cmd,
                fd,
                off,
                count,
                submitted.slots()[self.next_slot() as int]->Some_0.iocb.aio_buf,
                self.next_slot() as u64,
            ),
    {
        self.lemma_pending_bounded();
        self.batch.iocb.lemma_accounting();
        assert(self.free_list()[0] < self.slots().len());
    }
}

/// Whether one of the first `k` events names slot `x`.
pub open spec fn harvested(evs: Seq<Struct_io_event>, k: int, x: usize) -> bool {
    exists|j: int| 0 <= j < k && #[trigger] evs[j].data == x as u64
}

impl<T, Wb, Rb> Iocontext<T, Wb, Rb> {
    /// Whether event `j` of `evs` can be handled once the events before it
    /// have been: it names a slot that the kernel holds and that no
    /// earlier event named.
    pub open spec fn event_ok(&self, evs: Seq<Struct_io_event>, j: int) -> bool {
        &&& evs[j].data <= usize::MAX
        &&& self.inflight().contains(evs[j].data as usize)
        &&& !harvested(evs, j, evs[j].data as usize)
    }

    /// The position of the first event that cannot be handled after the
    /// ones before it, if any.
    fn first_bad_event(&self, evs: &[Struct_io_event]) -> (r: Option<usize>)
        requires
            self.wf(),
        ensures
            r is None <==> forall|j: int| 0 <= j < evs@.len() ==> self.event_ok(evs@, j),
            r matches Some(i) ==> {
                &&& i < evs@.len()
                &&& !self.event_ok(evs@, i as int)
                &&& forall|j: int| 0 <= j < i ==> self.event_ok(evs@, j)
            },
    {
        let mut j: usize = 0;
        while j < evs.len()
            invariant
                self.wf(),
                j <= evs@.len(),
                forall|m: int| 0 <= m < j ==> self.event_ok(evs@, m),
            decreases evs@.len() - j,
        {
            let d = evs[j].data;
            if d > usize::MAX as u64 {
                proof {
                    assert(!self.event_ok(evs@, j as int));
                }
                return Some(j);
            }
            let x = d as usize;
            if !self.occupied_slot(x) || self.is_queued(x) {
                proof {
                    assert(!self.inflight().contains(x));
                    assert(!self.event_ok(evs@, j as int));
                }
                return Some(j);
            }
            let mut m: usize = 0;
            while m < j
                invariant
                    self.wf(),
                    j < evs@.len(),
                    m <= j,
                    d == evs@[j as int].data,
                    d <= usize::MAX,
                    x == d as usize,
                    forall|k: int| 0 <= k < j ==> self.event_ok(evs@, k),
                    forall|k: int| 0 <= k < m ==> evs@[k].data != d,
                decreases j - m,
            {
                if evs[m].data == d {
                    proof {
                        assert(evs@[m as int].data == x as u64);
                        assert(harvested(evs@, j as int, x));
                        assert(!self.event_ok(evs@, j as int));
                    }
                    return Some(j);
                }
                m = m + 1;
            }
            proof {
                assert(self.inflight().contains(x));
                assert(!harvested(evs@, j as int, x)) by {
                    if harvested(evs@, j as int, x) {
                        let k = choose|k: int| 0 <= k < j && #[trigger] evs@[k].data == x as u64;
                    }
                }
            }
            j = j + 1;
        }
        None
    }

    /// Handle a run of completion events in order, as `complete` does one:
    /// the operations come back in event order, each with its result.
    /// When an event names no slot that the kernel still holds once the
    /// events before it are handled, nothing is handled and the position
    /// of the first such event comes back.
    pub fn harvest(&mut self, evs: &[Struct_io_event]) -> (r: Result<Vec<(IoOp<T, Wb, Rb>, Result<usize, u64>)>, usize>)
        requires
            old(self).wf(),
        ensures
            final(self).wf(),
            r is Ok <==> forall|j: int| 0 <= j < evs@.len() ==> old(self).event_ok(evs@, j),
            r matches Err(i) ==> {
                &&& i < evs@.len()
                &&& !old(self).event_ok(evs@, i as int)
                &&& forall|j: int| 0 <= j < i ==> old(self).event_ok(evs@, j)
                &&& *final(self) == *old(self)
            },
            r matches Ok(v) ==> {
                &&& v@.len() == evs@.len()
                &&& forall|j: int|
                    0 <= j < evs@.len() ==> (#[trigger] v@[j]).0 == old(self).slots()[evs@[j].data as int]->Some_0.op
                        && v@[j].1 == res_of(evs@[j].res)
                &&& final(self).submitted_spec() == old(self).submitted_spec() - evs@.len()
                &&& final(self).queue() == old(self).queue()
                &&& forall|x: usize|
                    #[trigger] final(self).inflight().contains(x) <==> (old(self).inflight().contains(x)
                        && !harvested(evs@, evs@.len() as int, x))
                &&& final(self).slots().len() == old(self).slots().len()
                &&& forall|i: int|
                    0 <= i < old(self).slots().len() ==> #[trigger] final(self).slots()[i] == (if harvested(
                        evs@,
                        evs@.len() as int,
                        i as usize,
                    ) {
                        None
                    } else {
                        old(self).slots()[i]
                    })
            },
    {
        if let Some(i) = self.first_bad_event(evs) {
            return Err(i);
        }
        let mut out: Vec<(IoOp<T, Wb, Rb>, Result<usize, u64>)> = Vec::new();
        let mut k: usize = 0;
        while k < evs.len()
            invariant
                self.wf(),
                forall|j: int| 0 <= j < evs@.len() ==> old(self).event_ok(evs@, j),
                k <= evs@.len(),
                out@.len() == k,
                forall|j: int| 0 <= j < k ==> old(self).event_ok(evs@, j),
                forall|j: int|
                    0 <= j < k ==> (#[trigger] out@[j]).0 == old(self).slots()[evs@[j].data as int]->Some_0.op
                        && out@[j].1 == res_of(evs@[j].res),
                self.submitted_spec() == old(self).submitted_spec() - k,
                self.queue() == old(self).queue(),
                forall|x: usize|
                    #[trigger] self.inflight().contains(x) <==> (old(self).inflight().contains(x) && !harvested(
                        evs@,
                        k as int,
                        x,
                    )),
                self.slots().len() == old(self).slots().len(),
                forall|i: int|
                    0 <= i < old(self).slots().len() ==> #[trigger] self.slots()[i] == (if harvested(
                        evs@,
                        k as int,
                        i as usize,
                    ) {
                        None
                    } else {
                        old(self).slots()[i]
                    }),
            decreases evs@.len() - k,
        {
            let ghost before = *self;
            let ev = &evs[k];
            match self.complete(ev) {
                None => {
                    proof {
                        let x = evs@[k as int].data as usize;
                        assert(old(self).event_ok(evs@, k as int));
                        assert(self.inflight().contains(x));
                    }
                    return vstd::pervasive::unreached();
                },
                Some(done) => {
                    proof {
                        let x = evs@[k as int].data as usize;
                        assert(old(self).event_ok(evs@, k as int));
                        assert(!harvested(evs@, k as int, x));
                        assert(0 <= x < old(self).slots().len());
                        assert(before.slots()[x as int] == old(self).slots()[x as int]);
                        assert forall|y: usize| harvested(evs@, k + 1, y) <==> (harvested(evs@, k as int, y) || y == x) by {
                            if harvested(evs@, k + 1, y) {
                                let j = choose|j: int| 0 <= j < k + 1 && #[trigger] evs@[j].data == y as u64;
                                if j < k {
                                    assert(evs@[j].data == y as u64);
                                }
                            }
                            if y == x {
                                assert(evs@[k as int].data == y as u64);
                            }
                            if harvested(evs@, k as int, y) {
                                let j = choose|j: int| 0 <= j < k && #[trigger] evs@[j].data == y as u64;
                                assert(evs@[j].data == y as u64);
                            }
                        }
                        assert forall|i: int| 0 <= i < old(self).slots().len() implies #[trigger] self.slots()[i] == (if harvested(
                            evs@,
                            k + 1,
                            i as usize,
                        ) {
                            None
                        } else {
                            old(self).slots()[i]
                        }) by {
                            assert(before.slots()[i] == (if harvested(evs@, k as int, i as usize) {
                                None
                            } else {
                                old(self).slots()[i]
                            }));
                        }
                    }
                    out.push(done);
                },
            }
            k = k + 1;
        }
        Ok(out)
    }
}

} // verus!
