//! Fixed-capacity slot pool with an intrusive free list.
use vstd::prelude::*;
use crate::addr::address_of;

verus! {

/// One entry of the pool: either linked into the free list (holding the
/// index of the next free entry, or -1 at the end of the list) or holding
/// an allocated value.
pub enum Slot<T> {
    Free(isize),
    Alloc(T),
}

impl<T> Slot<T> {
    pub open spec fn view_opt(self) -> Option<T> {
        match self {
            Slot::Free(_) => None,
            Slot::Alloc(v) => Some(v),
        }
    }
}

/// Simple fixed size pool allocator.
///
/// Entries keep their index from allocation to release, and the backing
/// storage never grows or shrinks, so an allocated value never moves.
pub struct Pool<T> {
    pool: Vec<Slot<T>>,
    freelist: isize,
    used: usize,
    /// The address of the first entry; entries never move.
    base_addr: usize,
    /// The free list, head first.
    free_seq: Ghost<Seq<usize>>,
    /// The indices of the allocated entries.
    alloc_set: Ghost<Set<usize>>,
}

/// The value of the free-list link that follows position `i` of `fl`.
pub open spec fn link_after(fl: Seq<usize>, i: int) -> isize {
    if i + 1 < fl.len() {
        fl[i + 1] as isize
    } else {
        -1isize
    }
}

impl<T> Pool<T> {
    /// What each entry holds: `None` for a free entry.
    pub closed spec fn view(&self) -> Seq<Option<T>> {
        Seq::new(self.pool@.len(), |i: int| self.pool@[i].view_opt())
    }

    /// The free entries in the order in which they will be handed out.
    pub closed spec fn free_list(&self) -> Seq<usize> {
        self.free_seq@
    }

    /// The number of allocated entries.
    pub closed spec fn used_spec(&self) -> nat {
        self.used as nat
    }

    /// The capacity.
    pub open spec fn limit_spec(&self) -> nat {
        self.view().len()
    }

    /// Whether entry `i` holds a value.
    pub open spec fn is_allocated(&self, i: int) -> bool {
        0 <= i < self.view().len() && self.view()[i] is Some
    }

    /// Well-formedness: the free list is a duplicate-free chain of links
    /// through exactly the free entries, and the allocated entries number
    /// `used`, so that `used` plus the length of the free list is the
    /// capacity.
    pub closed spec fn wf(&self) -> bool {
        let fl = self.free_seq@;
        let n = self.pool@.len();
        &&& n <= isize::MAX
        &&& self.freelist == (if fl.len() == 0 { -1isize } else { fl[0] as isize })
        &&& fl.no_duplicates()
        &&& forall|k: int| 0 <= k < fl.len() ==> #[trigger] fl[k] < n
        &&& forall|k: int|
            0 <= k < fl.len() ==> self.pool@[#[trigger] fl[k] as int] == Slot::<T>::Free(
                link_after(fl, k),
            )
        &&& forall|j: usize|
            #![trigger fl.contains(j)]
            #![trigger self.pool@[j as int]]
            j < n ==> (self.pool@[j as int] is Free <==> fl.contains(j))
        &&& self.alloc_set@.finite()
        &&& forall|j: usize| self.alloc_set@.contains(j) <==> (j < n && self.pool@[j as int] is Alloc)
        &&& self.used == self.alloc_set@.len()
        &&& self.used + fl.len() == n
    }

    /// Create a new pool with `size` entries, all free.
    pub fn new(size: usize) -> (r: Pool<T>)
        requires
            0 < size <= isize::MAX,
        ensures
            r.wf(),
            r@ == Seq::new(size as nat, |i: int| None::<T>),
            r.used_spec() == 0,
            r.free_list() == Seq::new(size as nat, |i: int| (size - 1 - i) as usize),
    {
        let mut pool: Vec<Slot<T>> = Vec::with_capacity(size);
        let mut i: usize = 0;
        while i < size
            invariant
                i <= size <= isize::MAX,
                pool@.len() == i,
                forall|j: int| 0 <= j < i ==> #[trigger] pool@[j] == Slot::<T>::Free((j - 1) as isize),
            decreases size - i,
        {
            pool.push(Slot::Free((i as isize) - 1));
            i = i + 1;
        }
        let ghost fl = Seq::new(size as nat, |k: int| (size - 1 - k) as usize);
        let base_addr = address_of(pool.as_slice());
        let r = Pool {
            pool,
            freelist: (size - 1) as isize,
            used: 0,
            base_addr,
            free_seq: Ghost(fl),
            alloc_set: Ghost(Set::empty()),
        };
        proof {
            assert forall|j: usize| j < size implies fl.contains(j) by {
                assert(fl[size - 1 - j] == j);
            }
            assert forall|k: int| 0 <= k < fl.len() implies r.pool@[#[trigger] fl[k] as int]
                == Slot::<T>::Free(link_after(fl, k)) by {
                if k + 1 < fl.len() {
                    assert(fl[k + 1] == (size - 1 - k - 1) as usize);
                }
            }
            assert(r@ =~= Seq::new(size as nat, |i: int| None::<T>));
        }
        r
    }
    /// Allocate an entry holding `init`. The entry at the head of the free
    /// list is used; when no entry is free, `init` is handed back.
    pub fn allocidx(&mut self, init: T) -> (r: Result<usize, T>)
        requires
            old(self).wf(),
        ensures
            final(self).wf(),
            old(self).free_list().len() == 0 <==> r is Err,
            r is Err ==> r->Err_0 == init && *final(self) == *old(self),
            r is Ok ==> {
                let idx = r->Ok_0;
                &&& idx == old(self).free_list()[0]
                &&& idx < old(self)@.len()
                &&& !old(self).is_allocated(idx as int)
                &&& final(self)@ == old(self)@.update(idx as int, Some(init))
                &&& final(self).free_list() == old(self).free_list().drop_first()
                &&& final(self).used_spec() == old(self).used_spec() + 1
                &&& final(self).base_address() == old(self).base_address()
            },
    {
        let idx = self.freelist;
        if idx != -1 {
            let ghost fl = self.free_seq@;
            proof {
                assert(fl.contains(fl[0]));
            }
            let next = match &self.pool[idx as usize] {
                Slot::Free(fl) => *fl,
                Slot::Alloc(_) => -1,
            };
            let ghost old_pool = self.pool@;
            self.freelist = next;
            self.pool.set(idx as usize, Slot::Alloc(init));
            self.used = self.used + 1;
            proof {
                let nfl = fl.drop_first();
                self.free_seq@ = nfl;
                assert(!self.alloc_set@.contains(idx as usize));
                self.alloc_set@ = self.alloc_set@.insert(idx as usize);
                assert forall|k: int| 0 <= k < nfl.len() implies self.pool@[#[trigger] nfl[k] as int]
                    == Slot::<T>::Free(link_after(nfl, k)) by {
                    assert(nfl[k] == fl[k + 1]);
                    assert(old_pool[fl[k + 1] as int] == Slot::<T>::Free(link_after(fl, k + 1)));
                }
                assert forall|j: usize| j < self.pool@.len() implies (self.pool@[j as int] is Free
                    <==> nfl.contains(j)) by {
                    if j == idx as usize {
                        if nfl.contains(j) {
                            let k = choose|k: int| 0 <= k < nfl.len() && nfl[k] == j;
                            assert(fl[k + 1] == fl[0]);
                        }
                    } else {
                        if fl.contains(j) {
                            let k = choose|k: int| 0 <= k < fl.len() && fl[k] == j;
                            assert(nfl[k - 1] == j);
                        }
                        if nfl.contains(j) {
                            let k = choose|k: int| 0 <= k < nfl.len() && nfl[k] == j;
                            assert(fl[k + 1] == j);
                        }
                    }
                }
                assert(self@ =~= old(self)@.update(idx as int, Some(init)));
            }
            Ok(idx as usize)
        } else {
            Err(init)
        }
    }

    /// Release entry `idx` and return the value it held. The entry becomes
    /// the head of the free list, so the next allocation reuses it.
    pub fn freeidx(&mut self, idx: usize) -> (r: T)
        requires
            old(self).wf(),
            old(self).is_allocated(idx as int),
        ensures
            final(self).wf(),
            Some(r) == old(self)@[idx as int],
            final(self)@ == old(self)@.update(idx as int, None),
            final(self).free_list() == seq![idx].add(old(self).free_list()),
            final(self).used_spec() == old(self).used_spec() - 1,
            final(self).base_address() == old(self).base_address(),
    {
        let ghost fl = self.free_seq@;
        let ghost old_pool = self.pool@;
        proof {
            assert(self.pool@[idx as int] is Alloc);
            assert(self.alloc_set@.contains(idx));
            assert(self.alloc_set@.remove(idx).len() == self.alloc_set@.len() - 1);
        }
        let old_head = self.freelist;
        let mut slot = Slot::Free(old_head);
        std::mem::swap(&mut self.pool[idx], &mut slot);
        self.freelist = idx as isize;
        self.used = self.used - 1;
        proof {
            let nfl = seq![idx].add(fl);
            self.free_seq@ = nfl;
            self.alloc_set@ = self.alloc_set@.remove(idx);
            assert(!fl.contains(idx));
            assert forall|k: int| 0 <= k < nfl.len() implies #[trigger] nfl[k] < self.pool@.len() by {
                if k > 0 {
                    assert(nfl[k] == fl[k - 1]);
                }
            }
            assert forall|k: int| 0 <= k < nfl.len() implies self.pool@[#[trigger] nfl[k] as int]
                == Slot::<T>::Free(link_after(nfl, k)) by {
                if k > 0 {
                    assert(nfl[k] == fl[k - 1]);
                    assert(old_pool[fl[k - 1] as int] == Slot::<T>::Free(link_after(fl, k - 1)));
                }
            }
            assert forall|j: usize| j < self.pool@.len() implies (self.pool@[j as int] is Free
                <==> nfl.contains(j)) by {
                if j == idx {
                    assert(nfl[0] == idx);
                } else {
                    if fl.contains(j) {
                        let k = choose|k: int| 0 <= k < fl.len() && fl[k] == j;
                        assert(nfl[k + 1] == j);
                    }
                    if nfl.contains(j) {
                        let k = choose|k: int| 0 <= k < nfl.len() && nfl[k] == j;
                        assert(fl[k - 1] == j);
                    }
                }
            }
            assert(nfl.no_duplicates()) by {
                assert forall|a: int, b: int| 0 <= a < b < nfl.len() implies nfl[a] != nfl[b] by {
                    if a == 0 {
                        assert(fl[b - 1] == nfl[b]);
                    }
                }
            }
            assert(self@ =~= old(self)@.update(idx as int, None));
        }
        match slot {
            Slot::Alloc(v) => v,
            Slot::Free(_) => vstd::pervasive::unreached(),
        }
    }

    /// Return the max number of pool entries (size passed to `new`).
    pub fn limit(&self) -> (r: usize)
        requires
            self.wf(),
        ensures
            r == self.limit_spec(),
    {
        self.pool.len()
    }

    /// Return number of currently allocated entries.
    pub fn used(&self) -> (r: usize)
        requires
            self.wf(),
        ensures
            r == self.used_spec(),
    {
        self.used
    }

    /// Return number of remaining unused entries.
    pub fn avail(&self) -> (r: usize)
        requires
            self.wf(),
        ensures
            r == self.limit_spec() - self.used_spec(),
            r == self.free_list().len(),
    {
        self.pool.len() - self.used
    }

    /// The value held by allocated entry `idx`.
    pub fn index(&self, idx: usize) -> (r: &T)
        requires
            self.wf(),
            self.is_allocated(idx as int),
        ensures
            Some(*r) == self@[idx as int],
    {
        match &self.pool[idx] {
            Slot::Alloc(v) => v,
            Slot::Free(_) => vstd::pervasive::unreached(),
        }
    }
    /// Mutable access to the value held by allocated entry `idx`.
    pub fn index_mut(&mut self, idx: usize) -> (r: &mut T)
        requires
            old(self).wf(),
            old(self).is_allocated(idx as int),
        ensures
            Some(*r) == old(self)@[idx as int],
            final(self).wf(),
            final(self)@ == old(self)@.update(idx as int, Some(*final(r))),
            final(self).free_list() == old(self).free_list(),
            final(self).used_spec() == old(self).used_spec(),
            final(self).base_address() == old(self).base_address(),
    {
        let ghost old_self = *self;
        let r = match &mut self.pool[idx] {
            Slot::Alloc(v) => v,
            Slot::Free(_) => vstd::pervasive::unreached(),
        };
        r
    }
    /// Pool bookkeeping: the allocated entries and the free list together
    /// account for the capacity exactly, the free list holds no entry
    /// twice (so it has no cycle), and an entry is on the free list exactly
    /// when it holds no value.
    pub proof fn lemma_accounting(&self)
        requires
            self.wf(),
        ensures
            self.used_spec() + self.free_list().len() == self.limit_spec(),
            self.free_list().no_duplicates(),
            forall|j: usize|
                j < self.limit_spec() ==> (!self.is_allocated(j as int) <==> #[trigger] self.free_list().contains(j)),
            forall|k: int| 0 <= k < self.free_list().len() ==> #[trigger] self.free_list()[k] < self.limit_spec(),
    {
        assert forall|j: usize| j < self.limit_spec() implies (!self.is_allocated(j as int)
            <==> #[trigger] self.free_list().contains(j)) by {
            assert(self.pool@[j as int] is Free <==> self.free_seq@.contains(j));
        }
    }

    /// Whether entry `idx` holds a value; false for an index past the end.
    pub fn is_alloc(&self, idx: usize) -> (r: bool)
        requires
            self.wf(),
        ensures
            r == self.is_allocated(idx as int),
    {
        if idx < self.pool.len() {
            match &self.pool[idx] {
                Slot::Alloc(_) => true,
                Slot::Free(_) => false,
            }
        } else {
            false
        }
    }
    /// The address of the first entry.
    pub closed spec fn base_address(&self) -> int {
        self.base_addr as int
    }

    /// The entry that the address `addr` falls in, if it falls in one:
    /// entries are laid out back to back from the base address.
    pub open spec fn entry_at(&self, addr: int) -> Option<int> {
        let sz = vstd::layout::size_of::<Slot<T>>() as int;
        if sz > 0 && addr >= self.base_address() && (addr - self.base_address()) / sz < self.limit_spec() {
            Some((addr - self.base_address()) / sz)
        } else {
            None
        }
    }

    /// Release the allocated entry whose storage holds address `addr`,
    /// such as the address of its value, and return the value. Gives
    /// `None`, changing nothing, when the address falls in no allocated
    /// entry.
    pub fn freeptr(&mut self, addr: usize) -> (r: Option<T>)
        requires
            old(self).wf(),
        ensures
            final(self).wf(),
            r is Some <==> (old(self).entry_at(addr as int) matches Some(i) && old(self).is_allocated(i)),
            r is None ==> *final(self) == *old(self),
            r is Some ==> {
                let idx = old(self).entry_at(addr as int)->Some_0;
                &&& r == old(self)@[idx]
                &&& final(self)@ == old(self)@.update(idx, None)
                &&& final(self).free_list() == seq![idx as usize].add(old(self).free_list())
                &&& final(self).used_spec() == old(self).used_spec() - 1
                &&& final(self).base_address() == old(self).base_address()
            },
    {
        let sz = core::mem::size_of::<Slot<T>>();
        if sz == 0 || addr < self.base_addr {
            return None;
        }
        let idx = (addr - self.base_addr) / sz;
        if idx < self.pool.len() && self.is_alloc(idx) {
            Some(self.freeidx(idx))
        } else {
            None
        }
    }
    /// The address where entry `idx` starts: every address from there up
    /// to the next entry falls in entry `idx`, so `freeptr` of any of them
    /// releases it. `None` only when the address does not fit in `usize`.
    pub fn entry_address(&self, idx: usize) -> (r: Option<usize>)
        requires
            self.wf(),
            idx < self.limit_spec(),
        ensures
            r matches Some(a) ==> {
                &&& a == self.base_address() + idx * vstd::layout::size_of::<Slot<T>>()
                &&& forall|off: int|
                    0 <= off < vstd::layout::size_of::<Slot<T>>() ==> #[trigger] self.entry_at(a + off) == Some(
                        idx as int,
                    )
            },
            r is None <==> (vstd::layout::size_of::<Slot<T>>() == 0 || self.base_address() + idx
                * vstd::layout::size_of::<Slot<T>>() > usize::MAX),
    {
        let sz = core::mem::size_of::<Slot<T>>();
        if sz == 0 {
            return None;
        }
        match idx.checked_mul(sz) {
            None => {
                proof {
                    assert(self.base_address() + idx * sz >= idx * sz);
                }
                None
            },
            Some(m) => match self.base_addr.checked_add(m) {
                None => None,
                Some(a) => {
                    proof {
                        assert forall|off: int| 0 <= off < sz implies #[trigger] self.entry_at(a + off) == Some(
                            idx as int,
                        ) by {
                            let s = sz as int;
                            let i = idx as int;
                            assert((i * s + off) / s == i) by (nonlinear_arith)
                                requires
                                    s > 0,
                                    0 <= off < s,
                                    i >= 0,
                            ;
                        }
                    }
                    Some(a)
                },
            },
        }
    }
}

} // verus!
