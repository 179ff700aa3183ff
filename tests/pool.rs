use aio::pool::Pool;

/// The address of `r`, read from its pointer formatting.
fn addr_of<T>(r: &T) -> usize {
    let s = format!("{:p}", r);
    usize::from_str_radix(s.trim_start_matches("0x"), 16).unwrap()
}

#[test]
fn pool_alloc() {
    let mut p = Pool::new(4);

    assert!(p.limit() == 4);
    assert!(p.used() == 0);
    assert!(p.avail() == 4);

    for i in 0..4 {
        let idx = p.allocidx(i);

        assert!(p.used() == (i + 1) as usize);
        assert!(idx.is_ok());
        assert!(*p.index(idx.ok().unwrap()) == i);
    }

    assert!(p.avail() == 0);
    let idx = p.allocidx(10);
    assert!(p.avail() == 0);
    assert!(idx.is_err());
}

#[test]
fn free() {
    let mut p = Pool::new(4);
    let mut v = Vec::new();

    assert!(p.limit() == 4);
    assert!(p.used() == 0);
    assert!(p.avail() == 4);

    for i in 0..20 {
        let idx = p.allocidx(i);

        assert!(idx.is_ok());
        assert!(idx.unwrap() < 4);
        assert!(*p.index(idx.unwrap()) == i);

        v.push(idx.unwrap());

        if p.avail() == 0 {
            p.freeidx(v.remove(0));
            assert!(p.avail() == 1);
        }
    }
}

#[test]
fn pool_free_reuses_slot() {
    let mut p = Pool::new(4);
    let mut idx = Vec::new();
    for v in 0..4 {
        idx.push(p.allocidx(v * 10).ok().unwrap());
    }
    assert_eq!(p.freeidx(idx[2]), 20);
    assert_eq!(p.used(), 3);
    assert_eq!(p.allocidx(99).ok().unwrap(), idx[2]);
    assert_eq!(*p.index(idx[2]), 99);
    assert_eq!(p.used(), 4);
}

#[test]
fn pool_allocation_order() {
    let mut p = Pool::new(3);
    assert_eq!(p.allocidx('a').ok().unwrap(), 2);
    assert_eq!(p.allocidx('b').ok().unwrap(), 1);
    assert_eq!(p.allocidx('c').ok().unwrap(), 0);
    assert_eq!(p.allocidx('d').err().unwrap(), 'd');
}

#[test]
fn pool_counts_balance() {
    let mut p = Pool::new(5);
    let a = p.allocidx(1u8).ok().unwrap();
    let b = p.allocidx(2u8).ok().unwrap();
    assert_eq!(p.used() + p.avail(), p.limit());
    p.freeidx(a);
    assert_eq!(p.used() + p.avail(), p.limit());
    p.freeidx(b);
    assert_eq!(p.used(), 0);
    assert_eq!(p.avail(), 5);
    assert!(!p.is_alloc(a));
    assert!(!p.is_alloc(7));
}

#[test]
fn pool_index_mut_writes() {
    let mut p = Pool::new(2);
    let i = p.allocidx(5).ok().unwrap();
    *p.index_mut(i) = 6;
    assert_eq!(*p.index(i), 6);
    assert!(p.is_alloc(i));
}

#[test]
fn freeptr() {
    let mut p = Pool::new(4);
    let mut v = Vec::new();

    assert!(p.limit() == 4);
    assert!(p.used() == 0);
    assert!(p.avail() == 4);

    for i in 0..20 {
        let idx = p.allocidx(i);

        assert!(idx.is_ok());
        assert!(idx.ok().unwrap() < 4);
        assert!(*p.index(idx.ok().unwrap()) == i);

        v.push(addr_of(p.index(idx.ok().unwrap())));

        if p.avail() == 0 {
            assert!(p.freeptr(v.remove(0)).is_some());
            assert!(p.avail() == 1);
        }
    }
}

#[test]
fn freeptr_reuses_slot() {
    let mut p = Pool::new(4);
    let mut addrs = Vec::new();
    let mut idx = Vec::new();
    for v in 0..4i64 {
        let i = p.allocidx(v * 10).ok().unwrap();
        idx.push(i);
        addrs.push(addr_of(p.index(i)));
    }
    assert_eq!(p.freeptr(addrs[2]), Some(20));
    assert_eq!(p.allocidx(77).ok().unwrap(), idx[2]);
    assert_eq!(*p.index(idx[2]), 77);
}

#[test]
fn freeptr_outside_pool_changes_nothing() {
    let mut p = Pool::new(4);
    let i = p.allocidx(1i64).ok().unwrap();
    let foo: i64 = 1;
    let a = addr_of(p.index(i));
    assert_eq!(p.freeptr(addr_of(&foo)), None);
    assert_eq!(p.freeptr(a - 256), None);
    assert_eq!(p.used(), 1);
    assert_eq!(p.freeptr(a), Some(1));
    assert_eq!(p.freeptr(a), None);
}

#[test]
fn entry_address_maps_back() {
    let mut p = Pool::new(4);
    let mut idx = Vec::new();
    for v in 0..4u64 {
        idx.push(p.allocidx(v).ok().unwrap());
    }
    let payload = addr_of(p.index(idx[2]));
    let start = p.entry_address(idx[2]).unwrap();
    let next = p.entry_address(idx[2] + 1).unwrap();
    assert!(start <= payload && payload < next);
    assert_eq!(p.freeptr(payload).is_some(), true);
    assert_eq!(p.allocidx(2).ok().unwrap(), idx[2]);
    assert_eq!(p.freeptr(start), Some(2));
    assert_eq!(p.used(), 3);
    assert_eq!(p.avail(), 1);
    assert!(!p.is_alloc(idx[2]));
    for k in [0usize, 1, 3].iter() {
        assert_eq!(*p.index(idx[*k]), *k as u64);
    }
}
