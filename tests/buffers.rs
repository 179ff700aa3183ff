use aio::aligned::{ispower2, AlignedBuf};
use aio::{RdBuf, WrBuf};

fn alloc_buf(size: usize, align: usize) -> AlignedBuf {
    match AlignedBuf::alloc_zeroed(size, align) {
        None => panic!("alloc failed"),
        Some(p) => p,
    }
}

#[test]
fn aligned() {
    let p = alloc_buf(16, 16);
    assert_eq!(p.as_slice().len(), 16);

    let p = alloc_buf(10, 16);
    assert_eq!(p.as_slice().len(), 16);

    let p = alloc_buf(17, 16);
    assert_eq!(p.as_slice().len(), 32);
}

#[test]
fn aligned_address() {
    for &align in [1usize, 8, 512, 4096].iter() {
        let mut b = alloc_buf(100, align);
        let addr = b.rdbuf().as_ptr() as usize;
        assert_eq!(addr % align, 0);
        assert_eq!(b.len() % align, 0);
        assert!(b.valid() <= b.len());
        assert_eq!(b.alignment(), align);
    }
}

#[test]
fn alloc_uninit_has_no_valid_bytes() {
    let b = AlignedBuf::alloc_uninit(100, 64).unwrap();
    assert_eq!(b.len(), 128);
    assert_eq!(b.valid(), 0);
    assert_eq!(b.wrbuf().len(), 0);
    assert!(AlignedBuf::alloc_uninit(usize::MAX - 3, 16).is_none());
}

#[test]
fn from_slice_pads_with_zeros() {
    let b = AlignedBuf::from_slice(&[7u8; 5], 8).unwrap();
    assert_eq!(b.len(), 8);
    assert_eq!(b.valid(), 8);
    assert_eq!(b.as_slice(), &[7, 7, 7, 7, 7, 0, 0, 0]);
}

#[test]
fn extend_to_alignment_boundary() {
    let mut b = AlignedBuf::from_slice(&[1u8; 16], 16).unwrap();
    assert!(b.extend(32));
    assert_eq!(b.len(), 32);
    assert_eq!(b.valid(), 32);
    assert_eq!(&b.as_slice()[..16], &[1u8; 16]);
    assert_eq!(&b.as_slice()[16..], &[0u8; 16]);
    assert!(b.extend(33));
    assert_eq!(b.len(), 48);
    assert!(b.extend(48));
    assert_eq!(b.len(), 48);
    assert!(!b.extend(10));
    assert_eq!(b.len(), 48);
    let mut a = alloc_buf(16, 16);
    let addr_ok = a.rdbuf().as_ptr() as usize % 16 == 0;
    assert!(addr_ok);
}

#[test]
fn extend_uninit_keeps_valid_prefix() {
    let mut b = AlignedBuf::alloc_uninit(16, 16).unwrap();
    b.rdbuf()[0] = 9;
    b.rdupdate(0, 4);
    assert_eq!(b.valid(), 4);
    assert!(b.extend_uninit(17));
    assert_eq!(b.len(), 32);
    assert_eq!(b.valid(), 4);
    assert_eq!(b.as_slice(), &[9, 0, 0, 0]);
    assert_eq!(b.rdbuf().as_ptr() as usize % 16, 0);
}

#[test]
fn shrink_to_alignment_boundary() {
    let mut b = AlignedBuf::from_slice(&[3u8; 64], 16).unwrap();
    assert!(b.shrink(32));
    assert_eq!(b.len(), 32);
    assert_eq!(b.valid(), 32);
    assert!(b.shrink(17));
    assert_eq!(b.len(), 32);
    assert!(b.shrink(16));
    assert_eq!(b.len(), 16);
    assert_eq!(b.as_slice(), &[3u8; 16]);
    assert!(!b.shrink(40));
    assert_eq!(b.len(), 16);
}

#[test]
fn clone_copies_valid_prefix() {
    let mut b = AlignedBuf::alloc_uninit(32, 16).unwrap();
    b.rdbuf()[..3].copy_from_slice(&[4, 5, 6]);
    b.rdupdate(0, 3);
    let c = b.clone();
    assert_eq!(c.len(), 32);
    assert_eq!(c.valid(), 3);
    assert_eq!(c.as_slice(), &[4, 5, 6]);
}

#[test]
fn rdupdate_advances_only_from_inside() {
    let mut b = AlignedBuf::alloc_uninit(32, 16).unwrap();
    b.rdupdate(4, 4);
    assert_eq!(b.valid(), 0);
    b.rdupdate(0, 10);
    assert_eq!(b.valid(), 10);
    b.rdupdate(2, 4);
    assert_eq!(b.valid(), 10);
    b.rdupdate(10, 30);
    assert_eq!(b.valid(), 10);
    b.rdupdate(10, 22);
    assert_eq!(b.valid(), 32);
    assert_eq!(b.rdlen(), 32);
}

#[test]
fn vec_buffers() {
    let mut v = vec![1u8, 2, 3, 4, 5];
    assert_eq!(v.rdlen(), 5);
    v.rdbuf()[0] = 9;
    assert_eq!(v.wrbuf(), &[9, 2, 3, 4, 5]);
    v.rdupdate(1, 2);
    assert_eq!(v, vec![9, 2, 3]);
    v.rdupdate(2, 5);
    assert_eq!(v, vec![9, 2, 3]);
}

#[test]
fn power_of_two() {
    assert!(ispower2(1));
    assert!(ispower2(4096));
    assert!(!ispower2(0));
    assert!(!ispower2(12));
}

#[test]
fn slice_buffers() {
    let mut backing = [1u8, 2, 3];
    let mut s: aio::buf::Buf = &mut backing[..];
    assert_eq!(s.rdlen(), 3);
    s.rdbuf()[1] = 7;
    s.rdupdate(0, 1);
    assert_eq!(s.wrbuf(), &[1, 7, 3]);
    assert_eq!(backing, [1, 7, 3]);
}
