use aio::aioabi::{Struct_io_event, Struct_iocb};
use aio::raw::{io_result, IoOp, Iobatch, Iocb, Iocontext};
use aio::{RdBuf, WrBuf};
use std::cmp::min;

/// The address that `{:p}` prints for `p`.
fn addr<P: std::fmt::Pointer>(p: P) -> u64 {
    let s = format!("{:p}", p);
    u64::from_str_radix(s.trim_start_matches("0x"), 16).unwrap()
}

#[derive(Debug, PartialEq, Clone, Copy)]
enum Op {
    R,
    W,
}

/// Plays the kernel: performs every batched operation on an in-memory
/// file, accepts the whole batch and returns the completion events.
fn run_batch<T>(io: &mut Iocontext<T, Vec<u8>, Vec<u8>>, file: &mut Vec<u8>) -> Vec<Struct_io_event> {
    let slots: Vec<usize> = io.batch().clone();
    let mut events = Vec::new();
    for &s in slots.iter() {
        let cb = io.iocb(s).iocb;
        let off = cb.aio_offset as usize;
        let res: i64 = match io.op_mut(s) {
            IoOp::Pwrite(b, _) => write_at(file, off, b.wrbuf()),
            IoOp::Pwritev(bs, _) => {
                let mut n = 0;
                for b in bs.iter() {
                    n += write_at(file, off + n as usize, b.wrbuf());
                }
                n
            }
            IoOp::Pread(b, _) => read_at(file, off, b.rdbuf()),
            IoOp::Preadv(bs, _) => {
                let mut n = 0;
                for b in bs.iter_mut() {
                    n += read_at(file, off + n as usize, b.rdbuf());
                }
                n
            }
            IoOp::Fsync(_) | IoOp::Fdsync(_) | IoOp::Noop => 0,
        };
        events.push(Struct_io_event { data: cb.data, obj: 0, res, res2: 0 });
    }
    let n = io.submit_done(slots.len() as i64).unwrap();
    assert_eq!(n, slots.len());
    events
}

fn write_at(file: &mut Vec<u8>, off: usize, data: &[u8]) -> i64 {
    if file.len() < off + data.len() {
        file.resize(off + data.len(), 0);
    }
    file[off..off + data.len()].copy_from_slice(data);
    data.len() as i64
}

fn read_at(file: &[u8], off: usize, dst: &mut [u8]) -> i64 {
    if off >= file.len() {
        return 0;
    }
    let n = min(dst.len(), file.len() - off);
    dst[..n].copy_from_slice(&file[off..off + n]);
    n as i64
}

#[test]
fn batch_simple() {
    let mut b: Iobatch<usize, Vec<u8>, Vec<u8>> = Iobatch::new(100);

    match b.alloc_iocb(Iocb { iocb: Struct_iocb { ..Default::default() }, op: IoOp::Noop, iov: Vec::new() }) {
        Err(_) => panic!("alloc failed"),
        Ok(_) => (),
    };

    let v = b.batch();
    assert_eq!(v.len(), 1);
}

#[test]
fn raw_simple() {
    let mut io: Iocontext<Op, Vec<u8>, Vec<u8>> = Iocontext::new(100);
    let mut file: Vec<u8> = Vec::new();
    let fd = 3;
    let wbuf: Vec<u8> = std::iter::repeat(b'x').take(40).collect();
    let rbuf: Vec<u8> = std::iter::repeat(0u8).take(100).collect();

    assert_eq!(io.batched(), 0);
    assert_eq!(io.submitted(), 0);
    assert_eq!(io.pending(), 0);

    let ok = io.pwrite(fd, wbuf, 77, Op::W).is_ok();
    assert!(ok);
    assert_eq!(io.batched(), 1);
    assert_eq!(io.submitted(), 0);
    assert_eq!(io.pending(), 1);

    let ok = io.pread(fd, rbuf, 0, Op::R).is_ok();
    assert!(ok);
    assert_eq!(io.batched(), 2);
    assert_eq!(io.submitted(), 0);
    assert_eq!(io.pending(), 2);

    let mut seen = 0;
    while io.batched() > 0 {
        let events = run_batch(&mut io, &mut file);
        assert_eq!(io.submitted(), 2);
        for ev in events.iter() {
            let (op, r) = io.complete(ev).unwrap();
            match (op, r) {
                (IoOp::Pread(buf, Op::R), Ok(res)) => {
                    assert_eq!(res, 100);
                    assert!(buf[..77].iter().all(|&c| c == 0));
                    assert!(buf[77..100].iter().all(|&c| c == b'x'));
                    seen += 1;
                }
                (IoOp::Pwrite(buf, Op::W), Ok(res)) => {
                    assert_eq!(res, 40);
                    assert_eq!(buf.len(), 40);
                    seen += 1;
                }
                _ => panic!("unexpected completion"),
            }
        }
    }
    assert_eq!(seen, 2);
    assert_eq!(io.pending(), 0);
}

#[test]
fn raw_writev() {
    let mut io: Iocontext<i32, Vec<u8>, Vec<u8>> = Iocontext::new(100);
    let mut file: Vec<u8> = Vec::new();
    let wbufs: Vec<Vec<u8>> =
        vec!["foo", "bar", "blat"].into_iter().map(|s| String::from(s).into_bytes()).collect();

    assert_eq!(io.batched(), 0);
    assert_eq!(io.submitted(), 0);
    assert_eq!(io.pending(), 0);

    let ok = io.pwritev(5, wbufs, 0, 0).is_ok();
    assert!(ok);

    while io.batched() > 0 {
        let events = run_batch(&mut io, &mut file);
        for ev in events.iter() {
            match io.complete(ev).unwrap() {
                (IoOp::Pwritev(bufs, 0), Ok(res)) => {
                    assert_eq!(res, 10);
                    assert_eq!(bufs.len(), 3);
                }
                _ => panic!("unexpected completion"),
            }
        }
    }
    assert_eq!(file, b"foobarblat".to_vec());
}

#[test]
fn raw_limit() {
    let mut io: Iocontext<usize, Vec<u8>, Vec<u8>> = Iocontext::new(10);

    for i in 0..20 {
        let rbuf: Vec<u8> = std::iter::repeat(0).take(100).collect();

        assert_eq!(min(i, 10), io.batched());
        assert_eq!(min(i, 10), io.pending());
        assert_eq!(0, io.submitted());

        let full = io.full();
        let p = io.pread(4, rbuf, 0, 9);
        assert_eq!(i < 10, p.is_ok());
        assert_eq!(full, p.is_err());
    }
}

#[test]
fn backpressure_returns_inputs() {
    let mut io: Iocontext<usize, Vec<u8>, Vec<u8>> = Iocontext::new(10);
    for i in 0..20usize {
        let rbuf: Vec<u8> = vec![i as u8; 100];
        match io.pread(4, rbuf, 0, i) {
            Ok(()) => assert!(i < 10),
            Err((buf, tok)) => {
                assert!(i >= 10);
                assert_eq!(tok, i);
                assert_eq!(buf, vec![i as u8; 100]);
                assert_eq!(io.batched(), 10);
                assert_eq!(io.submitted(), 0);
                assert!(io.full());
            }
        }
    }
}

#[test]
fn write_then_read_round_trip() {
    let mut io: Iocontext<u8, Vec<u8>, Vec<u8>> = Iocontext::new(4);
    let mut file: Vec<u8> = Vec::new();
    let data: Vec<u8> = (0..50u8).collect();
    io.pwrite(1, data.clone(), 13, 1).ok().unwrap();
    for ev in run_batch(&mut io, &mut file).iter() {
        assert_eq!(io.complete(ev).unwrap().1, Ok(50));
    }
    io.pread(1, vec![0u8; 50], 13, 2).ok().unwrap();
    for ev in run_batch(&mut io, &mut file).iter() {
        match io.complete(ev).unwrap() {
            (IoOp::Pread(buf, 2), Ok(50)) => assert_eq!(buf, data),
            _ => panic!("unexpected completion"),
        }
    }
}

#[test]
fn writev_then_read_concatenates() {
    let mut io: Iocontext<u8, Vec<u8>, Vec<u8>> = Iocontext::new(4);
    let mut file: Vec<u8> = Vec::new();
    let segs = vec![b"ab".to_vec(), b"cde".to_vec(), b"f".to_vec()];
    io.pwritev(1, segs, 7, 1).ok().unwrap();
    for ev in run_batch(&mut io, &mut file).iter() {
        assert_eq!(io.complete(ev).unwrap().1, Ok(6));
    }
    io.pread(1, vec![0u8; 6], 7, 2).ok().unwrap();
    for ev in run_batch(&mut io, &mut file).iter() {
        match io.complete(ev).unwrap() {
            (IoOp::Pread(buf, 2), Ok(6)) => assert_eq!(buf, b"abcdef".to_vec()),
            _ => panic!("unexpected completion"),
        }
    }
}

#[test]
fn control_block_fields() {
    let mut io: Iocontext<u8, Vec<u8>, Vec<u8>> = Iocontext::new(2);
    io.pwrite(9, vec![1u8; 12], 4096, 0).ok().unwrap();
    let slot = io.batch()[0];
    let cb = io.iocb(slot).iocb;
    assert_eq!(cb.data, slot as u64);
    assert_eq!(cb.aio_lio_opcode, 1);
    assert_eq!(cb.aio_fildes, 9);
    assert_eq!(cb.aio_count, 12);
    assert_eq!(cb.aio_offset, 4096);
    assert_eq!(cb.aio_flags, 0);

    io.set_evfd(17);
    assert_eq!(io.evfd(), Some(17));
    io.fsync(9, 1).ok().unwrap();
    let slot = io.batch()[1];
    let cb = io.iocb(slot).iocb;
    assert_eq!(cb.aio_lio_opcode, 2);
    assert_eq!(cb.aio_offset, 0);
    assert_eq!(cb.aio_count, 0);
    assert_eq!(cb.aio_flags, 1);
    assert_eq!(cb.aio_resfd, 17);
}

#[test]
fn vector_ops_count_entries() {
    let mut io: Iocontext<u8, Vec<u8>, Vec<u8>> = Iocontext::new(2);
    io.preadv(2, vec![vec![0u8; 3], vec![0u8; 4]], 0, 0).ok().unwrap();
    let cb = io.iocb(io.batch()[0]).iocb;
    assert_eq!(cb.aio_lio_opcode, 7);
    assert_eq!(cb.aio_count, 2);
    io.fdsync(2, 1).ok().unwrap();
    let cb = io.iocb(io.batch()[1]).iocb;
    assert_eq!(cb.aio_lio_opcode, 3);
    assert!(io.fdsync(2, 5).is_err());
}

#[test]
fn partial_submit_keeps_rest_batched() {
    let mut io: Iocontext<u8, Vec<u8>, Vec<u8>> = Iocontext::new(8);
    for t in 0..3u8 {
        io.fsync(1, t).ok().unwrap();
    }
    let first: Vec<usize> = io.batch().clone();
    assert_eq!(io.submit_done(2), Ok(2));
    assert_eq!(io.batched(), 1);
    assert_eq!(io.submitted(), 2);
    assert_eq!(io.batch()[0], first[2]);
    assert_eq!(io.submit_done(0), Ok(0));
    assert_eq!(io.pending(), 3);
}

#[test]
fn submit_error_keeps_batch() {
    let mut io: Iocontext<u8, Vec<u8>, Vec<u8>> = Iocontext::new(8);
    io.fsync(1, 0).ok().unwrap();
    assert_eq!(io.submit_done(-11), Err(11));
    assert_eq!(io.batched(), 1);
    assert_eq!(io.submitted(), 0);
}

#[test]
fn completion_of_batched_slot_is_refused() {
    let mut io: Iocontext<u8, Vec<u8>, Vec<u8>> = Iocontext::new(8);
    io.fsync(1, 0).ok().unwrap();
    let slot = io.batch()[0];
    let ev = Struct_io_event { data: slot as u64, obj: 0, res: 0, res2: 0 };
    assert!(io.complete(&ev).is_none());
    assert_eq!(io.batched(), 1);
    let bogus = Struct_io_event { data: 1000, obj: 0, res: 0, res2: 0 };
    assert!(io.complete(&bogus).is_none());
    assert_eq!(io.submit_done(1), Ok(1));
    match io.complete(&Struct_io_event { data: slot as u64, obj: 0, res: -5, res2: 0 }) {
        Some((IoOp::Fsync(0), Err(5))) => (),
        _ => panic!("unexpected completion"),
    }
    assert!(io.complete(&ev).is_none());
    assert_eq!(io.pending(), 0);
}

#[test]
fn io_result_values() {
    assert_eq!(io_result(0), Ok(0));
    assert_eq!(io_result(4096), Ok(4096));
    assert_eq!(io_result(-4), Err(4));
    assert_eq!(io_result(i64::MIN), Err(1u64 << 63));
}

#[test]
fn maxops_reported() {
    let io: Iocontext<u8, Vec<u8>, Vec<u8>> = Iocontext::new(7);
    assert_eq!(io.maxops(), 7);
    assert!(!io.full());
    assert_eq!(io.evfd(), None);
}

#[test]
fn harvest_in_event_order() {
    let mut io: Iocontext<u8, Vec<u8>, Vec<u8>> = Iocontext::new(4);
    let mut file: Vec<u8> = Vec::new();
    io.pwrite(1, vec![5u8; 3], 0, 10).ok().unwrap();
    io.fsync(1, 11).ok().unwrap();
    let mut events = run_batch(&mut io, &mut file);
    events.reverse();
    let done = io.harvest(&events).ok().unwrap();
    assert_eq!(done.len(), 2);
    match &done[0] {
        (IoOp::Fsync(11), Ok(0)) => (),
        _ => panic!("unexpected first completion"),
    }
    match &done[1] {
        (IoOp::Pwrite(b, 10), Ok(3)) => assert_eq!(*b, vec![5u8; 3]),
        _ => panic!("unexpected second completion"),
    }
    assert_eq!(io.pending(), 0);
}

#[test]
fn harvest_stops_at_unknown_slot() {
    let mut io: Iocontext<u8, Vec<u8>, Vec<u8>> = Iocontext::new(4);
    let mut file: Vec<u8> = Vec::new();
    io.fsync(1, 1).ok().unwrap();
    io.fsync(1, 2).ok().unwrap();
    let events = run_batch(&mut io, &mut file);
    let twice = vec![events[0], events[0], events[1]];
    assert_eq!(io.harvest(&twice).err(), Some(1));
    assert_eq!(io.submitted(), 2);
    assert_eq!(io.harvest(&events).ok().unwrap().len(), 2);
    assert_eq!(io.pending(), 0);
}

#[test]
fn batch_iocbs_in_queue_order() {
    let mut io: Iocontext<u8, Vec<u8>, Vec<u8>> = Iocontext::new(4);
    io.pwrite(3, vec![1u8; 8], 64, 0).ok().unwrap();
    io.fdsync(3, 1).ok().unwrap();
    let blocks = io.batch_iocbs();
    assert_eq!(blocks.len(), 2);
    assert_eq!(blocks[0].data as usize, io.batch()[0]);
    assert_eq!(blocks[0].aio_lio_opcode, 1);
    assert_eq!(blocks[0].aio_count, 8);
    assert_eq!(blocks[0].aio_offset, 64);
    assert_eq!(blocks[1].data as usize, io.batch()[1]);
    assert_eq!(blocks[1].aio_lio_opcode, 3);
}

#[test]
fn vector_ops_keep_iovec_array_in_entry() {
    let mut io: Iocontext<u8, Vec<u8>, Vec<u8>> = Iocontext::new(2);
    io.preadv(2, vec![vec![0u8; 3], vec![0u8; 4]], 8, 0).ok().unwrap();
    let entry = io.iocb(io.batch()[0]);
    assert_eq!(entry.iocb.aio_count, 2);
    assert_eq!(entry.iov.len(), 4);
    assert_eq!(entry.iov[1], 3);
    assert_eq!(entry.iov[3], 4);
    assert_eq!(entry.iocb.aio_buf, addr(entry.iov.as_ptr()));
    match &entry.op {
        IoOp::Preadv(bufs, 0) => {
            assert_eq!(entry.iov[0], addr(bufs[0].as_ptr()));
            assert_eq!(entry.iov[2], addr(bufs[1].as_ptr()));
        }
        _ => panic!("unexpected operation"),
    }
    io.pwritev(2, vec![b"ab".to_vec(), b"cde".to_vec()], 0, 1).ok().unwrap();
    let entry = io.iocb(io.batch()[1]);
    assert_eq!(entry.iov.len(), 4);
    assert_eq!(entry.iov[1], 2);
    assert_eq!(entry.iov[3], 3);
    assert_eq!(entry.iocb.aio_buf, addr(entry.iov.as_ptr()));
}

#[test]
fn scalar_ops_point_at_buffer_bytes() {
    let mut io: Iocontext<u8, Vec<u8>, Vec<u8>> = Iocontext::new(2);
    io.pread(2, vec![0u8; 16], 0, 0).ok().unwrap();
    io.pwrite(2, vec![7u8; 5], 0, 1).ok().unwrap();
    for k in 0..2 {
        let entry = io.iocb(io.batch()[k]);
        assert!(entry.iov.is_empty());
        match &entry.op {
            IoOp::Pread(b, 0) => assert_eq!(entry.iocb.aio_buf, addr(b.as_ptr())),
            IoOp::Pwrite(b, 1) => assert_eq!(entry.iocb.aio_buf, addr(b.as_ptr())),
            _ => panic!("unexpected operation"),
        }
    }
}
