//! Completion dispatch for a front end that hands each operation's result
//! to a single-shot channel, carried as the operation's token.
use vstd::prelude::*;
use crate::raw::IoOp;

verus! {

/// The sender that receives an operation's result, by kind: `Sr` for a
/// read, `Srv` for a vector read, `Sw` for a write, `Swv` for a vector
/// write, `Sf` for either sync.
pub enum IoFut<Sr, Srv, Sw, Swv, Sf> {
    Pread(Sr),
    Preadv(Srv),
    Pwrite(Sw),
    Pwritev(Swv),
    Fsync(Sf),
}

/// A completed operation's buffers, paired with the sender they go to.
pub enum Delivery<Sr, Srv, Sw, Swv, Sf, Wb, Rb> {
    /// A placeholder operation completed: nothing to deliver.
    Nothing,
    Read(Sr, Rb),
    Readv(Srv, Vec<Rb>),
    Write(Sw, Wb),
    Writev(Swv, Vec<Wb>),
    Sync(Sf),
}

/// The delivery for a completed operation, or `None` when the token's kind
/// does not match the operation's.
pub open spec fn dispatch_spec<Sr, Srv, Sw, Swv, Sf, Wb, Rb>(
    op: IoOp<IoFut<Sr, Srv, Sw, Swv, Sf>, Wb, Rb>,
) -> Option<Delivery<Sr, Srv, Sw, Swv, Sf, Wb, Rb>> {
    match op {
        IoOp::Noop => Some(Delivery::Nothing),
        IoOp::Pread(b, IoFut::Pread(tx)) => Some(Delivery::Read(tx, b)),
        IoOp::Preadv(b, IoFut::Preadv(tx)) => Some(Delivery::Readv(tx, b)),
        IoOp::Pwrite(b, IoFut::Pwrite(tx)) => Some(Delivery::Write(tx, b)),
        IoOp::Pwritev(b, IoFut::Pwritev(tx)) => Some(Delivery::Writev(tx, b)),
        IoOp::Fsync(IoFut::Fsync(tx)) => Some(Delivery::Sync(tx)),
        IoOp::Fdsync(IoFut::Fsync(tx)) => Some(Delivery::Sync(tx)),
        _ => None,
    }
}

/// Pair a completed operation with the sender in its token.
pub fn dispatch<Sr, Srv, Sw, Swv, Sf, Wb, Rb>(
    op: IoOp<IoFut<Sr, Srv, Sw, Swv, Sf>, Wb, Rb>,
) -> (r: Option<Delivery<Sr, Srv, Sw, Swv, Sf, Wb, Rb>>)
    ensures
        r == dispatch_spec(op),
{
    match op {
        IoOp::Noop => Some(Delivery::Nothing),
        IoOp::Pread(b, IoFut::Pread(tx)) => Some(Delivery::Read(tx, b)),
        IoOp::Preadv(b, IoFut::Preadv(tx)) => Some(Delivery::Readv(tx, b)),
        IoOp::Pwrite(b, IoFut::Pwrite(tx)) => Some(Delivery::Write(tx, b)),
        IoOp::Pwritev(b, IoFut::Pwritev(tx)) => Some(Delivery::Writev(tx, b)),
        IoOp::Fsync(IoFut::Fsync(tx)) => Some(Delivery::Sync(tx)),
        IoOp::Fdsync(IoFut::Fsync(tx)) => Some(Delivery::Sync(tx)),
        _ => None,
    }
}

} // verus!
