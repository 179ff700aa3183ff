//! Records of the kernel's asynchronous I/O interface, as plain values.
//!
//! Field for field these are the kernel's `struct iocb` (64 bytes),
//! `struct io_event` (32 bytes) and `struct iovec` (16 bytes); addresses
//! are carried as 64-bit integers.
use vstd::prelude::*;

verus! {

/// An I/O control block.
#[allow(non_camel_case_types)]
#[derive(Clone, Copy, Debug, PartialEq, Eq, Structural)]
pub struct Struct_iocb {
    /// Caller's cookie, echoed in the completion event.
    pub data: u64,
    pub key: u32,
    pub aio_reserved1: u32,
    pub aio_lio_opcode: u16,
    pub aio_reqprio: u16,
    pub aio_fildes: u32,
    /// Address of the bytes (scalar operations) or of the iovec array
    /// (vector operations).
    pub aio_buf: u64,
    /// Bytes, or iovec entries.
    pub aio_count: u64,
    pub aio_offset: u64,
    pub aio_reserved2: u64,
    pub aio_flags: u32,
    pub aio_resfd: u32,
}

/// Operation codes.
#[allow(non_camel_case_types)]
#[derive(Clone, Copy, Debug, PartialEq, Eq, Structural)]
pub enum Iocmd {
    IO_CMD_PREAD,
    IO_CMD_PWRITE,
    IO_CMD_FSYNC,
    IO_CMD_FDSYNC,
    IO_CMD_NOOP,
    IO_CMD_PREADV,
    IO_CMD_PWRITEV,
}

pub open spec fn iocmd_code(c: Iocmd) -> u16 {
    match c {
        Iocmd::IO_CMD_PREAD => 0,
        Iocmd::IO_CMD_PWRITE => 1,
        Iocmd::IO_CMD_FSYNC => 2,
        Iocmd::IO_CMD_FDSYNC => 3,
        Iocmd::IO_CMD_NOOP => 6,
        Iocmd::IO_CMD_PREADV => 7,
        Iocmd::IO_CMD_PWRITEV => 8,
    }
}

impl Iocmd {
    /// The kernel's numeric code for this operation.
    pub fn code(&self) -> (r: u16)
        ensures
            r == iocmd_code(*self),
    {
        match self {
            Iocmd::IO_CMD_PREAD => 0,
            Iocmd::IO_CMD_PWRITE => 1,
            Iocmd::IO_CMD_FSYNC => 2,
            Iocmd::IO_CMD_FDSYNC => 3,
            Iocmd::IO_CMD_NOOP => 6,
            Iocmd::IO_CMD_PREADV => 7,
            Iocmd::IO_CMD_PWRITEV => 8,
        }
    }
}

/// Flag: the `aio_resfd` field names an event fd to signal on completion.
pub const IOCB_FLAG_RESFD: u32 = 1;

impl Default for Struct_iocb {
    /// A no-op control block on no file.
    fn default() -> (r: Struct_iocb)
        ensures
            r == (Struct_iocb {
                data: 0,
                key: 0,
                aio_reserved1: 0,
                aio_lio_opcode: 6,
                aio_reqprio: 0,
                aio_fildes: 0xffff_ffff,
                aio_buf: 0,
                aio_count: 0,
                aio_offset: 0,
                aio_reserved2: 0,
                aio_flags: 0,
                aio_resfd: 0,
            }),
    {
        Struct_iocb {
            data: 0,
            key: 0,
            aio_reserved1: 0,
            aio_lio_opcode: Iocmd::IO_CMD_NOOP.code(),
            aio_reqprio: 0,
            aio_fildes: 0xffff_ffff,
            aio_buf: 0,
            aio_count: 0,
            aio_offset: 0,
            aio_reserved2: 0,
            aio_flags: 0,
            aio_resfd: 0,
        }
    }
}

/// A completion event.
#[allow(non_camel_case_types)]
#[derive(Clone, Copy, Debug, PartialEq, Eq, Structural)]
pub struct Struct_io_event {
    /// The `data` field of the completed control block.
    pub data: u64,
    /// The address of the completed control block.
    pub obj: u64,
    /// Bytes transferred, or the negated error number.
    pub res: i64,
    pub res2: i64,
}

impl Default for Struct_io_event {
    fn default() -> (r: Struct_io_event)
        ensures
            r == (Struct_io_event { data: 0, obj: 0, res: 0, res2: 0 }),
    {
        Struct_io_event { data: 0, obj: 0, res: 0, res2: 0 }
    }
}

/// A kernel asynchronous I/O context, by its opaque handle.
#[allow(non_camel_case_types)]
#[derive(Clone, Copy, Debug, PartialEq, Eq, Structural)]
pub struct Struct_io_context {
    pub id: u64,
}

/// One segment of a vector operation.
#[allow(non_camel_case_types)]
#[derive(Clone, Copy, Debug, PartialEq, Eq, Structural)]
pub struct Struct_iovec {
    pub iov_base: u64,
    pub iov_len: u64,
}

} // verus!
