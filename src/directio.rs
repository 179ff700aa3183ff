//! Files opened for direct I/O, which bypasses the page cache and so
//! needs aligned buffers.
use vstd::prelude::*;

verus! {

/// How an existing file is treated on opening.
#[derive(Clone, Copy, Debug, PartialEq, Eq, Structural)]
pub enum Mode {
    Open,
    Append,
    Truncate,
}

/// What the file is opened for. Opening with write access creates the
/// file when it does not exist.
#[derive(Clone, Copy, Debug, PartialEq, Eq, Structural)]
pub enum FileAccess {
    Read,
    Write,
    ReadWrite,
}

/// Linux's flag for direct I/O.
pub const O_DIRECT: i32 = 0x4000;

/// Relies on `libc::O_APPEND`, 0o2000 on x86-64 Linux.
#[verifier::external_body]
fn o_append() -> (r: i32)
    ensures
        r == 1024,
{
    libc::O_APPEND
}

/// Relies on `libc::O_TRUNC`, 0o1000 on x86-64 Linux.
#[verifier::external_body]
fn o_trunc() -> (r: i32)
    ensures
        r == 512,
{
    libc::O_TRUNC
}

/// Relies on `libc::O_RDONLY`, 0 on Linux.
#[verifier::external_body]
fn o_rdonly() -> (r: i32)
    ensures
        r == 0,
{
    libc::O_RDONLY
}

/// Relies on `libc::O_WRONLY`, 1 on Linux.
#[verifier::external_body]
fn o_wronly() -> (r: i32)
    ensures
        r == 1,
{
    libc::O_WRONLY
}

/// Relies on `libc::O_RDWR`, 2 on Linux.
#[verifier::external_body]
fn o_rdwr() -> (r: i32)
    ensures
        r == 2,
{
    libc::O_RDWR
}

/// Relies on `libc::O_CREAT`, 0o100 on x86-64 Linux.
#[verifier::external_body]
fn o_creat() -> (r: i32)
    ensures
        r == 64,
{
    libc::O_CREAT
}

/// Relies on `libc::S_IRUSR`, 0o400 on Linux.
#[verifier::external_body]
fn s_irusr() -> (r: u32)
    ensures
        r == 256,
{
    libc::S_IRUSR
}

/// Relies on `libc::S_IWUSR`, 0o200 on Linux.
#[verifier::external_body]
fn s_iwusr() -> (r: u32)
    ensures
        r == 128,
{
    libc::S_IWUSR
}

/// The flags that `mode` adds.
pub open spec fn mode_flags(mode: Mode) -> i32 {
    match mode {
        Mode::Open => 0,
        Mode::Append => 1024,
        Mode::Truncate => 512,
    }
}

/// The flags that `fa` adds: read-only; write-only, creating; or read and
/// write, creating.
pub open spec fn access_flags(fa: FileAccess) -> i32 {
    match fa {
        FileAccess::Read => 0,
        FileAccess::Write => 1i32 | 64i32,
        FileAccess::ReadWrite => 2i32 | 64i32,
    }
}

/// The permissions of a file that opening creates: read and write for the
/// owner (0o600) when writing, none otherwise.
pub open spec fn access_perms(fa: FileAccess) -> u32 {
    match fa {
        FileAccess::Read => 0,
        _ => 256u32 | 128u32,
    }
}

/// The `open(2)` flags and creation mode for a direct-I/O file.
pub fn open_flags(mode: Mode, fa: FileAccess) -> (r: (i32, u32))
    ensures
        r.0 == O_DIRECT | mode_flags(mode) | access_flags(fa),
        r.1 == access_perms(fa),
{
    let flags = O_DIRECT | match mode {
        Mode::Open => 0,
        Mode::Append => o_append(),
        Mode::Truncate => o_trunc(),
    };
    proof {
        assert(flags | 0i32 == flags) by (bit_vector);
        assert((flags | 1i32) | 64i32 == flags | (1i32 | 64i32)) by (bit_vector);
        assert((flags | 2i32) | 64i32 == flags | (2i32 | 64i32)) by (bit_vector);
    }
    match fa {
        FileAccess::Read => (flags | o_rdonly(), 0),
        FileAccess::Write => (flags | o_wronly() | o_creat(), s_irusr() | s_iwusr()),
        FileAccess::ReadWrite => (flags | o_rdwr() | o_creat(), s_irusr() | s_iwusr()),
    }
}

/// Whether a system call that returned `n` should be made again: it
/// failed (-1) only because a signal interrupted it.
pub fn retry(n: isize, interrupted: bool) -> (r: bool)
    ensures
        r == (n == -1 && interrupted),
{
    n == -1 && interrupted
}

/// A file descriptor opened for direct I/O, with the alignment its
/// buffers and offsets need.
pub struct DirectFile {
    fd: i32,
    alignment: usize,
}

impl DirectFile {
    pub closed spec fn fd_spec(&self) -> i32 {
        self.fd
    }

    pub closed spec fn alignment_spec(&self) -> usize {
        self.alignment
    }

    /// Take over an open descriptor.
    pub fn new(fd: i32, alignment: usize) -> (r: DirectFile)
        ensures
            r.fd_spec() == fd,
            r.alignment_spec() == alignment,
    {
        DirectFile { fd, alignment }
    }

    pub fn alignment(&self) -> (r: usize)
        ensures
            r == self.alignment_spec(),
    {
        self.alignment
    }

    pub fn as_raw_fd(&self) -> (r: i32)
        ensures
            r == self.fd_spec(),
    {
        self.fd
    }
}

} // verus!
