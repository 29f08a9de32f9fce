//! The decision logic of connection-level ancillary I/O: socket-address
//! marshaling, classification of receive/send results, and file-status-flag
//! manipulation.
//!
//! The system calls themselves — socket creation, connect, the scatter/gather
//! receive and send, shutdown, flag reads and writes — are pass-throughs with
//! no algorithmic content. An unverified shell performs them and hands the
//! plain values (return codes, error numbers, flag words, byte regions) to
//! the functions here, which decide what they mean.

use vstd::prelude::*;

use crate::cmsg::buffer::push_byte_range;

verus! {

/// A direction of a half- or full-duplex stream shutdown.
#[derive(Clone, Copy, Debug, PartialEq, Eq, Structural)]
pub enum ShutdownHow {
    /// Further receives are disallowed.
    Read,
    /// Further sends are disallowed.
    Write,
    /// Further sends and receives are disallowed.
    Both,
}

/// Maps a shutdown direction to the numeric argument of the shutdown system
/// call.
pub fn shutdown_how_code(how: ShutdownHow) -> (r: i32)
    ensures
        r == match how {
            ShutdownHow::Read => 0int,
            ShutdownHow::Write => 1int,
            ShutdownHow::Both => 2int,
        },
{
    match how {
        ShutdownHow::Read => 0,
        ShutdownHow::Write => 1,
        ShutdownHow::Both => 2,
    }
}

/// The error number a blocked operation reports in nonblocking mode.
pub const ERRNO_WOULD_BLOCK: i32 = 11;

/// The file-status-flag bit that puts a descriptor in nonblocking mode.
pub const NONBLOCK_FLAG: i32 = 2048;

/// What one completed receive call means for the caller.
#[derive(Clone, Copy, Debug, PartialEq, Eq, Structural)]
pub enum RecvOutcome {
    /// Main data arrived, together with however many ancillary bytes the
    /// kernel filled in.
    Received { bytes: usize, ancillary_used: usize },
    /// Zero main-data bytes with a non-error return: the peer shut down the
    /// write direction in an orderly way.
    PeerClosed { ancillary_used: usize },
    /// Nonblocking mode and nothing pending: surfaced immediately so the
    /// caller can schedule other work; never retried internally.
    WouldBlock,
    /// Any other OS failure, surfaced as-is.
    OsError { code: i32 },
}

/// What one completed send call means for the caller.
#[derive(Clone, Copy, Debug, PartialEq, Eq, Structural)]
pub enum SendOutcome {
    /// The kernel accepted this many main-data bytes, together with the
    /// ancillary bytes it consumed.
    Sent { bytes: usize, ancillary_used: usize },
    /// Nonblocking mode and no buffer space: surfaced immediately; never
    /// retried internally.
    WouldBlock,
    /// Any other OS failure, surfaced as-is.
    OsError { code: i32 },
}

/// Classifies the raw result of a scatter receive system call.
///
/// `ret` is the call's return value, `errno` the error number when `ret` is
/// negative, and `ancillary_used` the ancillary byte count the kernel
/// reported. A would-block condition is distinguished from every other
/// failure, and a zero return is reported as orderly peer shutdown, never as
/// an error.
pub fn interpret_recv(ret: isize, errno: i32, ancillary_used: usize) -> (r: RecvOutcome)
    ensures
        r == (if ret > 0 {
            RecvOutcome::Received { bytes: ret as usize, ancillary_used }
        } else if ret == 0 {
            RecvOutcome::PeerClosed { ancillary_used }
        } else if errno == ERRNO_WOULD_BLOCK {
            RecvOutcome::WouldBlock
        } else {
            RecvOutcome::OsError { code: errno }
        }),
{
    if ret > 0 {
        RecvOutcome::Received { bytes: ret as usize, ancillary_used }
    } else if ret == 0 {
        RecvOutcome::PeerClosed { ancillary_used }
    } else if errno == ERRNO_WOULD_BLOCK {
        RecvOutcome::WouldBlock
    } else {
        RecvOutcome::OsError { code: errno }
    }
}

/// Classifies the raw result of a gather send system call, symmetrically to
/// [`interpret_recv`].
pub fn interpret_send(ret: isize, errno: i32, ancillary_used: usize) -> (r: SendOutcome)
    ensures
        r == (if ret >= 0 {
            SendOutcome::Sent { bytes: ret as usize, ancillary_used }
        } else if errno == ERRNO_WOULD_BLOCK {
            SendOutcome::WouldBlock
        } else {
            SendOutcome::OsError { code: errno }
        }),
{
    if ret >= 0 {
        SendOutcome::Sent { bytes: ret as usize, ancillary_used }
    } else if errno == ERRNO_WOULD_BLOCK {
        SendOutcome::WouldBlock
    } else {
        SendOutcome::OsError { code: errno }
    }
}

/// The file-status flags with the nonblocking bit set or cleared.
pub fn flags_with_nonblocking(flags: i32, nonblocking: bool) -> (r: i32)
    ensures
        r == (if nonblocking {
            flags | NONBLOCK_FLAG
        } else {
            flags & !NONBLOCK_FLAG
        }),
{
    if nonblocking {
        flags | NONBLOCK_FLAG
    } else {
        flags & !NONBLOCK_FLAG
    }
}

/// Whether a file-status-flag word has the nonblocking bit set.
pub fn nonblocking_from_flags(flags: i32) -> (r: bool)
    ensures
        r == ((flags & NONBLOCK_FLAG) != 0),
{
    (flags & NONBLOCK_FLAG) != 0
}

/// Toggle law: reading the mode back from freshly written file-status flags
/// yields exactly the mode that was written, whatever the other flag bits
/// are.
pub proof fn lemma_nonblocking_round_trip(flags: i32, nonblocking: bool)
    ensures
        ((if nonblocking {
            flags | NONBLOCK_FLAG
        } else {
            flags & !NONBLOCK_FLAG
        }) & NONBLOCK_FLAG != 0) == nonblocking,
{
    assert(((flags | 2048i32) & 2048i32) != 0) by (bit_vector);
    assert(((flags & !2048i32) & 2048i32) == 0) by (bit_vector);
}

/// The fixed size of the path field of a local socket address.
pub const SUN_PATH_LEN: usize = 108;

/// The full size of an encoded local socket address: a 2-byte family tag
/// followed by the path field.
pub const SOCKADDR_UN_LEN: usize = 110;

/// Failures of socket-address marshaling.
#[derive(Clone, Copy, Debug, PartialEq, Eq, Structural)]
pub enum SocketPathError {
    /// The path does not fit the fixed path field with its terminator.
    TooLong,
    /// The path contains a zero byte, which the kernel would read as the
    /// terminator.
    InteriorNul,
}

impl crate::error::ErrorDetails for SocketPathError {
    /// The text `message` returns for each marshaling failure.
    open spec fn message_spec(&self) -> Seq<char> {
        match self {
            SocketPathError::TooLong => "socket path too long"@,
            SocketPathError::InteriorNul => "socket path contains an interior nul byte"@,
        }
    }

    fn message(&self) -> (r: String) {
        match self {
            SocketPathError::TooLong => "socket path too long".to_string(),
            SocketPathError::InteriorNul => "socket path contains an interior nul byte".to_string(),
        }
    }
}

/// Whether a path contains a zero byte.
pub open spec fn spec_has_nul(path: Seq<u8>) -> bool {
    exists|i: int| 0 <= i < path.len() && path[i] == 0
}

/// The encoded local socket address for a path: the address family `1` as a
/// 2-byte little-endian tag, the path bytes, and zero fill (which also
/// terminates the path) up to the fixed size.
pub open spec fn spec_sockaddr_un(path: Seq<u8>) -> Seq<u8> {
    seq![1u8, 0u8] + path + Seq::new((SUN_PATH_LEN - path.len()) as nat, |i: int| 0u8)
}

/// Marshals a file-system path into the fixed-size local socket address the
/// connect system call takes.
///
/// A path longer than the path field minus its terminator, or one with an
/// interior zero byte, is rejected — exactly those, and with distinct
/// errors.
pub fn encode_socket_path(path: &[u8]) -> (r: Result<Vec<u8>, SocketPathError>)
    ensures
        match r {
            Ok(v) => path@.len() < SUN_PATH_LEN && !spec_has_nul(path@) && v@
                == spec_sockaddr_un(path@),
            Err(e) => match e {
                SocketPathError::TooLong => path@.len() >= SUN_PATH_LEN,
                SocketPathError::InteriorNul => path@.len() < SUN_PATH_LEN && spec_has_nul(
                    path@,
                ),
            },
        },
{
    let plen = path.len();
    if plen >= SUN_PATH_LEN {
        return Err(SocketPathError::TooLong);
    }
    let mut i: usize = 0;
    while i < plen
        invariant
            i <= plen,
            plen == path@.len(),
            plen < SUN_PATH_LEN,
            forall|j: int| 0 <= j < i ==> path@[j] != 0,
        decreases plen - i,
    {
        if path[i] == 0 {
            proof {
                assert(spec_has_nul(path@)) by {
                    assert(0 <= i < path@.len() && path@[i as int] == 0);
                }
            }
            return Err(SocketPathError::InteriorNul);
        }
        i += 1;
    }
    let mut v: Vec<u8> = Vec::with_capacity(SOCKADDR_UN_LEN);
    v.push(1u8);
    v.push(0u8);
    push_byte_range(&mut v, path, 0, plen);
    proof {
        assert(path@.subrange(0, plen as int) =~= path@);
    }
    let mut p = plen;
    while p < SUN_PATH_LEN
        invariant
            plen <= p <= SUN_PATH_LEN,
            plen == path@.len(),
            v@ == seq![1u8, 0u8] + path@ + Seq::new((p - plen) as nat, |k: int| 0u8),
        decreases SUN_PATH_LEN - p,
    {
        proof {
            assert(v@.push(0u8) =~= seq![1u8, 0u8] + path@ + Seq::new(
                (p + 1 - plen) as nat,
                |k: int| 0u8,
            ));
        }
        v.push(0u8);
        p += 1;
    }
    Ok(v)
}

} // verus!
