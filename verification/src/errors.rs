//! Error taxonomy of the bridge layer and the translation of results into
//! the primitive status codes of the foreign-call surface.

use vstd::prelude::*;

verus! {

/// Every failure a bridge operation can report. Nothing else crosses the
/// boundary: internal failures are translated into one of these.
#[derive(Clone, Copy, Debug, PartialEq, Eq, Structural)]
pub enum BridgeError {
    /// Malformed, null or oversized input.
    InvalidParams,
    /// The operation requires a live client and none is stored.
    NotInitialized,
    /// Unknown circuit or stream identifier.
    NotFound,
    /// Establishing a byte stream to the target failed.
    ConnectionFailed,
    /// The TLS handshake against the target failed.
    HandshakeFailed,
    /// A read, write or flush on an open stream failed.
    IoFailed,
    /// The shared asynchronous execution engine could not be created.
    RuntimeCreation,
    /// The HTTP verb is not one of the supported methods.
    UnsupportedMethod,
    /// Building or executing the HTTP request failed.
    RequestFailed,
    /// A produced value, terminator included, exceeds the caller's buffer.
    BufferTooSmall,
    /// A failure of the bridge's own machinery, such as a poisoned lock.
    Internal,
}

/// Status code of a bridge operation: truthy `1` on success, falsy `0` on
/// any failure.
pub fn status_code<T>(r: &Result<T, BridgeError>) -> (code: i32)
    ensures
        code == if r is Ok {
            1int
        } else {
            0int
        },
{
    match r {
        Ok(_) => 1,
        Err(_) => 0,
    }
}

/// Status code of the secure-stream read operation, the one entry point
/// that reports a signed byte count on success and `-1` on failure.
pub fn signed_read_status(r: &Result<usize, BridgeError>) -> (code: i32)
    requires
        r matches Ok(n) ==> n <= i32::MAX,
    ensures
        match *r {
            Ok(n) => code == n,
            Err(_) => code == -1,
        },
{
    match r {
        Ok(n) => *n as i32,
        Err(_) => -1,
    }
}

} // verus!
