//! Socket event representations: the bits the native multiplexer speaks and
//! the interest a socket-watch callback announces.

use vstd::prelude::*;

verus! {

/// The readiness bit for "this socket is readable".
pub const EVENT_IN: i32 = 1;

/// The readiness bit for "this socket is writable".
pub const EVENT_OUT: i32 = 2;

/// The readiness bit mask handed to a socket-driven progress step: the read
/// bit when the socket is readable, the write bit when it is writable.
pub fn select_event_mask(readable: bool, writable: bool) -> (m: i32)
    ensures
        m == (if readable {
            EVENT_IN as int
        } else {
            0int
        }) + (if writable {
            EVENT_OUT as int
        } else {
            0int
        }),
{
    let mut m: i32 = 0;
    if readable {
        m = m + EVENT_IN;
    }
    if writable {
        m = m + EVENT_OUT;
    }
    m
}

/// What a socket-watch callback is told to do for one socket, translated
/// from the native event value.
#[derive(Clone, Copy, PartialEq, Eq, Structural, Debug)]
pub enum SocketInterest {
    /// Watch nothing for now.
    Idle,
    /// Watch for readability.
    Read,
    /// Watch for writability.
    Write,
    /// Watch for both.
    ReadWrite,
    /// Stop watching this socket.
    Detach,
    /// A value this bridge does not know; watch nothing.
    Other,
}

/// Translates the native socket-watch event value into the caller-facing
/// interest: zero through four mean nothing, read, write, both, and detach.
pub fn interpret_watch_event(what: i32) -> (s: SocketInterest)
    ensures
        what == 0 ==> s == SocketInterest::Idle,
        what == 1 ==> s == SocketInterest::Read,
        what == 2 ==> s == SocketInterest::Write,
        what == 3 ==> s == SocketInterest::ReadWrite,
        what == 4 ==> s == SocketInterest::Detach,
        !(0 <= what <= 4) ==> s == SocketInterest::Other,
{
    if what == 0 {
        SocketInterest::Idle
    } else if what == 1 {
        SocketInterest::Read
    } else if what == 2 {
        SocketInterest::Write
    } else if what == 3 {
        SocketInterest::ReadWrite
    } else if what == 4 {
        SocketInterest::Detach
    } else {
        SocketInterest::Other
    }
}

} // verus!
