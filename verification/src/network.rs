//! One-time platform network initialisation.
//!
//! Winsock has to be brought up before any socket call on Windows, and the SMB
//! client library does not do it: process-wide socket initialisation belongs to
//! the application. On every other platform there is nothing to do.

use vstd::prelude::*;
use crate::text;

verus! {

/// Nothing to do: POSIX sockets need no process-wide setup.
pub fn ensure() -> (r: Result<(), String>)
    ensures
        r is Ok,
{
    Ok(())
}

/// Bring up the platform network stack where it needs no bringing up.
/// Idempotent.
pub fn ensure_network_ready() -> (r: Result<(), String>)
    ensures
        r is Ok,
{
    ensure()
}

/// What the return value of `WSAStartup` means.
pub fn startup_outcome(rc: i32) -> (r: Result<(), String>)
    ensures
        if rc == 0 {
            r is Ok
        } else {
            r matches Err(message) && message@ == "WSAStartup failed with error "@
                + text::signed_decimal(rc as int)
                + "; the SMB backend cannot open sockets on this system"@
        },
{
    if rc == 0 {
        return Ok(());
    }
    let mut message = text::joined("WSAStartup failed with error ", &text::signed_decimal_of(rc));
    message.append("; the SMB backend cannot open sockets on this system");
    Err(message)
}

/// Only zero is success, and any other value is reported with its number.
pub proof fn only_zero_is_success(rc: i32, r: Result<(), String>)
    requires
        call_ensures(startup_outcome, (rc,), r),
    ensures
        r is Ok <==> rc == 0,
        r matches Err(message) ==> message@ == "WSAStartup failed with error "@
            + text::signed_decimal(rc as int)
            + "; the SMB backend cannot open sockets on this system"@,
{
}

} // verus!
