//! Windows NT status codes, as SMB carries them.
//!
//! They are part of the protocol and the same everywhere, unlike `errno`
//! values, which differ between platforms for exactly the failures that matter
//! most.

use vstd::prelude::*;

verus! {

pub const OBJECT_NAME_NOT_FOUND: u32 = 0xC000_0034;

pub const OBJECT_PATH_NOT_FOUND: u32 = 0xC000_003A;

pub const NO_SUCH_FILE: u32 = 0xC000_000F;

pub const BAD_NETWORK_NAME: u32 = 0xC000_00CC;

pub const ACCESS_DENIED: u32 = 0xC000_0022;

pub const NETWORK_ACCESS_DENIED: u32 = 0xC000_00CA;

pub const OBJECT_NAME_COLLISION: u32 = 0xC000_0035;

pub const NOT_A_DIRECTORY: u32 = 0xC000_0103;

pub const FILE_IS_A_DIRECTORY: u32 = 0xC000_00BA;

pub const DIRECTORY_NOT_EMPTY: u32 = 0xC000_0101;

pub const CANNOT_DELETE: u32 = 0xC000_0121;

pub const LOGON_FAILURE: u32 = 0xC000_006D;

pub const ACCOUNT_RESTRICTION: u32 = 0xC000_006E;

pub const ACCOUNT_DISABLED: u32 = 0xC000_0072;

pub const PASSWORD_EXPIRED: u32 = 0xC000_0071;

pub const NETWORK_NAME_DELETED: u32 = 0xC000_00C9;

pub const USER_SESSION_DELETED: u32 = 0xC000_0203;

pub const CONNECTION_DISCONNECTED: u32 = 0xC000_020C;

pub const CONNECTION_RESET: u32 = 0xC000_020D;

pub const NETWORK_SESSION_EXPIRED: u32 = 0xC000_035C;

pub const NOT_SUPPORTED: u32 = 0xC000_00BB;

pub const INVALID_DEVICE_REQUEST: u32 = 0xC000_0010;

} // verus!
