//! Plain values that cross the border to the SMB client library.

use vstd::prelude::*;

verus! {

/// File metadata as the client library reports it.
///
/// Deliberately not exposed upward: the portable model has its own metadata,
/// and the protocol-specific fields here must not leak past the backend.
#[allow(non_camel_case_types)]
#[derive(Debug, Clone, Copy)]
pub struct smb2_stat_64 {
    pub smb2_type: u32,
    pub smb2_nlink: u32,
    pub smb2_ino: u64,
    pub smb2_size: u64,
    pub smb2_atime: u64,
    pub smb2_atime_nsec: u64,
    pub smb2_mtime: u64,
    pub smb2_mtime_nsec: u64,
    pub smb2_ctime: u64,
    pub smb2_ctime_nsec: u64,
    pub smb2_btime: u64,
    pub smb2_btime_nsec: u64,
    pub smb2_attributes: u32,
    pub smb2_reparse_tag: u32,
}

impl smb2_stat_64 {
    /// Every field zero.
    pub open spec fn zeroed() -> smb2_stat_64 {
        smb2_stat_64 {
            smb2_type: 0,
            smb2_nlink: 0,
            smb2_ino: 0,
            smb2_size: 0,
            smb2_atime: 0,
            smb2_atime_nsec: 0,
            smb2_mtime: 0,
            smb2_mtime_nsec: 0,
            smb2_ctime: 0,
            smb2_ctime_nsec: 0,
            smb2_btime: 0,
            smb2_btime_nsec: 0,
            smb2_attributes: 0,
            smb2_reparse_tag: 0,
        }
    }
}

impl Default for smb2_stat_64 {
    fn default() -> (r: Self)
        ensures
            r == smb2_stat_64::zeroed(),
    {
        smb2_stat_64 {
            smb2_type: 0,
            smb2_nlink: 0,
            smb2_ino: 0,
            smb2_size: 0,
            smb2_atime: 0,
            smb2_atime_nsec: 0,
            smb2_mtime: 0,
            smb2_mtime_nsec: 0,
            smb2_ctime: 0,
            smb2_ctime_nsec: 0,
            smb2_btime: 0,
            smb2_btime_nsec: 0,
            smb2_attributes: 0,
            smb2_reparse_tag: 0,
        }
    }
}

/// Handle identifying a file for a server-side copy.
///
/// Opaque: the server issues it and only the server reads it, so it is carried
/// as bytes rather than decoded.
#[allow(non_camel_case_types)]
#[derive(Debug, Clone, Copy)]
pub struct smb2_srv_copychunk_resume_key {
    pub resume_key: [u8; 24],
}

/// One range to copy.
#[allow(non_camel_case_types)]
#[derive(Debug, Clone, Copy, PartialEq, Eq, Structural)]
pub struct smb2_srv_copychunk {
    pub source_offset: u64,
    pub target_offset: u64,
    pub length: u32,
    pub reserved: u32,
}

/// What the server actually copied.
///
/// Also how the server reports its limits: when a request exceeds them it
/// answers with an error *and* fills this in, which is the documented way a
/// client learns what the server will accept.
#[allow(non_camel_case_types)]
#[derive(Debug, Clone, Copy, PartialEq, Eq, Structural)]
pub struct smb2_srv_copychunk_reply {
    pub chunks_written: u32,
    pub chunk_bytes_written: u32,
    pub total_bytes_written: u32,
}

/// Length of a resume key, in bytes.
pub const SMB2_SRV_COPYCHUNK_RESUME_KEY_SIZE: usize = 24;

/// The file system control for a server-side copy.
pub const SMB2_FSCTL_SRV_COPYCHUNK: u32 = 0x0014_40F2;

/// The variant for a destination opened for **writing only**, which is what a
/// copy destination is. It is not interchangeable with the plain code: servers
/// refuse the plain one when the destination handle cannot be read.
pub const SMB2_FSCTL_SRV_COPYCHUNK_WRITE: u32 = 0x0014_80F2;

/// The plain refusal.
pub const SMB2_STATUS_NOT_SUPPORTED: u32 = 0xC000_00BB;

/// What Windows servers answer for a file system control they do not implement.
pub const SMB2_STATUS_INVALID_DEVICE_REQUEST: u32 = 0xC000_0010;

pub const SMB2_STATUS_CTL_FILE_NOT_SUPPORTED: u32 = 0xC000_0057;

/// Carries the server's limits when a copy asked for too much.
pub const SMB2_STATUS_INVALID_PARAMETER: u32 = 0xC000_000D;

pub const SMB2_TYPE_FILE: u32 = 0x0000_0000;

pub const SMB2_TYPE_DIRECTORY: u32 = 0x0001;

pub const SMB2_TYPE_LINK: u32 = 0x0002;

pub const SMB2_TYPE_FIFO: u32 = 0x0003;

pub const SMB2_TYPE_CHARDEV: u32 = 0x0004;

pub const SMB2_TYPE_BLOCKDEV: u32 = 0x0005;

pub const SMB2_TYPE_SOCKET: u32 = 0x0006;

pub const SMB2_FILE_ATTRIBUTE_READONLY: u32 = 0x0000_0001;

pub const SMB2_FILE_ATTRIBUTE_DIRECTORY: u32 = 0x0000_0010;

pub const SMB2_FILE_ATTRIBUTE_REPARSE_POINT: u32 = 0x0000_0400;

} // verus!
