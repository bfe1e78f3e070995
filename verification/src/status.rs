//! The answers that the Windows side gets: NT status codes, and how the error
//! numbers of the ext4 side turn into them.

use vstd::prelude::*;

use crate::text::{
    hex, hex_text, lossy_str, pad_left, signed_dec, signed_dec_text, lossy_text,
};

verus! {

/// The NT status codes that the driver answers with.
#[derive(Clone, Copy, Debug, PartialEq, Eq, Structural)]
pub enum NtStatus {
    AccessDenied,
    BufferOverflow,
    DirectoryNotEmpty,
    DiskFull,
    EndOfFile,
    FileIsADirectory,
    FileTooLarge,
    InsufficientResources,
    InvalidDeviceRequest,
    InvalidParameter,
    IoDeviceError,
    MediaWriteProtected,
    NameTooLong,
    NotADirectory,
    NotImplemented,
    NotSupported,
    ObjectNameCollision,
    ObjectNameNotFound,
    Unsuccessful,
}

/// The number that Windows gives a status.
pub open spec fn status_code(status: NtStatus) -> u32 {
    match status {
        NtStatus::AccessDenied => 0xC000_0022,
        NtStatus::BufferOverflow => 0x8000_0005,
        NtStatus::DirectoryNotEmpty => 0xC000_0101,
        NtStatus::DiskFull => 0xC000_007F,
        NtStatus::EndOfFile => 0xC000_0011,
        NtStatus::FileIsADirectory => 0xC000_00BA,
        NtStatus::FileTooLarge => 0xC000_0904,
        NtStatus::InsufficientResources => 0xC000_009A,
        NtStatus::InvalidDeviceRequest => 0xC000_0010,
        NtStatus::InvalidParameter => 0xC000_000D,
        NtStatus::IoDeviceError => 0xC000_0185,
        NtStatus::MediaWriteProtected => 0xC000_00A2,
        NtStatus::NameTooLong => 0xC000_0106,
        NtStatus::NotADirectory => 0xC000_0103,
        NtStatus::NotImplemented => 0xC000_0002,
        NtStatus::NotSupported => 0xC000_00BB,
        NtStatus::ObjectNameCollision => 0xC000_0035,
        NtStatus::ObjectNameNotFound => 0xC000_0034,
        NtStatus::Unsuccessful => 0xC000_0001,
    }
}

impl NtStatus {
    /// The number that Windows gives this status.
    pub fn code(self) -> (n: u32)
        ensures
            n == status_code(self),
    {
        match self {
            NtStatus::AccessDenied => 0xC000_0022,
            NtStatus::BufferOverflow => 0x8000_0005,
            NtStatus::DirectoryNotEmpty => 0xC000_0101,
            NtStatus::DiskFull => 0xC000_007F,
            NtStatus::EndOfFile => 0xC000_0011,
            NtStatus::FileIsADirectory => 0xC000_00BA,
            NtStatus::FileTooLarge => 0xC000_0904,
            NtStatus::InsufficientResources => 0xC000_009A,
            NtStatus::InvalidDeviceRequest => 0xC000_0010,
            NtStatus::InvalidParameter => 0xC000_000D,
            NtStatus::IoDeviceError => 0xC000_0185,
            NtStatus::MediaWriteProtected => 0xC000_00A2,
            NtStatus::NameTooLong => 0xC000_0106,
            NtStatus::NotADirectory => 0xC000_0103,
            NtStatus::NotImplemented => 0xC000_0002,
            NtStatus::NotSupported => 0xC000_00BB,
            NtStatus::ObjectNameCollision => 0xC000_0035,
            NtStatus::ObjectNameNotFound => 0xC000_0034,
            NtStatus::Unsuccessful => 0xC000_0001,
        }
    }
}

/// The status that stands for an error number. The numbers are those of
/// macOS, which the ext4 side uses on every platform.
pub open spec fn status_of_errno(errno: i32) -> NtStatus {
    match errno {
        2 => NtStatus::ObjectNameNotFound,  // ENOENT
        5 => NtStatus::IoDeviceError,  // EIO
        12 => NtStatus::InsufficientResources,  // ENOMEM
        13 => NtStatus::AccessDenied,  // EACCES
        17 => NtStatus::ObjectNameCollision,  // EEXIST
        20 => NtStatus::NotADirectory,  // ENOTDIR
        21 => NtStatus::FileIsADirectory,  // EISDIR
        22 => NtStatus::InvalidParameter,  // EINVAL
        27 => NtStatus::FileTooLarge,  // EFBIG
        28 => NtStatus::DiskFull,  // ENOSPC
        30 => NtStatus::MediaWriteProtected,  // EROFS
        45 => NtStatus::NotSupported,  // ENOTSUP
        63 => NtStatus::NameTooLong,  // ENAMETOOLONG
        66 => NtStatus::DirectoryNotEmpty,  // ENOTEMPTY
        78 => NtStatus::NotImplemented,  // ENOSYS
        _ => NtStatus::InvalidDeviceRequest,
    }
}

/// The status that stands for an error number.
pub fn errno_to_status(errno: i32) -> (status: NtStatus)
    ensures
        status == status_of_errno(errno),
{
    match errno {
        2 => NtStatus::ObjectNameNotFound,
        5 => NtStatus::IoDeviceError,
        12 => NtStatus::InsufficientResources,
        13 => NtStatus::AccessDenied,
        17 => NtStatus::ObjectNameCollision,
        20 => NtStatus::NotADirectory,
        21 => NtStatus::FileIsADirectory,
        22 => NtStatus::InvalidParameter,
        27 => NtStatus::FileTooLarge,
        28 => NtStatus::DiskFull,
        30 => NtStatus::MediaWriteProtected,
        45 => NtStatus::NotSupported,
        63 => NtStatus::NameTooLong,
        66 => NtStatus::DirectoryNotEmpty,
        78 => NtStatus::NotImplemented,
        _ => NtStatus::InvalidDeviceRequest,
    }
}

/// The line that goes to the console when the ext4 side reports an error.
pub fn capi_error_line(errno: i32, message: &str) -> (line: String)
    ensures
        line@ == "ext4: capi error errno="@ + signed_dec(errno as int) + " status=0x"@ + pad_left(
            hex(status_code(status_of_errno(errno)) as nat),
            8,
            '0',
        ) + ": "@ + message@,
{
    let mut line = "ext4: capi error errno=".to_owned();
    line.append(signed_dec_text(errno as i64).as_str());
    line.append(" status=0x");
    line.append(hex_text(errno_to_status(errno).code() as u64, 8).as_str());
    line.append(": ");
    line.append(message);
    line
}

/// What the ext4 side says of its last failure, for a command's message.
pub fn last_err(message: Option<&[u8]>) -> (text: String)
    ensures
        match message {
            Some(bytes) => text@ == lossy_text(bytes@),
            None => text@ == "<null>"@,
        },
{
    match message {
        Some(bytes) => lossy_str(bytes),
        None => "<null>".to_owned(),
    }
}

/// What the ext4 side says of its last failure, for the console.
pub fn last_message(message: Option<&[u8]>) -> (text: String)
    ensures
        match message {
            Some(bytes) => text@ == lossy_text(bytes@),
            None => text@ == ""@,
        },
{
    match message {
        Some(bytes) => lossy_str(bytes),
        None => "".to_owned(),
    }
}

/// Why a request is refused. `errno` is there where the ext4 side reported
/// it; such a failure is also written to the console.
#[derive(Clone, Copy, Debug, PartialEq, Eq, Structural)]
pub struct Failure {
    pub status: NtStatus,
    pub errno: Option<i32>,
}

/// A refusal by the driver's own rules.
pub open spec fn refused(status: NtStatus) -> Failure {
    Failure { status, errno: None }
}

/// A failure that the ext4 side reported.
pub open spec fn reported(errno: i32) -> Failure {
    Failure { status: status_of_errno(errno), errno: Some(errno) }
}

impl Failure {
    /// A refusal by the driver's own rules.
    pub fn refuse(status: NtStatus) -> (f: Failure)
        ensures
            f == refused(status),
    {
        Failure { status, errno: None }
    }

    /// A failure that the ext4 side reported.
    pub fn report(errno: i32) -> (f: Failure)
        ensures
            f == reported(errno),
    {
        Failure { status: errno_to_status(errno), errno: Some(errno) }
    }
}

/// No two statuses share a number.
pub proof fn law_statuses_are_distinct(a: NtStatus, b: NtStatus)
    requires
        status_code(a) == status_code(b),
    ensures
        a == b,
{
}

/// What Windows is told of an error of ext4. The errors that stand here are told
/// apart; all others are told as an invalid request.
#[verifier::rlimit(40)]
pub proof fn law_errors_are_told_apart(errno: i32)
    ensures
        ({
            let known = seq![2i32, 5, 12, 13, 17, 20, 21, 22, 27, 28, 30, 45, 63, 66, 78];
            let codes = seq![
                0xC000_0034u32,
                0xC000_0185,
                0xC000_009A,
                0xC000_0022,
                0xC000_0035,
                0xC000_0103,
                0xC000_00BA,
                0xC000_000D,
                0xC000_0904,
                0xC000_007F,
                0xC000_00A2,
                0xC000_00BB,
                0xC000_0106,
                0xC000_0101,
                0xC000_0002,
            ];
            &&& forall|i: int|
                0 <= i < known.len() && #[trigger] known[i] == errno ==> status_code(
                    status_of_errno(errno),
                ) == codes[i]
            &&& !known.contains(errno) ==> status_code(status_of_errno(errno)) == 0xC000_0010
        }),
{
    let known = seq![2i32, 5, 12, 13, 17, 20, 21, 22, 27, 28, 30, 45, 63, 66, 78];
    assert(known[0] == 2 && known[1] == 5 && known[2] == 12 && known[3] == 13 && known[4] == 17
        && known[5] == 20 && known[6] == 21 && known[7] == 22 && known[8] == 27 && known[9] == 28
        && known[10] == 30 && known[11] == 45 && known[12] == 63 && known[13] == 66 && known[14]
        == 78);
}

}
