//! ext4 volumes on Windows: the rules of the driver and of its command line,
//! separated from the calls that touch disks, windows and processes.

pub mod text;
pub mod ea;
pub mod utf16;
pub mod xattr;
pub mod path;
pub mod status;
pub mod attr;
pub mod resolve;
pub mod mount;
pub mod context;
pub mod changes;
pub mod attributes;
pub mod directory;
pub mod format;
pub mod calendar;
pub mod numeric;
pub mod cmd;
pub mod device;
pub mod probe;
pub mod automount;
pub mod watch;
pub mod service;
pub mod host;
