//! The commands of the `ext4` tool. Each function here takes what the ext4
//! side replied and returns what the command prints, or why it fails.

pub mod calls;
pub mod cat;
pub mod report;
pub mod tree;
pub mod verify;

pub use self::calls::{
    chmod, chown, fallocate, getxattr, link, listxattr, mkdir, mknod, readlink, removexattr,
    rename, rename_replacing, rmdir, setflags, setxattr, symlink, touch, truncate, unlink,
    write_file,
};
pub use self::cat::cat;
pub use self::report::{audit, info, ls, parts, stat};
pub use self::tree::tree;
pub use self::verify::verify_ls;
