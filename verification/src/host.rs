//! How a mounted volume is presented to Windows.

use vstd::prelude::*;

use crate::mount::Mount;

verus! {

/// How WinFsp is told to present a volume.
#[derive(Clone, Copy, Debug, PartialEq, Eq, Structural)]
pub struct VolumeSetup {
    pub sector_size: u16,
    pub sectors_per_allocation_unit: u16,
    pub max_component_length: u16,
    pub file_info_timeout: u32,
    pub case_sensitive_search: bool,
    pub case_preserved_names: bool,
    pub unicode_on_disk: bool,
    pub pass_query_directory_filename: bool,
    pub extended_attributes: bool,
    pub read_only_volume: bool,
}

/// How a volume is presented: as one with case-sensitive names and extended
/// attributes, which may be written exactly where the mount may.
pub fn volume_setup(mount: &Mount) -> (setup: VolumeSetup)
    ensures
        setup == (VolumeSetup {
            sector_size: 4096,
            sectors_per_allocation_unit: 1,
            max_component_length: 255,
            file_info_timeout: 1000,
            case_sensitive_search: true,
            case_preserved_names: true,
            unicode_on_disk: true,
            pass_query_directory_filename: true,
            extended_attributes: true,
            read_only_volume: !mount.writable,
        }),
{
    VolumeSetup {
        sector_size: 4096,
        sectors_per_allocation_unit: 1,
        max_component_length: 255,
        file_info_timeout: 1000,
        case_sensitive_search: true,
        case_preserved_names: true,
        unicode_on_disk: true,
        pass_query_directory_filename: true,
        extended_attributes: true,
        read_only_volume: !mount.writable,
    }
}

/// The name of the file system.
pub fn filesystem_name() -> (s: &'static str)
    ensures
        s@ == "ext4"@,
{
    "ext4"
}

/// What is said once a volume is mounted.
pub fn mounted_banner(mount_point: &str, mount: &Mount) -> (m: String)
    ensures
        m@ == "ext4 mounted at "@ + mount_point@ + " ("@ + (if mount.writable {
            "RW"@
        } else {
            "RO"@
        }) + "). Ctrl-C to unmount."@,
{
    let mut m = "ext4 mounted at ".to_owned();
    m.append(mount_point);
    m.append(" (");
    m.append(
        if mount.writable {
            "RW"
        } else {
            "RO"
        },
    );
    m.append("). Ctrl-C to unmount.");
    m
}

}
