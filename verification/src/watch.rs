//! The foreground watcher: it mounts ext4 volumes on disks that arrive, each
//! by a child process, and ends the children of disks that are gone.

use vstd::prelude::*;

use crate::automount::{drive_str, drive_text, part_name, part_str};
use crate::mount::{opening_for, Opening};
use crate::numeric::{digits_value, lemma_digits_read_back};
use crate::text::{dec, dec_text, views};

verus! {

/// What stands in front of the watcher's messages.
pub fn tag() -> (t: &'static str)
    ensures
        t@ == "[watch]"@,
{
    "[watch]"
}

/// What the watcher says where it cannot run, or `None` where it can.
pub fn run(on_windows: bool) -> (hint: Option<&'static str>)
    ensures
        if on_windows {
            hint is None
        } else {
            hint matches Some(h) && h@
                == "[watch] is Windows-only — this build is non-Windows, exiting."@
        },
{
    if on_windows {
        None
    } else {
        Some("[watch] is Windows-only — this build is non-Windows, exiting.")
    }
}

/// Whether a disk that arrives is passed over: where no more mounts are to be
/// made, and where that cannot be told.
pub fn passes_over(shutting_down: Option<bool>) -> (yes: bool)
    ensures
        yes == (shutting_down != Some(false)),
{
    match shutting_down {
        Some(down) => down,
        None => true,
    }
}

/// The arguments of the child that mounts a volume. Partition zero stands for
/// the whole disk and is not named.
pub open spec fn mount_arguments(disk: Seq<char>, n: usize, letter: char) -> Seq<Seq<char>> {
    let whole = seq!["mount"@, disk, "--drive"@, drive_text(letter)];
    if n > 0 {
        whole + seq!["--part"@, dec(n as nat)]
    } else {
        whole
    }
}

/// The arguments of the child that mounts a volume.
pub fn mount_args(disk: &str, n: usize, letter: char) -> (args: Vec<String>)
    ensures
        views(args@) == mount_arguments(disk@, n, letter),
{
    let mut args: Vec<String> = Vec::new();
    args.push("mount".to_owned());
    args.push(disk.to_owned());
    args.push("--drive".to_owned());
    args.push(drive_str(letter));
    if n > 0 {
        args.push("--part".to_owned());
        args.push(dec_text(n as u64));
    }
    proof {
        assert(views(args@) =~= mount_arguments(disk@, n, letter));
    }
    args
}

/// The partition that the arguments of a mount name, as the mount reads them.
pub open spec fn named_part(args: Seq<Seq<char>>) -> Option<usize> {
    if args.len() == 6 && args[4] == "--part"@ {
        match digits_value(args[5], 10) {
            Some(n) => Some(n as usize),
            None => None,
        }
    } else {
        None
    }
}

/// The child opens what was probed: the whole disk for partition zero, else
/// the partition with that number.
pub proof fn law_child_opens_the_partition(disk: Seq<char>, n: usize, letter: char, writable: bool)
    ensures
        opening_for(named_part(mount_arguments(disk, n, letter)), writable) == if n == 0 {
            Opening::Direct { writable }
        } else {
            Opening::Partition { n, writable }
        },
{
    if n > 0 {
        let args = mount_arguments(disk, n, letter);
        assert(args[4] == "--part"@ && args[5] == dec(n as nat));
        lemma_digits_read_back(n as nat, 10);
    }
}

/// The message about a volume that is being mounted.
pub fn mounting(disk: &str, n: usize, letter: char) -> (m: String)
    ensures
        m@ == "[watch] ext4 detected on "@ + part_name(disk@, n) + " -> mounting on "@
            + drive_text(letter),
{
    let mut m = "[watch] ext4 detected on ".to_owned();
    m.append(part_str(disk, n).as_str());
    m.append(" -> mounting on ");
    m.append(drive_str(letter).as_str());
    m
}

/// The message about a child that could not be started.
pub fn spawn_failed(disk: &str, n: usize, letter: char, reason: &str) -> (m: String)
    ensures
        m@ == "[watch] spawn `ext4 mount "@ + disk@ + " --drive "@ + drive_text(letter) + (if n > 0 {
            " --part "@ + dec(n as nat)
        } else {
            ""@
        }) + "` failed: "@ + reason@,
{
    let mut m = "[watch] spawn `ext4 mount ".to_owned();
    m.append(disk);
    m.append(" --drive ");
    m.append(drive_str(letter).as_str());
    if n > 0 {
        let mut part = " --part ".to_owned();
        part.append(dec_text(n as u64).as_str());
        m.append(part.as_str());
    } else {
        m.append("");
    }
    m.append("` failed: ");
    m.append(reason);
    m
}

/// The message about a child that was ended because its disk is gone.
pub fn removed(disk: &str, n: usize, letter: char) -> (m: String)
    ensures
        m@ == "[watch] "@ + part_name(disk@, n) + " removed -> unmounted from "@ + drive_text(
            letter,
        ),
{
    let mut m = "[watch] ".to_owned();
    m.append(part_str(disk, n).as_str());
    m.append(" removed -> unmounted from ");
    m.append(drive_str(letter).as_str());
    m
}

/// The message about a child that was ended because the watcher ends.
pub fn shut_down(disk: &str, n: usize, letter: char) -> (m: String)
    ensures
        m@ == "[watch] "@ + part_name(disk@, n) + " -> child unmounted from "@ + drive_text(letter)
            + " (shutdown)"@,
{
    let mut m = "[watch] ".to_owned();
    m.append(part_str(disk, n).as_str());
    m.append(" -> child unmounted from ");
    m.append(drive_str(letter).as_str());
    m.append(" (shutdown)");
    m
}

/// The child is told to mount the disk at the drive, and of a partition, with
/// any number but zero, its number as well.
pub proof fn law_children_are_told_what_to_mount(disk: Seq<char>, n: usize, letter: char)
    ensures
        ({
            let args = mount_arguments(disk, n, letter);
            &&& args.len() == if n == 0 {
                4int
            } else {
                6
            }
            &&& args[0] == "mount"@
            &&& args[1] == disk
            &&& args[2] == "--drive"@
            &&& args[3] == seq![letter, ':']
            &&& n > 0 ==> args[4] == "--part"@ && args[5] == dec(n as nat)
        }),
{
    reveal_strlit(":");
    assert(drive_text(letter) =~= seq![letter, ':']);
}

}
