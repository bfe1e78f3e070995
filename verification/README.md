# ext4_win_driver

Userspace tooling for ext4 volumes on Windows: a command line browser that
lists, reads and changes files in an image or on a raw device, and the rules of
a WinFsp driver that mounts an ext4 partition as a drive letter.

- `src/` holds the rules, verified with Verus: what each request of Windows and
  each command does, which calls it makes on the ext4 side, and what is answered
  or printed for every reply.
- `app/` is the program around them: argument parsing, the calls into the ext4
  library, WinFsp's callbacks, the watcher's window and the Windows service.
- `tests/` runs the library on concrete values.

Usage:

```
ext4 info   <image>                        # volume label, sizes, features
ext4 ls     <image> [path]                 # directory listing
ext4 stat   <image> <path>
ext4 cat    <image> <path>
ext4 tree   <image>
ext4 parts  <image>                        # MBR/GPT partition table
ext4 ls     <whole-disk.img> --part 1 /    # browse partition 1
ext4 mount  <image> --drive X:             # Windows: mount, --ro for read-only
ext4 watch                                 # Windows: mount disks that arrive
```
