[package]
name = "ext4_win_driver"
version = "0.1.0"
edition = "2021"
publish = false

[dependencies]
anyhow = "1"
clap = { version = "4", features = ["derive"] }
ctrlc = "3"
am-fs-ext4 = "0.5"
widestring = "1"
windows = { version = "0.62", features = ["Win32_Foundation", "Win32_Storage_FileSystem"] }
windows-service = "0.8"
windows-sys = { version = "0.59", features = ["Win32_Foundation", "Win32_Storage_FileSystem", "Win32_System_IO", "Win32_System_Ioctl", "Win32_System_LibraryLoader", "Win32_System_Registry", "Win32_System_Threading", "Win32_UI_WindowsAndMessaging", "Win32_Graphics_Gdi"] }
winfsp = "0.13"
winfsp-sys = "*"
