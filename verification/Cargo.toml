[package]
name = "beesynth"
version = "0.1.0"
edition = "2021"
publish = false

[dependencies]
wyhash = "0.5"
raw-cpuid = "11"
rustfft = "6"
find_peaks = "0.1"
ctrlc = "3"
windows = { version = "0.44", features = ["Win32_Foundation", "Win32_Security", "Win32_Storage_FileSystem", "Win32_System_Threading", "Win32_System_Diagnostics_Debug", "Win32_System_Kernel", "Win32_System_Registry", "Win32_System_Services", "Win32_System_IO", "Win32_System_Ioctl", "Win32_System_SystemInformation", "Win32_System_WindowsProgramming"] }
