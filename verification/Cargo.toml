[package]
name = "acu_patches"
version = "0.4.0"
edition = "2021"
publish = false

[dependencies]
libmem = { version = "=5.1.4", default-features = false }
log = "=0.4.35"
windows = { version = "=0.58.0", features = ["Win32_Foundation", "Win32_System_LibraryLoader", "Win32_System_SystemServices", "Win32_System_Console", "Win32_UI_Input_KeyboardAndMouse", "Win32_UI_WindowsAndMessaging", "Wdk_System_Threading", "Win32_System_Threading", "Win32_Security"] }
windows-strings = "=0.1.0"
assert-offset = "=0.1.2"
