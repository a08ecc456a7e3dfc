[package]
name = "hypnos-audio"
version = "0.1.0"
edition = "2021"
publish = false

[dependencies]
anyhow = "1"
tokio = { version = "1", features = ["rt-multi-thread", "macros", "sync", "time"] }
tracing = "0.1"
tracing-subscriber = "0.3"
tray-icon = "0.21"
velopack = "0.0"
winit = { version = "0.30", default-features = false, features = ["rwh_06"] }
windows = { version = "0.61", features = ["Win32_Foundation", "Win32_Security", "Win32_Media_Audio", "Win32_Media_Audio_Endpoints", "Win32_System_Com", "Win32_System_Com_StructuredStorage", "Win32_System_Variant", "Win32_System_Registry", "Win32_System_Threading", "Win32_UI_WindowsAndMessaging", "Win32_UI_Shell_PropertiesSystem", "Data_Xml_Dom", "UI_Notifications"] }
