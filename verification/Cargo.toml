[package]
name = "beer_mouse_clicker"
version = "0.2.0"
edition = "2021"
publish = false

[dependencies]
rand = "0.8"
regex = "1"
rusqlite = { version = "0.32", features = ["bundled"] }
winapi = { version = "0.3", features = ["winuser", "wingdi", "libloaderapi", "shellapi", "winnls", "synchapi", "winbase", "minwindef", "windef", "ntdef", "errhandlingapi"] }
winreg = "0.52"
image = { version = "0.25", default-features = false, features = ["png", "jpeg", "ico"] }
egui = { version = "0.31", default-features = false, features = ["default_fonts"] }
