use vstd::prelude::*;

verus! {

/// The entries of the tray menu.
#[derive(Debug, Clone, Copy, PartialEq, Eq, Structural)]
pub enum TrayMenuItem {
    CheckForUpdates,
    LaunchOnStartup,
    Exit,
}

/// What a click on a tray menu entry asks for.
#[derive(Debug, Clone, Copy, PartialEq, Eq, Structural)]
pub enum TrayCommand {
    /// Signal shutdown and leave the tray's event loop.
    Shutdown,
    /// Check for, download and announce an update, off the tray's thread.
    CheckForUpdates,
    /// Register (`true`) or unregister (`false`) launching on startup.
    SetLaunchOnStartup(bool),
}

/// The command for a click on `item`; `startup_checked` is the check mark of the
/// "Launch on startup" entry after the click.
pub fn tray_command(item: TrayMenuItem, startup_checked: bool) -> (c: TrayCommand)
    ensures
        c == match item {
            TrayMenuItem::Exit => TrayCommand::Shutdown,
            TrayMenuItem::CheckForUpdates => TrayCommand::CheckForUpdates,
            TrayMenuItem::LaunchOnStartup => TrayCommand::SetLaunchOnStartup(startup_checked),
        },
{
    match item {
        TrayMenuItem::Exit => TrayCommand::Shutdown,
        TrayMenuItem::CheckForUpdates => TrayCommand::CheckForUpdates,
        TrayMenuItem::LaunchOnStartup => TrayCommand::SetLaunchOnStartup(startup_checked),
    }
}

} // verus!
