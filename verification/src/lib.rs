//! Decisions of a background utility that mutes the system when a headset goes
//! away and restores the saved audio state when it comes back.

pub mod bluetooth;
pub mod event_loop;
pub mod notifications;
pub mod startup;
pub mod state;
pub mod tray;
pub mod updater;
