//! The verified core of a Linux network manager: wire formats, connection
//! profiles, the activation state machine and the values it publishes on D-Bus.

pub mod authorization;
pub mod bytes;
pub mod command;
pub mod connection;
pub mod daemon;
pub mod dbus;
pub mod io_error;
pub mod laws;
pub mod linux;
pub mod net;
pub mod net_text;
pub mod sort;
pub mod table;
pub mod text;
