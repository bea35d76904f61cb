//! What the operations of the library are for, stated of what goes into them and
//! what comes out.
//!
//! The modules that hold the operations say how each result is made up. The laws
//! here say what every result must satisfy, in the words of the outside world:
//! octets on the wire, lines of a file, names and numbers of the bus, and the calls
//! that a host receives.

pub mod addresses;
pub mod bus;
pub mod commands;
pub mod connection;
pub mod dhcp;
pub mod dns;
pub mod ip;
pub mod rtnetlink;
pub mod settings;
pub mod supplicant;
pub mod wifi;
pub mod wireless;
