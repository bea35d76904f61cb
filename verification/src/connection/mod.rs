//! Connections: profiles, the activation state machine and IP configuration.

pub mod activation;
pub mod device;
pub mod ip;
pub mod policy;
pub mod profile;
pub mod secrets;
pub mod state;
pub mod store;
pub mod supplicant_engine;
