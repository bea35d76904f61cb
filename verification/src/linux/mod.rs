//! Linux backends: the kernel's wire formats and what is made of them.

pub mod activation;
pub mod dhcp;
pub mod dns;
pub mod elements;
pub mod events;
pub mod genl;
pub mod ip_engine;
pub mod ipconfig;
pub mod model;
pub mod netlink;
pub mod nl80211;
pub mod supplicant;
pub mod wifi;
