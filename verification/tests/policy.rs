//! The order of automatic activation.

use network_manager_rs::connection::policy::order_for_autoconnect;
use network_manager_rs::connection::profile::{ConnectionProfile, WifiSecurity};
use network_manager_rs::connection::secrets::SecretReference;
use network_manager_rs::linux::model::Ssid;

fn profile(id: &str) -> ConnectionProfile {
    ConnectionProfile::wifi(
        id,
        id,
        Ssid::from_bytes(b"home").unwrap(),
        WifiSecurity::psk(SecretReference::Keyring {
            identifier: format!("nmd/{id}"),
        }),
    )
    .unwrap()
}

#[test]
fn orders_by_descending_priority() {
    let mut low = profile("low");
    low.priority = 1;
    let mut high = profile("high");
    high.priority = 10;
    let mut middle = profile("middle");
    middle.priority = 5;

    let order = order_for_autoconnect(&[low, middle, high]);
    assert_eq!(order, ["high", "middle", "low"]);
}

#[test]
fn breaks_priority_ties_by_ascending_id() {
    let mut a = profile("a");
    a.priority = 7;
    let mut b = profile("b");
    b.priority = 7;
    let mut c = profile("c");
    c.priority = 7;

    let order = order_for_autoconnect(&[c, a, b]);
    assert_eq!(order, ["a", "b", "c"]);
}

#[test]
fn excludes_disabled_profiles() {
    let enabled = profile("enabled");
    let mut disabled = profile("disabled");
    disabled.enabled = false;

    let order = order_for_autoconnect(&[enabled, disabled]);
    assert_eq!(order, ["enabled"]);
}

#[test]
fn excludes_profiles_with_autoconnect_off() {
    let mut manual = profile("manual");
    manual.autoconnect = false;
    let automatic = profile("automatic");

    let order = order_for_autoconnect(&[manual, automatic]);
    assert_eq!(order, ["automatic"]);
}

#[test]
fn empty_input_yields_empty_output() {
    assert!(order_for_autoconnect(&[]).is_empty());
}
