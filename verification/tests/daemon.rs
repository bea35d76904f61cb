//! The daemon.

use network_manager_rs::connection::activation::{ActivationEngine, ActivationError};
use network_manager_rs::connection::device::{DeviceInfo, DeviceKind};
use network_manager_rs::connection::ip::ActivationOutcome;
use network_manager_rs::connection::profile::{ConnectionProfile, WifiSecurity};
use network_manager_rs::connection::secrets::SecretReference;
use network_manager_rs::connection::state::{ConnectionEvent, ConnectionState};
use network_manager_rs::daemon::{Daemon, NetworkBackend};
use network_manager_rs::linux::model::{
    AccessPoint, Address, InterfaceType, Link, NetlinkError, NetworkEvent, NetworkEventSource,
    Route, Ssid, WifiBand, WifiBandId, WifiCapabilities, WifiCipher, WirelessInterface,
};

struct EmptyEventSource;

impl NetworkEventSource for EmptyEventSource {
    fn next_event(&mut self) -> Result<Option<NetworkEvent>, NetlinkError> {
        Ok(None)
    }
}

#[derive(Default)]
struct FakeBackend {
    links: Vec<Link>,
    addresses: Vec<Address>,
    routes: Vec<Route>,
    wifi: Vec<WirelessInterface>,
    access_points: Vec<AccessPoint>,
}

impl FakeBackend {
    fn with_wifi_interface(mut self, index: i32, name: &str, mac: [u8; 6]) -> Self {
        self.wifi.push(WirelessInterface {
            index,
            name: name.to_string(),
            wiphy_index: Some(index as u32),
            wiphy_name: Some(format!("phy{index}")),
            interface_type: InterfaceType::Station,
            mac: Some(mac),
            up: true,
            capabilities: WifiCapabilities {
                supported_interfaces: vec![InterfaceType::Station],
                cipher_suites: vec![WifiCipher::Ccmp],
                bands: vec![WifiBand {
                    id: WifiBandId::Ghz2,
                    channels: vec![1, 6, 11],
                    frequencies: vec![2412, 2437, 2462],
                    ht_capabilities: None,
                    vht_capabilities: None,
                }],
                max_scan_ssids: Some(4),
                scan_supported: true,
            },
        });
        self
    }
}

impl NetworkBackend for FakeBackend {
    type Events = EmptyEventSource;

    fn links(&self) -> Result<Vec<Link>, NetlinkError> {
        Ok(self.links.clone())
    }

    fn addresses(&self) -> Result<Vec<Address>, NetlinkError> {
        Ok(self.addresses.clone())
    }

    fn routes(&self) -> Result<Vec<Route>, NetlinkError> {
        Ok(self.routes.clone())
    }

    fn events(&self) -> Result<EmptyEventSource, NetlinkError> {
        Ok(EmptyEventSource)
    }

    fn wifi_interfaces(&self) -> Result<Vec<WirelessInterface>, NetlinkError> {
        Ok(self.wifi.clone())
    }

    fn access_points(&self) -> Result<Vec<AccessPoint>, NetlinkError> {
        Ok(self.access_points.clone())
    }

    fn scan_wifi(&self) -> Result<Vec<AccessPoint>, NetlinkError> {
        Ok(self.access_points.clone())
    }

    fn wifi_events(&self) -> Result<EmptyEventSource, NetlinkError> {
        Ok(EmptyEventSource)
    }
}

struct SuccessEngine;

impl ActivationEngine for SuccessEngine {
    fn activate(
        &mut self,
        _profile: &ConnectionProfile,
        _device: &DeviceInfo,
    ) -> Result<ActivationOutcome, ActivationError> {
        Ok(ActivationOutcome::default())
    }

    fn deactivate(&mut self, _profile: &ConnectionProfile) -> Result<(), ActivationError> {
        Ok(())
    }
}

fn open_profile(id: &str) -> ConnectionProfile {
    ConnectionProfile::wifi(
        id,
        id,
        Ssid::from_bytes(b"home").unwrap(),
        WifiSecurity::open(),
    )
    .unwrap()
}

fn psk_profile(id: &str) -> ConnectionProfile {
    ConnectionProfile::wifi(
        id,
        id,
        Ssid::from_bytes(b"home").unwrap(),
        WifiSecurity::psk(SecretReference::Keyring {
            identifier: format!("nmd/{id}"),
        }),
    )
    .unwrap()
}

#[test]
fn daemon_exposes_backend_network_state() {
    let backend = FakeBackend::default().with_wifi_interface(
        2,
        "wlan0",
        [0x00, 0x11, 0x22, 0x33, 0x44, 0x55],
    );
    let daemon = Daemon::new(backend);

    assert_eq!(daemon.links().unwrap().len(), 0);
    assert_eq!(daemon.addresses().unwrap().len(), 0);
    let wifi = daemon.wifi_interfaces().unwrap();
    assert_eq!(wifi.len(), 1);
    assert_eq!(wifi[0].name, "wlan0");
    assert_eq!(daemon.scan_wifi().unwrap().len(), 0);
}

#[test]
fn daemon_derives_devices_from_wireless_interfaces() {
    let backend = FakeBackend::default().with_wifi_interface(
        2,
        "wlan0",
        [0x00, 0x11, 0x22, 0x33, 0x44, 0x55],
    );
    let daemon = Daemon::new(backend);

    let devices = daemon.devices().unwrap();
    assert_eq!(devices.len(), 1);
    assert_eq!(devices[0].interface_name, "wlan0");
    assert!(matches!(
        devices[0].kind,
        DeviceKind::Wifi
    ));
}

#[test]
fn daemon_profile_crud_and_activation_integration() {
    let backend = FakeBackend::default().with_wifi_interface(
        2,
        "wlan0",
        [0x00, 0x11, 0x22, 0x33, 0x44, 0x55],
    );
    let mut daemon = Daemon::with_engine(backend, SuccessEngine);

    assert!(daemon.list_profiles().unwrap().is_empty());
    daemon.create_profile(psk_profile("home")).unwrap();
    daemon.create_profile(psk_profile("office")).unwrap();
    assert_eq!(daemon.list_profiles().unwrap().len(), 2);

    let device = daemon.devices().unwrap().remove(0);
    let active = daemon.activate(&device).unwrap();
    assert_eq!(active.profile.id, "home");
    assert_eq!(active.state, ConnectionState::Activated);

    daemon.deactivate(active.id).unwrap();
    assert!(matches!(
        daemon.connection_events().last(),
        Some(ConnectionEvent::Deactivated { .. })
    ));

    daemon.delete_profile(&"office".to_string()).unwrap();
    assert_eq!(daemon.list_profiles().unwrap().len(), 1);
}

#[test]
fn daemon_activation_failure_is_reported() {
    struct FailingEngine;
    impl ActivationEngine for FailingEngine {
        fn activate(
            &mut self,
            _profile: &ConnectionProfile,
            _device: &DeviceInfo,
        ) -> Result<ActivationOutcome, ActivationError> {
            Err(ActivationError::Engine("simulated failure".to_string()))
        }

        fn deactivate(&mut self, _profile: &ConnectionProfile) -> Result<(), ActivationError> {
            Ok(())
        }
    }

    let backend = FakeBackend::default().with_wifi_interface(
        2,
        "wlan0",
        [0x00, 0x11, 0x22, 0x33, 0x44, 0x55],
    );
    let mut daemon = Daemon::with_engine(backend, FailingEngine);
    daemon.create_profile(open_profile("home")).unwrap();

    let device = daemon.devices().unwrap().remove(0);
    assert!(matches!(
        daemon.activate(&device).unwrap_err(),
        ActivationError::Engine(_)
    ));
    assert!(matches!(
        daemon.connection_events().last(),
        Some(ConnectionEvent::Failed { .. })
    ));
}

#[test]
fn daemon_reports_unsupported_activation_without_pretense() {
    let backend = FakeBackend::default().with_wifi_interface(
        2,
        "wlan0",
        [0x00, 0x11, 0x22, 0x33, 0x44, 0x55],
    );
    let mut daemon = Daemon::new(backend);
    daemon.create_profile(open_profile("home")).unwrap();

    let device = daemon.devices().unwrap().remove(0);
    let err = daemon.activate(&device).unwrap_err();
    assert!(matches!(err, ActivationError::Engine(_)));
    assert_eq!(
        daemon.active_connections()[0].state,
        ConnectionState::Failed
    );
}
