//! Ownership of the resolver configuration.

use network_manager_rs::connection::ip::{DnsConfig, DnsError, DnsOwnership};
use network_manager_rs::io_error::{IoError, IoErrorKind};
use network_manager_rs::linux::dns::{parse_owner, LinuxDnsManager};
use network_manager_rs::net::{IpAddr, Ipv4Addr, Ipv6Addr};

const PATH: &str = "/run/nmd/resolv.conf";

/// A resolver file in memory, and the manager that decides about it.
struct Managed {
    manager: LinuxDnsManager,
    content: Option<String>,
}

impl Managed {
    fn new() -> Self {
        Self {
            manager: LinuxDnsManager::new(PATH.to_string()),
            content: None,
        }
    }

    fn read(&self) -> Result<String, IoError> {
        match &self.content {
            Some(content) => Ok(content.clone()),
            None => Err(IoError::new(
                IoErrorKind::NotFound,
                "no such file".to_string(),
            )),
        }
    }

    fn apply(&mut self, owner: &str, config: &DnsConfig) -> Result<DnsOwnership, DnsError> {
        let (content, ownership) = self.manager.apply(owner, config, self.read())?;
        self.content = Some(content);
        Ok(ownership)
    }

    fn remove(&mut self, ownership: &DnsOwnership) -> Result<(), DnsError> {
        if self.manager.remove(ownership, self.read())? {
            self.content = None;
        }
        Ok(())
    }
}

fn config() -> DnsConfig {
    DnsConfig {
        search_domains: vec!["lan.example".to_string()],
        servers: vec![
            IpAddr::V4(Ipv4Addr::new(192, 168, 1, 1)),
            IpAddr::V4(Ipv4Addr::new(8, 8, 8, 8)),
        ],
    }
}

#[test]
fn applies_and_removes_owned_config() {
    let mut manager = Managed::new();
    let ownership = manager.apply("profile-a", &config()).unwrap();
    assert_eq!(ownership.owner, "profile-a");
    assert_eq!(ownership.path, PATH.to_string());

    let written = manager.content.clone().unwrap();
    assert_eq!(parse_owner(&written).as_deref(), Some("profile-a"));
    assert!(written.contains("search lan.example"));
    assert!(written.contains("nameserver 192.168.1.1"));
    assert!(written.contains("nameserver 8.8.8.8"));

    manager.remove(&ownership).unwrap();
    assert!(manager.content.is_none());
}

#[test]
fn refuses_to_steal_a_foreign_file() {
    let mut manager = Managed::new();
    manager.content = Some("nameserver 127.0.0.53\n".to_string());
    let err = manager.apply("profile-b", &config()).unwrap_err();
    assert!(matches!(err, DnsError::ForeignManaged { .. }));
    assert_eq!(manager.content.clone().unwrap(), "nameserver 127.0.0.53\n");
}

#[test]
fn refuses_to_overwrite_another_owner() {
    let mut manager = Managed::new();
    manager.apply("owner-one", &config()).unwrap();
    let err = manager.apply("owner-two", &config()).unwrap_err();
    assert!(matches!(err, DnsError::ForeignManaged { .. }));
}

#[test]
fn removal_ignores_unowned_or_absent_files() {
    let mut manager = Managed::new();
    manager
        .remove(&DnsOwnership {
            owner: "nobody".to_string(),
            path: PATH.to_string(),
        })
        .unwrap();

    manager.content = Some("nameserver 127.0.0.53\n".to_string());
    manager
        .remove(&DnsOwnership {
            owner: "nobody".to_string(),
            path: PATH.to_string(),
        })
        .unwrap();
    assert!(manager.content.is_some(), "foreign file must be left untouched");
}

#[test]
fn renders_ipv6_nameservers() {
    let mut manager = Managed::new();
    let ownership = manager
        .apply(
            "profile-v6",
            &DnsConfig {
                search_domains: vec![],
                servers: vec![IpAddr::V6(Ipv6Addr::localhost())],
            },
        )
        .unwrap();
    let written = manager.content.clone().unwrap();
    assert!(written.contains("nameserver ::1"));
    manager.remove(&ownership).unwrap();
}

#[test]
fn rejects_empty_owner() {
    let mut manager = Managed::new();
    let err = manager.apply("", &config()).unwrap_err();
    assert!(matches!(err, DnsError::InvalidConfig(_)));
}

#[test]
fn an_owner_may_rewrite_its_own_configuration() {
    let mut manager = Managed::new();
    let first = manager.apply("profile-a", &config()).unwrap();
    let second = manager.apply("profile-a", &config()).unwrap();
    assert_eq!(first, second);
    assert_eq!(
        manager.content.as_deref(),
        Some(
            "# nmd-owned owner=profile-a\nsearch lan.example\nnameserver 192.168.1.1\nnameserver 8.8.8.8\n"
        )
    );
}

#[test]
fn removal_of_another_owners_file_is_refused() {
    let mut manager = Managed::new();
    manager.apply("owner-one", &config()).unwrap();
    let err = manager
        .remove(&DnsOwnership {
            owner: "owner-two".to_string(),
            path: PATH.to_string(),
        })
        .unwrap_err();
    assert!(matches!(err, DnsError::ForeignManaged { .. }));
    assert!(manager.content.is_some());
}

#[test]
fn a_blank_file_is_free() {
    let mut manager = Managed::new();
    manager.content = Some(" \n\t\n".to_string());
    assert!(manager.apply("profile-a", &config()).is_ok());
}

#[test]
fn unreadable_files_are_reported() {
    let manager = LinuxDnsManager::new(PATH.to_string());
    let err = manager
        .apply("profile-a", &config(), Err(IoError::other("denied")))
        .unwrap_err();
    assert!(matches!(err, DnsError::Io(_)));
    let err = manager
        .remove(
            &DnsOwnership {
                owner: "profile-a".to_string(),
                path: PATH.to_string(),
            },
            Err(IoError::other("denied")),
        )
        .unwrap_err();
    assert!(matches!(err, DnsError::Io(_)));
}

#[test]
fn the_configuration_is_staged_beside_the_file() {
    assert_eq!(
        LinuxDnsManager::temporary_name(Some("resolv.conf"), 41, 2),
        ".resolv.conf.tmp41.2"
    );
    assert_eq!(LinuxDnsManager::default().path, "/etc/resolv.conf");
}
