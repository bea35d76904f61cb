//! Profile storage.

use network_manager_rs::connection::profile::{ConnectionProfile, WifiSecurity};
use network_manager_rs::connection::secrets::SecretReference;
use network_manager_rs::connection::store::{
    accept_parsed, admit_create, admit_existing, admit_update, file_name, order_profiles,
    InMemoryProfileStore, ProfileStore, StoreError,
};
use network_manager_rs::io_error::IoError;
use network_manager_rs::linux::model::Ssid;

fn open_profile(id: &str) -> ConnectionProfile {
    ConnectionProfile::wifi(
        id,
        id,
        Ssid::from_bytes(b"home").unwrap(),
        WifiSecurity::open(),
    )
    .unwrap()
}

fn psk_profile(id: &str) -> ConnectionProfile {
    ConnectionProfile::wifi(
        id,
        id,
        Ssid::from_bytes(b"home").unwrap(),
        WifiSecurity::psk(SecretReference::Keyring {
            identifier: format!("nmd/{id}"),
        }),
    )
    .unwrap()
}

#[test]
fn in_memory_store_crud_round_trip() {
    let mut store = InMemoryProfileStore::new();
    assert!(store.list().unwrap().is_empty());

    store.create(psk_profile("home")).unwrap();
    assert_eq!(store.list().unwrap().len(), 1);
    assert_eq!(store.get(&"home".to_string()).unwrap().id, "home");

    store.update(open_profile("home")).unwrap();
    assert_eq!(store.list().unwrap().len(), 1);

    store.delete(&"home".to_string()).unwrap();
    assert!(store.list().unwrap().is_empty());
    assert!(matches!(
        store.delete(&"home".to_string()),
        Err(StoreError::NotFound(_))
    ));
}

#[test]
fn in_memory_store_rejects_duplicates() {
    let mut store = InMemoryProfileStore::new();
    store.create(psk_profile("home")).unwrap();
    assert!(matches!(
        store.create(psk_profile("home")),
        Err(StoreError::AlreadyExists(_))
    ));
}

#[test]
fn in_memory_store_rejects_invalid_profiles() {
    let mut store = InMemoryProfileStore::new();
    let mut invalid = psk_profile("home");
    invalid.name = String::new();
    assert!(matches!(store.create(invalid), Err(StoreError::Invalid(_))));
}

#[test]
fn in_memory_store_rejects_updates_to_unknown_ids() {
    let mut store = InMemoryProfileStore::new();
    assert!(matches!(
        store.update(psk_profile("ghost")),
        Err(StoreError::NotFound(_))
    ));
}

#[test]
fn in_memory_store_lists_in_deterministic_id_order() {
    let mut store = InMemoryProfileStore::new();
    store.create(psk_profile("zeta")).unwrap();
    store.create(psk_profile("alpha")).unwrap();
    store.create(psk_profile("mid")).unwrap();
    let ids: Vec<String> = store
        .list()
        .unwrap()
        .into_iter()
        .map(|profile| profile.id)
        .collect();
    assert_eq!(ids, ["alpha", "mid", "zeta"]);
}

#[test]
fn profiles_are_filed_under_their_ids() {
    assert_eq!(file_name(&"home".to_string()), "home.toml");
}

#[test]
fn a_file_whose_name_is_not_the_id_of_its_profile_is_malformed() {
    assert!(matches!(
        accept_parsed(&"other".to_string(), psk_profile("home")),
        Err(StoreError::Malformed { .. })
    ));
    assert_eq!(
        accept_parsed(&"home".to_string(), psk_profile("home")).unwrap().id,
        "home"
    );
}

#[test]
fn creating_is_admitted_once_and_updating_only_then() {
    let profile = psk_profile("home");
    assert!(admit_create(&profile, false).is_ok());
    assert!(matches!(
        admit_create(&profile, true),
        Err(StoreError::AlreadyExists(_))
    ));
    assert!(admit_update(&profile, true).is_ok());
    assert!(matches!(
        admit_update(&profile, false),
        Err(StoreError::NotFound(_))
    ));
    assert!(admit_existing(&"home".to_string(), true).is_ok());
    assert!(matches!(
        admit_existing(&"home".to_string(), false),
        Err(StoreError::NotFound(_))
    ));
    let mut invalid = psk_profile("home");
    invalid.name = String::new();
    assert!(matches!(
        admit_create(&invalid, false),
        Err(StoreError::Invalid(_))
    ));
}

#[test]
fn profiles_are_ordered_by_id() {
    let ordered = order_profiles(vec![psk_profile("b"), psk_profile("a")]);
    let ids: Vec<String> = ordered.into_iter().map(|profile| profile.id).collect();
    assert_eq!(ids, ["a", "b"]);
}

#[test]
fn store_errors_describe_themselves() {
    assert_eq!(
        StoreError::NotFound("home".to_string()).to_string(),
        "connection profile \"home\" not found"
    );
    assert_eq!(
        StoreError::AlreadyExists("home".to_string()).to_string(),
        "connection profile \"home\" already exists"
    );
    assert_eq!(
        StoreError::Malformed { id: "a\"b".to_string(), reason: "bad".to_string() }.to_string(),
        "malformed persisted profile \"a\\\"b\": bad"
    );
    assert_eq!(
        StoreError::Io(IoError::other("disk full")).to_string(),
        "profile store I/O failed: disk full"
    );
}
