//! Authorization decisions.

use network_manager_rs::authorization::{
    permission_actions, polkit_decision, polkit_subject, AllowAllAuthorization, Authorization,
    AuthorizationDecision, AuthorizationError, CallerIdentity, DenyAllAuthorization,
    RecordingAuthorization,
};

#[test]
fn allow_all_grants_every_action() {
    let mut backend = AllowAllAuthorization;
    assert_eq!(
        backend
            .check(&CallerIdentity::Unidentifiable, "any.action")
            .unwrap(),
        AuthorizationDecision::Yes
    );
}

#[test]
fn deny_all_rejects_every_action() {
    let mut backend = DenyAllAuthorization;
    assert_eq!(
        backend
            .check(&CallerIdentity::from_sender(Some(":1.42")), "any.action")
            .unwrap(),
        AuthorizationDecision::No
    );
}

#[test]
fn recording_authorization_records_callers_and_actions() {
    let mut backend = RecordingAuthorization::new(DenyAllAuthorization);
    let caller = CallerIdentity::from_sender(Some(":1.7"));
    assert_eq!(
        backend.check(&caller, "org.freedesktop.NetworkManager.network-control"),
        Ok(AuthorizationDecision::No)
    );
    assert_eq!(
        *backend.calls(),
        vec![(
            caller,
            "org.freedesktop.NetworkManager.network-control".to_string()
        )]
    );
}

#[test]
fn caller_identity_preserves_sender_or_marks_unidentifiable() {
    assert_eq!(
        CallerIdentity::from_sender(Some(":1.9")),
        CallerIdentity::UniqueName(":1.9".to_string())
    );
    assert_eq!(
        CallerIdentity::from_sender(None),
        CallerIdentity::Unidentifiable
    );
    assert_eq!(
        CallerIdentity::UniqueName(":1.9".to_string()).unique_name(),
        Some(":1.9")
    );
    assert_eq!(CallerIdentity::Unidentifiable.unique_name(), None);
}

#[test]
fn polkit_is_asked_about_the_sender_only() {
    let caller = CallerIdentity::from_sender(Some(":1.7"));
    assert_eq!(polkit_subject(&caller), Ok(":1.7"));
    assert_eq!(
        polkit_subject(&CallerIdentity::Unidentifiable),
        Err(AuthorizationError::UnidentifiableCaller)
    );
    assert_eq!(polkit_decision(true), AuthorizationDecision::Yes);
    assert_eq!(polkit_decision(false), AuthorizationDecision::No);
}

#[test]
fn authorization_errors_and_callers_describe_themselves() {
    assert_eq!(
        AuthorizationError::UnidentifiableCaller.to_string(),
        "the caller's identity could not be determined"
    );
    assert_eq!(
        AuthorizationError::Backend("gone".to_string()).to_string(),
        "authorization backend error: gone"
    );
    assert_eq!(CallerIdentity::Unidentifiable.to_string(), "<unidentifiable>");
    assert_eq!(CallerIdentity::from_sender(Some(":1.7")).to_string(), ":1.7");
}

#[test]
fn permissions_are_listed_in_order() {
    let actions = permission_actions();
    assert_eq!(actions.len(), 11);
    assert_eq!(actions[0], "org.freedesktop.NetworkManager.enable-disable-network");
    assert_eq!(
        actions[10],
        "org.freedesktop.NetworkManager.enable-disable-connectivity-check"
    );
}
