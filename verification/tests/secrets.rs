//! References to secrets.

use network_manager_rs::connection::secrets::{
    secret_variable, SecretError, SecretProvider, SecretReference,
};

#[test]
fn reference_exposes_its_identifier() {
    let keyring = SecretReference::Keyring {
        identifier: "nmd/wifi".to_string(),
    };
    let agent = SecretReference::Agent {
        identifier: "nmd/session".to_string(),
    };
    assert_eq!(keyring.identifier(), "nmd/wifi");
    assert_eq!(agent.identifier(), "nmd/session");
}

#[test]
fn provider_boundary_supports_missing_and_unavailable() {
    struct Provider(&'static [(&'static str, &'static [u8])]);

    impl SecretProvider for Provider {
        fn retrieve(
            &self,
            reference: &SecretReference,
        ) -> Result<Option<Vec<u8>>, SecretError> {
            let id = reference.identifier();
            self.0
                .iter()
                .find(|(key, _)| *key == id)
                .map(|(_, value)| Ok(Some(value.to_vec())))
                .unwrap_or(Ok(None))
        }
    }

    let provider = Provider(&[("nmd/present", b"hunter2")]);
    let present = SecretReference::Keyring {
        identifier: "nmd/present".to_string(),
    };
    let missing = SecretReference::Keyring {
        identifier: "nmd/absent".to_string(),
    };

    assert_eq!(
        provider.retrieve(&present).unwrap().as_deref(),
        Some(b"hunter2".as_slice())
    );
    assert_eq!(provider.retrieve(&missing).unwrap(), None);
}

#[test]
fn the_environment_variable_of_a_secret_is_named_after_its_identifier() {
    let reference = SecretReference::Keyring {
        identifier: "zbus_env_test".to_string(),
    };
    assert_eq!(secret_variable(&reference), "NMD_WIFI_zbus_env_test");
}
