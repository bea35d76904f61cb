//! Secret-handling boundary.
//!
//! Connection profiles never hold plaintext credentials: they hold a reference
//! by which a provider locates the secret.

use vstd::prelude::*;

use crate::text::concat2;

verus! {

/// A reference to a secret that is managed outside of the profile store.
///
/// It carries only enough information to locate a secret, never the secret.
#[derive(Debug, PartialEq, Eq, Hash)]
pub enum SecretReference {
    /// A secret managed by a system secret service / keyring.
    Keyring { identifier: String },
    /// A secret requested from an agent at activation time.
    Agent { identifier: String },
}

impl SecretReference {
    /// The identifier that locates the secret.
    pub open spec fn locator(self) -> Seq<char> {
        match self {
            SecretReference::Keyring { identifier } => identifier@,
            SecretReference::Agent { identifier } => identifier@,
        }
    }

    /// Returns the opaque identifier used to locate the secret.
    pub fn identifier(&self) -> (r: &str)
        ensures
            r@ == self.locator(),
    {
        match self {
            SecretReference::Keyring { identifier } => identifier.as_str(),
            SecretReference::Agent { identifier } => identifier.as_str(),
        }
    }
}

/// A secret reference, with its identifier as text.
#[verifier::ext_equal]
pub enum SecretReferenceView {
    Keyring(Seq<char>),
    Agent(Seq<char>),
}

impl SecretReference {
    pub open spec fn view(&self) -> SecretReferenceView {
        match self {
            SecretReference::Keyring { identifier } => SecretReferenceView::Keyring(identifier@),
            SecretReference::Agent { identifier } => SecretReferenceView::Agent(identifier@),
        }
    }
}

impl Clone for SecretReference {
    fn clone(&self) -> (r: Self)
        ensures
            r == *self,
    {
        match self {
            SecretReference::Keyring { identifier } => SecretReference::Keyring {
                identifier: identifier.clone(),
            },
            SecretReference::Agent { identifier } => SecretReference::Agent {
                identifier: identifier.clone(),
            },
        }
    }
}

/// The view of an optional secret reference.
pub open spec fn reference_view(reference: Option<SecretReference>) -> Option<SecretReferenceView> {
    match reference {
        Some(value) => Some(value@),
        None => None,
    }
}

/// Errors surfaced by secret providers.
#[derive(Clone, Copy, Debug, PartialEq, Eq, Structural)]
pub enum SecretError {
    /// No secret could be located for the given reference.
    NotFound,
    /// The provider is not yet available.
    Unavailable,
}

/// Boundary for retrieving secrets referenced by connection profiles.
pub trait SecretProvider {
    /// Whether the provider may answer a request for `reference` with `reply`.
    open spec fn may_retrieve(
        &self,
        reference: SecretReferenceView,
        reply: Result<Option<Vec<u8>>, SecretError>,
    ) -> bool {
        true
    }

    /// Retrieves the secret bytes for `reference`, if one exists.
    fn retrieve(&self, reference: &SecretReference) -> (r: Result<Option<Vec<u8>>, SecretError>)
        ensures
            self.may_retrieve(reference@, r),
    ;
}

/// The environment variable that holds the secret of a reference.
pub fn secret_variable(reference: &SecretReference) -> (r: String)
    ensures
        r@ == "NMD_WIFI_"@ + reference.locator(),
{
    concat2("NMD_WIFI_", reference.identifier())
}

} // verus!
