//! Accounts, handles and leases. None of them holds a secret.

use vstd::prelude::*;

use crate::domain::id::SessionId;
use crate::text::{opt_view, views};

verus! {

/// How a user authenticates.
#[derive(Debug, Clone, Copy, PartialEq, Eq, Structural)]
pub enum AuthMethod {
    /// With a fixed key.
    ApiKey,
    /// With the authorization code flow.
    OAuth2,
    /// With a code on another device.
    DeviceCode,
    /// With something managed elsewhere.
    External,
}

/// The state of an account.
#[derive(Debug, Clone, Copy, PartialEq, Eq, Structural)]
pub enum AccountStatus {
    Active,
    Expired,
    Revoked,
    Error,
}

/// An account with a provider.
#[derive(Debug)]
pub struct AccountDescriptor {
    pub account_id: String,
    /// The provider, such as `openai`.
    pub provider_id: String,
    /// Who it is, for people.
    pub principal_display: String,
    pub auth_method: AuthMethod,
    pub tenant_id: Option<String>,
    pub scopes: Vec<String>,
    pub audiences: Vec<String>,
    pub status: AccountStatus,
    /// A counter of changes.
    pub metadata_generation: u64,
}

/// The mathematical value of an [`AccountDescriptor`].
pub struct AccountView {
    pub account_id: Seq<char>,
    pub provider_id: Seq<char>,
    pub principal_display: Seq<char>,
    pub auth_method: AuthMethod,
    pub tenant_id: Option<Seq<char>>,
    pub scopes: Seq<Seq<char>>,
    pub audiences: Seq<Seq<char>>,
    pub status: AccountStatus,
    pub metadata_generation: u64,
}

impl View for AccountDescriptor {
    type V = AccountView;

    open spec fn view(&self) -> AccountView {
        AccountView {
            account_id: self.account_id@,
            provider_id: self.provider_id@,
            principal_display: self.principal_display@,
            auth_method: self.auth_method,
            tenant_id: opt_view(self.tenant_id),
            scopes: views(self.scopes@),
            audiences: views(self.audiences@),
            status: self.status,
            metadata_generation: self.metadata_generation,
        }
    }
}

/// A reference to a credential, which only the broker can turn into a token.
#[derive(Debug)]
pub struct CredentialHandle {
    pub handle_id: String,
    pub account_id: String,
    pub provider_id: String,
    pub audience: String,
    /// The most that the credential may be used for.
    pub scope_ceiling: Vec<String>,
    pub session_id: SessionId,
    /// When the handle ends, in microseconds since 1970.
    pub expires_at: i64,
}

/// The leave to use a credential, bounded in time, place and number.
#[derive(Debug)]
pub struct CredentialLease {
    pub lease_id: String,
    pub handle_id: String,
    /// The endpoint that it is for.
    pub endpoint_binding: String,
    /// The process that may use it.
    pub issued_to_process_identity: String,
    pub max_uses: u32,
    /// When it ends, in microseconds since 1970.
    pub expires_at: i64,
    /// The epoch in which it was issued.
    pub revocation_epoch: u64,
}

/// The mathematical value of a [`CredentialLease`].
pub struct LeaseView {
    pub lease_id: Seq<char>,
    pub handle_id: Seq<char>,
    pub endpoint_binding: Seq<char>,
    pub issued_to_process_identity: Seq<char>,
    pub max_uses: u32,
    pub expires_at: i64,
    pub revocation_epoch: u64,
}

impl View for CredentialLease {
    type V = LeaseView;

    open spec fn view(&self) -> LeaseView {
        LeaseView {
            lease_id: self.lease_id@,
            handle_id: self.handle_id@,
            endpoint_binding: self.endpoint_binding@,
            issued_to_process_identity: self.issued_to_process_identity@,
            max_uses: self.max_uses,
            expires_at: self.expires_at,
            revocation_epoch: self.revocation_epoch,
        }
    }
}

impl Clone for CredentialLease {
    fn clone(&self) -> (r: Self)
        ensures
            r@ == self@,
    {
        CredentialLease {
            lease_id: self.lease_id.clone(),
            handle_id: self.handle_id.clone(),
            endpoint_binding: self.endpoint_binding.clone(),
            issued_to_process_identity: self.issued_to_process_identity.clone(),
            max_uses: self.max_uses,
            expires_at: self.expires_at,
            revocation_epoch: self.revocation_epoch,
        }
    }
}

} // verus!
