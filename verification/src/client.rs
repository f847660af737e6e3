//! Plain account records as the account-discovery component hands them
//! over: a display name for the tenant, its identifier, the signed-in
//! username, and the local folder that becomes a scan's root.
//!
//! Discovery itself reads a persistent system registry and lives outside
//! the library; the record is an opaque read-only value to everything
//! here.

use vstd::prelude::*;

verus! {

/// The mathematical content of one account record.
#[verifier::ext_equal]
pub ghost struct ClientAccountView {
    pub tenant_id: Seq<char>,
    pub tenant_name: Seq<char>,
    pub username: Seq<char>,
    pub path: Seq<char>,
}

/// One business account of the sync client.
#[derive(Debug)]
pub struct ClientAccount {
    pub tenant_id: String,
    pub tenant_name: String,
    pub username: String,
    pub path: String,
}

impl View for ClientAccount {
    type V = ClientAccountView;

    open spec fn view(&self) -> ClientAccountView {
        ClientAccountView {
            tenant_id: self.tenant_id@,
            tenant_name: self.tenant_name@,
            username: self.username@,
            path: self.path@,
        }
    }
}

impl ClientAccount {
    /// Builds one record from its plain values.
    pub fn new(tenant_id: String, tenant_name: String, username: String, path: String) -> (r:
        ClientAccount)
        ensures
            r@ == (ClientAccountView {
                tenant_id: tenant_id@,
                tenant_name: tenant_name@,
                username: username@,
                path: path@,
            }),
    {
        ClientAccount { tenant_id, tenant_name, username, path }
    }

    /// The tenant identifier the account is configured for.
    pub fn get_tenant_id(&self) -> (r: &String)
        ensures
            r@ == self@.tenant_id,
    {
        &self.tenant_id
    }

    /// The display name of the tenant.
    pub fn get_tenant_name(&self) -> (r: &String)
        ensures
            r@ == self@.tenant_name,
    {
        &self.tenant_name
    }

    /// The signed-in username of the account.
    pub fn get_username(&self) -> (r: &String)
        ensures
            r@ == self@.username,
    {
        &self.username
    }

    /// The local folder synced for the account.
    pub fn get_path(&self) -> (r: &String)
        ensures
            r@ == self@.path,
    {
        &self.path
    }
}

} // verus!
