//! Connection settings: where the lighting hub and this service listen.
//! Loading and persisting these settings is I/O and lives with the caller;
//! the library only defines the record and its placeholder defaults.

use vstd::prelude::*;

verus! {

/// The settings the service runs with: the hub's base URI, the account used
/// with it, and the socket this service binds.
#[derive(Clone, Debug, PartialEq, Eq)]
pub struct HooConfig {
    pub hue_hub_uri: String,
    pub hue_user_id: String,
    pub hoo_server_socket_uri: String,
}

impl HooConfig {
    /// A copy of the settings.
    pub fn duplicate(&self) -> (c: HooConfig)
        ensures
            c == *self,
    {
        HooConfig {
            hue_hub_uri: self.hue_hub_uri.clone(),
            hue_user_id: self.hue_user_id.clone(),
            hoo_server_socket_uri: self.hoo_server_socket_uri.clone(),
        }
    }
}

impl Default for HooConfig {
    /// Placeholder settings, meant to be edited: they name what belongs in
    /// each field.
    fn default() -> (c: HooConfig)
        ensures
            c.hue_hub_uri@ == "http://<Hue Hub IP>"@,
            c.hue_user_id@ == "<40-character Hue User Id>"@,
            c.hoo_server_socket_uri@ == "localhost:8000"@,
    {
        HooConfig {
            hue_hub_uri: String::from_str("http://<Hue Hub IP>"),
            hue_user_id: String::from_str("<40-character Hue User Id>"),
            hoo_server_socket_uri: String::from_str("localhost:8000"),
        }
    }
}

} // verus!
