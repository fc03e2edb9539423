//! Construction of client instances with the default configuration.

use vstd::prelude::*;
use crate::client::Client;

verus! {

/// Creates a client with the default api version.
pub fn create_client(client_id: String, client_secret: String, username: String, api_key: String) -> (c:
    Client)
    ensures
        c.client_id == client_id,
        c.client_secret == client_secret,
        c.username == username,
        c.api_key == api_key,
        c.url@ == "https://api.veryfi.com/api/"@,
        c.api_version@ == "v8"@,
        c.api_timeout == 120,
{
    let api_version = String::from_str("v8");
    create_client_with_custom_api_version(client_id, client_secret, username, api_key, api_version)
}

/// Creates a client with the given api version, the default base URL and
/// the default 120-second timeout.
pub fn create_client_with_custom_api_version(
    client_id: String,
    client_secret: String,
    username: String,
    api_key: String,
    api_version: String,
) -> (c: Client)
    ensures
        c.client_id == client_id,
        c.client_secret == client_secret,
        c.username == username,
        c.api_key == api_key,
        c.url@ == "https://api.veryfi.com/api/"@,
        c.api_version == api_version,
        c.api_timeout == 120,
{
    let url = String::from_str("https://api.veryfi.com/api/");
    let api_timeout: u64 = 120;
    let client = Client { client_id, client_secret, username, api_key, url, api_version, api_timeout };
    client
}

} // verus!
