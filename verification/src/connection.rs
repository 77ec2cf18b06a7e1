//! Where the store is reached.

use crate::error::{ConnectionError, ConnectionErrorView};
use vstd::prelude::*;
use vstd::string::StringExecFns;

verus! {

/// The address at which the store is reached with the given user name and
/// password.
pub open spec fn endpoint_text(
    username: Seq<char>,
    password: Seq<char>,
    address: Seq<char>,
) -> Seq<char> {
    "http://"@ + username + ":"@ + password + "@"@ + address + "/db/data"@
}

/// The address at which to connect to the store, from the three values of
/// the configuration: the user name, the password and the server's address.
///
/// Fails with `MissingConfig` where any of the three is not given; nothing is
/// then tried.
pub fn graph_endpoint(
    username: Option<String>,
    password: Option<String>,
    address: Option<String>,
) -> (r: Result<String, ConnectionError>)
    ensures
        match r {
            Ok(endpoint) => {
                &&& username is Some
                &&& password is Some
                &&& address is Some
                &&& endpoint@ == endpoint_text(username->0@, password->0@, address->0@)
            },
            Err(error) => {
                &&& error@ == ConnectionErrorView::MissingConfig
                &&& (username is None || password is None || address is None)
            },
        },
{
    match (username, password, address) {
        (Some(username), Some(password), Some(address)) => {
            let mut endpoint = String::from_str("http://");
            endpoint.append(username.as_str());
            endpoint.append(":");
            endpoint.append(password.as_str());
            endpoint.append("@");
            endpoint.append(address.as_str());
            endpoint.append("/db/data");
            Ok(endpoint)
        },
        _ => Err(ConnectionError::MissingConfig),
    }
}

} // verus!
