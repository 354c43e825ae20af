//! Where the management interface of the proxy is reached.

use vstd::prelude::*;

verus! {

/// The address at which the management interface listens unless another is
/// configured.
pub open spec fn default_management_url() -> Seq<char> {
    "http://127.0.0.1:7777"@
}

/// The base address of the management interface: the configured one where
/// there is one, else the default. The caller reads the configuration and
/// hands it in; nothing is read here.
pub fn get_management_api(configured: Option<String>) -> (url: String)
    ensures
        url@ == match configured {
            Some(address) => address@,
            None => default_management_url(),
        },
{
    match configured {
        Some(address) => address,
        None => "http://127.0.0.1:7777".to_owned(),
    }
}

} // verus!
