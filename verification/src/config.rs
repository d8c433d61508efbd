//! The configured test images and the service they are submitted to.

use vstd::prelude::*;
use vstd::string::StringExecFns;

verus! {

/// One configured image: the file to submit and the test it is submitted to.
#[derive(Debug, Clone)]
pub struct TestImage {
    pub path: String,
    pub test_id: String,
}

/// Format version 1 of the configuration: the images, in submission order.
#[derive(Debug, Clone)]
pub struct ConfigV1 {
    pub test_image: Vec<TestImage>,
}

/// What every upload of a run presents to the service. Read by all uploads,
/// changed by none.
#[derive(Debug, Clone)]
pub struct Credentials {
    pub base_url: String,
    pub token: String,
}

/// The address of the test service.
pub open spec fn service_url() -> Seq<char> {
    "http://localhost:3010"@
}

impl ConfigV1 {
    /// The base address every submission of this configuration goes to.
    pub fn api_url(&self) -> (url: String)
        ensures
            url@ == service_url(),
    {
        String::from_str("http://localhost:3010")
    }

    /// The credentials of a run under this configuration, with the token
    /// the caller obtained for it.
    pub fn credentials(&self, token: String) -> (credentials: Credentials)
        ensures
            credentials.base_url@ == service_url(),
            credentials.token == token,
    {
        Credentials { base_url: self.api_url(), token }
    }
}

} // verus!
