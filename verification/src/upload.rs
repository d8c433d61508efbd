//! One upload: the request that is sent for an image, and the reading of
//! what the service answers.

use vstd::prelude::*;
use vstd::string::StringExecFns;
use crate::config::{Credentials, TestImage};
use crate::json::{boolean_member, json_text_members, parse_json};
use crate::outcome::{TestResponse, TestResult};

verus! {

/// Why an upload gave no verdict. Any of these ends the whole run.
#[derive(Debug, Clone, Copy, PartialEq, Eq, Structural)]
pub enum TransportError {
    /// The exchange with the service did not complete.
    Network,
    /// The answer is not a JSON document.
    NotJson,
    /// The answer is JSON, but no object with a member named `success`.
    NoVerdict,
    /// The answer's `success` member is not a boolean.
    VerdictNotBoolean,
}

/// The one request made for an image: a POST of the file's bytes.
#[derive(Debug)]
pub struct UploadRequest {
    /// The request method.
    pub method: String,
    /// Where the request goes.
    pub url: String,
    /// The value of the `Authorization` header.
    pub authorization: String,
    /// The value of the `Content-Length` header.
    pub content_length: u64,
    /// The request body: the file, byte for byte.
    pub body: Vec<u8>,
}

/// The address a test's image is posted to.
pub open spec fn submit_url(base_url: Seq<char>, test_id: Seq<char>) -> Seq<char> {
    base_url + "/beta/tests/submit?test_id="@ + test_id
}

/// The authorization header that presents a bearer token.
pub open spec fn bearer(token: Seq<char>) -> Seq<char> {
    "Bearer "@ + token
}

/// The request that submits `data` as the image of `item`.
pub fn upload_request(credentials: &Credentials, item: &TestImage, data: Vec<u8>) -> (request:
    UploadRequest)
    ensures
        request.method@ == "POST"@,
        request.url@ == submit_url(credentials.base_url@, item.test_id@),
        request.authorization@ == bearer(credentials.token@),
        request.content_length == data@.len(),
        request.body@ == data@,
{
    let url = String::from_str(credentials.base_url.as_str()).concat(
        "/beta/tests/submit?test_id=",
    ).concat(item.test_id.as_str());
    let authorization = String::from_str("Bearer ").concat(credentials.token.as_str());
    let content_length = data.len() as u64;
    UploadRequest { method: String::from_str("POST"), url, authorization, content_length, body: data }
}

/// The verdict that a looked-up `success` member stands for: the boolean it
/// holds, and an error where the member is missing or holds anything else.
pub open spec fn verdict_of_member(member: Option<Option<bool>>) -> Result<
    TestResponse,
    TransportError,
> {
    match member {
        Some(Some(success)) => Ok(TestResponse { success }),
        Some(None) => Err(TransportError::VerdictNotBoolean),
        None => Err(TransportError::NoVerdict),
    }
}

/// The verdict that an answer's body spells.
pub open spec fn decoded(body: Seq<u8>) -> Result<TestResponse, TransportError> {
    match json_text_members(body) {
        Some(members) => verdict_of_member(members.get("success"@)),
        None => Err(TransportError::NotJson),
    }
}

/// Reads the verdict off the `success` member of an answer, given as what
/// the lookup found: nothing, something that is no boolean, or a boolean.
pub fn read_verdict(member: Option<Option<bool>>) -> (verdict: Result<TestResponse, TransportError>)
    ensures
        verdict == verdict_of_member(member),
{
    match member {
        Some(Some(success)) => Ok(TestResponse { success }),
        Some(None) => Err(TransportError::VerdictNotBoolean),
        None => Err(TransportError::NoVerdict),
    }
}

/// Decodes the body of an answer into the service's verdict.
pub fn decode_response(body: &[u8]) -> (verdict: Result<TestResponse, TransportError>)
    ensures
        verdict == decoded(body@),
{
    match parse_json(body) {
        Ok(document) => read_verdict(boolean_member(&document, "success")),
        Err(_) => Err(TransportError::NotJson),
    }
}

/// The result of a completed exchange: the item paired with the verdict in
/// the answer's body. There is a result only where the body decodes.
pub fn submission_result(item: TestImage, body: &[u8]) -> (result: Result<
    TestResult<TestImage>,
    TransportError,
>)
    ensures
        match decoded(body@) {
            Ok(response) => result == Ok::<TestResult<TestImage>, TransportError>(
                TestResult { test: item, response },
            ),
            Err(error) => result == Err::<TestResult<TestImage>, TransportError>(error),
        },
{
    match decode_response(body) {
        Ok(response) => Ok(TestResult { test: item, response }),
        Err(error) => Err(error),
    }
}

} // verus!
