//! The error kinds of a status query.
use vstd::prelude::*;

verus! {

#[verifier::external_type_specification]
#[verifier::external_body]
pub struct ExIoError(std::io::Error);

#[verifier::external_type_specification]
#[verifier::external_body]
pub struct ExJsonError(serde_json::Error);

#[verifier::external_type_specification]
#[verifier::external_body]
pub struct ExFromUtf8Error(std::string::FromUtf8Error);

#[verifier::external_type_specification]
#[verifier::external_body]
pub struct ExDecodeError(base64::DecodeError);

/// Every way a single status query can fail.
#[derive(Debug)]
pub enum McError {
    DnsError(String),
    ConnectionError(String),
    Timeout,
    /// Malformed, incomplete or unexpected packet content.
    InvalidResponse(String),
    IoError(std::io::Error),
    JsonError(serde_json::Error),
    Utf8Error(std::string::FromUtf8Error),
    Base64Error(base64::DecodeError),
    InvalidEdition(String),
    InvalidPort(String),
    InvalidAddress(String),
}

} // verus!
