//! The server icon carried in a TCP status: a base64 payload, optionally behind
//! a `data:` prefix that ends at a comma.
use base64::Engine;
use vstd::prelude::*;

use crate::error::McError;
use crate::models::JavaStatus;
use crate::text::{split_on, split_text, views};

verus! {

/// The base64 part of a favicon: the second `,`-separated piece when there is
/// one, else the whole text.
pub open spec fn favicon_data(f: Seq<char>) -> Seq<char> {
    if split_on(f, ',').len() >= 2 {
        split_on(f, ',')[1]
    } else {
        f
    }
}

/// The bytes that the standard base64 engine decodes from a text, if it accepts it.
pub uninterp spec fn base64_decoded(s: Seq<char>) -> Option<Seq<u8>>;

/// Relies on `base64::engine::general_purpose::STANDARD.decode`: success and the
/// bytes depend on the text alone.
#[verifier::external_body]
fn base64_decode(s: &str) -> (r: Result<Vec<u8>, base64::DecodeError>)
    ensures
        match base64_decoded(s@) {
            Some(b) => r matches Ok(v) && v@ == b,
            None => r is Err,
        },
{
    base64::engine::general_purpose::STANDARD.decode(s)
}

impl JavaStatus {
    /// The base64 text of the icon; a status without one is an invalid response.
    pub fn favicon_payload(&self) -> (r: Result<String, McError>)
        ensures
            match self.favicon {
                Some(f) => r matches Ok(d) && d@ == favicon_data(f@),
                None => r matches Err(McError::InvalidResponse(_)),
            },
    {
        match &self.favicon {
            Some(f) => {
                let pieces = split_text(f.as_str(), ',');
                if pieces.len() >= 2 {
                    assert(views(pieces@)[1] == pieces@[1]@);
                    Ok(pieces[1].clone())
                } else {
                    Ok(f.clone())
                }
            },
            None => Err(McError::InvalidResponse("No favicon available".to_owned())),
        }
    }

    /// The decoded icon image.
    pub fn favicon_bytes(&self) -> (r: Result<Vec<u8>, McError>)
        ensures
            match self.favicon {
                Some(f) => match base64_decoded(favicon_data(f@)) {
                    Some(b) => r matches Ok(v) && v@ == b,
                    None => r matches Err(McError::Base64Error(_)),
                },
                None => r matches Err(McError::InvalidResponse(_)),
            },
    {
        let data = self.favicon_payload()?;
        match base64_decode(data.as_str()) {
            Ok(b) => Ok(b),
            Err(e) => Err(McError::Base64Error(e)),
        }
    }
}

} // verus!
