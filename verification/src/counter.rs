//! The counter service seen from this side: the address to ask, and what an
//! answer amounts to. The request itself is made elsewhere.

use crate::text::{numeral_within, parse_u32};
use vstd::prelude::*;
use vstd::string::*;

verus! {

/// The address that reports the statistics of the resource `resource_id` to
/// the holder of `secret`.
pub open spec fn request_url_spec(resource_id: Seq<char>, secret: Seq<char>) -> Seq<char> {
    "https://youtube.googleapis.com/youtube/v3/channels?part=statistics&id="@ + resource_id
        + "&key="@ + secret
}

/// The address that reports the statistics of the resource `resource_id` to
/// the holder of `secret`. Neither text is escaped or checked.
pub fn request_url(resource_id: &str, secret: &str) -> (url: String)
    ensures
        url@ == request_url_spec(resource_id@, secret@),
{
    String::from_str(
        "https://youtube.googleapis.com/youtube/v3/channels?part=statistics&id=",
    ).concat(resource_id).concat("&key=").concat(secret)
}

/// What came back from one request to the counter service.
#[derive(Debug, PartialEq, Eq)]
pub enum Reply {
    /// No answer came; the transport's description of why.
    Unreachable(String),
    /// The service answered with a status other than success; the text of
    /// its answer.
    Refused(String),
    /// The service answered with success, but the body is not of the expected
    /// form; the decoder's description of why.
    Undecodable(String),
    /// The service answered with success: the counter of each resource that
    /// the body lists, as the service writes it.
    Counts(Vec<String>),
}

/// The counter value or the failure text that `reply` amounts to. The
/// counter is that of the first resource listed, read as a decimal numeral;
/// every failure is a text for the operator.
pub open spec fn reading_of(reply: Reply) -> Result<u32, Seq<char>> {
    match reply {
        Reply::Unreachable(why) => Err("Failed to request subscriber count: "@ + why@),
        Reply::Refused(body) => Err("Server error getting subscriber count: "@ + body@),
        Reply::Undecodable(why) => Err(why@),
        Reply::Counts(counts) => if counts@.len() == 0 {
            Err("The response lists no channel."@)
        } else {
            match numeral_within(counts@[0]@, u32::MAX as nat) {
                Some(v) => Ok(v as u32),
                None => Err("The subscriber count is not a number: "@ + counts@[0]@),
            }
        },
    }
}

/// Turns the answer of the counter service into a counter value or a
/// failure text for the operator.
pub fn read_reply(reply: Reply) -> (r: Result<u32, String>)
    ensures
        match reading_of(reply) {
            Ok(v) => r == Ok::<u32, String>(v),
            Err(text) => r.is_err() && r.unwrap_err()@ == text,
        },
{
    match reply {
        Reply::Unreachable(why) => Err(
            String::from_str("Failed to request subscriber count: ").concat(why.as_str()),
        ),
        Reply::Refused(body) => Err(
            String::from_str("Server error getting subscriber count: ").concat(body.as_str()),
        ),
        Reply::Undecodable(why) => Err(why),
        Reply::Counts(counts) => if counts.len() == 0 {
            Err(String::from_str("The response lists no channel."))
        } else {
            match parse_u32(counts[0].as_str()) {
                Some(v) => Ok(v),
                None => Err(
                    String::from_str("The subscriber count is not a number: ").concat(
                        counts[0].as_str(),
                    ),
                ),
            }
        },
    }
}

} // verus!
