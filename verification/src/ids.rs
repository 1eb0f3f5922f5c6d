//! Names that are given once, and the time.
use vstd::prelude::*;

verus! {

/// Whether `c` is a small hexadecimal digit.
pub open spec fn is_hex(c: char) -> bool {
    ('0' as u32 <= c as u32 <= '9' as u32) || ('a' as u32 <= c as u32 <= 'f' as u32)
}

/// Whether `s` is a random universally unique identifier in small letters: 32
/// hexadecimal digits in groups of 8, 4, 4, 4 and 12, with hyphens between them. The
/// third group begins with the version, and the fourth one with the variant.
pub open spec fn is_uuid(s: Seq<char>) -> bool {
    &&& s.len() == 36
    &&& forall|i: int|
        0 <= i < 36 ==> if i == 8 || i == 13 || i == 18 || i == 23 {
            #[trigger] s[i] == '-'
        } else {
            is_hex(s[i])
        }
    &&& s[14] == '4'
    &&& s[19] == '8' || s[19] == '9' || s[19] == 'a' || s[19] == 'b'
}

/// `uuid::Uuid::new_v4`, as it is displayed: hyphenated and in small letters, of
/// version 4 and of the variant whose two highest bits are 1 and 0. Which identifier it
/// is, is up to chance.
#[verifier::external_body]
pub(crate) fn fresh_uuid() -> (r: String)
    ensures
        is_uuid(r@),
{
    uuid::Uuid::new_v4().to_string()
}

/// `chrono::Utc::now` and its `timestamp`: the seconds since the Unix epoch,
/// before which `chrono` takes no clock to be. How many is up to the clock.
#[verifier::external_body]
pub(crate) fn utc_timestamp() -> (r: i64)
    ensures
        r >= 0,
{
    chrono::Utc::now().timestamp()
}

/// `prefix` and a fresh identifier.
fn fresh_id(prefix: &str) -> (r: String)
    ensures
        exists|uuid: Seq<char>| #[trigger] is_uuid(uuid) && r@ == prefix@ + uuid,
{
    let uuid = fresh_uuid();
    let mut out = prefix.to_owned();
    out.append(uuid.as_str());
    assert(is_uuid(uuid@) && out@ == prefix@ + uuid@);
    out
}

/// A name for a chat completion.
pub fn completion_id() -> (r: String)
    ensures
        exists|uuid: Seq<char>| #[trigger] is_uuid(uuid) && r@ == "chatcmpl-"@ + uuid,
{
    fresh_id("chatcmpl-")
}

/// A name for a response.
pub fn response_id() -> (r: String)
    ensures
        exists|uuid: Seq<char>| #[trigger] is_uuid(uuid) && r@ == "resp_"@ + uuid,
{
    fresh_id("resp_")
}

/// The seconds since the Unix epoch.
pub fn now() -> (r: i64)
    ensures
        r >= 0,
{
    utc_timestamp()
}

} // verus!
