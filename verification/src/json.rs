//! What the protocol takes from `serde_json`: reading a member out of an
//! inbound message and writing a string as a JSON string literal.
//!
//! Neither of the two functions that call `serde_json` is proved. Each has a
//! contract that names its result, so that callers can say exactly what they
//! do with it.

use vstd::prelude::*;
use vstd::utf8::encode_utf8;

verus! {

/// What a message holds under one key, as far as the protocol reads it.
#[derive(Debug)]
pub enum Member {
    /// The message is not an object, or the object has no such member.
    Absent,
    /// The member is a string.
    Text(String),
    /// The member is a number that can be had as an `i64`.
    Integer(i64),
    /// The member is anything else.
    Other,
}

pub enum MemberView {
    Absent,
    Text(Seq<char>),
    Integer(i64),
    Other,
}

impl View for Member {
    type V = MemberView;

    open spec fn view(&self) -> MemberView {
        match self {
            Member::Absent => MemberView::Absent,
            Member::Text(s) => MemberView::Text(s@),
            Member::Integer(n) => MemberView::Integer(*n),
            Member::Other => MemberView::Other,
        }
    }
}

/// What `serde_json` finds under `key` in `text`; nothing where it does not
/// accept `text` as one JSON value.
pub uninterp spec fn json_member(text: Seq<char>, key: Seq<char>) -> Option<MemberView>;

/// The JSON string literal, quotes included, that `serde_json` writes for `s`.
pub uninterp spec fn json_quoted(s: Seq<char>) -> Seq<char>;

/// What was read of a message, seen through the view of the member.
pub open spec fn read_view(read: Option<Member>) -> Option<MemberView> {
    match read {
        Some(member) => Some(member@),
        None => None,
    }
}

/// `serde_json::from_str` into a `serde_json::Value`, then `Value::get` with
/// `key`: the member `key` of the message `text`, told apart by the variant
/// of the value, with `Value::as_i64` deciding whether a number is an
/// integer. The result is `None` where `from_str` fails. The contract only
/// names what comes back.
#[verifier::external_body]
pub(crate) fn read_member(text: &str, key: &str) -> (read: Option<Member>)
    ensures
        read_view(read) == json_member(text@, key@),
{
    let value = serde_json::from_str::<serde_json::Value>(text).ok()?;
    Some(
        match value.get(key) {
            None => Member::Absent,
            Some(serde_json::Value::String(s)) => Member::Text(s.clone()),
            Some(other) => match other.as_i64() {
                Some(n) => Member::Integer(n),
                None => Member::Other,
            },
        },
    )
}

/// The `Display` form of `serde_json::Value::String`: `s` as a JSON string
/// literal, with the quotes and escapes that `serde_json` chooses. The
/// contract names what comes back and bounds its length: `serde_json` writes
/// one quote, then for each byte of `s` the byte itself, a two-byte escape or
/// a six-byte escape, then one quote.
#[verifier::external_body]
pub(crate) fn quote(s: &str) -> (quoted: String)
    ensures
        quoted@ == json_quoted(s@),
        encode_utf8(quoted@).len() <= 6 * encode_utf8(s@).len() + 2,
{
    serde_json::Value::String(s.to_owned()).to_string()
}

} // verus!
