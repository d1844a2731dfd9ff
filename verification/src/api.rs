//! The HTTP API over the message store: list all messages, append one
//! message. Each handler is a pure function of (store, request payload)
//! that yields the status, the JSON body, and the cross-origin headers of
//! the response; the surrounding server maps them onto the wire.

use vstd::prelude::*;
use crate::store::MessageStore;

verus! {

/// Largest request body, in raw bytes, that `new_message` accepts.
pub const MAX_BODY_BYTES: usize = 1_000_000;

/// Status of a successful operation.
pub const STATUS_OK: u16 = 200;

/// Status of a rejected over-large payload.
pub const STATUS_PAYLOAD_TOO_LARGE: u16 = 413;

/// What a handler answers: a status code, a JSON body, and the two
/// cross-origin headers that every response carries.
pub struct ApiResponse {
    pub status: u16,
    pub body: String,
    pub allow_origin: String,
    pub allow_methods: String,
}

/// Every response permits any origin and the two supported methods.
pub open spec fn permits_any_origin(r: ApiResponse) -> bool {
    r.allow_origin@ == "*"@ && r.allow_methods@ == "GET, POST"@
}

/// The JSON text of an array holding the given strings, in order.
pub uninterp spec fn json_string_array(items: Seq<Seq<char>>) -> Seq<char>;

/// The text that the given bytes decode to as UTF-8, invalid sequences
/// replaced.
pub uninterp spec fn decoded_text(bytes: Seq<u8>) -> Seq<char>;

/// Relies on serde_json::to_string: the JSON text for a slice of strings
/// depends on the strings alone, an empty slice serializes as `[]`, and
/// serializing strings never reports an error.
#[verifier::external_body]
fn render_json(items: &Vec<String>) -> (r: String)
    ensures
        r@ == json_string_array(items.deep_view()),
        items@.len() == 0 ==> r@ == "[]"@,
{
    serde_json::to_string(items).unwrap()
}

/// Relies on String::from_utf8_lossy: the decoded text depends on the
/// bytes alone.
#[verifier::external_body]
fn decode_utf8(bytes: &Vec<u8>) -> (r: String)
    ensures
        r@ == decoded_text(bytes@),
{
    String::from_utf8_lossy(bytes.as_slice()).into_owned()
}

fn cors_response(status: u16, body: String) -> (r: ApiResponse)
    ensures
        r.status == status,
        r.body == body,
        permits_any_origin(r),
{
    ApiResponse {
        status,
        body,
        allow_origin: "*".to_owned(),
        allow_methods: "GET, POST".to_owned(),
    }
}

/// Handles `GET /messages`: answers 200 with the JSON array of all
/// messages, most-recent-first, and leaves the store as it is.
pub fn list_messages(store: &MessageStore) -> (r: ApiResponse)
    ensures
        r.status == STATUS_OK,
        r.body@ == json_string_array(store@),
        store@.len() == 0 ==> r.body@ == "[]"@,
        permits_any_origin(r),
{
    let messages = store.list();
    let body = render_json(&messages);
    cors_response(STATUS_OK, body)
}

/// Appends the given text and answers 200 with the JSON array of the full
/// updated message list, the new entry first.
pub fn new_message_text(store: &mut MessageStore, message: String) -> (r: ApiResponse)
    ensures
        r.status == STATUS_OK,
        final(store)@ == seq![message@] + old(store)@,
        r.body@ == json_string_array(final(store)@),
        permits_any_origin(r),
{
    let messages = store.append(message);
    let body = render_json(&messages);
    cors_response(STATUS_OK, body)
}

/// Handles `POST /messages` on the raw request body.
///
/// A body over `MAX_BODY_BYTES` raw bytes is rejected before the store is
/// touched; otherwise the body's UTF-8 text becomes the new most-recent
/// message and the answer carries the full updated list.
pub fn new_message(store: &mut MessageStore, body: Vec<u8>) -> (r: ApiResponse)
    ensures
        permits_any_origin(r),
        body@.len() > MAX_BODY_BYTES ==> {
            &&& r.status == STATUS_PAYLOAD_TOO_LARGE
            &&& r.body@.len() == 0
            &&& final(store)@ == old(store)@
        },
        body@.len() <= MAX_BODY_BYTES ==> {
            &&& r.status == STATUS_OK
            &&& final(store)@ == seq![decoded_text(body@)] + old(store)@
            &&& r.body@ == json_string_array(final(store)@)
        },
{
    if body.len() > MAX_BODY_BYTES {
        cors_response(STATUS_PAYLOAD_TOO_LARGE, String::new())
    } else {
        let message = decode_utf8(&body);
        new_message_text(store, message)
    }
}

} // verus!
