//! Client-side logic of the remote key-value storage API: endpoint and
//! header construction, base64 framing of keys and values, and the
//! interpretation of responses. The HTTP transport lives outside; this
//! module decides what is sent and what a reply means.

use vstd::prelude::*;
use vstd::string::StringExecFns;

use base64::Engine;

verus! {

/// Batch operations are sent in chunks of this many items.
pub const STORAGE_BATCH_SIZE: usize = 25;

/// Authentication method for the storage API.
#[derive(Clone, Debug)]
pub enum ExememAuth {
    UserHash(String),
    ApiKey(String),
    BearerToken(String),
}

/// The header an authentication method adds to every storage request.
pub fn auth_header(auth: &ExememAuth) -> (h: (String, String))
    ensures
        match auth {
            ExememAuth::UserHash(v) => h.0@ == "X-User-Hash"@ && h.1@ == v@,
            ExememAuth::ApiKey(v) => h.0@ == "X-API-Key"@ && h.1@ == v@,
            ExememAuth::BearerToken(v) => h.0@ == "Authorization"@ && h.1@ == "Bearer "@ + v@,
        },
{
    match auth {
        ExememAuth::UserHash(v) => ("X-User-Hash".to_owned(), v.clone()),
        ExememAuth::ApiKey(v) => ("X-API-Key".to_owned(), v.clone()),
        ExememAuth::BearerToken(v) => {
            let mut s = "Bearer ".to_owned();
            s.append(v.as_str());
            ("Authorization".to_owned(), s)
        },
    }
}

/// Names what the standard base64 alphabet encodes a byte string to.
pub uninterp spec fn base64_of(bytes: Seq<u8>) -> Seq<char>;

/// Relies on the encode of base64's STANDARD engine: the canonical padded
/// encoding, a function of the input bytes alone.
#[verifier::external_body]
fn b64_encode(bytes: &[u8]) -> (r: String)
    ensures
        r@ == base64_of(bytes@),
{
    base64::engine::general_purpose::STANDARD.encode(bytes)
}

/// Relies on the decode of base64's STANDARD engine: it inverts the
/// engine's encode, so an input that is the encoding of some bytes decodes
/// to exactly those bytes.
#[verifier::external_body]
fn b64_decode(s: &str) -> (r: Result<Vec<u8>, String>)
    ensures
        (exists|v: Seq<u8>| s@ == base64_of(v)) ==> r is Ok,
        r matches Result::Ok(d) ==> (forall|v: Seq<u8>| s@ == base64_of(v) ==> d@ == v),
{
    match base64::engine::general_purpose::STANDARD.decode(s) {
        Ok(d) => Ok(d),
        Err(e) => Err(format!("{}", e)),
    }
}

/// Where requests go and how they authenticate; one instance is bound to
/// one namespace, sent along in every request body.
pub struct ExememApiStore {
    pub base_url: String,
    pub namespace: String,
    pub auth: ExememAuth,
}

impl ExememApiStore {
    pub fn new(base_url: String, namespace: String, auth: ExememAuth) -> (s: Self)
        ensures
            s.base_url == base_url,
            s.namespace == namespace,
            s.auth == auth,
    {
        ExememApiStore { base_url, namespace, auth }
    }

    /// The URL a storage action is posted to.
    pub fn endpoint(&self, action: &str) -> (u: String)
        ensures
            u@ == self.base_url@ + "/api/storage/"@ + action@,
    {
        let mut u = self.base_url.clone();
        u.append("/api/storage/");
        u.append(action);
        u
    }

    /// Keys travel base64-encoded.
    pub fn encode_key(key: &[u8]) -> (r: String)
        ensures
            r@ == base64_of(key@),
    {
        b64_encode(key)
    }

    /// Values travel base64-encoded.
    pub fn encode_value(value: &[u8]) -> (r: String)
        ensures
            r@ == base64_of(value@),
    {
        b64_encode(value)
    }

    /// Decode a base64 value from a response; a malformed one is an error.
    pub fn decode_value(b64: &str) -> (r: Result<Vec<u8>, String>)
        ensures
            forall|v: Seq<u8>| b64@ == base64_of(v) ==> (r matches Result::Ok(d) && d@ == v),
    {
        match b64_decode(b64) {
            Result::Ok(d) => Ok(d),
            Result::Err(e) => {
                let mut m = "Invalid base64 in response: ".to_owned();
                m.append(e.as_str());
                Err(m)
            },
        }
    }
}

/// Judge the generic ok/error envelope of a storage response: anything but
/// an explicit true is a backend error carrying the reported reason.
pub fn interpret_storage_response(ok: Option<bool>, error: Option<String>) -> (r: Result<
    (),
    String,
>)
    ensures
        ok == Option::Some(true) ==> r is Ok,
        ok != Option::Some(true) ==> (r matches Result::Err(m) && m@ == "Storage API error: "@
            + (match error {
            Option::Some(e) => e@,
            Option::None => "Unknown error"@,
        })),
{
    let is_true = match ok {
        Option::Some(b) => b,
        Option::None => false,
    };
    if is_true {
        Ok(())
    } else {
        let mut m = "Storage API error: ".to_owned();
        match error {
            Option::Some(e) => m.append(e.as_str()),
            Option::None => m.append("Unknown error"),
        }
        Err(m)
    }
}

/// What the `value` field of a get response held, reduced to plain data.
#[derive(Debug)]
pub enum StorageField {
    Missing,
    Null,
    Text(String),
    OtherType,
}

/// Interpret a get response: an absent or null value means the key is
/// unbound, a string is base64-decoded, any other shape is an error.
pub fn interpret_get_value(field: StorageField) -> (r: Result<Option<Vec<u8>>, String>)
    ensures
        match field {
            StorageField::Missing => r matches Result::Ok(o) && o is None,
            StorageField::Null => r matches Result::Ok(o) && o is None,
            StorageField::Text(s) => {
                &&& (r matches Result::Ok(o) ==> o is Some)
                &&& (forall|v: Seq<u8>|
                    s@ == base64_of(v) ==> (r matches Result::Ok(o) && o matches Option::Some(d)
                        && d@ == v))
            },
            StorageField::OtherType => r matches Result::Err(m) && m@
                == "Unexpected 'value' type in get response"@,
        },
{
    match field {
        StorageField::Missing => Ok(None),
        StorageField::Null => Ok(None),
        StorageField::Text(s) => {
            match ExememApiStore::decode_value(s.as_str()) {
                Result::Ok(d) => Ok(Some(d)),
                Result::Err(e) => Err(e),
            }
        },
        StorageField::OtherType => Err("Unexpected 'value' type in get response".to_owned()),
    }
}

/// Interpret an exists response: the boolean field is the answer, and a
/// response without one is an error.
pub fn interpret_exists_response(field: Option<bool>) -> (r: Result<bool, String>)
    ensures
        match field {
            Option::Some(b) => r == Result::<bool, String>::Ok(b),
            Option::None => r matches Result::Err(m) && m@
                == "Missing 'exists' field in exists response"@,
        },
{
    match field {
        Option::Some(b) => Ok(b),
        Option::None => Err("Missing 'exists' field in exists response".to_owned()),
    }
}

/// Decode every key and value of a scan-prefix response; the first
/// malformed item fails the whole response.
pub fn decode_scan_items(items: &Vec<(String, String)>) -> (r: Result<
    Vec<(Vec<u8>, Vec<u8>)>,
    String,
>)
    ensures
        r matches Result::Ok(out) ==> {
            &&& out@.len() == items@.len()
            &&& forall|i: int, v: Seq<u8>|
                #![trigger out@[i].0, base64_of(v)]
                0 <= i < items@.len() && items@[i].0@ == base64_of(v) ==> out@[i].0@ == v
            &&& forall|i: int, v: Seq<u8>|
                #![trigger out@[i].1, base64_of(v)]
                0 <= i < items@.len() && items@[i].1@ == base64_of(v) ==> out@[i].1@ == v
        },
{
    let mut out: Vec<(Vec<u8>, Vec<u8>)> = Vec::new();
    let mut k: usize = 0;
    while k < items.len()
        invariant
            k <= items@.len(),
            out@.len() == k,
            forall|i: int, v: Seq<u8>|
                #![trigger out@[i].0, base64_of(v)]
                0 <= i < k && items@[i].0@ == base64_of(v) ==> out@[i].0@ == v,
            forall|i: int, v: Seq<u8>|
                #![trigger out@[i].1, base64_of(v)]
                0 <= i < k && items@[i].1@ == base64_of(v) ==> out@[i].1@ == v,
        decreases items@.len() - k,
    {
        let key = match ExememApiStore::decode_value(items[k].0.as_str()) {
            Result::Ok(d) => d,
            Result::Err(e) => {
                return Err(e);
            },
        };
        let value = match ExememApiStore::decode_value(items[k].1.as_str()) {
            Result::Ok(d) => d,
            Result::Err(e) => {
                return Err(e);
            },
        };
        out.push((key, value));
        k = k + 1;
    }
    Ok(out)
}

} // verus!
