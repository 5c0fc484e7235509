//! Client-side logic of the query endpoints: the URLs calls go to, the
//! headers they carry, and the interpretation of the generic response
//! envelope. The HTTP transport lives outside.

use vstd::prelude::*;
use vstd::string::StringExecFns;

verus! {

/// What a follow-up chat question comes back as.
#[derive(Debug, Clone)]
pub struct ChatResponse {
    pub answer: String,
    pub context_used: bool,
}

/// The configuration subset the query calls need.
pub struct AdapterConfig {
    pub api_url: String,
    pub api_key: String,
    pub user_hash: Option<String>,
}

/// The headers every query call carries: the API key when one is set,
/// then the user hash when one is known.
pub fn auth_headers(api_key: &str, user_hash: Option<&str>) -> (hs: Vec<(String, String)>)
    ensures
        hs@.len() == (if api_key@.len() > 0 {
            1int
        } else {
            0int
        }) + (if user_hash is Some {
            1int
        } else {
            0int
        }),
        api_key@.len() > 0 ==> hs@[0].0@ == "X-API-Key"@ && hs@[0].1@ == api_key@,
        user_hash matches Option::Some(h) ==> (hs@.last().0@ == "X-User-Hash"@ && hs@.last().1@
            == h@),
{
    let mut hs: Vec<(String, String)> = Vec::new();
    if !api_key.is_empty() {
        hs.push(("X-API-Key".to_owned(), api_key.to_owned()));
    }
    match user_hash {
        Option::Some(h) => {
            hs.push(("X-User-Hash".to_owned(), h.to_owned()));
        },
        Option::None => {},
    }
    hs
}

/// Judge the generic ok/error envelope of a query response: anything but an
/// explicit true fails with the reported reason.
pub fn interpret_api_response(ok: Option<bool>, error: Option<String>) -> (r: Result<(), String>)
    ensures
        ok == Option::Some(true) ==> r is Ok,
        ok != Option::Some(true) ==> (r matches Result::Err(m) && m@ == (match error {
            Option::Some(e) => e@,
            Option::None => "Unknown server error"@,
        })),
{
    let is_true = match ok {
        Option::Some(b) => b,
        Option::None => false,
    };
    if is_true {
        Ok(())
    } else {
        match error {
            Option::Some(e) => Err(e),
            Option::None => Err("Unknown server error".to_owned()),
        }
    }
}

/// Assemble a chat answer from the extracted fields, defaulting the blanks.
pub fn build_chat_response(answer: Option<String>, context_used: Option<bool>) -> (c: ChatResponse)
    ensures
        c.answer@ == (match answer {
            Option::Some(a) => a@,
            Option::None => Seq::<char>::empty(),
        }),
        c.context_used == (context_used == Option::Some(true)),
{
    let a = match answer {
        Option::Some(a) => a,
        Option::None => String::new(),
    };
    let used = match context_used {
        Option::Some(b) => b,
        Option::None => false,
    };
    ChatResponse { answer: a, context_used: used }
}

/// The endpoint a natural-language query is posted to.
pub fn query_endpoint(api_url: &str) -> (u: String)
    ensures
        u@ == api_url@ + "/api/llm-query/native-index"@,
{
    let mut u = api_url.to_owned();
    u.append("/api/llm-query/native-index");
    u
}

/// The endpoint a chat follow-up is posted to.
pub fn chat_endpoint(api_url: &str) -> (u: String)
    ensures
        u@ == api_url@ + "/api/llm-query/chat"@,
{
    let mut u = api_url.to_owned();
    u.append("/api/llm-query/chat");
    u
}

/// The endpoint an index search queries.
pub fn search_endpoint(api_url: &str) -> (u: String)
    ensures
        u@ == api_url@ + "/api/native-index/search"@,
{
    let mut u = api_url.to_owned();
    u.append("/api/native-index/search");
    u
}

/// The endpoint a mutation is posted to.
pub fn mutate_endpoint(api_url: &str) -> (u: String)
    ensures
        u@ == api_url@ + "/api/mutation/execute"@,
{
    let mut u = api_url.to_owned();
    u.append("/api/mutation/execute");
    u
}

} // verus!
