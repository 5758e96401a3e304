//! The chat route: what it accepts, how it extends the conversation with one of
//! the candidate replies, and the JSON it answers with.
use vstd::prelude::*;
use vstd::string::*;

use crate::chatbot::texts;
use crate::server::Request;
use crate::status::StatusCode;

verus! {

/// A conversation: the messages so far, oldest first.
#[derive(Clone, Debug)]
pub struct Messages {
    pub messages: Vec<String>,
}

/// What the chat route answers: the conversation with the chosen reply
/// appended, or word that the call was cancelled.
pub enum ChatReply {
    Messages(Messages),
    Cancelled,
}

/// The JSON array of a list of strings, as `serde_json` writes it.
pub uninterp spec fn json_string_list(items: Seq<Seq<char>>) -> Seq<char>;

/// Relies on `serde_json::to_string` on a list of strings: the compact JSON
/// array of their escaped texts. It cannot fail on strings.
#[verifier::external_body]
fn json_array(items: &Vec<String>) -> (r: String)
    ensures
        r@ == json_string_list(texts(items@)),
{
    serde_json::to_string(items).unwrap_or_default()
}

/// The body of a chat request; only a POST has one, anything else is 405.
pub fn chat_body(req: Request) -> (r: Result<String, StatusCode>)
    ensures
        req matches Request::Post(b) ==> r matches Ok(t) && t@ == b@,
        req is Get ==> (r matches Err(s) && s@ == 405),
{
    match req {
        Request::Post(body) => Ok(body),
        Request::Get => Err(StatusCode::method_not_allowed()),
    }
}

/// The conversation that a chat request's body was read as; a body that is
/// not one is an internal error (500).
pub fn chat_history(parsed: Option<Messages>) -> (r: Result<Messages, StatusCode>)
    ensures
        parsed matches Some(m) ==> r matches Ok(h) && texts(h.messages@) == texts(m.messages@),
        parsed is None ==> (r matches Err(s) && s@ == 500),
{
    match parsed {
        Some(m) => Ok(m),
        None => Err(StatusCode::internal_server_error()),
    }
}

/// The reply to a conversation: `Cancelled` when the chatbot's call was
/// cancelled, else the conversation with candidate `pick` (counted round the
/// list) appended.
pub fn chat_reply(history: Messages, candidates: Option<Vec<String>>, pick: usize) -> (r: ChatReply)
    requires
        candidates matches Some(c) ==> c@.len() > 0,
    ensures
        candidates is None ==> r is Cancelled,
        candidates matches Some(c) ==> (r matches ChatReply::Messages(m) && texts(m.messages@)
            == texts(history.messages@).push(c@[pick as int % c@.len() as int]@)),
{
    match candidates {
        None => ChatReply::Cancelled,
        Some(c) => {
            let chosen = c[pick % c.len()].clone();
            let mut messages = history.messages;
            let ghost before = messages@;
            messages.push(chosen);
            assert(texts(messages@) =~= texts(before).push(c@[pick as int % c@.len() as int]@));
            ChatReply::Messages(Messages { messages })
        },
    }
}

/// The JSON text of a chat reply: `{"messages":[...]}` or `{"type":"Cancelled"}`.
pub open spec fn reply_json(r: ChatReply) -> Seq<char> {
    match r {
        ChatReply::Messages(m) => "{\"messages\":"@ + json_string_list(texts(m.messages@)) + "}"@,
        ChatReply::Cancelled => "{\"type\":\"Cancelled\"}"@,
    }
}

/// The JSON text of a chat reply.
pub fn chat_json(reply: &ChatReply) -> (r: String)
    ensures
        r@ == reply_json(*reply),
{
    match reply {
        ChatReply::Messages(m) => {
            let mut out = String::new();
            out.append("{\"messages\":");
            out.append(json_array(&m.messages).as_str());
            out.append("}");
            out
        },
        ChatReply::Cancelled => "{\"type\":\"Cancelled\"}".to_owned(),
    }
}

} // verus!
