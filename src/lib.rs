//! A small HTTP/1.1 server framework: a byte-level request decoder and response
//! encoder, an exact-match route table, the per-connection dispatch rules, and a
//! single-worker actor that serialises slow, cancellable calls. The chat
//! service built on it lives here too: its chatbot, logger and route rules.
pub mod actor;
pub mod chat;
pub mod chatbot;
pub mod dispatch;
pub mod server;
pub mod status;
pub mod wire;

pub use actor::{Actor, Delivery, MAILBOX_CAPACITY};
pub use chat::{chat_body, chat_history, chat_json, chat_reply, ChatReply, Messages};
pub use chatbot::{Chatbot, Logger};
pub use dispatch::{intake, make_response, normalize, respond, Intake, Routed, Step};
pub use server::{Content, Handler, Request, Response, Server};
pub use status::StatusCode;
pub use wire::{decode, encode, Decoded, Header, HttpRequest, HttpResponse};
