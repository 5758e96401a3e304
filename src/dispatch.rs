//! The rules that take a connection from bytes read to bytes written: refusing
//! what cannot be served, routing the rest, and turning a handler's result into
//! a response.
use vstd::prelude::*;
use vstd::utf8::*;

use crate::server::{same_text, Content, Handler, Request, Response, Server};
use crate::status::StatusCode;
use crate::wire::{
    append_bytes, append_decimal, decimal, decode, decoding, encode, encoding, DecodedModel,
    Decoded, Header, HttpRequest, HttpResponse, RequestModel, ResponseModel,
};

verus! {

/// Relies on `String::from_utf8`: the text that the bytes encode, when they
/// are valid UTF-8.
#[verifier::external_body]
fn utf8_text(bytes: Vec<u8>) -> (r: Option<String>)
    ensures
        r is Some <==> valid_utf8(bytes@),
        r matches Some(s) ==> s@ == decode_utf8(bytes@),
{
    String::from_utf8(bytes).ok()
}

/// A failure response: the status, no headers, and a short explanation as body.
pub open spec fn explained(code: u16, text: Seq<char>) -> ResponseModel {
    ResponseModel { status: code, headers: Seq::empty(), body: encode_utf8(text) }
}

/// What a request is to a handler: `Ok(None)` for a GET, `Ok(Some(text))` for a
/// POST whose body is UTF-8 text, else the status code that refuses it.
pub open spec fn request_kind(req: RequestModel) -> Result<Option<Seq<char>>, u16> {
    if req.method == "GET"@ {
        Ok(None)
    } else if req.method == "POST"@ {
        if valid_utf8(req.body) {
            Ok(Some(decode_utf8(req.body)))
        } else {
            Err(400)
        }
    } else {
        Err(405)
    }
}

/// `r` is the request that `kind` describes.
pub open spec fn is_request(r: Request, kind: Option<Seq<char>>) -> bool {
    match r {
        Request::Get => kind is None,
        Request::Post(t) => kind == Some(t@),
    }
}

/// The explanation sent with a refused request.
pub open spec fn refusal_text(code: u16) -> Seq<char> {
    if code == 405 {
        "Not implemented"@
    } else {
        "Malformed request"@
    }
}

/// The response for a handler's result: content as a 200 with its type and
/// length, a failure as its status with a fixed explanation.
pub open spec fn handler_response(res: Response) -> ResponseModel {
    match res {
        Ok(content) => {
            let (text, ty) = match content {
                Content::Html(t) => (t@, "text/html"@),
                Content::Json(t) => (t@, "application/json"@),
            };
            let body = encode_utf8(text);
            ResponseModel {
                status: 200,
                headers: seq![
                    ("Content-Type"@, encode_utf8(ty)),
                    ("Content-Length"@, decimal(body.len())),
                ],
                body,
            }
        },
        Err(status) => explained(status@, "Handler failed"@),
    }
}

/// `resp` is a response that a server with route table `routes` may give to
/// `req`: a refusal, a miss, or what the handler's result makes.
pub open spec fn answers<H>(routes: Map<Seq<char>, H>, req: RequestModel, resp: ResponseModel) -> bool {
    match request_kind(req) {
        Err(code) => resp == explained(code, refusal_text(code)),
        Ok(_) => if routes.contains_key(req.target) {
            exists|res: Response| resp == #[trigger] handler_response(res)
        } else {
            resp == explained(404, "No valid route"@)
        },
    }
}

/// Decoding a complete buffer again gives the same request, and so the same
/// request for a handler: the outcome depends on the bytes alone.
pub proof fn lemma_decoding_is_repeatable(a: Seq<u8>, b: Seq<u8>)
    requires
        a == b,
        decoding(a) is Complete,
    ensures
        decoding(b) is Complete,
        decoding(a)->Complete_0 == decoding(b)->Complete_0,
        request_kind(decoding(a)->Complete_0) == request_kind(decoding(b)->Complete_0),
{
}

/// A response with `status`, no headers, and `explanation` as its body.
pub fn make_response(status: StatusCode, explanation: &str) -> (r: HttpResponse)
    ensures
        r@ == explained(status@, explanation@),
{
    let mut body: Vec<u8> = Vec::new();
    append_bytes(&mut body, explanation.as_bytes());
    let r = HttpResponse { status, headers: Vec::new(), body };
    assert(r@.headers =~= Seq::<(Seq<char>, Seq<u8>)>::empty());
    r
}

/// The request a handler sees for a decoded one: GET and POST are served, a
/// POST body must be UTF-8 text (else 400), any other method is refused with 405.
pub fn normalize(req: HttpRequest) -> (r: Result<Request, StatusCode>)
    ensures
        match request_kind(req@) {
            Ok(kind) => r matches Ok(q) && is_request(q, kind),
            Err(code) => r matches Err(s) && s@ == code,
        },
{
    proof {
        reveal_strlit("GET");
        reveal_strlit("POST");
    }
    if same_text(req.method.as_str(), "GET") {
        Ok(Request::Get)
    } else if same_text(req.method.as_str(), "POST") {
        match utf8_text(req.body) {
            Some(text) => Ok(Request::Post(text)),
            None => Err(StatusCode::bad_request()),
        }
    } else {
        Err(StatusCode::method_not_allowed())
    }
}

/// Where a decoded request goes: straight back as a response, or to a handler.
pub enum Routed<'a, H> {
    Respond(HttpResponse),
    Call(&'a H, Request),
}

/// The response for a handler's result.
pub fn respond(result: Response) -> (r: HttpResponse)
    ensures
        r@ == handler_response(result),
{
    match result {
        Ok(content) => {
            let (text, ty) = match content {
                Content::Html(t) => (t, "text/html"),
                Content::Json(t) => (t, "application/json"),
            };
            let mut body: Vec<u8> = Vec::new();
            append_bytes(&mut body, text.as_str().as_bytes());
            let mut ty_bytes: Vec<u8> = Vec::new();
            append_bytes(&mut ty_bytes, ty.as_bytes());
            let mut len_bytes: Vec<u8> = Vec::new();
            append_decimal(&mut len_bytes, body.len());
            let mut headers: Vec<Header> = Vec::new();
            headers.push(Header { name: "Content-Type".to_owned(), value: ty_bytes });
            headers.push(Header { name: "Content-Length".to_owned(), value: len_bytes });
            let r = HttpResponse { status: StatusCode::ok(), headers, body };
            assert(r@.headers =~= handler_response(result).headers);
            r
        },
        Err(status) => make_response(status, "Handler failed"),
    }
}

impl<H> Server<H> {
    /// Refuses a request that no handler can take, answers 404 for a path
    /// with no route, and hands the rest to the route's handler.
    pub fn dispatch(&self, req: HttpRequest) -> (r: Routed<'_, H>)
        ensures
            match request_kind(req@) {
                Err(code) => r matches Routed::Respond(resp) && resp@ == explained(code, refusal_text(code)),
                Ok(kind) => if self@.contains_key(req.target@) {
                    r matches Routed::Call(h, q) && *h == self@[req.target@] && is_request(q, kind)
                } else {
                    r matches Routed::Respond(resp) && resp@ == explained(404, "No valid route"@)
                },
            },
    {
        let target = req.target.clone();
        match normalize(req) {
            Err(status) => {
                let text = if status.as_u16() == 405 {
                    "Not implemented"
                } else {
                    "Malformed request"
                };
                Routed::Respond(make_response(status, text))
            },
            Ok(request) => match self.resolve(target.as_str()) {
                None => Routed::Respond(make_response(StatusCode::not_found(), "No valid route")),
                Some(handler) => Routed::Call(handler, request),
            },
        }
    }
}

impl<H: Handler> Server<H> {
    /// The response to a decoded request, calling the route's handler if
    /// the request gets that far.
    pub fn generate_response(&self, req: HttpRequest) -> (r: HttpResponse)
        ensures
            answers(self@, req@, r@),
    {
        match self.dispatch(req) {
            Routed::Respond(resp) => resp,
            Routed::Call(handler, request) => {
                let result = handler.handle(request);
                let r = respond(result);
                assert(handler_response(result) == r@);
                r
            },
        }
    }
}

/// What a connection does next with the bytes it has read.
pub enum Intake {
    /// Read more bytes, then look at the whole buffer again.
    ReadMore,
    /// The client closed the connection before sending anything: close it too.
    Close,
    /// Write this response: the bytes are not a request that can be served.
    Reject(HttpResponse),
    /// A whole request came in.
    Request(HttpRequest),
}

/// The 400 response for bytes that are not a request.
pub open spec fn malformed() -> ResponseModel {
    explained(400, "Malformed request"@)
}

/// Decides what to do with the bytes of a connection, `eof` telling whether
/// the client has stopped sending. A request cut short by the end of the
/// stream is refused like a malformed one.
pub fn intake(buf: &[u8], eof: bool) -> (r: Intake)
    ensures
        eof && buf@.len() == 0 ==> r is Close,
        !(eof && buf@.len() == 0) ==> match decoding(buf@) {
            DecodedModel::Complete(m) => r matches Intake::Request(q) && q@ == m,
            DecodedModel::Invalid => r matches Intake::Reject(resp) && resp@ == malformed(),
            DecodedModel::Incomplete => if eof {
                r matches Intake::Reject(resp) && resp@ == malformed()
            } else {
                r is ReadMore
            },
        },
{
    if eof && buf.len() == 0 {
        return Intake::Close;
    }
    match decode(buf) {
        Decoded::Complete(req) => Intake::Request(req),
        Decoded::Invalid => Intake::Reject(make_response(StatusCode::bad_request(), "Malformed request")),
        Decoded::Incomplete => {
            if eof {
                Intake::Reject(make_response(StatusCode::bad_request(), "Malformed request"))
            } else {
                Intake::ReadMore
            }
        },
    }
}

/// One step of serving a connection.
pub enum Step {
    ReadMore,
    Close,
    Write(Vec<u8>),
}

impl<H: Handler> Server<H> {
    /// Serves a connection from the bytes read so far: asks for more, closes,
    /// or gives the bytes of the one response to write.
    pub fn handle(&self, buf: &[u8], eof: bool) -> (r: Step)
        ensures
            eof && buf@.len() == 0 ==> r is Close,
            !(eof && buf@.len() == 0) ==> match decoding(buf@) {
                DecodedModel::Complete(m) => r matches Step::Write(out) && exists|resp: ResponseModel|
                    answers(self@, m, resp) && out@ == #[trigger] encoding(resp),
                DecodedModel::Invalid => r matches Step::Write(out) && out@ == encoding(malformed()),
                DecodedModel::Incomplete => if eof {
                    r matches Step::Write(out) && out@ == encoding(malformed())
                } else {
                    r is ReadMore
                },
            },
    {
        match intake(buf, eof) {
            Intake::ReadMore => Step::ReadMore,
            Intake::Close => Step::Close,
            Intake::Reject(resp) => Step::Write(encode(&resp)),
            Intake::Request(req) => {
                let resp = self.generate_response(req);
                let out = encode(&resp);
                assert(out@ == encoding(resp@));
                Step::Write(out)
            },
        }
    }
}

} // verus!
