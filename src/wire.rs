//! HTTP/1.1 on the wire: decoding a request from an accumulating buffer and
//! encoding a response to the exact bytes that go back to the client.
use vstd::prelude::*;
use vstd::string::*;
use vstd::utf8::*;

use crate::status::{reason_phrase, StatusCode};

verus! {

broadcast use vstd::utf8::is_ascii_chars_encode_utf8;

/// A header line: its name, and its value as raw bytes.
#[derive(Clone, Debug)]
pub struct Header {
    pub name: String,
    pub value: Vec<u8>,
}

impl View for Header {
    type V = (Seq<char>, Seq<u8>);

    open spec fn view(&self) -> (Seq<char>, Seq<u8>) {
        (self.name@, self.value@)
    }
}

/// The headers of a message, as name and value pairs in wire order.
pub open spec fn headers_view(hs: Seq<Header>) -> Seq<(Seq<char>, Seq<u8>)> {
    hs.map_values(|h: Header| h@)
}

/// A response ready to be encoded: status, headers in insertion order, body.
#[derive(Clone, Debug)]
pub struct HttpResponse {
    pub status: StatusCode,
    pub headers: Vec<Header>,
    pub body: Vec<u8>,
}

/// What a response is, as values.
pub struct ResponseModel {
    pub status: u16,
    pub headers: Seq<(Seq<char>, Seq<u8>)>,
    pub body: Seq<u8>,
}

impl View for HttpResponse {
    type V = ResponseModel;

    open spec fn view(&self) -> ResponseModel {
        ResponseModel { status: self.status@, headers: headers_view(self.headers@), body: self.body@ }
    }
}

/// A line end: carriage return, line feed.
pub open spec fn crlf() -> Seq<u8> {
    seq![13u8, 10u8]
}

/// `HTTP/1.1` and a space, in ASCII.
pub open spec fn version_prefix() -> Seq<u8> {
    seq![72u8, 84u8, 84u8, 80u8, 47u8, 49u8, 46u8, 49u8, 32u8]
}

/// The ASCII digit for `d`, which is below ten.
pub open spec fn digit(d: int) -> u8 {
    (48 + d) as u8
}

/// The three decimal digits of a status code.
pub open spec fn three_digits(code: u16) -> Seq<u8> {
    seq![digit(code as int / 100), digit((code as int / 10) % 10), digit(code as int % 10)]
}

/// The decimal digits of `n`, most significant first, without leading zeros.
pub open spec fn decimal(n: nat) -> Seq<u8>
    decreases n,
{
    if n < 10 {
        seq![digit(n as int)]
    } else {
        decimal(n / 10).push(digit((n % 10) as int))
    }
}

/// `HTTP/1.1 <code> <reason>` and the line end; a code with no canonical
/// reason phrase has none after it.
pub open spec fn status_line(code: u16) -> Seq<u8> {
    version_prefix() + three_digits(code) + match reason_phrase(code) {
        Some(p) => seq![32u8] + encode_utf8(p),
        None => Seq::empty(),
    } + crlf()
}

/// `<Name>: <value>` and the line end.
pub open spec fn header_line(h: (Seq<char>, Seq<u8>)) -> Seq<u8> {
    encode_utf8(h.0) + seq![58u8, 32u8] + h.1 + crlf()
}

/// Every header line, in order.
pub open spec fn header_lines(hs: Seq<(Seq<char>, Seq<u8>)>) -> Seq<u8>
    decreases hs.len(),
{
    if hs.len() == 0 {
        Seq::empty()
    } else {
        header_lines(hs.drop_last()) + header_line(hs.last())
    }
}

/// The bytes of a response: status line, header lines, a blank line, the body.
pub open spec fn encoding(r: ResponseModel) -> Seq<u8> {
    status_line(r.status) + header_lines(r.headers) + crlf() + r.body
}

/// Every character is printable ASCII: a space or a visible character.
pub open spec fn printable(s: Seq<char>) -> bool {
    forall|i: int| 0 <= i < s.len() ==> ' ' <= #[trigger] s[i] <= '~'
}

/// Where the first carriage return in `b` stands (its length if there is none).
pub open spec fn first_cr(b: Seq<u8>) -> nat
    decreases b.len(),
{
    if b.len() == 0 {
        0
    } else if b[0] == 13 {
        0
    } else {
        1 + first_cr(b.drop_first())
    }
}

/// `b` is an ASCII decimal digit.
pub open spec fn is_digit(b: u8) -> bool {
    48 <= b <= 57
}

/// Reads a status line back from the start of `b`: the code and the reason
/// phrase's bytes, if `b` starts with `HTTP/1.1 `, three digits, a space, and a
/// phrase that runs to the first line end.
pub open spec fn parse_status_line(b: Seq<u8>) -> Option<(int, Seq<u8>)> {
    let n = first_cr(b) as int;
    let line = b.take(n);
    if n + 1 < b.len() && b[n + 1] == 10 && line.len() >= 13 && line.take(9) == version_prefix()
        && is_digit(line[9]) && is_digit(line[10]) && is_digit(line[11]) && line[12] == 32 {
        Some(
            (
                (line[9] - 48) * 100 + (line[10] - 48) * 10 + (line[11] - 48),
                line.skip(13),
            ),
        )
    } else {
        None
    }
}

proof fn lemma_first_cr(p: Seq<u8>, rest: Seq<u8>)
    requires
        forall|i: int| 0 <= i < p.len() ==> p[i] != 13,
        rest.len() > 0,
        rest[0] == 13,
    ensures
        first_cr(p + rest) == p.len(),
    decreases p.len(),
{
    if p.len() > 0 {
        assert((p + rest).drop_first() =~= p.drop_first() + rest);
        lemma_first_cr(p.drop_first(), rest);
    } else {
        assert(p + rest =~= rest);
    }
}

/// A status line reads back as the code it was written with, and the canonical
/// reason phrase.
proof fn lemma_status_line_reads_back(code: u16, rest: Seq<u8>, phrase: Seq<char>)
    requires
        100 <= code <= 999,
        reason_phrase(code) == Some(phrase),
        printable(phrase),
    ensures
        parse_status_line(status_line(code) + rest) == Some((code as int, encode_utf8(phrase))),
{
    let reason = encode_utf8(phrase);
    assert(is_ascii_chars(phrase));
    assert forall|i: int| 0 <= i < reason.len() implies reason[i] != 13 by {
        assert(phrase[i] as u8 == reason[i]);
        assert(' ' <= phrase[i] <= '~');
    }
    let p = version_prefix() + three_digits(code) + seq![32u8] + reason;
    let b = status_line(code) + rest;
    assert(b =~= p + (crlf() + rest));
    assert forall|i: int| 0 <= i < p.len() implies p[i] != 13 by {
        if i >= 13 {
            assert(p[i] == reason[i - 13]);
        }
    }
    lemma_first_cr(p, crlf() + rest);
    assert(b.take(p.len() as int) =~= p);
    assert(p.take(9) =~= version_prefix());
    assert(p.skip(13) =~= reason);
}

pub(crate) fn append_bytes(out: &mut Vec<u8>, b: &[u8])
    ensures
        final(out)@ == old(out)@ + b@,
{
    let mut i: usize = 0;
    while i < b.len()
        invariant
            i <= b@.len(),
            out@ == old(out)@ + b@.take(i as int),
        decreases b@.len() - i,
    {
        out.push(b[i]);
        i = i + 1;
        assert(b@.take(i as int) =~= b@.take(i - 1).push(b@[i - 1]));
    }
    assert(b@.take(b@.len() as int) =~= b@);
}

fn append_str(out: &mut Vec<u8>, s: &str)
    ensures
        final(out)@ == old(out)@ + encode_utf8(s@),
{
    append_bytes(out, s.as_bytes());
}

fn append_crlf(out: &mut Vec<u8>)
    ensures
        final(out)@ == old(out)@ + crlf(),
{
    out.push(13);
    out.push(10);
    assert(out@ =~= old(out)@ + crlf());
}

/// Appends the decimal digits of `n`.
pub(crate) fn append_decimal(out: &mut Vec<u8>, n: usize)
    ensures
        final(out)@ == old(out)@ + decimal(n as nat),
    decreases n,
{
    if n >= 10 {
        append_decimal(out, n / 10);
    }
    out.push((48 + n % 10) as u8);
    assert(out@ =~= old(out)@ + decimal(n as nat));
}

fn append_status_line(out: &mut Vec<u8>, status: StatusCode)
    ensures
        final(out)@ == old(out)@ + status_line(status@),
        100 <= status@ <= 999,
        reason_phrase(status@) matches Some(p) ==> p.len() > 0 && printable(p),
{
    let code = status.as_u16();
    let version: [u8; 9] = [72, 84, 84, 80, 47, 49, 46, 49, 32];
    append_bytes(out, &version);
    assert(version@ =~= version_prefix());
    out.push((48 + code / 100) as u8);
    out.push((48 + (code / 10) % 10) as u8);
    out.push((48 + code % 10) as u8);
    let ghost before_reason = out@;
    assert(before_reason =~= old(out)@ + version_prefix() + three_digits(code));
    match status.canonical_reason() {
        Some(reason) => {
            out.push(32);
            append_str(out, reason);
        },
        None => {},
    }
    append_crlf(out);
    assert(out@ =~= old(out)@ + status_line(status@));
}

fn append_header(out: &mut Vec<u8>, h: &Header)
    ensures
        final(out)@ == old(out)@ + header_line(h@),
{
    append_str(out, h.name.as_str());
    out.push(58);
    out.push(32);
    append_bytes(out, h.value.as_slice());
    append_crlf(out);
    assert(out@ =~= old(out)@ + header_line(h@));
}

/// The bytes of `resp` on the wire. The status line reads back as the status
/// code and, where the code has one, its non-empty canonical reason phrase.
pub fn encode(resp: &HttpResponse) -> (r: Vec<u8>)
    ensures
        r@ == encoding(resp@),
        reason_phrase(resp.status@) matches Some(p) ==> p.len() > 0 && parse_status_line(r@)
            == Some((resp.status@ as int, encode_utf8(p))),
{
    let mut out: Vec<u8> = Vec::new();
    append_status_line(&mut out, resp.status);
    let hs = &resp.headers;
    let ghost hv = headers_view(hs@);
    assert(hv.skip(0) =~= hv);
    let mut i: usize = 0;
    while i < hs.len()
        invariant
            i <= hs@.len(),
            hv == headers_view(hs@),
            out@ == status_line(resp.status@) + header_lines(hv.take(i as int)),
        decreases hs@.len() - i,
    {
        append_header(&mut out, &hs[i]);
        assert(hv.take(i + 1).drop_last() =~= hv.take(i as int));
        i = i + 1;
    }
    assert(hv.take(hs@.len() as int) =~= hv);
    append_crlf(&mut out);
    append_bytes(&mut out, resp.body.as_slice());
    proof {
        let rest = header_lines(hv) + crlf() + resp.body@;
        assert(out@ =~= status_line(resp.status@) + rest);
        if let Some(p) = reason_phrase(resp.status@) {
            lemma_status_line_reads_back(resp.status@, rest, p);
        }
    }
    out
}

/// The most header lines a request head may carry.
pub const MAX_HEADERS: usize = 64;

/// A request head as it was read: method, request target, headers, and how many
/// bytes of the buffer it took.
pub struct ParsedHead {
    pub method: String,
    pub target: String,
    pub headers: Vec<Header>,
    pub len: usize,
}

/// What a request head is, as values.
pub struct HeadModel {
    pub method: Seq<char>,
    pub target: Seq<char>,
    pub headers: Seq<(Seq<char>, Seq<u8>)>,
    pub len: nat,
}

impl View for ParsedHead {
    type V = HeadModel;

    open spec fn view(&self) -> HeadModel {
        HeadModel {
            method: self.method@,
            target: self.target@,
            headers: headers_view(self.headers@),
            len: self.len as nat,
        }
    }
}

/// What `httparse` reads from the start of a buffer: `None` for a malformed
/// head, `Some(None)` for one that is not complete yet, else the head.
pub uninterp spec fn parse_request_head(buf: Seq<u8>) -> Option<Option<HeadModel>>;

/// What the head reader returned, as values.
pub open spec fn head_outcome(r: Option<Option<ParsedHead>>) -> Option<Option<HeadModel>> {
    match r {
        None => None,
        Some(None) => Some(None),
        Some(Some(h)) => Some(Some(h@)),
    }
}

/// Relies on `httparse::Request::parse`, given room for `MAX_HEADERS` headers:
/// an error for a malformed request line or header block, `Partial` while they
/// are not all in the buffer, else the offset where the head ends, with the
/// method, the request target and the headers filled in.
#[verifier::external_body]
fn parse_head(buf: &[u8]) -> (r: Option<Option<ParsedHead>>)
    ensures
        head_outcome(r) == parse_request_head(buf@),
        r matches Some(Some(h)) ==> h.len <= buf@.len() && h.headers@.len() <= MAX_HEADERS,
{
    let mut headers = [httparse::EMPTY_HEADER; MAX_HEADERS];
    let mut req = httparse::Request::new(&mut headers);
    match req.parse(buf) {
        Err(_) => None,
        Ok(httparse::Status::Partial) => Some(None),
        Ok(httparse::Status::Complete(len)) => Some(Some(ParsedHead {
            method: req.method.unwrap_or_default().to_string(),
            target: req.path.unwrap_or_default().to_string(),
            headers: req.headers.iter().map(|h| Header { name: h.name.to_string(), value: h.value.to_vec() }).collect(),
            len,
        })),
    }
}

/// A decoded request: method, request target, headers, and the body that the
/// `Content-Length` header announced (empty without one).
#[derive(Clone, Debug)]
pub struct HttpRequest {
    pub method: String,
    pub target: String,
    pub headers: Vec<Header>,
    pub body: Vec<u8>,
}

/// What a decoded request is, as values.
pub struct RequestModel {
    pub method: Seq<char>,
    pub target: Seq<char>,
    pub headers: Seq<(Seq<char>, Seq<u8>)>,
    pub body: Seq<u8>,
}

impl View for HttpRequest {
    type V = RequestModel;

    open spec fn view(&self) -> RequestModel {
        RequestModel {
            method: self.method@,
            target: self.target@,
            headers: headers_view(self.headers@),
            body: self.body@,
        }
    }
}

/// The outcome of decoding a buffer.
pub enum Decoded {
    /// More bytes are needed; decode the whole buffer again once they are in.
    Incomplete,
    /// The request line or headers are malformed.
    Invalid,
    /// A whole request.
    Complete(HttpRequest),
}

/// The outcome of decoding, as values.
pub enum DecodedModel {
    Incomplete,
    Invalid,
    Complete(RequestModel),
}

impl View for Decoded {
    type V = DecodedModel;

    open spec fn view(&self) -> DecodedModel {
        match self {
            Decoded::Incomplete => DecodedModel::Incomplete,
            Decoded::Invalid => DecodedModel::Invalid,
            Decoded::Complete(r) => DecodedModel::Complete(r@),
        }
    }
}

/// `c` is the lower-case letter or sign `lower`, in either case.
pub open spec fn same_ignoring_case(c: char, lower: char) -> bool {
    c == lower || ('A' <= c <= 'Z' && c as u32 + 32 == lower as u32)
}

/// `content-length`, in lower case.
pub open spec fn content_length_name() -> Seq<char> {
    seq!['c', 'o', 'n', 't', 'e', 'n', 't', '-', 'l', 'e', 'n', 'g', 't', 'h']
}

/// `name` is `Content-Length`, in any case.
pub open spec fn is_content_length(name: Seq<char>) -> bool {
    &&& name.len() == content_length_name().len()
    &&& forall|i: int| 0 <= i < name.len() ==> same_ignoring_case(#[trigger] name[i], content_length_name()[i])
}

/// The number that the ASCII digits `v` spell.
pub open spec fn digits_value(v: Seq<u8>) -> nat
    decreases v.len(),
{
    if v.len() == 0 {
        0
    } else {
        digits_value(v.drop_last()) * 10 + (v.last() - 48) as nat
    }
}

pub open spec fn all_digits(v: Seq<u8>) -> bool {
    forall|i: int| 0 <= i < v.len() ==> is_digit(#[trigger] v[i])
}

/// A length given in decimal: one or more digits, naming a number that fits a `usize`.
pub open spec fn length_value(v: Seq<u8>) -> Option<nat> {
    if v.len() > 0 && all_digits(v) && digits_value(v) <= usize::MAX {
        Some(digits_value(v))
    } else {
        None
    }
}

/// The body length that the first `Content-Length` header announces: `None`
/// without one, `Some(None)` where its value is no length.
pub open spec fn announced_length(hs: Seq<(Seq<char>, Seq<u8>)>) -> Option<Option<nat>>
    decreases hs.len(),
{
    if hs.len() == 0 {
        None
    } else if is_content_length(hs[0].0) {
        Some(length_value(hs[0].1))
    } else {
        announced_length(hs.drop_first())
    }
}

/// What decoding `buf` gives: the head as `httparse` reads it, then a body of
/// exactly the announced length, which must be all in the buffer.
pub open spec fn decoding(buf: Seq<u8>) -> DecodedModel {
    match parse_request_head(buf) {
        None => DecodedModel::Invalid,
        Some(None) => DecodedModel::Incomplete,
        Some(Some(h)) => match announced_length(h.headers) {
            None => DecodedModel::Complete(
                RequestModel { method: h.method, target: h.target, headers: h.headers, body: Seq::empty() },
            ),
            Some(None) => DecodedModel::Invalid,
            Some(Some(n)) => if buf.len() < h.len + n {
                DecodedModel::Incomplete
            } else {
                DecodedModel::Complete(
                    RequestModel {
                        method: h.method,
                        target: h.target,
                        headers: h.headers,
                        body: buf.subrange(h.len as int, (h.len + n) as int),
                    },
                )
            },
        },
    }
}


fn names_content_length(name: &str) -> (r: bool)
    ensures
        r == is_content_length(name@),
{
    let target = "content-length";
    proof {
        reveal_strlit("content-length");
    }
    assert(target@ =~= content_length_name());
    let n = name.unicode_len();
    if n != 14 {
        return false;
    }
    let mut i: usize = 0;
    while i < 14
        invariant
            i <= 14,
            name@.len() == 14,
            target@ == content_length_name(),
            forall|j: int| 0 <= j < i ==> same_ignoring_case(#[trigger] name@[j], content_length_name()[j]),
        decreases 14 - i,
    {
        let c = name.get_char(i);
        let t = target.get_char(i);
        if !(c == t || ('A' <= c && c <= 'Z' && (c as u32) + 32 == t as u32)) {
            return false;
        }
        i = i + 1;
    }
    true
}

proof fn lemma_digits_prefix(v: Seq<u8>, k: int)
    requires
        0 <= k <= v.len(),
        all_digits(v),
    ensures
        digits_value(v.take(k)) <= digits_value(v),
    decreases v.len(),
{
    if k < v.len() {
        assert(v.drop_last().take(k) =~= v.take(k));
        lemma_digits_prefix(v.drop_last(), k);
    } else {
        assert(v.take(k) =~= v);
    }
}

/// Reads a decimal length from ASCII digits.
fn parse_length(v: &[u8]) -> (r: Option<usize>)
    ensures
        r matches Some(n) ==> length_value(v@) == Some(n as nat),
        r is None ==> length_value(v@) is None,
{
    if v.len() == 0 {
        return None;
    }
    let mut acc: usize = 0;
    let mut i: usize = 0;
    while i < v.len()
        invariant
            i <= v@.len(),
            acc == digits_value(v@.take(i as int)),
            all_digits(v@.take(i as int)),
        decreases v@.len() - i,
    {
        let d = v[i];
        assert(v@.take(i + 1).drop_last() =~= v@.take(i as int));
        if d < 48 || d > 57 {
            assert(!all_digits(v@));
            return None;
        }
        let next: u128 = acc as u128 * 10 + (d - 48) as u128;
        if next > usize::MAX as u128 {
            proof {
                if all_digits(v@) {
                    assert(v@.take(i + 1).last() == d);
                    assert(digits_value(v@.take(i + 1)) == acc * 10 + (d - 48));
                    lemma_digits_prefix(v@, i + 1);
                }
            }
            return None;
        }
        assert(v@.take(i + 1).last() == d);
        acc = next as usize;
        i = i + 1;
        assert(all_digits(v@.take(i as int))) by {
            assert forall|j: int| 0 <= j < i implies is_digit(#[trigger] v@.take(i as int)[j]) by {
                if j < i - 1 {
                    assert(v@.take(i as int)[j] == v@.take(i - 1)[j]);
                }
            }
        }
    }
    assert(v@.take(v@.len() as int) =~= v@);
    Some(acc)
}


/// The body length that the first `Content-Length` header among `hs` announces.
fn find_length(hs: &Vec<Header>) -> (r: Option<Option<usize>>)
    ensures
        r is None <==> announced_length(headers_view(hs@)) is None,
        r matches Some(None) ==> announced_length(headers_view(hs@)) == Some(None::<nat>),
        r matches Some(Some(n)) ==> announced_length(headers_view(hs@)) == Some(Some(n as nat)),
{
    let ghost hv = headers_view(hs@);
    assert(hv.skip(0) =~= hv);
    let mut i: usize = 0;
    while i < hs.len()
        invariant
            i <= hs@.len(),
            hv == headers_view(hs@),
            announced_length(hv) == announced_length(hv.skip(i as int)),
        decreases hs@.len() - i,
    {
        let h = &hs[i];
        assert(hv.skip(i as int)[0] == h@);
        assert(hv.skip(i as int).drop_first() =~= hv.skip(i + 1));
        if names_content_length(h.name.as_str()) {
            return Some(parse_length(h.value.as_slice()));
        }
        i = i + 1;
    }
    assert(hv.skip(i as int) =~= Seq::<(Seq<char>, Seq<u8>)>::empty());
    None
}

/// Decodes a request from the start of `buf`. Nothing is remembered between
/// calls: after `Incomplete`, call again on the same bytes and what followed.
pub fn decode(buf: &[u8]) -> (r: Decoded)
    ensures
        r@ == decoding(buf@),
{
    match parse_head(buf) {
        None => Decoded::Invalid,
        Some(None) => Decoded::Incomplete,
        Some(Some(head)) => {
            let ParsedHead { method, target, headers, len } = head;
            match find_length(&headers) {
                None => Decoded::Complete(HttpRequest { method, target, headers, body: Vec::new() }),
                Some(None) => Decoded::Invalid,
                Some(Some(n)) => {
                    if buf.len() - len < n {
                        Decoded::Incomplete
                    } else {
                        let end = len + n;
                        let mut body: Vec<u8> = Vec::new();
                        let mut i: usize = len;
                        while i < end
                            invariant
                                len <= i <= end <= buf@.len(),
                                end == len + n,
                                body@ == buf@.subrange(len as int, i as int),
                            decreases end - i,
                        {
                            body.push(buf[i]);
                            i = i + 1;
                            assert(body@ =~= buf@.subrange(len as int, i as int));
                        }
                        let r = Decoded::Complete(HttpRequest { method, target, headers, body });
                        assert(r@ == decoding(buf@));
                        r
                    }
                },
            }
        },
    }
}

} // verus!
