//! The wire protocol: one request from client to server, one response back.
//!
//! A frame is a tag byte followed by the variant's text fields. A text field
//! is its length in bytes as a 16-bit number, most significant byte first,
//! followed by the text in UTF-8. The tags of requests and of responses are
//! two separate enumerations: which one applies follows from the direction.

use crate::bytes::{
    append, be16, be16_value, lemma_be16_round_trip, string_from_utf8, u16_from_bytes,
    u16_to_bytes,
};
use crate::error::{KvsError, KvsErrorView, Violation};
use vstd::prelude::*;
use vstd::slice::{slice_subrange, slice_to_vec};
use vstd::utf8::*;

verus! {

/// Tag of a `Request::Get` frame.
pub const TAG_GET: u8 = 1;

/// Tag of a `Request::Put` frame.
pub const TAG_PUT: u8 = 2;

/// Tag of a `Request::Remove` frame.
pub const TAG_REMOVE: u8 = 3;

/// Tag of a `Response::Value` frame.
pub const TAG_VALUE: u8 = 1;

/// Tag of a `Response::Success` frame.
pub const TAG_SUCCESS: u8 = 2;

/// Tag of a `Response::Error` frame.
pub const TAG_ERROR: u8 = 3;

/// The largest number of bytes that the length of a text field can state.
pub const MAX_TEXT_BYTES: usize = 0xffff;

/// Request object (client -> server).
#[derive(Debug, PartialEq, Eq)]
pub enum Request {
    /// Fetch the value of a key.
    Get {
        /// Requested key
        key: String,
    },
    /// Set the value of a key, whether the key is new or not.
    Put {
        /// key to set
        key: String,
        /// value to set
        value: String,
    },
    /// Remove a key and its value.
    Remove {
        /// key to remove
        key: String,
    },
}

/// A `Request` with its texts as sequences of characters.
pub enum RequestView {
    Get { key: Seq<char> },
    Put { key: Seq<char>, value: Seq<char> },
    Remove { key: Seq<char> },
}

impl View for Request {
    type V = RequestView;

    open spec fn view(&self) -> RequestView {
        match *self {
            Request::Get { key } => RequestView::Get { key: key@ },
            Request::Put { key, value } => RequestView::Put { key: key@, value: value@ },
            Request::Remove { key } => RequestView::Remove { key: key@ },
        }
    }
}

/// Response object (server -> client).
#[derive(Debug, PartialEq, Eq)]
pub enum Response {
    /// The value of the requested key: the answer to a `Get` of a key that
    /// exists.
    Value(String),
    /// The request was processed and there is nothing to return: the answer to
    /// a `Put` or a `Remove`.
    Success,
    /// The key does not exist, or the request failed for the reason given.
    Error(String),
}

/// A `Response` with its texts as sequences of characters.
pub enum ResponseView {
    Value(Seq<char>),
    Success,
    Error(Seq<char>),
}

impl View for Response {
    type V = ResponseView;

    open spec fn view(&self) -> ResponseView {
        match *self {
            Response::Value(value) => ResponseView::Value(value@),
            Response::Success => ResponseView::Success,
            Response::Error(text) => ResponseView::Error(text@),
        }
    }
}

/// The tag byte of a request.
pub open spec fn request_tag(request: RequestView) -> u8 {
    match request {
        RequestView::Get { .. } => TAG_GET,
        RequestView::Put { .. } => TAG_PUT,
        RequestView::Remove { .. } => TAG_REMOVE,
    }
}

/// The tag byte of a response.
pub open spec fn response_tag(response: ResponseView) -> u8 {
    match response {
        ResponseView::Value(_) => TAG_VALUE,
        ResponseView::Success => TAG_SUCCESS,
        ResponseView::Error(_) => TAG_ERROR,
    }
}

/// A text field on the wire: the length of the text's UTF-8 form, then that
/// form. Only a text that `text_fits` has a field: the length of any other
/// text cannot be written in two bytes.
pub open spec fn encode_text(text: Seq<char>) -> Seq<u8>
    recommends
        text_fits(text),
{
    let bytes = encode_utf8(text);
    be16(bytes.len() as u16) + bytes
}

/// The frame of a request. Only a request that `request_fits` has a frame.
pub open spec fn encode_request(request: RequestView) -> Seq<u8>
    recommends
        request_fits(request),
{
    match request {
        RequestView::Get { key } => seq![TAG_GET] + encode_text(key),
        RequestView::Put { key, value } => seq![TAG_PUT] + encode_text(key) + encode_text(value),
        RequestView::Remove { key } => seq![TAG_REMOVE] + encode_text(key),
    }
}

/// The frame of a response. Only a response that `response_fits` has a
/// frame.
pub open spec fn encode_response(response: ResponseView) -> Seq<u8>
    recommends
        response_fits(response),
{
    match response {
        ResponseView::Value(value) => seq![TAG_VALUE] + encode_text(value),
        ResponseView::Success => seq![TAG_SUCCESS],
        ResponseView::Error(text) => seq![TAG_ERROR] + encode_text(text),
    }
}

/// Whether the length field of a text field can state the text's length.
pub open spec fn text_fits(text: Seq<char>) -> bool {
    encode_utf8(text).len() <= MAX_TEXT_BYTES
}

/// Whether every text of the request fits its field.
pub open spec fn request_fits(request: RequestView) -> bool {
    match request {
        RequestView::Get { key } => text_fits(key),
        RequestView::Put { key, value } => text_fits(key) && text_fits(value),
        RequestView::Remove { key } => text_fits(key),
    }
}

/// Whether every text of the response fits its field.
pub open spec fn response_fits(response: ResponseView) -> bool {
    match response {
        ResponseView::Value(value) => text_fits(value),
        ResponseView::Success => true,
        ResponseView::Error(text) => text_fits(text),
    }
}

/// What decoding makes of bytes: the value and the number of bytes that its
/// frame occupies, or the reason why there is no value.
pub type Decoded<T> = Result<(T, nat), KvsErrorView>;

/// The failure of a decoding that ran out of bytes.
pub open spec fn truncated() -> KvsErrorView {
    KvsErrorView::ProtocolViolation(Violation::Truncated)
}

/// The failure of an encoding that met a text which does not fit its field.
pub open spec fn too_long() -> KvsErrorView {
    KvsErrorView::Serde("Text too long"@)
}

/// The failure of a decoding that met text which is not UTF-8.
pub open spec fn invalid_text() -> KvsErrorView {
    KvsErrorView::Serde("Invalid utf8"@)
}

/// Decodes the text field at the start of `bytes`. The field is truncated if
/// the bytes end before its stated length; otherwise its payload has to be
/// valid UTF-8. Bytes after the field play no part.
pub open spec fn decode_text(bytes: Seq<u8>) -> Decoded<Seq<char>> {
    if bytes.len() < 2 {
        Err(truncated())
    } else {
        let length = be16_value(bytes[0], bytes[1]) as int;
        if bytes.len() < 2 + length {
            Err(truncated())
        } else if valid_utf8(bytes.subrange(2, 2 + length)) {
            Ok((decode_utf8(bytes.subrange(2, 2 + length)), (2 + length) as nat))
        } else {
            Err(invalid_text())
        }
    }
}

/// Decodes the request frame at the start of `bytes`. Bytes after the frame
/// play no part.
pub open spec fn decode_request(bytes: Seq<u8>) -> Decoded<RequestView> {
    if bytes.len() == 0 {
        Err(truncated())
    } else if bytes[0] == TAG_GET {
        match decode_text(bytes.skip(1)) {
            Ok((key, n)) => Ok((RequestView::Get { key }, 1 + n)),
            Err(e) => Err(e),
        }
    } else if bytes[0] == TAG_PUT {
        match decode_text(bytes.skip(1)) {
            Ok((key, n)) => match decode_text(bytes.skip(1 + n as int)) {
                Ok((value, m)) => Ok((RequestView::Put { key, value }, 1 + n + m)),
                Err(e) => Err(e),
            },
            Err(e) => Err(e),
        }
    } else if bytes[0] == TAG_REMOVE {
        match decode_text(bytes.skip(1)) {
            Ok((key, n)) => Ok((RequestView::Remove { key }, 1 + n)),
            Err(e) => Err(e),
        }
    } else {
        Err(KvsErrorView::ProtocolViolation(Violation::InvalidRequestType))
    }
}

/// Decodes the response frame at the start of `bytes`. Bytes after the frame
/// play no part.
pub open spec fn decode_response(bytes: Seq<u8>) -> Decoded<ResponseView> {
    if bytes.len() == 0 {
        Err(truncated())
    } else if bytes[0] == TAG_VALUE {
        match decode_text(bytes.skip(1)) {
            Ok((value, n)) => Ok((ResponseView::Value(value), 1 + n)),
            Err(e) => Err(e),
        }
    } else if bytes[0] == TAG_SUCCESS {
        Ok((ResponseView::Success, 1))
    } else if bytes[0] == TAG_ERROR {
        match decode_text(bytes.skip(1)) {
            Ok((text, n)) => Ok((ResponseView::Error(text), 1 + n)),
            Err(e) => Err(e),
        }
    } else {
        Err(KvsErrorView::ProtocolViolation(Violation::InvalidResponseType))
    }
}

/// The outcome of an executable decoding, in the terms of the model.
pub open spec fn outcome<T: View>(r: Result<(T, usize), KvsError>) -> Decoded<T::V> {
    match r {
        Ok((value, n)) => Ok((value@, n as nat)),
        Err(e) => Err(e@),
    }
}

/// From the bytes of `buf` that start at `start`, reads the length of a text
/// and then the text. Returns the text and the position behind it.
fn extract_string(buf: &[u8], start: usize) -> (r: Result<(String, usize), KvsError>)
    requires
        start <= buf@.len(),
    ensures
        match decode_text(buf@.skip(start as int)) {
            Ok((text, n)) => r matches Ok((s, next)) && s@ == text && next == start + n,
            Err(e) => r matches Err(err) && err@ == e,
        },
{
    let rest: usize = buf.len() - start;
    if rest < 2 {
        return Err(KvsError::ProtocolViolation(Violation::Truncated));
    }
    let length: usize = u16_from_bytes(slice_subrange(buf, start, start + 2)) as usize;
    if rest - 2 < length {
        return Err(KvsError::ProtocolViolation(Violation::Truncated));
    }
    let end: usize = start + 2 + length;
    let payload = slice_to_vec(slice_subrange(buf, start + 2, end));
    proof {
        let bytes = buf@.skip(start as int);
        assert(bytes.subrange(2, 2 + length) == buf@.subrange(start + 2, end as int));
    }
    match string_from_utf8(payload) {
        Some(text) => {
            proof {
                encode_utf8_decode_utf8(text@);
            }
            Ok((text, end))
        },
        None => Err(KvsError::Serde("Invalid utf8".to_owned())),
    }
}

/// How many more bytes have to arrive before the text field at the start of
/// `bytes` is complete: first the two bytes of its length, then its payload.
pub open spec fn text_need(bytes: Seq<u8>) -> nat {
    if bytes.len() < 2 {
        (2 - bytes.len()) as nat
    } else {
        let length = be16_value(bytes[0], bytes[1]) as int;
        if bytes.len() < 2 + length {
            (2 + length - bytes.len()) as nat
        } else {
            0
        }
    }
}

/// How many more bytes a reader has to fetch before it can go on decoding the
/// request that starts `bytes`: the tag, then field by field. It is 0 once
/// the frame is complete or known to be malformed.
pub open spec fn request_need(bytes: Seq<u8>) -> nat {
    if bytes.len() == 0 {
        1
    } else if bytes[0] == TAG_GET || bytes[0] == TAG_REMOVE {
        text_need(bytes.skip(1))
    } else if bytes[0] == TAG_PUT {
        match decode_text(bytes.skip(1)) {
            Ok((_, n)) => text_need(bytes.skip(1 + n as int)),
            Err(_) => text_need(bytes.skip(1)),
        }
    } else {
        0
    }
}

/// How many more bytes a reader has to fetch before it can go on decoding the
/// response that starts `bytes`. It is 0 once the frame is complete or known
/// to be malformed.
pub open spec fn response_need(bytes: Seq<u8>) -> nat {
    if bytes.len() == 0 {
        1
    } else if bytes[0] == TAG_VALUE || bytes[0] == TAG_ERROR {
        text_need(bytes.skip(1))
    } else {
        0
    }
}

/// The number of bytes still missing from the text field that starts at
/// `start`.
fn text_needed(buf: &[u8], start: usize) -> (n: usize)
    requires
        start <= buf@.len(),
    ensures
        n == text_need(buf@.skip(start as int)),
{
    let rest: usize = buf.len() - start;
    if rest < 2 {
        return 2 - rest;
    }
    let length: usize = u16_from_bytes(slice_subrange(buf, start, start + 2)) as usize;
    if rest - 2 < length {
        length - (rest - 2)
    } else {
        0
    }
}

/// Does the text fit a text field?
fn fits(text: &String) -> (b: bool)
    ensures
        b == text_fits(text@),
{
    text.as_str().as_bytes().len() <= MAX_TEXT_BYTES
}

/// Appends a text field to `data`.
fn write_string(data: &mut Vec<u8>, text: &String)
    requires
        text_fits(text@),
    ensures
        final(data)@ == old(data)@ + encode_text(text@),
{
    let bytes = text.as_str().as_bytes();
    let length: u16 = bytes.len() as u16;
    let prefix = u16_to_bytes(length);
    data.push(prefix[0]);
    data.push(prefix[1]);
    assert(data@ == old(data)@ + be16(length));
    append(data, bytes);
}

impl Request {
    /// The tag byte of the request.
    pub fn tag(&self) -> (tag: u8)
        ensures
            tag == request_tag(self@),
    {
        match self {
            Request::Get { .. } => TAG_GET,
            Request::Put { .. } => TAG_PUT,
            Request::Remove { .. } => TAG_REMOVE,
        }
    }

    /// Serialize the request to the bytes that go to the server.
    ///
    /// Fails with `Serde` exactly if one of the request's texts does not fit
    /// its field, that is if its UTF-8 form has more than `MAX_TEXT_BYTES`
    /// bytes: such a request has no frame.
    pub fn serialize(&self) -> (r: Result<Vec<u8>, KvsError>)
        ensures
            match r {
                Ok(data) => request_fits(self@) && data@ == encode_request(self@),
                Err(e) => !request_fits(self@) && e@ == too_long(),
            },
    {
        let fitting = match self {
            Request::Get { key } => fits(key),
            Request::Put { key, value } => fits(key) && fits(value),
            Request::Remove { key } => fits(key),
        };
        if !fitting {
            return Err(KvsError::Serde("Text too long".to_owned()));
        }
        let mut data: Vec<u8> = Vec::new();
        data.push(self.tag());
        match self {
            Request::Get { key } => {
                write_string(&mut data, key);
            },
            Request::Remove { key } => {
                write_string(&mut data, key);
            },
            Request::Put { key, value } => {
                write_string(&mut data, key);
                write_string(&mut data, value);
            },
        }
        Ok(data)
    }

    /// Deserialize the request at the start of `buf`, as the server receives
    /// it. Returns the request and the number of bytes that its frame
    /// occupies.
    ///
    /// Fails with `ProtocolViolation(InvalidRequestType)` on a tag that is no
    /// request tag, with `ProtocolViolation(Truncated)` where the bytes end
    /// before the frame does, and with `Serde` on text that is not UTF-8.
    pub fn deserialize(buf: &[u8]) -> (r: Result<(Request, usize), KvsError>)
        ensures
            outcome(r) == decode_request(buf@),
    {
        if buf.len() == 0 {
            return Err(KvsError::ProtocolViolation(Violation::Truncated));
        }
        let tag: u8 = buf[0];
        if tag == TAG_GET {
            let (key, next) = extract_string(buf, 1)?;
            Ok((Request::Get { key }, next))
        } else if tag == TAG_PUT {
            let (key, next) = extract_string(buf, 1)?;
            let (value, end) = extract_string(buf, next)?;
            Ok((Request::Put { key, value }, end))
        } else if tag == TAG_REMOVE {
            let (key, next) = extract_string(buf, 1)?;
            Ok((Request::Remove { key }, next))
        } else {
            Err(KvsError::ProtocolViolation(Violation::InvalidRequestType))
        }
    }

    /// The number of bytes that a reader of a connection has to fetch next,
    /// given the bytes `buf` that it has of a request so far. Once this is 0,
    /// `deserialize` tells the request or why there is none; as long as it is
    /// not, the frame is truncated.
    pub fn needed(buf: &[u8]) -> (n: usize)
        ensures
            n == request_need(buf@),
    {
        if buf.len() == 0 {
            return 1;
        }
        let tag: u8 = buf[0];
        if tag == TAG_GET || tag == TAG_REMOVE {
            text_needed(buf, 1)
        } else if tag == TAG_PUT {
            match extract_string(buf, 1) {
                Ok((_, next)) => text_needed(buf, next),
                Err(_) => text_needed(buf, 1),
            }
        } else {
            0
        }
    }
}

impl Response {
    /// The tag byte of the response.
    pub fn tag(&self) -> (tag: u8)
        ensures
            tag == response_tag(self@),
    {
        match self {
            Response::Value(_) => TAG_VALUE,
            Response::Success => TAG_SUCCESS,
            Response::Error(_) => TAG_ERROR,
        }
    }

    /// Serialize the response to the bytes that go to the client.
    ///
    /// Fails with `Serde` exactly if the response's text does not fit its
    /// field, that is if its UTF-8 form has more than `MAX_TEXT_BYTES` bytes:
    /// such a response has no frame.
    pub fn serialize(&self) -> (r: Result<Vec<u8>, KvsError>)
        ensures
            match r {
                Ok(data) => response_fits(self@) && data@ == encode_response(self@),
                Err(e) => !response_fits(self@) && e@ == too_long(),
            },
    {
        let fitting = match self {
            Response::Value(text) => fits(text),
            Response::Success => true,
            Response::Error(text) => fits(text),
        };
        if !fitting {
            return Err(KvsError::Serde("Text too long".to_owned()));
        }
        let mut data: Vec<u8> = Vec::new();
        data.push(self.tag());
        match self {
            Response::Value(text) => {
                write_string(&mut data, text);
            },
            Response::Error(text) => {
                write_string(&mut data, text);
            },
            Response::Success => {},
        }
        Ok(data)
    }

    /// Deserialize the response at the start of `buf`, as the client receives
    /// it. Returns the response and the number of bytes that its frame
    /// occupies.
    ///
    /// Fails with `ProtocolViolation(InvalidResponseType)` on a tag that is no
    /// response tag, with `ProtocolViolation(Truncated)` where the bytes end
    /// before the frame does, and with `Serde` on text that is not UTF-8.
    pub fn deserialize(buf: &[u8]) -> (r: Result<(Response, usize), KvsError>)
        ensures
            outcome(r) == decode_response(buf@),
    {
        if buf.len() == 0 {
            return Err(KvsError::ProtocolViolation(Violation::Truncated));
        }
        let tag: u8 = buf[0];
        if tag == TAG_VALUE {
            let (value, next) = extract_string(buf, 1)?;
            Ok((Response::Value(value), next))
        } else if tag == TAG_SUCCESS {
            Ok((Response::Success, 1))
        } else if tag == TAG_ERROR {
            let (text, next) = extract_string(buf, 1)?;
            Ok((Response::Error(text), next))
        } else {
            Err(KvsError::ProtocolViolation(Violation::InvalidResponseType))
        }
    }

    /// The number of bytes that a reader of a connection has to fetch next,
    /// given the bytes `buf` that it has of a response so far. Once this is
    /// 0, `deserialize` tells the response or why there is none; as long as
    /// it is not, the frame is truncated.
    pub fn needed(buf: &[u8]) -> (n: usize)
        ensures
            n == response_need(buf@),
    {
        if buf.len() == 0 {
            return 1;
        }
        let tag: u8 = buf[0];
        if tag == TAG_VALUE || tag == TAG_ERROR {
            text_needed(buf, 1)
        } else {
            0
        }
    }
}

/// A text that fits its field is decoded from its field, whatever follows the
/// field, and the decoding takes up exactly the field.
pub proof fn lemma_text_round_trip(text: Seq<char>, rest: Seq<u8>)
    requires
        text_fits(text),
    ensures
        decode_text(encode_text(text) + rest) == Ok::<(Seq<char>, nat), KvsErrorView>(
            (text, encode_text(text).len()),
        ),
{
    let payload = encode_utf8(text);
    let bytes = encode_text(text) + rest;
    lemma_be16_round_trip(payload.len() as u16);
    assert(bytes[0] == be16(payload.len() as u16)[0]);
    assert(bytes[1] == be16(payload.len() as u16)[1]);
    assert(bytes.subrange(2, 2 + payload.len() as int) == payload);
    encode_utf8_valid_utf8(text);
    encode_utf8_decode_utf8(text);
}

/// A tag byte in front of a text field, taken off again.
proof fn lemma_skip_tag(tag: u8, field: Seq<u8>, rest: Seq<u8>)
    ensures
        (seq![tag] + field + rest).skip(1) == field + rest,
        (seq![tag] + field + rest)[0] == tag,
        (seq![tag] + field + rest).len() > 0,
{
}

/// A tag byte and a first field in front of a second one, taken off again.
proof fn lemma_skip_tag_and_field(tag: u8, first: Seq<u8>, second: Seq<u8>, rest: Seq<u8>)
    ensures
        (seq![tag] + first + second + rest).skip(1) == first + (second + rest),
        (seq![tag] + first + second + rest).skip(1 + first.len() as int) == second + rest,
        (seq![tag] + first + second + rest)[0] == tag,
        (seq![tag] + first + second + rest).len() > 0,
{
}

/// Round trip of requests: a request whose texts fit their fields is decoded
/// from its frame, whatever follows the frame, and the decoding takes up
/// exactly the frame.
pub proof fn lemma_request_round_trip(request: RequestView, rest: Seq<u8>)
    requires
        request_fits(request),
    ensures
        decode_request(encode_request(request) + rest) == Ok::<(RequestView, nat), KvsErrorView>(
            (request, encode_request(request).len()),
        ),
{
    match request {
        RequestView::Get { key } => {
            lemma_text_round_trip(key, rest);
            lemma_skip_tag(TAG_GET, encode_text(key), rest);
        },
        RequestView::Put { key, value } => {
            lemma_text_round_trip(key, encode_text(value) + rest);
            lemma_text_round_trip(value, rest);
            lemma_skip_tag_and_field(TAG_PUT, encode_text(key), encode_text(value), rest);
        },
        RequestView::Remove { key } => {
            lemma_text_round_trip(key, rest);
            lemma_skip_tag(TAG_REMOVE, encode_text(key), rest);
        },
    }
}

/// Round trip of responses: a response whose text fits its field is decoded
/// from its frame, whatever follows the frame, and the decoding takes up
/// exactly the frame.
pub proof fn lemma_response_round_trip(response: ResponseView, rest: Seq<u8>)
    requires
        response_fits(response),
    ensures
        decode_response(encode_response(response) + rest) == Ok::<
            (ResponseView, nat),
            KvsErrorView,
        >((response, encode_response(response).len())),
{
    let bytes = encode_response(response) + rest;
    match response {
        ResponseView::Value(value) => {
            lemma_text_round_trip(value, rest);
            assert(bytes.skip(1) == encode_text(value) + rest);
        },
        ResponseView::Success => {},
        ResponseView::Error(text) => {
            lemma_text_round_trip(text, rest);
            assert(bytes.skip(1) == encode_text(text) + rest);
        },
    }
}

/// A reader has bytes to fetch exactly as long as the request is truncated.
pub proof fn lemma_request_need_iff_truncated(bytes: Seq<u8>)
    ensures
        request_need(bytes) > 0 <==> decode_request(bytes) == Err::<
            (RequestView, nat),
            KvsErrorView,
        >(truncated()),
{
    reveal_strlit("Invalid utf8");
}

/// A reader has bytes to fetch exactly as long as the response is truncated.
pub proof fn lemma_response_need_iff_truncated(bytes: Seq<u8>)
    ensures
        response_need(bytes) > 0 <==> decode_response(bytes) == Err::<
            (ResponseView, nat),
            KvsErrorView,
        >(truncated()),
{
}

/// While a text field that fits is incomplete, bytes are missing, and no more
/// of them than the field still has.
pub proof fn lemma_text_need_within_field(text: Seq<char>, k: int)
    requires
        text_fits(text),
        0 <= k < encode_text(text).len(),
    ensures
        0 < text_need(encode_text(text).take(k)),
        k + text_need(encode_text(text).take(k)) <= encode_text(text).len(),
        decode_text(encode_text(text).take(k)) is Err,
{
    let payload = encode_utf8(text);
    let field = encode_text(text);
    lemma_be16_round_trip(payload.len() as u16);
    if k >= 2 {
        assert(field.take(k)[0] == be16(payload.len() as u16)[0]);
        assert(field.take(k)[1] == be16(payload.len() as u16)[1]);
    }
}

/// While the frame of a request whose texts fit is incomplete, a reader is
/// told to fetch bytes, and no more of them than the frame still has: driven
/// by `request_need`, it reads the frame and not a byte more.
pub proof fn lemma_request_need_within_frame(request: RequestView, k: int)
    requires
        request_fits(request),
        0 <= k < encode_request(request).len(),
    ensures
        0 < request_need(encode_request(request).take(k)),
        k + request_need(encode_request(request).take(k)) <= encode_request(request).len(),
{
    let frame = encode_request(request);
    let prefix = frame.take(k);
    if k > 0 {
        match request {
            RequestView::Get { key } => {
                assert(prefix.skip(1) == encode_text(key).take(k - 1));
                lemma_text_need_within_field(key, k - 1);
            },
            RequestView::Remove { key } => {
                assert(prefix.skip(1) == encode_text(key).take(k - 1));
                lemma_text_need_within_field(key, k - 1);
            },
            RequestView::Put { key, value } => {
                let first = encode_text(key);
                let second = encode_text(value);
                if k - 1 < first.len() {
                    assert(prefix.skip(1) == first.take(k - 1));
                    lemma_text_need_within_field(key, k - 1);
                } else {
                    let j = k - 1 - first.len();
                    assert(prefix.skip(1) == first + second.take(j));
                    lemma_text_round_trip(key, second.take(j));
                    assert(prefix.skip(1 + first.len() as int) == second.take(j));
                    lemma_text_need_within_field(value, j);
                }
            },
        }
    }
}

/// While the frame of a response whose text fits is incomplete, a reader is
/// told to fetch bytes, and no more of them than the frame still has: driven
/// by `response_need`, it reads the frame and not a byte more.
pub proof fn lemma_response_need_within_frame(response: ResponseView, k: int)
    requires
        response_fits(response),
        0 <= k < encode_response(response).len(),
    ensures
        0 < response_need(encode_response(response).take(k)),
        k + response_need(encode_response(response).take(k)) <= encode_response(response).len(),
{
    let frame = encode_response(response);
    let prefix = frame.take(k);
    if k > 0 {
        match response {
            ResponseView::Value(value) => {
                assert(prefix.skip(1) == encode_text(value).take(k - 1));
                lemma_text_need_within_field(value, k - 1);
            },
            ResponseView::Success => {},
            ResponseView::Error(text) => {
                assert(prefix.skip(1) == encode_text(text).take(k - 1));
                lemma_text_need_within_field(text, k - 1);
            },
        }
    }
}

/// The two bytes of a number are the bytes it was read from.
proof fn lemma_be16_of_value(high: u8, low: u8)
    ensures
        be16(be16_value(high, low)) == seq![high, low],
{
}

/// A text that was decoded fits its field, and its field is the bytes that
/// the decoding took up: these bytes and no others decode to the text.
pub proof fn lemma_text_frame(bytes: Seq<u8>)
    requires
        decode_text(bytes) is Ok,
    ensures
        ({
            let (text, n) = decode_text(bytes)->Ok_0;
            &&& n <= bytes.len()
            &&& text_fits(text)
            &&& encode_text(text) == bytes.take(n as int)
        }),
{
    let (text, n) = decode_text(bytes)->Ok_0;
    let payload = bytes.subrange(2, n as int);
    decode_utf8_encode_utf8(payload);
    lemma_be16_of_value(bytes[0], bytes[1]);
    assert(encode_text(text) == bytes.take(n as int));
}

/// A request that was decoded has texts that fit their fields, and its frame
/// is the bytes that the decoding took up: decoding and encoding are each
/// other's inverse.
pub proof fn lemma_request_frame(bytes: Seq<u8>)
    requires
        decode_request(bytes) is Ok,
    ensures
        ({
            let (request, n) = decode_request(bytes)->Ok_0;
            &&& n <= bytes.len()
            &&& request_fits(request)
            &&& encode_request(request) == bytes.take(n as int)
        }),
{
    let (request, n) = decode_request(bytes)->Ok_0;
    lemma_text_frame(bytes.skip(1));
    let k: int = decode_text(bytes.skip(1))->Ok_0.1 as int;
    assert(bytes.skip(1).take(k) == bytes.subrange(1, 1 + k));
    if bytes[0] == TAG_PUT {
        lemma_text_frame(bytes.skip(1 + k));
        let v: int = decode_text(bytes.skip(1 + k))->Ok_0.1 as int;
        assert(bytes.skip(1 + k).take(v) == bytes.subrange(1 + k, 1 + k + v));
        assert(encode_request(request) == bytes.take(n as int));
    } else {
        assert(encode_request(request) == bytes.take(n as int));
    }
}

/// A response that was decoded has a text that fits its field, and its frame
/// is the bytes that the decoding took up: decoding and encoding are each
/// other's inverse.
pub proof fn lemma_response_frame(bytes: Seq<u8>)
    requires
        decode_response(bytes) is Ok,
    ensures
        ({
            let (response, n) = decode_response(bytes)->Ok_0;
            &&& n <= bytes.len()
            &&& response_fits(response)
            &&& encode_response(response) == bytes.take(n as int)
        }),
{
    let (response, n) = decode_response(bytes)->Ok_0;
    if bytes[0] == TAG_SUCCESS {
        assert(encode_response(response) == bytes.take(n as int));
    } else {
        lemma_text_frame(bytes.skip(1));
        let k: int = decode_text(bytes.skip(1))->Ok_0.1 as int;
        assert(bytes.skip(1).take(k) == bytes.subrange(1, 1 + k));
        assert(encode_response(response) == bytes.take(n as int));
    }
}

/// What follows a request's frame plays no part in its decoding.
pub proof fn lemma_request_ignores_rest(bytes: Seq<u8>, rest: Seq<u8>)
    requires
        decode_request(bytes) is Ok,
    ensures
        decode_request(bytes + rest) == decode_request(bytes),
{
    let (request, n) = decode_request(bytes)->Ok_0;
    lemma_request_frame(bytes);
    lemma_request_round_trip(request, bytes.skip(n as int) + rest);
    assert(bytes + rest == bytes.take(n as int) + (bytes.skip(n as int) + rest));
}

/// What follows a response's frame plays no part in its decoding.
pub proof fn lemma_response_ignores_rest(bytes: Seq<u8>, rest: Seq<u8>)
    requires
        decode_response(bytes) is Ok,
    ensures
        decode_response(bytes + rest) == decode_response(bytes),
{
    let (response, n) = decode_response(bytes)->Ok_0;
    lemma_response_frame(bytes);
    lemma_response_round_trip(response, bytes.skip(n as int) + rest);
    assert(bytes + rest == bytes.take(n as int) + (bytes.skip(n as int) + rest));
}

/// Fewer bytes than a text field is missing leave it short of the rest.
proof fn lemma_text_need_counts_down(bytes: Seq<u8>, more: Seq<u8>)
    requires
        more.len() < text_need(bytes),
    ensures
        text_need(bytes + more) == text_need(bytes) - more.len(),
        decode_text(bytes + more) == decode_text(bytes),
{
    if bytes.len() >= 2 {
        assert((bytes + more)[0] == bytes[0]);
        assert((bytes + more)[1] == bytes[1]);
    }
}

/// A reader that was told to fetch some number of bytes and has got fewer of
/// them is told to fetch the others: the bytes of a request may arrive in
/// pieces of any size.
pub proof fn lemma_request_need_counts_down(bytes: Seq<u8>, more: Seq<u8>)
    requires
        more.len() < request_need(bytes),
    ensures
        request_need(bytes + more) == request_need(bytes) - more.len(),
{
    if bytes.len() == 0 {
        assert(bytes + more == bytes);
    } else {
        assert((bytes + more)[0] == bytes[0]);
        assert((bytes + more).skip(1) == bytes.skip(1) + more);
        if bytes[0] == TAG_PUT {
            match decode_text(bytes.skip(1)) {
                Ok((key, n)) => {
                    lemma_text_frame(bytes.skip(1));
                    lemma_text_round_trip(key, bytes.skip(1).skip(n as int) + more);
                    assert(bytes.skip(1) + more == bytes.skip(1).take(n as int) + (bytes.skip(
                        1,
                    ).skip(n as int) + more));
                    assert((bytes + more).skip(1 + n as int) == bytes.skip(1 + n as int) + more);
                    lemma_text_need_counts_down(bytes.skip(1 + n as int), more);
                },
                Err(_) => {
                    lemma_text_need_counts_down(bytes.skip(1), more);
                },
            }
        } else {
            lemma_text_need_counts_down(bytes.skip(1), more);
        }
    }
}

/// A reader that was told to fetch some number of bytes and has got fewer of
/// them is told to fetch the others: the bytes of a response may arrive in
/// pieces of any size.
pub proof fn lemma_response_need_counts_down(bytes: Seq<u8>, more: Seq<u8>)
    requires
        more.len() < response_need(bytes),
    ensures
        response_need(bytes + more) == response_need(bytes) - more.len(),
{
    if bytes.len() == 0 {
        assert(bytes + more == bytes);
    } else {
        assert((bytes + more)[0] == bytes[0]);
        assert((bytes + more).skip(1) == bytes.skip(1) + more);
        lemma_text_need_counts_down(bytes.skip(1), more);
    }
}

} // verus!
