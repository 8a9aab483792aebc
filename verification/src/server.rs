//! The server's part in one exchange: from the bytes of a request to the
//! bytes of its response, by way of the storage engine.

use crate::engine::{done_view, found_view, KvsEngine};
use crate::error::{error_text, KvsError, KvsErrorView};
use crate::kv::{lookup, Index};
use crate::proto::{
    decode_request, encode_response, response_fits, too_long, Request, RequestView, Response,
    ResponseView,
};
use vstd::prelude::*;
use vstd::utf8::*;

verus! {

/// The outcome of handling a request, with its texts as sequences of
/// characters.
pub open spec fn reply_view(reply: Result<Response, KvsError>) -> Result<
    ResponseView,
    KvsErrorView,
> {
    match reply {
        Ok(response) => Ok(response@),
        Err(e) => Err(e@),
    }
}

/// The outcome of a `Get`, given what the engine returned: the value on a
/// hit; on a miss an `Error` response that says so, which is no failure of
/// the exchange; the engine's error where it failed.
pub open spec fn get_reply(found: Result<Option<Seq<char>>, KvsErrorView>) -> Result<
    ResponseView,
    KvsErrorView,
> {
    match found {
        Ok(Some(value)) => Ok(ResponseView::Value(value)),
        Ok(None) => Ok(ResponseView::Error(error_text(KvsErrorView::KeyNotFound))),
        Err(e) => Err(e),
    }
}

/// The outcome of a `Put`, given what the engine returned: `Success`, or the
/// engine's error where it failed.
pub open spec fn set_reply(done: Result<(), KvsErrorView>) -> Result<ResponseView, KvsErrorView> {
    match done {
        Ok(_) => Ok(ResponseView::Success),
        Err(e) => Err(e),
    }
}

/// The outcome of a `Remove`, given what the engine returned: `Success`, or
/// an `Error` response with the text of the engine's error, `KeyNotFound`
/// among them. A `Remove` never fails the exchange.
pub open spec fn remove_reply(done: Result<(), KvsErrorView>) -> Result<
    ResponseView,
    KvsErrorView,
> {
    match done {
        Ok(_) => Ok(ResponseView::Success),
        Err(e) => Ok(ResponseView::Error(error_text(e))),
    }
}

/// The response that goes to the client: the one that handling the request
/// gave, or an `Error` response with the text of the error that it failed
/// with.
pub open spec fn settled(reply: Result<ResponseView, KvsErrorView>) -> ResponseView {
    match reply {
        Ok(response) => response,
        Err(e) => ResponseView::Error(error_text(e)),
    }
}

/// Whether a response may answer a request: a value answers a `Get` only,
/// `Success` answers a `Put` or a `Remove` only, and an `Error` may answer
/// any request.
pub open spec fn answers(request: RequestView, response: ResponseView) -> bool {
    match request {
        RequestView::Get { .. } => !(response is Success),
        RequestView::Put { .. } => !(response is Value),
        RequestView::Remove { .. } => !(response is Value),
    }
}

/// What handling a request comes to on an engine that states its mapping,
/// given the mapping before and after it and the outcome.
///
/// A `Get` leaves the mapping alone, and where it succeeds the outcome is that
/// of the lookup. A `Put` that succeeds has set the key and answers
/// `Success`. A `Remove` answers `Success` only for a key that was there,
/// which it has removed. Whatever fails has left the mapping alone.
pub open spec fn handled(
    request: RequestView,
    before: Index,
    after: Index,
    reply: Result<ResponseView, KvsErrorView>,
) -> bool {
    match request {
        RequestView::Get { key } => after == before && match reply {
            Ok(_) => reply == get_reply(Ok(lookup(before, key))),
            Err(_) => true,
        },
        RequestView::Put { key, value } => match reply {
            Ok(response) => response is Success && after == before.insert(key, value),
            Err(_) => after == before,
        },
        RequestView::Remove { key } => match reply {
            Ok(ResponseView::Success) => before.contains_key(key) && after == before.remove(key),
            Ok(ResponseView::Error(_)) => after == before,
            _ => false,
        },
    }
}

/// What handling a request comes to on an engine whose storage cannot fail,
/// given the mapping before it, where the engine states one.
///
/// A `Get` and a `Put` succeed. A `Remove` answers `Success`, or an `Error`
/// that says that the key was not found, and that only for a key that was not
/// there.
pub open spec fn handled_steadily(
    request: RequestView,
    before: Option<Index>,
    reply: Result<ResponseView, KvsErrorView>,
) -> bool {
    match request {
        RequestView::Get { .. } => reply is Ok,
        RequestView::Put { .. } => reply is Ok,
        RequestView::Remove { key } => match reply {
            Ok(ResponseView::Success) => true,
            Ok(ResponseView::Error(text)) => text == error_text(KvsErrorView::KeyNotFound) && (
            before matches Some(index) ==> !index.contains_key(key)),
            _ => false,
        },
    }
}

/// The response whose frame goes to the client: the response itself if its
/// text fits a frame, and else an `Error` response that says that a text was
/// too long.
pub open spec fn sendable(response: ResponseView) -> ResponseView {
    if response_fits(response) {
        response
    } else {
        ResponseView::Error(error_text(too_long()))
    }
}

/// The outcome of a `Get`, given what the engine returned.
pub fn get_response(found: Result<Option<String>, KvsError>) -> (reply: Result<Response, KvsError>)
    ensures
        reply_view(reply) == get_reply(found_view(found)),
{
    match found {
        Ok(Some(value)) => Ok(Response::Value(value)),
        Ok(None) => Ok(Response::Error(KvsError::KeyNotFound.message())),
        Err(e) => Err(e),
    }
}

/// The outcome of a `Put`, given what the engine returned.
pub fn set_response(done: Result<(), KvsError>) -> (reply: Result<Response, KvsError>)
    ensures
        reply_view(reply) == set_reply(done_view(done)),
{
    match done {
        Ok(_) => Ok(Response::Success),
        Err(e) => Err(e),
    }
}

/// The outcome of a `Remove`, given what the engine returned.
pub fn remove_response(done: Result<(), KvsError>) -> (reply: Result<Response, KvsError>)
    ensures
        reply_view(reply) == remove_reply(done_view(done)),
{
    match done {
        Ok(_) => Ok(Response::Success),
        Err(e) => Ok(Response::Error(e.message())),
    }
}

/// Handles one request: makes the one call of the engine that the request
/// asks for, with the request's key and value, and turns what the engine
/// returns into the outcome, as `get_response`, `set_response` and
/// `remove_response` say. On an engine that states its mapping the outcome
/// and the mapping are held to `handled`, and on an engine whose storage
/// cannot fail the outcome is held to `handled_steadily`.
pub fn handle_request<E: KvsEngine>(req: Request, store: &mut E) -> (reply: Result<
    Response,
    KvsError,
>)
    ensures
        match req@ {
            RequestView::Get { .. } => exists|found: Result<Option<Seq<char>>, KvsErrorView>|
                reply_view(reply) == #[trigger] get_reply(found),
            RequestView::Put { .. } => exists|done: Result<(), KvsErrorView>|
                reply_view(reply) == #[trigger] set_reply(done),
            RequestView::Remove { .. } => exists|done: Result<(), KvsErrorView>|
                reply_view(reply) == #[trigger] remove_reply(done),
        },
        old(store).model() matches Some(before) ==> final(store).model() matches Some(after)
            && handled(req@, before, after, reply_view(reply)),
        old(store).steady() ==> final(store).steady() && handled_steadily(
            req@,
            old(store).model(),
            reply_view(reply),
        ),
{
    match req {
        Request::Get { key } => {
            let found = store.get(key);
            let ghost witness = found_view(found);
            let reply = get_response(found);
            assert(reply_view(reply) == get_reply(witness));
            reply
        },
        Request::Put { key, value } => {
            let done = store.set(key, value);
            let ghost witness = done_view(done);
            let reply = set_response(done);
            assert(reply_view(reply) == set_reply(witness));
            reply
        },
        Request::Remove { key } => {
            let done = store.remove(key);
            let ghost witness = done_view(done);
            let reply = remove_response(done);
            assert(reply_view(reply) == remove_reply(witness));
            reply
        },
    }
}

/// The response that goes to the client, given the outcome of handling the
/// request: failures are reported to the client too, as `Error` responses.
pub fn settle(reply: Result<Response, KvsError>) -> (response: Response)
    ensures
        response@ == settled(reply_view(reply)),
{
    match reply {
        Ok(response) => response,
        Err(e) => Response::Error(e.message()),
    }
}

/// An `Error` response that says that a text was too long has itself a text
/// that fits.
pub proof fn lemma_too_long_is_sendable()
    ensures
        response_fits(ResponseView::Error(error_text(too_long()))),
{
    reveal_strlit("Text too long");
    let text = "Text too long"@;
    assert(text.len() == 13);
    assert(is_ascii_chars(text));
    is_ascii_chars_encode_utf8(text);
}

/// The frame that goes to the client for a response: the response's own
/// frame, or, where the response's text does not fit a frame, the frame of an
/// `Error` response that says so.
pub fn response_frame(response: Response) -> (bytes: Vec<u8>)
    ensures
        bytes@ == encode_response(sendable(response@)),
{
    match response.serialize() {
        Ok(bytes) => bytes,
        Err(e) => {
            proof {
                lemma_too_long_is_sendable();
            }
            match Response::Error(e.message()).serialize() {
                Ok(bytes) => bytes,
                Err(_) => Vec::new(),
            }
        },
    }
}

/// Whether `bytes` may be sent in answer to a request: they are the frame of
/// the response that some outcome of handling the request settles to, as far
/// as it is `sendable`, and that response answers the request. On an engine
/// that states its mapping the outcome and the mappings before and after are
/// held to `handled`, and on an engine whose storage cannot fail the outcome
/// is held to `handled_steadily`.
pub open spec fn served(
    request: RequestView,
    before: Option<Index>,
    after: Option<Index>,
    steady: bool,
    bytes: Seq<u8>,
) -> bool {
    exists|reply: Result<ResponseView, KvsErrorView>|
        {
            &&& bytes == encode_response(sendable(#[trigger] settled(reply)))
            &&& answers(request, settled(reply))
            &&& before is Some ==> after is Some && handled(
                request,
                before->Some_0,
                after->Some_0,
                reply,
            )
            &&& steady ==> handled_steadily(request, before, reply)
        }
}

/// Serves one connection: decodes the request at the start of `frame`,
/// handles it and returns the bytes of the response. Where no request can be
/// decoded the engine is not called and there is no response: the connection
/// is to be closed in silence.
pub fn serve<E: KvsEngine>(frame: &[u8], store: &mut E) -> (sent: Option<Vec<u8>>)
    ensures
        match decode_request(frame@) {
            Ok((request, _)) => sent matches Some(bytes) && served(
                request,
                old(store).model(),
                final(store).model(),
                old(store).steady(),
                bytes@,
            ),
            Err(_) => sent is None && *final(store) == *old(store),
        },
        old(store).steady() ==> final(store).steady(),
{
    match Request::deserialize(frame) {
        Ok((request, _)) => {
            let ghost asked = request@;
            let reply = handle_request(request, store);
            let ghost outcome = reply_view(reply);
            let response = settle(reply);
            assert(answers(asked, settled(outcome)));
            Some(response_frame(response))
        },
        Err(_) => None,
    }
}

/// Idempotent get: two `Get`s of a key with nothing in between, handled by
/// an engine that states its mapping, have the same outcome where both
/// succeed.
pub proof fn lemma_get_twice(
    key: Seq<char>,
    before: Index,
    between: Index,
    after: Index,
    first: Result<ResponseView, KvsErrorView>,
    second: Result<ResponseView, KvsErrorView>,
)
    requires
        handled(RequestView::Get { key }, before, between, first),
        handled(RequestView::Get { key }, between, after, second),
        first is Ok,
        second is Ok,
    ensures
        after == before,
        second == first,
{
}

/// Overwrite: after two `Put`s of a key, handled by an engine that states
/// its mapping, a `Get` of the key answers the second value, where all three
/// succeed.
pub proof fn lemma_put_twice(
    key: Seq<char>,
    first: Seq<char>,
    second: Seq<char>,
    before: Index,
    once: Index,
    twice: Index,
    after: Index,
    first_reply: Result<ResponseView, KvsErrorView>,
    second_reply: Result<ResponseView, KvsErrorView>,
    answer: Result<ResponseView, KvsErrorView>,
)
    requires
        handled(RequestView::Put { key, value: first }, before, once, first_reply),
        handled(RequestView::Put { key, value: second }, once, twice, second_reply),
        handled(RequestView::Get { key }, twice, after, answer),
        first_reply is Ok,
        second_reply is Ok,
        answer is Ok,
    ensures
        answer == Ok::<ResponseView, KvsErrorView>(ResponseView::Value(second)),
{
}

/// Remove-miss: a `Remove` of a key that is not there, handled by an engine
/// that states its mapping, is answered with an `Error` and leaves the
/// mapping alone.
pub proof fn lemma_remove_missing(
    key: Seq<char>,
    before: Index,
    after: Index,
    reply: Result<ResponseView, KvsErrorView>,
)
    requires
        handled(RequestView::Remove { key }, before, after, reply),
        !before.contains_key(key),
    ensures
        after == before,
        reply matches Ok(response) && response is Error,
{
}

} // verus!
