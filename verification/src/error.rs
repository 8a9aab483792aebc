//! The failures the store reports.

use crate::engine::Engine;
use vstd::prelude::*;

verus! {

/// What a frame got wrong with respect to the wire protocol.
#[derive(Clone, Copy, Debug, PartialEq, Eq, Structural)]
pub enum Violation {
    /// The first byte is none of the request tags.
    InvalidRequestType,
    /// The first byte is none of the response tags.
    InvalidResponseType,
    /// The bytes end before the frame does.
    Truncated,
}

/// Error type of the store.
#[derive(Debug, PartialEq, Eq)]
pub enum KvsError {
    /// A file or a connection failed; the text describes the failure.
    Io(String),
    /// Bytes could not be turned into a value; the text describes why.
    Serde(String),
    /// A key that is not in the store was to be removed.
    KeyNotFound,
    /// The working directory holds the data of the given engine, which is not
    /// the engine that was asked for.
    EngineMismatch(Engine),
    /// A frame does not follow the wire protocol.
    ProtocolViolation(Violation),
}

/// A `KvsError` with its texts as sequences of characters.
pub enum KvsErrorView {
    Io(Seq<char>),
    Serde(Seq<char>),
    KeyNotFound,
    EngineMismatch(Engine),
    ProtocolViolation(Violation),
}

impl View for KvsError {
    type V = KvsErrorView;

    open spec fn view(&self) -> KvsErrorView {
        match *self {
            KvsError::Io(text) => KvsErrorView::Io(text@),
            KvsError::Serde(text) => KvsErrorView::Serde(text@),
            KvsError::KeyNotFound => KvsErrorView::KeyNotFound,
            KvsError::EngineMismatch(engine) => KvsErrorView::EngineMismatch(engine),
            KvsError::ProtocolViolation(violation) => KvsErrorView::ProtocolViolation(violation),
        }
    }
}

/// The text that describes a protocol violation.
pub open spec fn violation_text(violation: Violation) -> Seq<char> {
    match violation {
        Violation::InvalidRequestType => "Invalid Request Type"@,
        Violation::InvalidResponseType => "Invalid Response Type"@,
        Violation::Truncated => "failed to fill whole buffer"@,
    }
}

/// The text that describes an error: the carried text for `Io` and `Serde`, a
/// fixed sentence for every other error.
pub open spec fn error_text(error: KvsErrorView) -> Seq<char> {
    match error {
        KvsErrorView::Io(text) => text,
        KvsErrorView::Serde(text) => text,
        KvsErrorView::KeyNotFound => "Key not found"@,
        KvsErrorView::EngineMismatch(Engine::Kvs) => "Server was previously running with KvStore"@,
        KvsErrorView::EngineMismatch(Engine::Sled) =>
            "Server was previously running with SledKvsEngine"@,
        KvsErrorView::ProtocolViolation(violation) => violation_text(violation),
    }
}

impl Violation {
    /// The text that describes the violation.
    pub fn message(&self) -> (text: String)
        ensures
            text@ == violation_text(*self),
    {
        match self {
            Violation::InvalidRequestType => "Invalid Request Type".to_owned(),
            Violation::InvalidResponseType => "Invalid Response Type".to_owned(),
            Violation::Truncated => "failed to fill whole buffer".to_owned(),
        }
    }
}

impl KvsError {
    /// The text that describes the error, as it is shown to a user or sent to
    /// a client.
    pub fn message(&self) -> (text: String)
        ensures
            text@ == error_text(self@),
    {
        match self {
            KvsError::Io(text) => text.clone(),
            KvsError::Serde(text) => text.clone(),
            KvsError::KeyNotFound => "Key not found".to_owned(),
            KvsError::EngineMismatch(Engine::Kvs) =>
                "Server was previously running with KvStore".to_owned(),
            KvsError::EngineMismatch(Engine::Sled) =>
                "Server was previously running with SledKvsEngine".to_owned(),
            KvsError::ProtocolViolation(violation) => violation.message(),
        }
    }

}

impl Clone for KvsError {
    /// The copy has the same view.
    fn clone(&self) -> (copy: KvsError)
        ensures
            copy@ == self@,
    {
        match self {
            KvsError::Io(text) => KvsError::Io(text.clone()),
            KvsError::Serde(text) => KvsError::Serde(text.clone()),
            KvsError::KeyNotFound => KvsError::KeyNotFound,
            KvsError::EngineMismatch(engine) => KvsError::EngineMismatch(*engine),
            KvsError::ProtocolViolation(violation) => KvsError::ProtocolViolation(*violation),
        }
    }
}

} // verus!
