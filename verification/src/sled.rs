//! The engine that keeps its pairs in an embedded database.
//!
//! The database is opened, read and written on the caller's side. What the
//! engine makes of the database's answers is decided here.

use crate::bytes::string_from_utf8;
use crate::engine::{done_view, found_view, has_entry, holds_entry};
use crate::error::{KvsError, KvsErrorView};
use crate::proto::invalid_text;
use vstd::prelude::*;
use vstd::string::*;
use vstd::utf8::*;

verus! {

/// Name of the entry, in the working directory, that holds the database.
pub const SLED_DB_NAME: &'static str = "kvs_sled";

/// How the database failed.
#[derive(Debug, PartialEq, Eq)]
pub enum SledFailure {
    /// A read or a write of the file system failed; the text describes the
    /// failure.
    Io(String),
    /// The database found its file corrupted.
    Corruption,
    /// Any other failure; the text describes it.
    Other(String),
}

/// The error that a failure of the database is reported as: always an `Io`
/// error, with the text of the failed read or write, with a fixed text for a
/// corrupted file, and with the failure's text behind a prefix otherwise.
pub open spec fn failure_error(failure: SledFailure) -> KvsErrorView {
    match failure {
        SledFailure::Io(text) => KvsErrorView::Io(text@),
        SledFailure::Corruption => KvsErrorView::Io("Sled Data Corruption"@),
        SledFailure::Other(text) => KvsErrorView::Io("Sled Error: "@ + text@),
    }
}

/// What `get` returns, given the database's answer: the value as text on a
/// hit, `None` on a miss, and the database's failure where it failed. A value
/// that is not UTF-8 is no text: it is reported as a `Serde` error.
pub open spec fn sled_found(answer: Result<Option<Vec<u8>>, KvsError>) -> Result<
    Option<Seq<char>>,
    KvsErrorView,
> {
    match answer {
        Ok(Some(bytes)) => if valid_utf8(bytes@) {
            Ok(Some(decode_utf8(bytes@)))
        } else {
            Err(invalid_text())
        },
        Ok(None) => Ok(None),
        Err(e) => Err(e@),
    }
}

/// What `remove` returns, given the database's answer: success if the
/// database held a value for the key, `KeyNotFound` if it held none, and the
/// database's failure otherwise.
pub open spec fn sled_removed(answer: Result<Option<Vec<u8>>, KvsError>) -> Result<
    (),
    KvsErrorView,
> {
    match answer {
        Ok(Some(_)) => Ok(()),
        Ok(None) => Err(KvsErrorView::KeyNotFound),
        Err(e) => Err(e@),
    }
}

impl KvsError {
    /// The error that a failure of the database is reported as.
    pub fn from_sled(failure: SledFailure) -> (error: KvsError)
        ensures
            error@ == failure_error(failure),
    {
        match failure {
            SledFailure::Io(text) => KvsError::Io(text),
            SledFailure::Corruption => KvsError::Io("Sled Data Corruption".to_owned()),
            SledFailure::Other(text) => KvsError::Io(
                "Sled Error: ".to_owned().concat(text.as_str()),
            ),
        }
    }
}

/// The `SledKvsEngine` stores string key/value pairs in an embedded database
/// on disk.
#[derive(Debug)]
pub struct SledKvsEngine {
    path: String,
}

impl SledKvsEngine {
    /// Does an existing database exist in a directory with these entries?
    pub fn has_existing_files(entries: &Vec<String>) -> (found: bool)
        ensures
            found == holds_entry(entries@, SLED_DB_NAME@),
    {
        has_entry(entries, SLED_DB_NAME)
    }

    /// The engine on the database at `path`, given how the attempt to open
    /// that database went: the attempt's failure is the engine's.
    pub fn open(path: String, opened: Result<(), KvsError>) -> (r: Result<SledKvsEngine, KvsError>)
        ensures
            match opened {
                Ok(_) => r matches Ok(engine) && engine.path()@ == path@,
                Err(e) => r matches Err(error) && error@ == e@,
            },
    {
        match opened {
            Ok(_) => Ok(SledKvsEngine { path }),
            Err(e) => Err(e),
        }
    }

    /// The path of the database.
    pub closed spec fn spec_path(&self) -> &String {
        &self.path
    }

    /// The path of the database.
    #[verifier::when_used_as_spec(spec_path)]
    pub fn path(&self) -> (path: &String)
        ensures
            path == self.spec_path(),
    {
        &self.path
    }

    /// What `get` returns, given the database's answer for the key.
    pub fn get(&self, answer: Result<Option<Vec<u8>>, KvsError>) -> (r: Result<
        Option<String>,
        KvsError,
    >)
        ensures
            found_view(r) == sled_found(answer),
    {
        match answer {
            Ok(Some(bytes)) => {
                match string_from_utf8(bytes) {
                    Some(value) => {
                        proof {
                            encode_utf8_decode_utf8(value@);
                        }
                        Ok(Some(value))
                    },
                    None => Err(KvsError::Serde("Invalid utf8".to_owned())),
                }
            },
            Ok(None) => Ok(None),
            Err(e) => Err(e),
        }
    }

    /// What `remove` returns, given the database's answer to the removal of
    /// the key: the value that it held for the key, if any.
    pub fn remove(&self, answer: Result<Option<Vec<u8>>, KvsError>) -> (r: Result<(), KvsError>)
        ensures
            done_view(r) == sled_removed(answer),
    {
        match answer {
            Ok(Some(_)) => Ok(()),
            Ok(None) => Err(KvsError::KeyNotFound),
            Err(e) => Err(e),
        }
    }
}

} // verus!
