//! The choice of storage engine and the interface every engine offers.

use crate::error::{KvsError, KvsErrorView};
use crate::kv::{lookup, text_of, Index, KvStore, LOG_NAME};
use crate::sled::{SledKvsEngine, SLED_DB_NAME};
use vstd::prelude::*;

verus! {

/// The storage engines a server can run on.
#[derive(Clone, Copy, Debug, PartialEq, Eq, Structural)]
pub enum Engine {
    /// The log-structured engine of this crate.
    Kvs,
    /// The engine backed by an embedded database.
    Sled,
}

/// The name under which an engine is selected.
pub open spec fn engine_name(engine: Engine) -> Seq<char> {
    match engine {
        Engine::Kvs => "kvs"@,
        Engine::Sled => "sled"@,
    }
}

/// The engine that a name selects, if it selects one.
pub open spec fn engine_named(name: Seq<char>) -> Option<Engine> {
    if name == "kvs"@ {
        Some(Engine::Kvs)
    } else if name == "sled"@ {
        Some(Engine::Sled)
    } else {
        None
    }
}

/// Every engine is selected by its own name.
pub proof fn lemma_engine_name_selects(engine: Engine)
    ensures
        engine_named(engine_name(engine)) == Some(engine),
{
    reveal_strlit("kvs");
    reveal_strlit("sled");
    assert("kvs"@.len() == 3 && "sled"@.len() == 4);
}

impl Engine {
    /// The name under which the engine is selected.
    pub fn name(&self) -> (name: String)
        ensures
            name@ == engine_name(*self),
    {
        match self {
            Engine::Kvs => "kvs".to_owned(),
            Engine::Sled => "sled".to_owned(),
        }
    }

    /// Reads an engine's name. Any text but the two names is refused with an
    /// `Io` error that lists the names.
    pub fn from_str(s: &str) -> (r: Result<Engine, KvsError>)
        ensures
            match engine_named(s@) {
                Some(engine) => r == Ok::<Engine, KvsError>(engine),
                None => r matches Err(e) && e@ == KvsErrorView::Io(
                    "Engine must be one of ('kvs', 'sled')"@,
                ),
            },
    {
        let name = s.to_owned();
        if name == "kvs".to_owned() {
            Ok(Engine::Kvs)
        } else if name == "sled".to_owned() {
            Ok(Engine::Sled)
        } else {
            Err(KvsError::Io("Engine must be one of ('kvs', 'sled')".to_owned()))
        }
    }
}

/// Trait for storage engines: what a server needs of the store behind it.
///
/// An engine serves a mapping from keys to values. An engine that is verified
/// says in `model` what that mapping is, and its calls are then held to it: a
/// call that succeeds has done to the mapping what its name says, a call that
/// fails has left the mapping alone, and `remove` succeeds on no key that is
/// not there. Whether a call succeeds is the engine's business where its
/// storage can fail. An engine whose storage cannot fail says so in `steady`:
/// its `set` and `get` then always succeed, and its `remove` fails with
/// `KeyNotFound` only, and only on a key that is not there. An engine that is
/// written outside of verified code keeps the `model` and the `steady` that
/// are given here, which claim nothing.
pub trait KvsEngine {
    /// The mapping from each key to its current value, where the engine
    /// states one.
    open spec fn model(&self) -> Option<Index> {
        None
    }

    /// Whether the engine's storage cannot fail.
    open spec fn steady(&self) -> bool {
        false
    }

    /// Set a key/value (insert if new, update if existing)
    fn set(&mut self, key: String, value: String) -> (r: Result<(), KvsError>)
        ensures
            old(self).model() matches Some(before) ==> final(self).model() == Some(
                if r is Ok {
                    before.insert(key@, value@)
                } else {
                    before
                },
            ),
            old(self).steady() ==> r is Ok && final(self).steady(),
    ;

    /// Get a key/value (if it exists)
    fn get(&mut self, key: String) -> (r: Result<Option<String>, KvsError>)
        ensures
            old(self).model() matches Some(before) ==> final(self).model() == Some(before) && (
            r matches Ok(found) ==> text_of(found) == lookup(before, key@)),
            old(self).steady() ==> r is Ok && final(self).steady(),
    ;

    /// Remove a key/value (if it exists)
    fn remove(&mut self, key: String) -> (r: Result<(), KvsError>)
        ensures
            old(self).model() matches Some(before) ==> final(self).model() == Some(
                if r is Ok {
                    before.remove(key@)
                } else {
                    before
                },
            ) && (r is Ok ==> before.contains_key(key@)) && (r matches Err(e) && e@
                == KvsErrorView::KeyNotFound ==> !before.contains_key(key@)),
            old(self).steady() ==> final(self).steady() && (r matches Err(e) ==> e@
                == KvsErrorView::KeyNotFound),
    ;
}

/// What an engine's `get` returned, with its texts as sequences of
/// characters.
pub open spec fn found_view(found: Result<Option<String>, KvsError>) -> Result<
    Option<Seq<char>>,
    KvsErrorView,
> {
    match found {
        Ok(Some(value)) => Ok(Some(value@)),
        Ok(None) => Ok(None),
        Err(e) => Err(e@),
    }
}

/// What an engine's `set` or `remove` returned, with its texts as sequences
/// of characters.
pub open spec fn done_view(done: Result<(), KvsError>) -> Result<(), KvsErrorView> {
    match done {
        Ok(_) => Ok(()),
        Err(e) => Err(e@),
    }
}

/// Whether one of the entries of a directory is named `name`.
pub open spec fn holds_entry(entries: Seq<String>, name: Seq<char>) -> bool {
    exists|i: int| 0 <= i < entries.len() && #[trigger] entries[i]@ == name
}

/// Is one of the entries of a directory named `name`?
pub fn has_entry(entries: &Vec<String>, name: &str) -> (found: bool)
    ensures
        found == holds_entry(entries@, name@),
{
    let wanted = name.to_owned();
    let mut i: usize = 0;
    while i < entries.len()
        invariant
            i <= entries@.len(),
            wanted@ == name@,
            forall|j: int| 0 <= j < i ==> #[trigger] entries@[j]@ != name@,
        decreases entries@.len() - i,
    {
        if entries[i] == wanted {
            return true;
        }
        i = i + 1;
    }
    false
}

/// The name of the entry that an engine leaves in its working directory.
pub open spec fn engine_footprint(engine: Engine) -> Seq<char> {
    match engine {
        Engine::Kvs => LOG_NAME@,
        Engine::Sled => SLED_DB_NAME@,
    }
}

/// The other engine.
pub open spec fn other_engine(engine: Engine) -> Engine {
    match engine {
        Engine::Kvs => Engine::Sled,
        Engine::Sled => Engine::Kvs,
    }
}

/// Guards a working directory against a change of engine: the two engines
/// lay out their data differently, so a server must not start with one of
/// them where the other has left its data. Given the names of the
/// directory's entries, the chosen engine is refused with `EngineMismatch`
/// exactly if the other engine's footprint is among them.
pub fn check_engine(engine: Engine, entries: &Vec<String>) -> (r: Result<(), KvsError>)
    ensures
        match r {
            Ok(_) => !holds_entry(entries@, engine_footprint(other_engine(engine))),
            Err(e) => holds_entry(entries@, engine_footprint(other_engine(engine))) && e@
                == KvsErrorView::EngineMismatch(other_engine(engine)),
        },
{
    match engine {
        Engine::Kvs => {
            if SledKvsEngine::has_existing_files(entries) {
                return Err(KvsError::EngineMismatch(Engine::Sled));
            }
        },
        Engine::Sled => {
            if KvStore::has_existing_files(entries) {
                return Err(KvsError::EngineMismatch(Engine::Kvs));
            }
        },
    }
    Ok(())
}

} // verus!
