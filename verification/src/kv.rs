//! The log-structured engine: an index in memory that is the replay of a log
//! of commands.
//!
//! The log itself lives on stable storage, which is the caller's side. A
//! change of the store therefore takes two steps here. `set` and `remove`
//! decide which command the change is; the caller appends that command to the
//! log; `execute` then brings the index up to date. As long as the caller
//! keeps to this order the log is the truth at every moment: `open` on the
//! log yields the index again.

use crate::engine::{has_entry, holds_entry, KvsEngine};
use crate::error::{KvsError, KvsErrorView};
use vstd::hash_map::StringHashMap;
use vstd::prelude::*;

verus! {

/// Name of the file, in the working directory, that holds the log.
pub const LOG_NAME: &'static str = "kvs.log";

/// A change of the store, as the log records it.
#[derive(Debug, PartialEq, Eq)]
pub enum Command {
    /// Set the value of a key, whether the key is new or not.
    Put {
        /// key to set
        key: String,
        /// value to set
        value: String,
    },
    /// Remove a key and its value.
    Remove {
        /// key to remove
        key: String,
    },
}

/// A `Command` with its texts as sequences of characters.
pub enum CommandView {
    Put { key: Seq<char>, value: Seq<char> },
    Remove { key: Seq<char> },
}

impl View for Command {
    type V = CommandView;

    open spec fn view(&self) -> CommandView {
        match *self {
            Command::Put { key, value } => CommandView::Put { key: key@, value: value@ },
            Command::Remove { key } => CommandView::Remove { key: key@ },
        }
    }
}

impl Clone for Command {
    /// The copy has the same view.
    fn clone(&self) -> (copy: Command)
        ensures
            copy@ == self@,
    {
        match self {
            Command::Put { key, value } => Command::Put { key: key.clone(), value: value.clone() },
            Command::Remove { key } => Command::Remove { key: key.clone() },
        }
    }
}

/// The mapping from each key to its current value.
pub type Index = Map<Seq<char>, Seq<char>>;

/// The index after one command: `Put` inserts or overwrites, `Remove` deletes
/// the key if it is there.
pub open spec fn apply(index: Index, command: CommandView) -> Index {
    match command {
        CommandView::Put { key, value } => index.insert(key, value),
        CommandView::Remove { key } => index.remove(key),
    }
}

/// The index after a sequence of commands, applied in order.
pub open spec fn apply_all(index: Index, commands: Seq<CommandView>) -> Index
    decreases commands.len(),
{
    if commands.len() == 0 {
        index
    } else {
        apply(apply_all(index, commands.drop_last()), commands.last())
    }
}

/// The index that a log stands for: every command of the log applied in
/// order, starting from the empty index.
pub open spec fn replay(log: Seq<CommandView>) -> Index {
    apply_all(Map::empty(), log)
}

/// The command that a call of the engine appends to the log, if the call
/// succeeds on the given index: a `Put` always does and is its own command,
/// and so is a `Remove` of a key that is there. A `Remove` of a key that is
/// not there fails, and nothing is appended.
pub open spec fn planned(index: Index, call: CommandView) -> Option<CommandView> {
    match call {
        CommandView::Put { .. } => Some(call),
        CommandView::Remove { key } => if index.contains_key(key) {
            Some(call)
        } else {
            None
        },
    }
}

/// The value of a key in an index, if the key is there.
pub open spec fn lookup(index: Index, key: Seq<char>) -> Option<Seq<char>> {
    if index.contains_key(key) {
        Some(index[key])
    } else {
        None
    }
}

/// An optional text as an optional sequence of characters.
pub open spec fn text_of(text: Option<String>) -> Option<Seq<char>> {
    match text {
        Some(s) => Some(s@),
        None => None,
    }
}

/// Whether every record of a log was decoded.
pub open spec fn all_decoded(records: Seq<Result<Command, KvsError>>) -> bool {
    forall|i: int| 0 <= i < records.len() ==> (#[trigger] records[i]) is Ok
}

/// Whether record `i` is the first record of a log that was not decoded.
pub open spec fn first_failure(records: Seq<Result<Command, KvsError>>, i: int) -> bool {
    &&& 0 <= i < records.len()
    &&& records[i] is Err
    &&& all_decoded(records.take(i))
}

/// The commands that a sequence of decoded records holds, where all of them
/// were decoded.
pub open spec fn commands_of(records: Seq<Result<Command, KvsError>>) -> Seq<CommandView> {
    Seq::new(records.len(), |i: int| records[i]->Ok_0@)
}

/// The index of the log-structured engine.
pub struct KvStore {
    map: StringHashMap<String>,
    log: Ghost<Seq<CommandView>>,
}

impl KvStore {
    /// The mapping from each key to its current value.
    pub closed spec fn index(&self) -> Index {
        Map::new(|key: Seq<char>| self.map@.contains_key(key), |key: Seq<char>| self.map@[key]@)
    }

    /// The commands that the store has executed since it was empty, in order:
    /// what the log has to hold.
    pub closed spec fn log(&self) -> Seq<CommandView> {
        self.log@
    }

    /// Whether `r` is what `get` returns for a key: the key's value in the
    /// index, or `None` if the index does not hold the key.
    pub open spec fn got(&self, key: Seq<char>, r: Result<Option<String>, KvsError>) -> bool {
        r matches Ok(found) && text_of(found) == lookup(self.index(), key)
    }

    /// The store's invariant: the index is the replay of the log.
    pub open spec fn wf(&self) -> bool {
        self.index() == replay(self.log())
    }

    /// A store with an empty index, for an empty log.
    pub fn new() -> (store: KvStore)
        ensures
            store.wf(),
            store.log() == Seq::<CommandView>::empty(),
            store.index() == Map::<Seq<char>, Seq<char>>::empty(),
    {
        let store = KvStore { map: StringHashMap::new(), log: Ghost(Seq::empty()) };
        assert(store.index() =~= Map::<Seq<char>, Seq<char>>::empty());
        store
    }

    /// Does an existing log exist in a directory with these entries?
    pub fn has_existing_files(entries: &Vec<String>) -> (found: bool)
        ensures
            found == holds_entry(entries@, LOG_NAME@),
    {
        has_entry(entries, LOG_NAME)
    }

    /// Rebuilds the store from the records of its log, given in the order of
    /// the log, each one decoded or not. Every record is executed in turn. A
    /// record that could not be decoded makes the log unusable: `open` then
    /// fails with the error of the first such record.
    pub fn open(records: Vec<Result<Command, KvsError>>) -> (r: Result<KvStore, KvsError>)
        ensures
            match r {
                Ok(store) => all_decoded(records@) && store.wf() && store.log() == commands_of(
                    records@,
                ),
                Err(e) => exists|i: int| #[trigger]
                    first_failure(records@, i) && records@[i]->Err_0@ == e@,
            },
    {
        let ghost all = records@;
        let mut store = KvStore::new();
        for record in iter: records.into_iter()
            invariant
                iter.seq() == all,
                store.wf(),
                store.log() == commands_of(all.take(iter.index())),
                all_decoded(all.take(iter.index())),
        {
            match record {
                Ok(command) => {
                    store.execute(command);
                    assert(store.log() == commands_of(all.take(iter.index() + 1)));
                },
                Err(e) => {
                    assert(first_failure(all, iter.index()));
                    return Err(e);
                },
            }
        }
        assert(all.take(all.len() as int) == all);
        Ok(store)
    }

    /// Brings the index up to date with a command that the log holds by now.
    pub fn execute(&mut self, command: Command)
        ensures
            final(self).index() == apply(old(self).index(), command@),
            final(self).log() == old(self).log().push(command@),
            old(self).wf() ==> final(self).wf(),
    {
        let ghost executed = command@;
        match command {
            Command::Put { key, value } => {
                self.map.insert(key, value);
            },
            Command::Remove { key } => {
                self.map.remove(key.as_str());
            },
        }
        proof {
            self.log@ = self.log@.push(executed);
            assert(self.index() =~= apply(old(self).index(), executed));
            assert(self.log().drop_last() =~= old(self).log());
        }
    }

    /// The value of a key, or `None` if the key was never set or was removed
    /// since. This looks at the index only and never fails.
    pub fn get(&self, key: String) -> (r: Result<Option<String>, KvsError>)
        ensures
            self.got(key@, r),
    {
        match self.map.get(key.as_str()) {
            Some(value) => Ok(Some(value.clone())),
            None => Ok(None),
        }
    }

    /// The command that sets the value of a key. The caller appends it to the
    /// log and then hands it to `execute`.
    #[must_use]
    pub fn set(&self, key: String, value: String) -> (command: Command)
        ensures
            planned(self.index(), CommandView::Put { key: key@, value: value@ }) == Some(
                command@,
            ),
    {
        Command::Put { key, value }
    }

    /// The command that removes a key, or `KeyNotFound` if the index does not
    /// hold the key: then there is nothing to append to the log. Otherwise
    /// the caller appends the command to the log and then hands it to
    /// `execute`.
    pub fn remove(&self, key: String) -> (r: Result<Command, KvsError>)
        ensures
            match r {
                Ok(command) => planned(self.index(), CommandView::Remove { key: key@ }) == Some(
                    command@,
                ),
                Err(e) => planned(self.index(), CommandView::Remove { key: key@ }) is None && e@
                    == KvsErrorView::KeyNotFound,
            },
    {
        if !self.map.contains_key(key.as_str()) {
            return Err(KvsError::KeyNotFound);
        }
        Ok(Command::Remove { key })
    }
}

/// The store as an engine of its own, for a log that need not last: every
/// change is executed at once. An engine whose log has to last does not use
/// these calls. It takes the two steps of `KvStore::set` or `KvStore::remove`
/// and `KvStore::execute`, and appends to its log in between.
impl KvsEngine for KvStore {
    open spec fn model(&self) -> Option<Index> {
        Some(self.index())
    }

    open spec fn steady(&self) -> bool {
        true
    }

    /// Sets the value of a key. This never fails.
    fn set(&mut self, key: String, value: String) -> (r: Result<(), KvsError>)
        ensures
            r is Ok,
            final(self).log() == old(self).log().push(
                CommandView::Put { key: key@, value: value@ },
            ),
            old(self).wf() ==> final(self).wf(),
    {
        self.execute(Command::Put { key, value });
        Ok(())
    }

    /// The value of a key, if the key is there. This never fails.
    fn get(&mut self, key: String) -> (r: Result<Option<String>, KvsError>)
        ensures
            r is Ok,
            *final(self) == *old(self),
    {
        KvStore::get(self, key)
    }

    /// Removes a key, or fails with `KeyNotFound` if the key is not there.
    fn remove(&mut self, key: String) -> (r: Result<(), KvsError>)
        ensures
            r matches Err(e) ==> e@ == KvsErrorView::KeyNotFound && *final(self) == *old(self),
            r is Ok ==> final(self).log() == old(self).log().push(
                CommandView::Remove { key: key@ },
            ),
            old(self).wf() ==> final(self).wf(),
    {
        match KvStore::remove(self, key) {
            Ok(command) => {
                self.execute(command);
                Ok(())
            },
            Err(e) => Err(e),
        }
    }
}

/// The log after a call of the engine, given the log before it: the log
/// with the command that the call is planned as, or the log as it was where
/// the call fails.
pub open spec fn journal_step(log: Seq<CommandView>, call: CommandView) -> Seq<CommandView> {
    match planned(replay(log), call) {
        Some(command) => log.push(command),
        None => log,
    }
}

/// The log after a sequence of calls of the engine, made in order.
pub open spec fn journal(log: Seq<CommandView>, calls: Seq<CommandView>) -> Seq<CommandView>
    decreases calls.len(),
{
    if calls.len() == 0 {
        log
    } else {
        journal_step(journal(log, calls.drop_last()), calls.last())
    }
}

/// Replaying a log with one more command is applying the command to the
/// replay of the log.
pub proof fn lemma_replay_push(log: Seq<CommandView>, command: CommandView)
    ensures
        replay(log.push(command)) == apply(replay(log), command),
{
    assert(log.push(command).drop_last() == log);
}

/// Recovery: whatever calls are made on a store that was opened on a log,
/// the log as it stands afterwards replays to the index that the calls lead
/// to. Opening the store again on that log therefore yields the same index.
pub proof fn lemma_recovery(log: Seq<CommandView>, calls: Seq<CommandView>)
    ensures
        replay(journal(log, calls)) == apply_all(replay(log), calls),
    decreases calls.len(),
{
    if calls.len() > 0 {
        let before = journal(log, calls.drop_last());
        lemma_recovery(log, calls.drop_last());
        match calls.last() {
            CommandView::Put { .. } => {
                lemma_replay_push(before, calls.last());
            },
            CommandView::Remove { key } => {
                if replay(before).contains_key(key) {
                    lemma_replay_push(before, calls.last());
                } else {
                    assert(replay(before).remove(key) == replay(before));
                }
            },
        }
    }
}

/// Overwrite: after a key was set twice, its value is the second one.
pub proof fn lemma_overwrite(index: Index, key: Seq<char>, first: Seq<char>, second: Seq<char>)
    ensures
        lookup(
            apply(
                apply(index, CommandView::Put { key, value: first }),
                CommandView::Put { key, value: second },
            ),
            key,
        ) == Some(second),
{
}

/// Whether one of the commands of a log sets the key.
pub open spec fn sets_key(log: Seq<CommandView>, key: Seq<char>) -> bool {
    exists|i: int| 0 <= i < log.len() && #[trigger] log[i] is Put && log[i]->Put_key == key
}

/// A key that no command of the log sets is not in the index.
pub proof fn lemma_never_set(log: Seq<CommandView>, key: Seq<char>)
    requires
        !sets_key(log, key),
    ensures
        !replay(log).contains_key(key),
    decreases log.len(),
{
    if log.len() > 0 {
        let before = log.drop_last();
        assert forall|i: int| 0 <= i < before.len() implies !(#[trigger] before[i] is Put
            && before[i]->Put_key == key) by {
            assert(before[i] == log[i]);
        }
        lemma_never_set(before, key);
        assert(!(log[log.len() - 1] is Put && log[log.len() - 1]->Put_key == key));
    }
}

/// A key that was removed is not in the index.
pub proof fn lemma_removed(index: Index, key: Seq<char>)
    ensures
        !apply(index, CommandView::Remove { key }).contains_key(key),
{
}

/// Remove-miss: a `remove` of a key that is not there, because it was never
/// set or was removed since, plans no command, so that log and index stay as
/// they are.
pub proof fn lemma_remove_miss(log: Seq<CommandView>, key: Seq<char>)
    requires
        !replay(log).contains_key(key),
    ensures
        planned(replay(log), CommandView::Remove { key }) is None,
        journal_step(log, CommandView::Remove { key }) == log,
        apply(replay(log), CommandView::Remove { key }) == replay(log),
{
    assert(replay(log).remove(key) == replay(log));
}

/// Idempotent get: two lookups of a key in the same store give the same
/// answer.
pub proof fn lemma_get_idempotent(
    store: KvStore,
    key: Seq<char>,
    first: Result<Option<String>, KvsError>,
    second: Result<Option<String>, KvsError>,
)
    requires
        store.got(key, first),
        store.got(key, second),
    ensures
        first is Ok,
        second is Ok,
        text_of(first->Ok_0) == text_of(second->Ok_0),
{
}

} // verus!
