use kvs::server::{get_response, remove_response, response_frame, set_response, settle};
use kvs::{handle_request, serve};
use kvs::{Command, KvStore, KvsEngine, KvsError, Request, Response};

/// An engine on a log that is kept in memory.
struct Journaled {
    store: KvStore,
    log: Vec<Command>,
}

impl Journaled {
    fn new() -> Journaled {
        Journaled { store: KvStore::new(), log: Vec::new() }
    }
}

impl KvsEngine for Journaled {
    fn set(&mut self, key: String, value: String) -> Result<(), KvsError> {
        let command = self.store.set(key, value);
        self.log.push(command.clone());
        self.store.execute(command);
        Ok(())
    }

    fn get(&mut self, key: String) -> Result<Option<String>, KvsError> {
        self.store.get(key)
    }

    fn remove(&mut self, key: String) -> Result<(), KvsError> {
        let command = self.store.remove(key)?;
        self.log.push(command.clone());
        self.store.execute(command);
        Ok(())
    }
}

/// An engine whose storage has failed.
struct Broken;

impl KvsEngine for Broken {
    fn set(&mut self, _key: String, _value: String) -> Result<(), KvsError> {
        Err(KvsError::Io("disk full".to_owned()))
    }

    fn get(&mut self, _key: String) -> Result<Option<String>, KvsError> {
        Err(KvsError::Io("disk gone".to_owned()))
    }

    fn remove(&mut self, _key: String) -> Result<(), KvsError> {
        Err(KvsError::Io("disk full".to_owned()))
    }
}

fn get(key: &str) -> Request {
    Request::Get { key: key.to_owned() }
}

fn put(key: &str, value: &str) -> Request {
    Request::Put { key: key.to_owned(), value: value.to_owned() }
}

fn remove(key: &str) -> Request {
    Request::Remove { key: key.to_owned() }
}

fn exchange(request: Request, engine: &mut Journaled) -> Response {
    let sent = serve(&request.serialize().unwrap(), engine).unwrap();
    let (response, used) = Response::deserialize(&sent).unwrap();
    assert_eq!(used, sent.len());
    response
}

#[test]
fn get_response_of_each_outcome() {
    assert_eq!(get_response(Ok(Some("1".to_owned()))), Ok(Response::Value("1".to_owned())));
    assert_eq!(get_response(Ok(None)), Ok(Response::Error("Key not found".to_owned())));
    assert_eq!(
        get_response(Err(KvsError::Io("disk gone".to_owned()))),
        Err(KvsError::Io("disk gone".to_owned()))
    );
    assert_eq!(get_response(Err(KvsError::KeyNotFound)), Err(KvsError::KeyNotFound));
}

#[test]
fn set_response_of_each_outcome() {
    assert_eq!(set_response(Ok(())), Ok(Response::Success));
    assert_eq!(
        set_response(Err(KvsError::Io("disk full".to_owned()))),
        Err(KvsError::Io("disk full".to_owned()))
    );
}

#[test]
fn remove_response_of_each_outcome() {
    assert_eq!(remove_response(Ok(())), Ok(Response::Success));
    assert_eq!(
        remove_response(Err(KvsError::KeyNotFound)),
        Ok(Response::Error("Key not found".to_owned()))
    );
    assert_eq!(
        remove_response(Err(KvsError::Io("disk full".to_owned()))),
        Ok(Response::Error("disk full".to_owned()))
    );
}

#[test]
fn settle_turns_failures_into_error_responses() {
    assert_eq!(settle(Ok(Response::Success)), Response::Success);
    assert_eq!(settle(Ok(Response::Value("1".to_owned()))), Response::Value("1".to_owned()));
    assert_eq!(
        settle(Err(KvsError::Io("disk full".to_owned()))),
        Response::Error("disk full".to_owned())
    );
    assert_eq!(settle(Err(KvsError::KeyNotFound)), Response::Error("Key not found".to_owned()));
}

#[test]
fn handle_request_calls_the_engine() {
    let mut engine = Journaled::new();
    assert_eq!(handle_request(put("a", "1"), &mut engine), Ok(Response::Success));
    assert_eq!(engine.log, vec![Command::Put { key: "a".to_owned(), value: "1".to_owned() }]);
    assert_eq!(handle_request(get("a"), &mut engine), Ok(Response::Value("1".to_owned())));
    assert_eq!(
        handle_request(get("b"), &mut engine),
        Ok(Response::Error("Key not found".to_owned()))
    );
    assert_eq!(
        handle_request(remove("b"), &mut engine),
        Ok(Response::Error("Key not found".to_owned()))
    );
    assert_eq!(handle_request(remove("a"), &mut engine), Ok(Response::Success));
    assert_eq!(engine.log.len(), 2);
    assert_eq!(engine.log[1], Command::Remove { key: "a".to_owned() });
}

#[test]
fn handle_request_on_a_failing_engine() {
    let mut engine = Broken;
    assert_eq!(
        handle_request(get("a"), &mut engine),
        Err(KvsError::Io("disk gone".to_owned()))
    );
    assert_eq!(
        handle_request(put("a", "1"), &mut engine),
        Err(KvsError::Io("disk full".to_owned()))
    );
    assert_eq!(
        handle_request(remove("a"), &mut engine),
        Ok(Response::Error("disk full".to_owned()))
    );
}

#[test]
fn serve_reports_engine_failures_to_the_client() {
    let mut engine = Broken;
    let sent = serve(&put("a", "1").serialize().unwrap(), &mut engine).unwrap();
    assert_eq!(sent, Response::Error("disk full".to_owned()).serialize().unwrap());
    let sent = serve(&get("a").serialize().unwrap(), &mut engine).unwrap();
    assert_eq!(sent, Response::Error("disk gone".to_owned()).serialize().unwrap());
}

#[test]
fn end_to_end_scenario() {
    let mut engine = Journaled::new();
    assert_eq!(exchange(put("a", "1"), &mut engine), Response::Success);
    assert_eq!(exchange(get("a"), &mut engine), Response::Value("1".to_owned()));
    assert_eq!(exchange(remove("a"), &mut engine), Response::Success);
    assert_eq!(exchange(get("a"), &mut engine), Response::Error("Key not found".to_owned()));
}

#[test]
fn end_to_end_bytes() {
    let mut engine = Journaled::new();
    assert_eq!(serve(&[2, 0, 1, b'a', 0, 1, b'1'], &mut engine), Some(vec![2]));
    assert_eq!(serve(&[1, 0, 1, b'a'], &mut engine), Some(vec![1, 0, 1, b'1']));
    assert_eq!(serve(&[3, 0, 1, b'a'], &mut engine), Some(vec![2]));
    let mut expected = vec![3, 0, 13];
    expected.extend_from_slice(b"Key not found");
    assert_eq!(serve(&[1, 0, 1, b'a'], &mut engine), Some(expected));
}

#[test]
fn malformed_frame_gets_no_response() {
    let mut engine = Journaled::new();
    engine.set("a".to_owned(), "1".to_owned()).unwrap();
    assert_eq!(serve(&[99, 0, 1, b'a'], &mut engine), None);
    assert_eq!(serve(&[], &mut engine), None);
    assert_eq!(serve(&[3, 0, 4, b'a'], &mut engine), None);
    assert_eq!(serve(&[3, 0, 1, 0xff], &mut engine), None);
    assert_eq!(engine.log.len(), 1);
    assert_eq!(engine.get("a".to_owned()), Ok(Some("1".to_owned())));
}

#[test]
fn remove_miss_leaves_the_log() {
    let mut engine = Journaled::new();
    assert_eq!(engine.remove("a".to_owned()), Err(KvsError::KeyNotFound));
    assert!(engine.log.is_empty());
    engine.set("a".to_owned(), "1".to_owned()).unwrap();
    engine.remove("a".to_owned()).unwrap();
    assert_eq!(engine.remove("a".to_owned()), Err(KvsError::KeyNotFound));
    assert_eq!(engine.log.len(), 2);
}

#[test]
fn served_changes_survive_a_reopen() {
    let mut engine = Journaled::new();
    for request in [put("a", "1"), put("b", "2"), remove("a"), remove("c"), put("b", "3")] {
        exchange(request, &mut engine);
    }
    let records = engine.log.iter().map(|command| Ok(command.clone())).collect();
    let mut reopened = Journaled { store: KvStore::open(records).unwrap(), log: Vec::new() };
    assert_eq!(exchange(get("a"), &mut reopened), Response::Error("Key not found".to_owned()));
    assert_eq!(exchange(get("b"), &mut reopened), Response::Value("3".to_owned()));
    assert_eq!(exchange(get("c"), &mut reopened), Response::Error("Key not found".to_owned()));
}

#[test]
fn store_is_an_engine_in_memory() {
    let mut store = KvStore::new();
    assert_eq!(KvsEngine::set(&mut store, "a".to_owned(), "1".to_owned()), Ok(()));
    assert_eq!(KvsEngine::set(&mut store, "a".to_owned(), "2".to_owned()), Ok(()));
    assert_eq!(KvsEngine::get(&mut store, "a".to_owned()), Ok(Some("2".to_owned())));
    assert_eq!(KvsEngine::get(&mut store, "b".to_owned()), Ok(None));
    assert_eq!(KvsEngine::remove(&mut store, "b".to_owned()), Err(KvsError::KeyNotFound));
    assert_eq!(KvsEngine::remove(&mut store, "a".to_owned()), Ok(()));
    assert_eq!(KvsEngine::get(&mut store, "a".to_owned()), Ok(None));
    assert_eq!(KvsEngine::remove(&mut store, "a".to_owned()), Err(KvsError::KeyNotFound));
}

#[test]
fn end_to_end_scenario_on_the_store() {
    let mut store = KvStore::new();
    assert_eq!(handle_request(put("a", "1"), &mut store), Ok(Response::Success));
    assert_eq!(handle_request(get("a"), &mut store), Ok(Response::Value("1".to_owned())));
    assert_eq!(handle_request(remove("a"), &mut store), Ok(Response::Success));
    assert_eq!(
        handle_request(get("a"), &mut store),
        Ok(Response::Error("Key not found".to_owned()))
    );
    assert_eq!(serve(&[3, 0, 1, b'a'], &mut store), Some({
        let mut expected = vec![3, 0, 13];
        expected.extend_from_slice(b"Key not found");
        expected
    }));
}

/// An engine that holds one value, which is too long for a frame.
struct Oversized;

impl KvsEngine for Oversized {
    fn set(&mut self, _key: String, _value: String) -> Result<(), KvsError> {
        Ok(())
    }

    fn get(&mut self, _key: String) -> Result<Option<String>, KvsError> {
        Ok(Some("v".repeat(0x10000)))
    }

    fn remove(&mut self, _key: String) -> Result<(), KvsError> {
        Err(KvsError::Io("e".repeat(0x10000)))
    }
}

#[test]
fn response_frame_of_a_response_that_fits() {
    assert_eq!(response_frame(Response::Success), vec![2]);
    assert_eq!(response_frame(Response::Value("1".to_owned())), vec![1, 0, 1, b'1']);
    let longest = Response::Error("e".repeat(0xffff));
    assert_eq!(response_frame(Response::Error("e".repeat(0xffff))), longest.serialize().unwrap());
}

#[test]
fn response_frame_of_a_response_that_does_not_fit() {
    let mut expected = vec![3, 0, 13];
    expected.extend_from_slice(b"Text too long");
    assert_eq!(response_frame(Response::Value("v".repeat(0x10000))), expected);
    assert_eq!(response_frame(Response::Error("e".repeat(0x10000))), expected);
}

#[test]
fn serve_reports_a_response_that_does_not_fit() {
    let mut engine = Oversized;
    let expected = Response::Error("Text too long".to_owned()).serialize().unwrap();
    assert_eq!(serve(&get("a").serialize().unwrap(), &mut engine), Some(expected.clone()));
    assert_eq!(serve(&remove("a").serialize().unwrap(), &mut engine), Some(expected));
    assert_eq!(serve(&put("a", "1").serialize().unwrap(), &mut engine), Some(vec![2]));
}
