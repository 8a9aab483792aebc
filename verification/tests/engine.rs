use kvs::engine::{check_engine, has_entry};
use kvs::{Engine, KvsError, Violation};

#[test]
fn engine_names_are_read() {
    assert_eq!(Engine::from_str("kvs"), Ok(Engine::Kvs));
    assert_eq!(Engine::from_str("sled"), Ok(Engine::Sled));
}

#[test]
fn other_names_are_refused() {
    let refused = Err(KvsError::Io("Engine must be one of ('kvs', 'sled')".to_owned()));
    assert_eq!(Engine::from_str("rocks"), refused);
    assert_eq!(Engine::from_str(""), refused);
    assert_eq!(Engine::from_str("KVS"), refused);
    assert_eq!(Engine::from_str("kvs "), refused);
}

#[test]
fn engine_name_selects_the_engine() {
    assert_eq!(Engine::Kvs.name(), "kvs");
    assert_eq!(Engine::Sled.name(), "sled");
    for engine in [Engine::Kvs, Engine::Sled] {
        assert_eq!(Engine::from_str(&engine.name()), Ok(engine));
    }
}

#[test]
fn has_entry_compares_whole_names() {
    let entries = vec!["kvs.log".to_owned(), "notes".to_owned()];
    assert!(has_entry(&entries, "notes"));
    assert!(has_entry(&entries, "kvs.log"));
    assert!(!has_entry(&entries, "note"));
    assert!(!has_entry(&entries, "kvs"));
    assert!(!has_entry(&Vec::new(), "notes"));
}

#[test]
fn empty_directory_takes_either_engine() {
    assert_eq!(check_engine(Engine::Kvs, &Vec::new()), Ok(()));
    assert_eq!(check_engine(Engine::Sled, &Vec::new()), Ok(()));
}

#[test]
fn kvs_is_refused_after_sled() {
    let entries = vec!["kvs_sled".to_owned()];
    assert_eq!(check_engine(Engine::Kvs, &entries), Err(KvsError::EngineMismatch(Engine::Sled)));
    assert_eq!(check_engine(Engine::Sled, &entries), Ok(()));
}

#[test]
fn sled_is_refused_after_kvs() {
    let entries = vec!["readme".to_owned(), "kvs.log".to_owned()];
    assert_eq!(check_engine(Engine::Sled, &entries), Err(KvsError::EngineMismatch(Engine::Kvs)));
    assert_eq!(check_engine(Engine::Kvs, &entries), Ok(()));
}

#[test]
fn error_messages() {
    assert_eq!(KvsError::Io("disk full".to_owned()).message(), "disk full");
    assert_eq!(KvsError::Serde("bad record".to_owned()).message(), "bad record");
    assert_eq!(KvsError::KeyNotFound.message(), "Key not found");
    assert_eq!(
        KvsError::EngineMismatch(Engine::Sled).message(),
        "Server was previously running with SledKvsEngine"
    );
    assert_eq!(
        KvsError::EngineMismatch(Engine::Kvs).message(),
        "Server was previously running with KvStore"
    );
    assert_eq!(
        KvsError::ProtocolViolation(Violation::InvalidRequestType).message(),
        "Invalid Request Type"
    );
    assert_eq!(
        KvsError::ProtocolViolation(Violation::InvalidResponseType).message(),
        "Invalid Response Type"
    );
    assert_eq!(
        KvsError::ProtocolViolation(Violation::Truncated).message(),
        "failed to fill whole buffer"
    );
    assert_eq!(Violation::Truncated.message(), "failed to fill whole buffer");
}

#[test]
fn error_clone_is_equal() {
    for error in [
        KvsError::Io("a".to_owned()),
        KvsError::Serde("b".to_owned()),
        KvsError::KeyNotFound,
        KvsError::EngineMismatch(Engine::Kvs),
        KvsError::ProtocolViolation(Violation::Truncated),
    ] {
        assert_eq!(error.clone(), error);
    }
}
