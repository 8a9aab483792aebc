use kvs::sled::{SledFailure, SLED_DB_NAME};
use kvs::{KvsError, SledKvsEngine};

fn engine() -> SledKvsEngine {
    SledKvsEngine::open("data/kvs_sled".to_owned(), Ok(())).unwrap()
}

#[test]
fn database_marks_the_directory() {
    assert_eq!(SLED_DB_NAME, "kvs_sled");
    assert!(SledKvsEngine::has_existing_files(&vec!["kvs_sled".to_owned()]));
    assert!(!SledKvsEngine::has_existing_files(&vec!["kvs.log".to_owned(), "sled".to_owned()]));
    assert!(!SledKvsEngine::has_existing_files(&Vec::new()));
}

#[test]
fn open_keeps_the_path() {
    assert_eq!(engine().path(), "data/kvs_sled");
}

#[test]
fn open_fails_as_the_database_did() {
    let failed = SledKvsEngine::open("x".to_owned(), Err(KvsError::Io("locked".to_owned())));
    assert_eq!(failed.err(), Some(KvsError::Io("locked".to_owned())));
}

#[test]
fn sled_get_of_each_answer() {
    let engine = engine();
    assert_eq!(engine.get(Ok(Some(b"value".to_vec()))), Ok(Some("value".to_owned())));
    assert_eq!(engine.get(Ok(Some(vec![0xc3, 0xa9]))), Ok(Some("é".to_owned())));
    assert_eq!(engine.get(Ok(Some(Vec::new()))), Ok(Some(String::new())));
    assert_eq!(engine.get(Ok(None)), Ok(None));
    assert_eq!(
        engine.get(Err(KvsError::Io("locked".to_owned()))),
        Err(KvsError::Io("locked".to_owned()))
    );
}

#[test]
fn sled_get_of_a_value_that_is_no_text() {
    let engine = engine();
    let invalid = Err(KvsError::Serde("Invalid utf8".to_owned()));
    assert_eq!(engine.get(Ok(Some(vec![0xff]))), invalid);
    assert_eq!(engine.get(Ok(Some(vec![b'a', 0xc3]))), invalid);
}

#[test]
fn sled_remove_of_each_answer() {
    let engine = engine();
    assert_eq!(engine.remove(Ok(Some(b"old".to_vec()))), Ok(()));
    assert_eq!(engine.remove(Ok(None)), Err(KvsError::KeyNotFound));
    assert_eq!(
        engine.remove(Err(KvsError::Io("locked".to_owned()))),
        Err(KvsError::Io("locked".to_owned()))
    );
}

#[test]
fn database_failures_become_io_errors() {
    assert_eq!(
        KvsError::from_sled(SledFailure::Io("disk full".to_owned())),
        KvsError::Io("disk full".to_owned())
    );
    assert_eq!(
        KvsError::from_sled(SledFailure::Corruption),
        KvsError::Io("Sled Data Corruption".to_owned())
    );
    assert_eq!(
        KvsError::from_sled(SledFailure::Other("Unsupported: merge".to_owned())),
        KvsError::Io("Sled Error: Unsupported: merge".to_owned())
    );
}
