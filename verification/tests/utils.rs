//! Handles, callbacks, connection settings and the pools shared by them.
use aurorastorage::json::{parse_json, JsonNumber, JsonValue};
use aurorastorage::utils::callbacks::{closure_to_cb_ec, get_next_id, Callbacks, IdsCounter};
use aurorastorage::utils::error_code::ErrorCode as HandleErrorCode;
use aurorastorage::utils::handle_store::HandleStore;
use aurorastorage::utils::multi_pool::{
    connection_string, decimal, host, MultiPool, StorageConfig, StorageCredentials,
};
use aurorastorage::errors::error_code::ErrorCode;

fn config() -> StorageConfig {
    StorageConfig::from_json(r#"{"read_host":"reader","write_host":"writer","port":3306,"db_name":"wallet"}"#)
        .unwrap()
}

fn credentials() -> StorageCredentials {
    StorageCredentials::from_json(r#"{"user":"root","pass":"secret"}"#).unwrap()
}

#[test]
fn handles_are_issued_in_order() {
    let mut store: HandleStore<String> = HandleStore::new();
    assert!(store.get(0).is_none());
    assert!(store.can_insert());
    let a = store.insert("a".to_string());
    let b = store.insert("b".to_string());
    assert_eq!((a, b), (1, 2));
    assert_eq!(*store.get(a).unwrap(), "a");
    assert_eq!(*store.get(b).unwrap(), "b");
    assert!(store.remove(a));
    assert!(!store.remove(a));
    assert!(store.get(a).is_none());
    let c = store.insert("c".to_string());
    assert_eq!(c, 3);
    assert_eq!(*store.get(b).unwrap(), "b");
}

#[test]
fn command_handles_count_up() {
    let mut ids = IdsCounter::new();
    assert_eq!(get_next_id(&mut ids), 1);
    assert_eq!(get_next_id(&mut ids), 2);
    let mut callbacks: Callbacks<&str> = Callbacks::new();
    let h1 = closure_to_cb_ec(&mut callbacks, "first");
    let h2 = closure_to_cb_ec(&mut callbacks, "second");
    assert_eq!((h1, h2), (1, 2));
    assert_eq!(callbacks.take(h2), Some("second"));
    assert_eq!(callbacks.take(h2), None);
    assert_eq!(callbacks.take(h1), Some("first"));
}

#[test]
fn handle_error_code_values() {
    assert_eq!(HandleErrorCode::Success.value(), 0);
    assert_eq!(HandleErrorCode::InvalidStorageHandle.value(), 1);
    assert_eq!(HandleErrorCode::InvalidSearchHandle.value(), 2);
    assert_eq!(HandleErrorCode::InvalidRecordHandle.value(), 3);
}

#[test]
fn configuration_is_read_from_json() {
    let c = config();
    assert_eq!(c.read_host, "reader");
    assert_eq!(c.write_host, "writer");
    assert_eq!(c.port, 3306);
    assert_eq!(c.db_name, "wallet");
    let c = StorageConfig::from_json(r#"["r","w",1,"d"]"#).unwrap();
    assert_eq!((c.read_host.as_str(), c.port), ("r", 1));
    let bad = [
        r#"{"read_host":"r","write_host":"w","db_name":"d"}"#,
        r#"{"read_host":"r","write_host":"w","port":65536,"db_name":"d"}"#,
        r#"{"read_host":"r","write_host":"w","port":-1,"db_name":"d"}"#,
        r#"{"read_host":"r","write_host":"w","port":"80","db_name":"d"}"#,
        r#"{"read_host":1,"write_host":"w","port":80,"db_name":"d"}"#,
        "nothing",
    ];
    for text in bad.iter() {
        assert_eq!(StorageConfig::from_json(text).unwrap_err(), ErrorCode::InvalidStructure, "{}", text);
    }
}

#[test]
fn credentials_are_read_from_json() {
    let c = credentials();
    assert_eq!((c.user.as_str(), c.pass.as_str()), ("root", "secret"));
    assert_eq!(StorageCredentials::from_json(r#"{"user":"root"}"#).unwrap_err(), ErrorCode::InvalidStructure);
    assert_eq!(StorageCredentials::from_json(r#"["u","p","x"]"#).unwrap_err(), ErrorCode::InvalidStructure);
}

#[test]
fn connection_strings() {
    assert_eq!(connection_string(true, &config(), &credentials()), "root:secret@reader:3306/wallet");
    assert_eq!(connection_string(false, &config(), &credentials()), "root:secret@writer:3306/wallet");
    assert_eq!(decimal(0), "0");
    assert_eq!(decimal(7), "7");
    assert_eq!(decimal(65535), "65535");
}

#[test]
fn pools_are_shared_by_connection_string() {
    let mut pools: MultiPool<u32> = MultiPool::new();
    assert!(pools.get(true, &config(), &credentials()).is_none());
    let p = pools.insert(true, &config(), &credentials(), 1);
    assert_eq!(*p, 1);
    assert_eq!(*pools.get(true, &config(), &credentials()).unwrap(), 1);
    assert!(pools.get(false, &config(), &credentials()).is_none());
    pools.insert(false, &config(), &credentials(), 2);
    pools.insert(true, &config(), &credentials(), 3);
    assert_eq!(*pools.get(true, &config(), &credentials()).unwrap(), 3);
    assert_eq!(*pools.get(false, &config(), &credentials()).unwrap(), 2);
}

#[test]
fn json_documents() {
    match parse_json(r#"[1,-2,1.5,"s",true,null,{"k":[]}]"#).unwrap() {
        JsonValue::Array(items) => {
            assert_eq!(items.len(), 7);
            assert!(matches!(items[0], JsonValue::Number(JsonNumber::PosInt(1))));
            assert!(matches!(items[1], JsonValue::Number(JsonNumber::NegInt(-2))));
            match &items[2] {
                JsonValue::Number(JsonNumber::Float(t)) => assert_eq!(t, "1.5"),
                other => panic!("unexpected {:?}", other),
            }
            assert!(matches!(&items[3], JsonValue::String(s) if s == "s"));
            assert!(matches!(items[4], JsonValue::Bool(true)));
            assert!(matches!(items[5], JsonValue::Null));
            match &items[6] {
                JsonValue::Object(fields) => {
                    assert_eq!(fields.len(), 1);
                    assert_eq!(fields[0].0, "k");
                },
                other => panic!("unexpected {:?}", other),
            }
        },
        other => panic!("unexpected {:?}", other),
    }
    assert!(parse_json("{").is_none());
}

#[test]
fn read_only_connections_go_to_the_read_host() {
    assert_eq!(host(true, &config()), "reader");
    assert_eq!(host(false, &config()), "writer");
}

#[test]
fn a_callback_is_taken_once() {
    let mut callbacks: Callbacks<u8> = Callbacks::new();
    let a = closure_to_cb_ec(&mut callbacks, 1);
    let b = closure_to_cb_ec(&mut callbacks, 2);
    assert_eq!(callbacks.take(a), Some(1));
    assert_eq!(callbacks.take(a), None);
    assert_eq!(callbacks.take(b), Some(2));
    let c = closure_to_cb_ec(&mut callbacks, 3);
    assert_eq!(c, 3);
}
