use omnipaxos_kv::database::{CommandResult, Database};
use omnipaxos_kv::kv::KVCommand;

fn put(db: &mut Database, key: &str, value: &str) -> CommandResult {
    db.handle_command(KVCommand::Put(key.to_string(), value.to_string()))
}

fn get(db: &mut Database, key: &str) -> CommandResult {
    db.handle_command(KVCommand::Get(key.to_string()))
}

fn cas(db: &mut Database, key: &str, expected: Option<&str>, new: &str) -> CommandResult {
    db.handle_command(KVCommand::Cas(
        key.to_string(),
        expected.map(str::to_string),
        new.to_string(),
    ))
}

fn assert_read_eq(result: CommandResult, expected: Option<&str>) {
    match result {
        CommandResult::ReadOk(v) => assert_eq!(v.as_deref(), expected),
        other => panic!("Expected ReadOk, got {:?}", std::mem::discriminant(&other)),
    }
}

#[test]
fn write_then_read_returns_written_value() {
    let mut db = Database::new();

    assert_read_eq(get(&mut db, "k1"), None);

    assert!(matches!(put(&mut db, "k1", "v1"), CommandResult::WriteOk));
    assert_read_eq(get(&mut db, "k1"), Some("v1"));

    assert!(matches!(put(&mut db, "k1", "v2"), CommandResult::WriteOk));
    assert_read_eq(get(&mut db, "k1"), Some("v2"));
}

#[test]
fn reads_always_reflect_latest_write_no_stale_data() {
    let mut db = Database::new();

    put(&mut db, "k1", "v1");
    put(&mut db, "k1", "v2");
    put(&mut db, "k1", "v3");
    assert_read_eq(get(&mut db, "k1"), Some("v3"));

    put(&mut db, "k2", "a");
    assert_read_eq(get(&mut db, "k2"), Some("a"));
    put(&mut db, "k2", "b");
    assert_read_eq(get(&mut db, "k2"), Some("b"));

    assert_read_eq(get(&mut db, "k3"), None);
}

#[test]
fn concurrent_writes_reads_reflect_total_order() {
    let mut db = Database::new();

    put(&mut db, "k1", "p0-v1");
    put(&mut db, "k1", "p1-v1");
    assert_read_eq(get(&mut db, "k1"), Some("p1-v1"));

    put(&mut db, "k1", "p1-v2");
    assert_read_eq(get(&mut db, "k1"), Some("p1-v2"));

    assert!(matches!(
        cas(&mut db, "k1", Some("p1-v2"), "p0-v2"),
        CommandResult::CasOk
    ));
    assert_read_eq(get(&mut db, "k1"), Some("p0-v2"));
}

#[test]
fn cas_exactly_once_under_contention() {
    let mut db = Database::new();

    put(&mut db, "k1", "init");

    assert!(matches!(
        cas(&mut db, "k1", Some("init"), "winner"),
        CommandResult::CasOk
    ));
    match cas(&mut db, "k1", Some("init"), "loser") {
        CommandResult::CasFailed { current } => {
            assert_eq!(current, Some("winner".to_string()));
        }
        other => panic!("Expected CasFailed, got {:?}", std::mem::discriminant(&other)),
    }

    assert_read_eq(get(&mut db, "k1"), Some("winner"));
}

#[test]
fn delete_then_read_returns_none() {
    let mut db = Database::new();
    put(&mut db, "k1", "v1");
    assert_read_eq(get(&mut db, "k1"), Some("v1"));

    db.handle_command(KVCommand::Delete("k1".to_string()));
    assert_read_eq(get(&mut db, "k1"), None);

    assert!(matches!(cas(&mut db, "k1", None, "v2"), CommandResult::CasOk));
    assert_read_eq(get(&mut db, "k1"), Some("v2"));
}

#[test]
fn cas_on_absent_key_with_expected_value_fails() {
    let mut db = Database::new();
    match cas(&mut db, "k9", Some("x"), "y") {
        CommandResult::CasFailed { current } => assert_eq!(current, None),
        other => panic!("Expected CasFailed, got {:?}", std::mem::discriminant(&other)),
    }
    assert_read_eq(get(&mut db, "k9"), None);
}

#[test]
fn writes_to_one_key_leave_others_alone() {
    let mut db = Database::new();
    put(&mut db, "a", "1");
    put(&mut db, "b", "2");
    db.handle_command(KVCommand::Delete("a".to_string()));
    assert_read_eq(get(&mut db, "a"), None);
    assert_read_eq(get(&mut db, "b"), Some("2"));
    assert!(matches!(cas(&mut db, "b", Some("2"), "3"), CommandResult::CasOk));
    put(&mut db, "c", "4");
    assert_read_eq(get(&mut db, "b"), Some("3"));
    assert_read_eq(get(&mut db, "c"), Some("4"));
}

#[test]
fn delete_of_absent_key_is_a_write() {
    let mut db = Database::new();
    assert!(matches!(
        db.handle_command(KVCommand::Delete("none".to_string())),
        CommandResult::WriteOk
    ));
    assert_read_eq(get(&mut db, "none"), None);
}
