use omnipaxos_kv::history::{edn_str, EventType, FunctionType, History, HistoryEvent};

fn make_event(
    process: usize,
    event_type: EventType,
    function: FunctionType,
    key: &str,
    value: Option<&str>,
    expected: Option<&str>,
) -> HistoryEvent {
    HistoryEvent {
        process,
        event_type,
        function,
        key: key.to_string(),
        value: value.map(str::to_string),
        expected: expected.map(str::to_string),
    }
}

#[test]
fn record_and_len() {
    let mut h = History::new();
    assert_eq!(h.len(), 0);
    h.record(make_event(0, EventType::Invoke, FunctionType::Write, "k1", Some("v0"), None));
    h.record(make_event(0, EventType::Success, FunctionType::Write, "k1", Some("v0"), None));
    h.record(make_event(1, EventType::Invoke, FunctionType::Read, "k1", None, None));
    h.record(make_event(1, EventType::Success, FunctionType::Read, "k1", Some("v0"), None));
    assert_eq!(h.len(), 4);
}

#[test]
fn type_counts_correct() {
    let mut h = History::new();
    h.record(make_event(0, EventType::Invoke, FunctionType::Write, "k1", Some("v0"), None));
    h.record(make_event(0, EventType::Success, FunctionType::Write, "k1", Some("v0"), None));
    h.record(make_event(1, EventType::Invoke, FunctionType::Read, "k1", None, None));
    h.record(make_event(1, EventType::Success, FunctionType::Read, "k1", Some("v0"), None));

    let (invokes, oks, fails, infos) = h.type_counts();
    assert_eq!(invokes, 2);
    assert_eq!(oks, 2);
    assert_eq!(fails, 0);
    assert_eq!(infos, 0);
}

#[test]
fn write_edn_format() {
    let mut h = History::new();
    h.record(make_event(0, EventType::Invoke, FunctionType::Write, "k1", Some("v0"), None));
    h.record(make_event(0, EventType::Success, FunctionType::Write, "k1", Some("v0"), None));
    h.record(make_event(1, EventType::Invoke, FunctionType::Read, "k1", None, None));
    h.record(make_event(1, EventType::Success, FunctionType::Read, "k1", Some("v0"), None));

    let contents = h.to_edn();

    assert!(contents.starts_with('['), "should start with [");
    assert!(contents.trim_end().ends_with(']'), "should end with ]");

    let lines: Vec<&str> = contents
        .lines()
        .filter(|l| l.trim_start().starts_with('{'))
        .collect();
    assert_eq!(lines.len(), 4, "expected 4 event lines, got {}", lines.len());

    assert!(lines[0].contains(":type :invoke"), "line 0 should be :invoke");
    assert!(lines[0].contains(":f :write"), "line 0 should be :write");
    assert!(lines[0].contains(r#""k1""#), "line 0 should contain key k1");
    assert!(lines[0].contains(r#""v0""#), "line 0 should contain value v0");

    assert!(lines[1].contains(":type :ok"), "line 1 should be :ok");
    assert!(lines[1].contains(":f :write"), "line 1 should be :write");

    assert!(lines[2].contains(":type :invoke"), "line 2 should be :invoke");
    assert!(lines[2].contains(":f :read"), "line 2 should be :read");
    assert!(lines[2].contains("nil"), "line 2 invoke read value should be nil");

    assert!(lines[3].contains(":type :ok"), "line 3 should be :ok");
    assert!(lines[3].contains(":f :read"), "line 3 should be :read");
    assert!(lines[3].contains(r#""v0""#), "line 3 ok read should echo server value");
}

#[test]
fn edn_document_is_exact() {
    let mut h = History::new();
    h.record(make_event(12, EventType::Invoke, FunctionType::Cas, "k3", Some("v7"), Some("v2")));
    h.record(make_event(12, EventType::Info, FunctionType::Cas, "k3", Some("v7"), None));
    h.record(make_event(0, EventType::Fail, FunctionType::Write, "k0", Some("v1"), None));
    assert_eq!(
        h.to_edn(),
        "[\n {:process 12 :type :invoke :f :cas :value [\"k3\" \"v2\" \"v7\"]}\n {:process 12 :type :info :f :cas :value [\"k3\" nil \"v7\"]}\n {:process 0 :type :fail :f :write :value [\"k0\" \"v1\"]}\n]\n"
    );
    assert_eq!(History::new().to_edn(), "[\n]\n");
}

#[test]
fn edn_str_quotes_or_nil() {
    assert_eq!(edn_str(Some("abc")), "\"abc\"");
    assert_eq!(edn_str(Some("")), "\"\"");
    assert_eq!(edn_str(None), "nil");
}

#[test]
fn type_counts_cover_every_type() {
    let mut h = History::new();
    h.record(make_event(0, EventType::Invoke, FunctionType::Cas, "k", Some("v"), None));
    h.record(make_event(0, EventType::Fail, FunctionType::Cas, "k", Some("v"), None));
    h.record(make_event(1, EventType::Invoke, FunctionType::Read, "k", None, None));
    h.record(make_event(1, EventType::Info, FunctionType::Read, "k", None, None));
    h.record(make_event(2, EventType::Info, FunctionType::Write, "k", Some("w"), None));
    let (i, o, f, n) = h.type_counts();
    assert_eq!((i, o, f, n), (2, 0, 1, 2));
    assert_eq!(i + o + f + n, h.len());
}
