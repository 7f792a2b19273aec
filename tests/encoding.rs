use udp_logger_rs::{
    body, decode_frame, encode_binary, encode_text, frame, render_kvs, Datagram, Level, LevelFilter, Record,
    UdpLogger, WireFmt,
};

fn pairs(list: &[(&str, &str)]) -> Vec<(String, String)> {
    list.iter().map(|(k, v)| (k.to_string(), v.to_string())).collect()
}

fn record(level: Level, target: &str, message: &str, kvs: &[(&str, &str)]) -> Record {
    Record {
        level,
        target: target.to_string(),
        module: "test".to_string(),
        message: message.to_string(),
        kvs: pairs(kvs),
    }
}

fn parses_as_stamp(s: &str) -> bool {
    chrono::NaiveDateTime::parse_from_str(s, "%Y-%m-%d %H:%M:%S%.3f").is_ok()
}

fn text_of(d: &Datagram) -> String {
    String::from_utf8(d.payload.clone()).unwrap()
}

const KVS: &[(&str, &str)] = &[("key1", "Value1"), ("Key2", "Value2")];

#[test]
fn render_empty_is_empty() {
    assert_eq!(render_kvs(&Vec::new()), "");
}

#[test]
fn render_keeps_order() {
    assert_eq!(render_kvs(&pairs(KVS)), " key1=Value1 Key2=Value2");
    assert_eq!(render_kvs(&pairs(&[("a", "1 2"), ("", "")])), " a=1 2 =");
}

#[test]
fn render_unordered_source_gives_same_tokens() {
    let mut map: std::collections::HashMap<String, String> = std::collections::HashMap::new();
    map.insert("key1".into(), "Value1".into());
    map.insert("Key2".into(), "Value2".into());
    map.insert("k3".into(), "v3".into());
    let mut seen: Option<Vec<String>> = None;
    for _ in 0..3 {
        let list: Vec<(String, String)> = map.iter().map(|(k, v)| (k.clone(), v.clone())).collect();
        let text = render_kvs(&list);
        let mut tokens: Vec<String> = text.split(' ').filter(|t| !t.is_empty()).map(String::from).collect();
        tokens.sort();
        if let Some(prev) = &seen {
            assert_eq!(prev, &tokens);
        }
        seen = Some(tokens);
    }
    assert_eq!(seen.unwrap(), vec!["Key2=Value2", "k3=v3", "key1=Value1"]);
}

#[test]
fn text_line_layout() {
    let line = encode_text("2021-08-09 18:41:50.336", Level::Info, "test", "hello", " a=b");
    assert_eq!(line, "2021-08-09 18:41:50.336 INFO  [test] hello a=b");
    let line = encode_text("2021-08-09 18:41:50.336", Level::Error, "x", "m", "");
    assert_eq!(line, "2021-08-09 18:41:50.336 ERROR [x] m");
    assert_eq!(&line[23..], " ERROR [x] m");
}

#[test]
fn body_layout() {
    assert_eq!(body("MyApp", "x", ""), "[MyApp] x");
    assert_eq!(body("", "", " k=v"), "[]  k=v");
}

#[test]
fn binary_frame_scenario() {
    let f = encode_binary(1_628_534_510_336, Level::Error, "MyApp", "x", "").unwrap();
    assert_eq!(f.len(), 13 + 9);
    assert_eq!(f[0], 1);
    assert_eq!(&f[1..9], &1_628_534_510_336i64.to_be_bytes());
    assert_eq!(&f[9..13], &[0, 0, 0, 9]);
    assert_eq!(&f[13..], b"[MyApp] x");
}

#[test]
fn binary_codes_per_level() {
    for (level, code) in [
        (Level::Error, 1u8),
        (Level::Warn, 2),
        (Level::Info, 3),
        (Level::Debug, 4),
        (Level::Trace, 5),
    ] {
        assert_eq!(frame(level, 0, b"")[0], code);
    }
}

#[test]
fn binary_negative_timestamp() {
    let f = frame(Level::Info, -2, b"ab");
    assert_eq!(f, vec![3, 0xff, 0xff, 0xff, 0xff, 0xff, 0xff, 0xff, 0xfe, 0, 0, 0, 2, b'a', b'b']);
}

#[test]
fn binary_round_trip() {
    for ms in [0i64, 1, -1, i64::MAX, i64::MIN, 1_700_000_000_123] {
        let text = "[cat] héllo ✓".as_bytes();
        let f = frame(Level::Debug, ms, text);
        let (code, back, t) = decode_frame(&f).unwrap();
        assert_eq!(code, 4);
        assert_eq!(back, ms);
        assert_eq!(t, text);
    }
}

#[test]
fn decode_rejects_malformed() {
    assert_eq!(decode_frame(&[]), None);
    assert_eq!(decode_frame(&[1, 0, 0, 0, 0, 0, 0, 0, 0, 0, 0, 0]), None);
    assert_eq!(decode_frame(&[1, 0, 0, 0, 0, 0, 0, 0, 0, 0, 0, 0, 2, b'a']), None);
    assert_eq!(decode_frame(&[1, 0, 0, 0, 0, 0, 0, 0, 0, 0, 0, 0, 0]), Some((1, 0, vec![])));
}

#[test]
fn plan_default_config_scenario() {
    let logger = UdpLogger::default().partial_init();
    let rec = record(Level::Info, "test", "logging Info w/ kv as Vec", KVS);
    let d = logger.plan(&rec, 0, "2021-08-09 18:41:50.336").unwrap();
    assert_eq!(d.source, "127.0.0.1:4000");
    assert_eq!(d.destination, "127.0.0.1:4010");
    let text = text_of(&d);
    let (stamp, rest) = text.split_at(23);
    assert!(parses_as_stamp(stamp));
    assert_eq!(rest, " INFO  [test] logging Info w/ kv as Vec key1=Value1 Key2=Value2");
}

#[test]
fn plan_filtered_record_is_none() {
    let logger = UdpLogger::new().with_level(LevelFilter::Warn).partial_init();
    let rec = record(Level::Info, "test", "m", &[]);
    assert!(logger.plan(&rec, 0, "2021-08-09 18:41:50.336").is_none());
}

#[test]
fn plan_empty_target_uses_module() {
    let logger = UdpLogger::new().partial_init();
    let rec = record(Level::Warn, "", "m", &[]);
    let d = logger.plan(&rec, 0, "2021-08-09 18:41:50.336").unwrap();
    assert_eq!(&text_of(&d)[23..], " WARN  [test] m");
}

#[test]
fn plan_binary_scenario() {
    let logger = UdpLogger::new().with_wire_fmt(WireFmt::ByteBuffer).partial_init();
    let rec = record(Level::Error, "MyApp", "x", &[]);
    let d = logger.plan(&rec, 42, "ignored").unwrap();
    let mut expected = vec![1u8, 0, 0, 0, 0, 0, 0, 0, 42, 0, 0, 0, 9];
    expected.extend_from_slice(b"[MyApp] x");
    assert_eq!(d.payload, expected);
}

#[test]
fn dispatch_stamps_with_current_time() {
    let logger = UdpLogger::new().partial_init();
    let rec = record(Level::Info, "test", "now", KVS);
    let d = logger.dispatch(&rec).unwrap();
    let text = text_of(&d);
    let (stamp, rest) = text.split_at(23);
    assert!(parses_as_stamp(stamp));
    assert_eq!(rest, " INFO  [test] now key1=Value1 Key2=Value2");
}

#[test]
fn dispatch_binary_carries_current_millis() {
    let logger = UdpLogger::new().with_wire_fmt(WireFmt::ByteBuffer).partial_init();
    let before = chrono::Utc::now().timestamp_millis();
    let d = logger.dispatch(&record(Level::Trace, "t", "m", &[])).unwrap();
    let after = chrono::Utc::now().timestamp_millis();
    let (code, ms, text) = decode_frame(&d.payload).unwrap();
    assert_eq!(code, 5);
    assert!(before <= ms && ms <= after);
    assert_eq!(text, b"[t] m");
}

#[test]
fn test_macro() {
    let logger = UdpLogger::default().partial_init();
    let mut kvs: std::collections::HashMap<String, String> = std::collections::HashMap::new();
    kvs.insert("key1".into(), "Value1".into());
    kvs.insert("Key2".into(), "Value2".into());
    let mut rec = record(Level::Info, "test", "logging Info w/ kv as HashMap", &[]);
    rec.kvs = kvs.iter().map(|(k, v)| (k.clone(), v.clone())).collect();
    let d = logger.dispatch(&rec).unwrap();
    let text = text_of(&d);
    let (time, ctx) = text.split_at(23);
    assert!(parses_as_stamp(time));
    assert!(
        ctx == " INFO  [test] logging Info w/ kv as HashMap key1=Value1 Key2=Value2"
            || ctx == " INFO  [test] logging Info w/ kv as HashMap Key2=Value2 key1=Value1"
    );
    let d = logger.dispatch(&record(Level::Info, "test", "logging Info w/ kv as Vec", KVS)).unwrap();
    assert_eq!(d.source, "127.0.0.1:4000");
    assert_eq!(d.destination, "127.0.0.1:4010");
    assert_eq!(&text_of(&d)[23..], " INFO  [test] logging Info w/ kv as Vec key1=Value1 Key2=Value2");
}

#[test]
fn non_default_log() {
    let logger = UdpLogger::default()
        .with_source("127.0.0.1:4040")
        .with_destination("127.0.0.1:4041")
        .partial_init();
    let cases: Vec<(Record, &str)> = vec![
        (record(Level::Error, "MyApp", "logging Error w/ target", &[]), " ERROR [MyApp] logging Error w/ target"),
        (
            record(Level::Warn, "MyApp", "parameterized logging Warn w/ target", &[]),
            " WARN  [MyApp] parameterized logging Warn w/ target",
        ),
        (record(Level::Info, "test", "logging Info w/ kv", KVS), " INFO  [test] logging Info w/ kv key1=Value1 Key2=Value2"),
        (
            record(Level::Debug, "test", "parameterized logging Debug w/ kv", KVS),
            " DEBUG [test] parameterized logging Debug w/ kv key1=Value1 Key2=Value2",
        ),
        (
            record(Level::Trace, "MyApp", "logging Trace w/ target and kv", KVS),
            " TRACE [MyApp] logging Trace w/ target and kv key1=Value1 Key2=Value2",
        ),
        (record(Level::Error, "test", "error logging", &[]), " ERROR [test] error logging"),
    ];
    for (rec, expected) in cases {
        let d = logger.dispatch(&rec).unwrap();
        assert_eq!(d.source, "127.0.0.1:4040");
        assert_eq!(d.destination, "127.0.0.1:4041");
        let text = text_of(&d);
        assert!(parses_as_stamp(&text[..23]));
        assert_eq!(&text[23..], expected);
    }
}

#[test]
fn multi_socket() {
    let logger = UdpLogger::default()
        .with_source("127.0.0.1:4060")
        .with_source_level("127.0.0.1:4070", LevelFilter::Info)
        .with_destination("127.0.0.1:4061")
        .with_destination_level("127.0.0.1:4071", LevelFilter::Info)
        .partial_init();
    let cases: Vec<(Record, &str, &str, &str)> = vec![
        (
            record(Level::Trace, "test", "trace logging w/ kv", KVS),
            "127.0.0.1:4060",
            "127.0.0.1:4061",
            " TRACE [test] trace logging w/ kv key1=Value1 Key2=Value2",
        ),
        (
            record(Level::Debug, "MyApp", "debug logging w/ target", &[]),
            "127.0.0.1:4060",
            "127.0.0.1:4061",
            " DEBUG [MyApp] debug logging w/ target",
        ),
        (
            record(Level::Info, "test", "info logging w/ kv", KVS),
            "127.0.0.1:4070",
            "127.0.0.1:4071",
            " INFO  [test] info logging w/ kv key1=Value1 Key2=Value2",
        ),
        (
            record(Level::Warn, "test", "warn parameterized logging w/ kv", KVS),
            "127.0.0.1:4070",
            "127.0.0.1:4071",
            " WARN  [test] warn parameterized logging w/ kv key1=Value1 Key2=Value2",
        ),
        (
            record(Level::Error, "MyApp", "error logging w/ target and kv", KVS),
            "127.0.0.1:4070",
            "127.0.0.1:4071",
            " ERROR [MyApp] error logging w/ target and kv key1=Value1 Key2=Value2",
        ),
    ];
    for (rec, source, destination, expected) in cases {
        let d = logger.dispatch(&rec).unwrap();
        assert_eq!(d.source, source);
        assert_eq!(d.destination, destination);
        let text = text_of(&d);
        assert!(parses_as_stamp(&text[..23]));
        assert_eq!(&text[23..], expected);
    }
}
