use datadog_tracing::codec::{DatadogId, SpanId, TraceId};
use datadog_tracing::formatter::{
    fallback_line, fields_json, lookup_trace_info, quote, quoted, render_line, value_json,
    write_object, DatadogFormatter, Field, FieldValue, FormatError, Level, LogEvent, Member,
    TraceInfo,
};
use datadog_tracing::propagator::SpanContext;
use datadog_tracing::writer::{WriteAdaptor, WriteError};

fn event(level: Level, target: &str, fields: Vec<(&str, FieldValue)>) -> LogEvent {
    LogEvent {
        level,
        target: target.to_string(),
        fields: fields
            .into_iter()
            .map(|(name, value)| Field { name: name.to_string(), value })
            .collect(),
    }
}

fn context(trace_hex: &str, span_hex: &str) -> SpanContext {
    SpanContext {
        trace_id: TraceId::from_bytes(
            opentelemetry::trace::TraceId::from_hex(trace_hex).unwrap().to_bytes(),
        ),
        span_id: SpanId::from_bytes(
            opentelemetry::trace::SpanId::from_hex(span_hex).unwrap().to_bytes(),
        ),
        sampled: true,
        origin: None,
    }
}

fn keys(line: &str) -> Vec<String> {
    let value: serde_json::Value = serde_json::from_str(line).unwrap();
    value.as_object().unwrap().keys().cloned().collect()
}

#[test]
fn line_without_span_has_four_members() {
    let e = event(Level::Info, "app::api", vec![("message", FieldValue::Text("hello".to_string()))]);
    let line = DatadogFormatter.format_at("2024-05-06T07:08:09.123456+00:00", &e, None).unwrap();
    assert_eq!(
        line,
        "{\"timestamp\":\"2024-05-06T07:08:09.123456+00:00\",\"level\":\"info\",\"fields\":{\"message\":\"hello\"},\"target\":\"app::api\"}\n"
    );
    assert!(!line.contains("dd."));
    let mut found = keys(&line);
    found.sort();
    assert_eq!(found, ["fields", "level", "target", "timestamp"]);
}

#[test]
fn line_in_a_span_carries_both_identifiers() {
    let e = event(Level::Warn, "app", vec![]);
    let ctx = context("2de7888d8f42abc9c7ba048b78f7a9fb", "58406520a0066491");
    let line = DatadogFormatter.format_at("t", &e, Some(&ctx)).unwrap();
    assert_eq!(
        line,
        "{\"timestamp\":\"t\",\"level\":\"warn\",\"fields\":{},\"target\":\"app\",\"dd.span_id\":6359193864645272721,\"dd.trace_id\":14391820556292303355}\n"
    );
    let value: serde_json::Value = serde_json::from_str(&line).unwrap();
    assert_eq!(value["dd.trace_id"].as_u64(), Some(14391820556292303355));
    assert_eq!(value["dd.span_id"].as_u64(), Some(6359193864645272721));
}

#[test]
fn identifiers_survive_at_the_ends_of_the_range() {
    let e = event(Level::Error, "t", vec![]);
    for (trace, span) in [(u64::MAX, u64::MAX), (0, 0), (1 << 53, (1 << 53) + 1)] {
        let ctx = SpanContext {
            trace_id: TraceId::from_vendor(DatadogId(trace)),
            span_id: SpanId::from_vendor(DatadogId(span)),
            sampled: false,
            origin: None,
        };
        let line = DatadogFormatter.format_at("t", &e, Some(&ctx)).unwrap();
        let value: serde_json::Value = serde_json::from_str(&line).unwrap();
        assert_eq!(value["dd.trace_id"].as_u64(), Some(trace));
        assert_eq!(value["dd.span_id"].as_u64(), Some(span));
        assert!(value["dd.trace_id"].is_u64());
    }
}

#[test]
fn zero_identifiers_differ_from_no_span() {
    let e = event(Level::Info, "t", vec![]);
    let ctx = SpanContext {
        trace_id: TraceId::from_bytes([0; 16]),
        span_id: SpanId::from_bytes([0; 8]),
        sampled: false,
        origin: None,
    };
    let with = DatadogFormatter.format_at("t", &e, Some(&ctx)).unwrap();
    let without = DatadogFormatter.format_at("t", &e, None).unwrap();
    assert!(with.ends_with(",\"dd.span_id\":0,\"dd.trace_id\":0}\n"));
    assert!(without.ends_with("\"target\":\"t\"}\n"));
}

#[test]
fn lines_of_two_spans_do_not_mix() {
    let a = context("000000000000000000000000000000aa", "00000000000000a1");
    let b = context("000000000000000000000000000000bb", "00000000000000b1");
    let e = event(Level::Debug, "t", vec![]);
    for _ in 0..200 {
        let line_a = DatadogFormatter.format_event(&e, Some(&a)).unwrap();
        let line_b = DatadogFormatter.format_event(&e, Some(&b)).unwrap();
        let none = DatadogFormatter.format_event(&e, None).unwrap();
        let va: serde_json::Value = serde_json::from_str(&line_a).unwrap();
        let vb: serde_json::Value = serde_json::from_str(&line_b).unwrap();
        let vn: serde_json::Value = serde_json::from_str(&none).unwrap();
        assert_eq!((va["dd.trace_id"].as_u64(), va["dd.span_id"].as_u64()), (Some(0xaa), Some(0xa1)));
        assert_eq!((vb["dd.trace_id"].as_u64(), vb["dd.span_id"].as_u64()), (Some(0xbb), Some(0xb1)));
        assert!(vn.get("dd.trace_id").is_none() && vn.get("dd.span_id").is_none());
    }
}

#[test]
fn texts_are_escaped_as_json() {
    let e = event(
        Level::Trace,
        "a\"b\\c",
        vec![("ke\"y", FieldValue::Text("line\nbreak\ttab \u{1} caf\u{e9}".to_string()))],
    );
    let line = DatadogFormatter.format_at("ti\"me", &e, None).unwrap();
    assert_eq!(
        line,
        "{\"timestamp\":\"ti\\\"me\",\"level\":\"trace\",\"fields\":{\"ke\\\"y\":\"line\\nbreak\\ttab \\u0001 caf\u{e9}\"},\"target\":\"a\\\"b\\\\c\"}\n"
    );
    let value: serde_json::Value = serde_json::from_str(&line).unwrap();
    assert_eq!(value["target"].as_str(), Some("a\"b\\c"));
    assert_eq!(value["fields"]["ke\"y"].as_str(), Some("line\nbreak\ttab \u{1} caf\u{e9}"));
    assert_eq!(quote("plain"), Ok("\"plain\"".to_string()));
    assert_ne!(quote("plain"), Ok("plain".to_string()));
}

#[test]
fn field_values_of_every_kind() {
    let e = event(
        Level::Info,
        "t",
        vec![
            ("text", FieldValue::Text("x".to_string())),
            ("neg", FieldValue::Signed(i64::MIN)),
            ("pos", FieldValue::Signed(42)),
            ("big", FieldValue::Unsigned(u64::MAX)),
            ("yes", FieldValue::Flag(true)),
            ("no", FieldValue::Flag(false)),
        ],
    );
    let members = fields_json(&e.fields).unwrap();
    assert_eq!(
        write_object(&members),
        "{\"text\":\"x\",\"neg\":-9223372036854775808,\"pos\":42,\"big\":18446744073709551615,\"yes\":true,\"no\":false}"
    );
    let line = DatadogFormatter.format_at("t", &e, None).unwrap();
    let value: serde_json::Value = serde_json::from_str(&line).unwrap();
    assert_eq!(value["fields"]["neg"].as_i64(), Some(i64::MIN));
    assert_eq!(value["fields"]["big"].as_u64(), Some(u64::MAX));
    assert_eq!(value["fields"]["yes"].as_bool(), Some(true));
    assert_eq!(value_json(&FieldValue::Signed(-7)), Ok("-7".to_string()));
}

#[test]
fn levels_are_written_in_lower_case() {
    let names = [
        (Level::Trace, "trace"),
        (Level::Debug, "debug"),
        (Level::Info, "info"),
        (Level::Warn, "warn"),
        (Level::Error, "error"),
    ];
    for (level, name) in names {
        let line = DatadogFormatter.format_at("t", &event(level, "t", vec![]), None).unwrap();
        let value: serde_json::Value = serde_json::from_str(&line).unwrap();
        assert_eq!(value["level"].as_str(), Some(name));
    }
}

#[test]
fn timestamp_is_the_time_of_formatting() {
    let e = event(Level::Info, "t", vec![]);
    let before = chrono::Utc::now();
    let line = DatadogFormatter.format_event(&e, None).unwrap();
    let after = chrono::Utc::now();
    assert!(line.ends_with("}\n") && line.matches('\n').count() == 1);
    let value: serde_json::Value = serde_json::from_str(&line).unwrap();
    let stamp = chrono::DateTime::parse_from_rfc3339(value["timestamp"].as_str().unwrap()).unwrap();
    assert!(before <= stamp && stamp <= after);
    let (line, formatted) = DatadogFormatter.format_or_fallback(&e, None);
    assert!(formatted);
    assert_eq!(keys(&line).len(), 4);
}

#[test]
fn render_line_places_the_members() {
    let fields = vec![Member { key: "\"k\"".to_string(), text: "1".to_string() }];
    let info = TraceInfo { trace_id: DatadogId(2), span_id: DatadogId(3) };
    assert_eq!(
        render_line("\"T\"", Level::Info, &fields, "\"G\"", Some(info)),
        "{\"timestamp\":\"T\",\"level\":\"info\",\"fields\":{\"k\":1},\"target\":\"G\",\"dd.span_id\":3,\"dd.trace_id\":2}\n"
    );
    assert_eq!(
        render_line("\"T\"", Level::Info, &Vec::new(), "\"G\"", None),
        "{\"timestamp\":\"T\",\"level\":\"info\",\"fields\":{},\"target\":\"G\"}\n"
    );
    assert_eq!(write_object(&Vec::new()), "{}");
}

#[test]
fn trace_info_of_a_context() {
    let ctx = context("2de7888d8f42abc9c7ba048b78f7a9fb", "58406520a0066491");
    assert_eq!(
        lookup_trace_info(Some(&ctx)),
        Some(TraceInfo {
            trace_id: DatadogId(14391820556292303355),
            span_id: DatadogId(6359193864645272721)
        })
    );
    assert_eq!(lookup_trace_info(None), None);
}

#[test]
fn serialization_failure_is_reported_not_raised() {
    let failure = serde_json::from_str::<u8>("x").unwrap_err();
    assert_eq!(quoted(Err(failure)), Err(FormatError::Serialization));
    assert_eq!(quoted(Ok("\"a\"".to_string())), Ok("\"a\"".to_string()));
    let e = event(Level::Error, "app::db", vec![("k", FieldValue::Flag(true))]);
    assert_eq!(fallback_line(&e), "error app::db (event not formatted)\n");
}

#[test]
fn write_adaptor_takes_utf8_only() {
    let mut adaptor = WriteAdaptor::new("a".to_string());
    assert_eq!(adaptor.write("b\u{e9}".as_bytes()), Ok(3));
    assert_eq!(adaptor.write(&[0xff, 0x41]), Err(WriteError::InvalidData));
    assert_eq!(adaptor.write(&[0xc3]), Err(WriteError::InvalidData));
    assert_eq!(adaptor.write(&[]), Ok(0));
    adaptor.flush();
    assert_eq!(adaptor.into_string(), "ab\u{e9}");
}
