use datadog_tracing::codec::{
    read_be_u64, span_id_to_vendor, trace_id_to_vendor, write_be_u64, DatadogId, SpanId, TraceId,
};
use datadog_tracing::decimal::{format_u64, parse_u64, push_signed};

#[test]
fn test_trace_id_converted_to_datadog_id() {
    let trace_id =
        opentelemetry::trace::TraceId::from_hex("2de7888d8f42abc9c7ba048b78f7a9fb").unwrap();
    let datadog_id: DatadogId = TraceId::from_bytes(trace_id.to_bytes()).into();

    assert_eq!(datadog_id.0, 14391820556292303355);
}

#[test]
fn test_span_id_converted_to_datadog_id() {
    let span_id = opentelemetry::trace::SpanId::from_hex("58406520a0066491").unwrap();
    let datadog_id: DatadogId = SpanId::from_bytes(span_id.to_bytes()).into();

    assert_eq!(datadog_id.0, 6359193864645272721);
}

#[test]
fn trace_id_keeps_its_last_eight_bytes_only() {
    let mut bytes = [0xffu8; 16];
    bytes[8..].copy_from_slice(&[0, 0, 0, 0, 0, 0, 1, 2]);
    assert_eq!(trace_id_to_vendor(TraceId::from_bytes(bytes)), DatadogId(258));
    let low = u64::from_be_bytes([0x2d, 0xe7, 0x88, 0x8d, 0x8f, 0x42, 0xab, 0xc9]);
    let mut high = [0u8; 16];
    high[..8].copy_from_slice(&low.to_be_bytes());
    assert_eq!(trace_id_to_vendor(TraceId::from_bytes(high)), DatadogId(0));
}

#[test]
fn projections_agree_with_std_byte_order() {
    for value in [0u64, 1, 255, 256, 0x0102_0304_0506_0708, u64::MAX] {
        assert_eq!(span_id_to_vendor(SpanId::from_bytes(value.to_be_bytes())), DatadogId(value));
        assert_eq!(write_be_u64(value), value.to_be_bytes());
        assert_eq!(read_be_u64(&value.to_be_bytes()), value);
        let wide = (0xabcdu128 << 64) | value as u128;
        assert_eq!(trace_id_to_vendor(TraceId::from_bytes(wide.to_be_bytes())), DatadogId(value));
    }
    assert_eq!(read_be_u64(&[]), 0);
    assert_eq!(read_be_u64(&[1, 0]), 256);
}

#[test]
fn from_vendor_is_undone_by_the_projections() {
    for value in [0u64, 7, 14391820556292303355, u64::MAX] {
        let trace = TraceId::from_vendor(DatadogId(value));
        assert_eq!(&trace.to_bytes()[..8], &[0u8; 8]);
        assert_eq!(trace_id_to_vendor(trace), DatadogId(value));
        let span = SpanId::from_vendor(DatadogId(value));
        assert_eq!(span.to_bytes(), value.to_be_bytes());
        assert_eq!(span_id_to_vendor(span), DatadogId(value));
    }
}

#[test]
fn trace_id_validity() {
    assert!(!TraceId::from_bytes([0u8; 16]).check_valid());
    let mut bytes = [0u8; 16];
    bytes[0] = 1;
    assert!(TraceId::from_bytes(bytes).check_valid());
    bytes = [0u8; 16];
    bytes[15] = 1;
    assert!(TraceId::from_bytes(bytes).check_valid());
}

#[test]
fn decimal_text_of_numbers() {
    assert_eq!(format_u64(0), "0");
    assert_eq!(format_u64(9), "9");
    assert_eq!(format_u64(10), "10");
    assert_eq!(format_u64(14391820556292303355), "14391820556292303355");
    assert_eq!(format_u64(u64::MAX), "18446744073709551615");
    let mut text = String::from("x");
    push_signed(&mut text, i64::MIN);
    assert_eq!(text, "x-9223372036854775808");
    let mut text = String::new();
    push_signed(&mut text, -1);
    push_signed(&mut text, 0);
    push_signed(&mut text, i64::MAX);
    assert_eq!(text, "-109223372036854775807");
}

#[test]
fn decimal_text_is_read_back() {
    for value in [0u64, 1, 42, 6359193864645272721, u64::MAX] {
        assert_eq!(parse_u64(&format_u64(value)), Some(value));
    }
}

#[test]
fn reading_numbers_accepts_digits_only() {
    assert_eq!(parse_u64("007"), Some(7));
    assert_eq!(parse_u64("18446744073709551615"), Some(u64::MAX));
    assert_eq!(parse_u64("18446744073709551616"), None);
    assert_eq!(parse_u64("99999999999999999999999"), None);
    assert_eq!(parse_u64(""), None);
    assert_eq!(parse_u64("+1"), None);
    assert_eq!(parse_u64("-1"), None);
    assert_eq!(parse_u64(" 1"), None);
    assert_eq!(parse_u64("1 "), None);
    assert_eq!(parse_u64("12a"), None);
    assert_eq!(parse_u64("garbage"), None);
    assert_eq!(parse_u64("١٢"), None);
}
