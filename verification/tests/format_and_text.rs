use xdf::text::{ascii_lower_bytes, parse_u32};
use xdf::{format_width, str_to_format, Format, XDFFile};

#[test]
fn str_to_format_tokens() {
    assert_eq!(str_to_format("int8"), Some(Format::Int8));
    assert_eq!(str_to_format("int16"), Some(Format::Int16));
    assert_eq!(str_to_format("int32"), Some(Format::Int32));
    assert_eq!(str_to_format("int64"), Some(Format::Int64));
    assert_eq!(str_to_format("float32"), Some(Format::Float32));
    assert_eq!(str_to_format("double64"), Some(Format::Float64));
    assert_eq!(str_to_format("string"), Some(Format::String));
    // matching is exact: callers lowercase first
    assert_eq!(str_to_format("INT8"), None);
    assert_eq!(str_to_format("float64"), None);
    assert_eq!(str_to_format(""), None);
}

#[test]
fn format_widths() {
    assert_eq!(format_width(Format::Int8), Some(1));
    assert_eq!(format_width(Format::Int16), Some(2));
    assert_eq!(format_width(Format::Int32), Some(4));
    assert_eq!(format_width(Format::Int64), Some(8));
    assert_eq!(format_width(Format::Float32), Some(4));
    assert_eq!(format_width(Format::Float64), Some(8));
    assert_eq!(format_width(Format::String), None);
}

#[test]
fn ascii_lowercasing() {
    assert_eq!(ascii_lower_bytes("Float32"), b"float32".to_vec());
    assert_eq!(ascii_lower_bytes("DOUBLE64"), b"double64".to_vec());
    assert_eq!(ascii_lower_bytes("int8"), b"int8".to_vec());
    assert_eq!(ascii_lower_bytes("A-Z0"), b"a-z0".to_vec());
}

#[test]
fn decimal_u32_parsing() {
    assert_eq!(parse_u32("0"), Some(0));
    assert_eq!(parse_u32("42"), Some(42));
    assert_eq!(parse_u32("+7"), Some(7));
    assert_eq!(parse_u32("4294967295"), Some(u32::MAX));
    assert_eq!(parse_u32("4294967296"), None);
    assert_eq!(parse_u32(""), None);
    assert_eq!(parse_u32("+"), None);
    assert_eq!(parse_u32("1a"), None);
    assert_eq!(parse_u32("-1"), None);
    assert_eq!(parse_u32(" 1"), None);
}

#[test]
fn test_is_sync() {
    fn is_sync<T: Sync>() {}
    is_sync::<XDFFile>();
}

#[test]
fn test_is_send() {
    fn is_send<T: Send>() {}
    is_send::<XDFFile>();
}
