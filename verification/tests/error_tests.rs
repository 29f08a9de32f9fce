use interprocess::error::{ConversionError, ErrorDetails, NoDetails};
use interprocess::stream::SocketPathError;
use std::io;

#[test]
fn from_source_and_cause_keeps_source() {
    let cause = io::Error::new(io::ErrorKind::Other, "boom");
    let e: ConversionError<u32> = ConversionError::from_source_and_cause(42u32, cause);
    assert_eq!(e.source, Some(42u32));
    assert!(e.cause.is_some());
    assert_eq!(e.details, NoDetails);
}

#[test]
fn from_source_and_details_keeps_source_and_details() {
    let e: ConversionError<String, SocketPathError> =
        ConversionError::from_source_and_details("fd".to_string(), SocketPathError::TooLong);
    assert_eq!(e.source, Some("fd".to_string()));
    assert!(e.cause.is_none());
    assert_eq!(e.details, SocketPathError::TooLong);
}

#[test]
fn from_impl_keeps_source() {
    let e: ConversionError<u32> = ConversionError::from(7u32);
    assert_eq!(e.source, Some(7u32));
    assert!(e.cause.is_none());
}

#[test]
fn map_source_transforms_resource_only() {
    let e: ConversionError<u32, NoDetails> =
        ConversionError::from_source_and_details(10u32, NoDetails);
    let mapped: ConversionError<u64, NoDetails> = e.map_source(|x: u32| (x as u64) * 2);
    assert_eq!(mapped.source, Some(20u64));
    assert!(mapped.cause.is_none());
    assert_eq!(mapped.details, NoDetails);
}

#[test]
fn try_map_source_can_drop_resource() {
    let e: ConversionError<u32, NoDetails> =
        ConversionError::from_source_and_details(10u32, NoDetails);
    let mapped: ConversionError<u64, NoDetails> = e.try_map_source(|_x: u32| None);
    assert_eq!(mapped.source, None);
}

#[test]
fn try_map_source_can_keep_resource() {
    let e: ConversionError<u32, NoDetails> =
        ConversionError::from_source_and_details(10u32, NoDetails);
    let mapped: ConversionError<u64, NoDetails> = e.try_map_source(|x: u32| Some(x as u64 + 1));
    assert_eq!(mapped.source, Some(11u64));
}

#[test]
fn no_details_message_is_empty() {
    assert_eq!(NoDetails.message(), String::new());
}

#[test]
fn message_without_details_has_no_leading_separator() {
    let cause = io::Error::new(io::ErrorKind::Other, "boom");
    let e: ConversionError<u32> = ConversionError::from_source_and_cause(1u32, cause);
    assert_eq!(e.message(), "boom");
}

#[test]
fn message_with_details_and_cause_uses_separator() {
    let cause = io::Error::new(io::ErrorKind::Other, "boom");
    let e = ConversionError {
        details: SocketPathError::TooLong,
        cause: Some(cause),
        source: Some(5u32),
    };
    assert_eq!(e.message(), "socket path too long: boom");
}

#[test]
fn message_with_details_only() {
    let e: ConversionError<u32, SocketPathError> =
        ConversionError::from_source_and_details(5u32, SocketPathError::InteriorNul);
    assert_eq!(e.message(), "socket path contains an interior nul byte");
}

#[test]
fn to_io_error_carries_composed_message() {
    let cause = io::Error::new(io::ErrorKind::Other, "boom");
    let e = ConversionError {
        details: SocketPathError::TooLong,
        cause: Some(cause),
        source: Some(5u32),
    };
    let io_err = e.to_io_error();
    assert_eq!(format!("{io_err}"), "socket path too long: boom");
}
