use std::str::FromStr;

use minigun::errors::CliError;
use minigun::options::{Header, HttpClientType, OutputType};

#[test]
fn client_names_in_any_case() {
    assert_eq!(HttpClientType::from_str("isahc").unwrap(), HttpClientType::Isahc);
    assert_eq!(HttpClientType::from_str("ISAHC").unwrap(), HttpClientType::Isahc);
    assert_eq!(HttpClientType::from_str("H1").unwrap(), HttpClientType::H1);
    assert_eq!(HttpClientType::parse("Hyper").unwrap(), HttpClientType::Hyper);
}

#[test]
fn unknown_client_is_refused() {
    match HttpClientType::from_str("Curl") {
        Err(CliError::ValidationError(message)) => {
            assert_eq!(message, "Could not choose client Curl")
        }
        other => panic!("unexpected {:?}", other),
    }
}

#[test]
fn client_from_lowercase_is_exact() {
    assert_eq!(HttpClientType::from_lowercase("h1", "H1").unwrap(), HttpClientType::H1);
    match HttpClientType::from_lowercase("H1", "H1") {
        Err(e) => assert_eq!(e.message(), "Could not choose client H1"),
        Ok(c) => panic!("unexpected {:?}", c),
    }
}

#[test]
fn output_names() {
    assert_eq!(OutputType::from_str("json").unwrap(), OutputType::Json);
    assert_eq!(OutputType::from_str("RON").unwrap(), OutputType::Ron);
    assert_eq!(OutputType::from_str("Cli").unwrap(), OutputType::Cli);
    assert_eq!(OutputType::from_str("anything").unwrap(), OutputType::Cli);
    assert_eq!(OutputType::from_lowercase("Json"), OutputType::Cli);
    assert_eq!(OutputType::from_lowercase("json"), OutputType::Json);
}

#[test]
fn header_is_split_at_first_colon() {
    let header = Header::from_str("Authorization: SomeKey").unwrap();
    assert_eq!(header.name, "Authorization");
    assert_eq!(header.value, "SomeKey");
    let header = Header::parse("  X-Time :  12:30 ").unwrap();
    assert_eq!(header.name, "X-Time");
    assert_eq!(header.value, "12:30");
    let header = Header::parse("Empty:").unwrap();
    assert_eq!(header.name, "Empty");
    assert_eq!(header.value, "");
}

#[test]
fn header_without_name_or_colon_is_refused() {
    match Header::parse("NoColon") {
        Err(CliError::ValidationError(message)) => {
            assert_eq!(message, "Could not parse header NoColon")
        }
        _ => panic!("expected a validation error"),
    }
    match Header::parse("  : value") {
        Err(CliError::ValidationError(message)) => {
            assert_eq!(message, "Could not parse header   : value")
        }
        _ => panic!("expected a validation error"),
    }
}

#[test]
fn error_messages_and_conversion() {
    let e = CliError::from("bad input".to_string());
    assert!(matches!(e, CliError::ValidationError(_)));
    assert_eq!(e.message(), "bad input");
    let c = CliError::connection("refused".to_string());
    assert!(matches!(c, CliError::ConnectionError(_)));
    assert_eq!(c.message(), "refused");
}

#[test]
fn header_from_trimmed_parts() {
    let header = Header::from_trimmed("Accept", "text/html", "Accept: text/html").unwrap();
    assert_eq!(header.name, "Accept");
    assert_eq!(header.value, "text/html");
    match Header::from_trimmed("", "x", " : x") {
        Err(CliError::ValidationError(message)) => assert_eq!(message, "Could not parse header  : x"),
        _ => panic!("expected a validation error"),
    }
}

#[test]
fn same_text_compares_characters() {
    assert!(minigun::options::same_text("héllo", "héllo"));
    assert!(!minigun::options::same_text("hello", "hellO"));
    assert!(!minigun::options::same_text("hell", "hello"));
}
