use std::io;

use search_stack_exchange::Error;

#[test]
fn invalid_xml_keeps_the_message() {
    match Error::invalid_xml("Expected XML Declaration") {
        Error::InvalidXml(message) => assert_eq!("Expected XML Declaration", message),
        other => panic!("expected a format error, got {other:?}"),
    }
    assert!(matches!(Error::invalid_xml(""), Error::InvalidXml(message) if message.is_empty()));
}

#[test]
fn messages_for_the_user() {
    let cause = io::Error::from(io::ErrorKind::PermissionDenied);
    assert_eq!("Io error reading xml file", Error::ReadXmlFile(cause).message());
    assert_eq!(
        "Invalid xml format: Missing id in Post",
        Error::invalid_xml("Missing id in Post").message()
    );
    assert_eq!("XML input is malformed", Error::MalformedXml("position 3".to_owned()).message());
    assert_eq!(
        "Error embedding something against the API rate limit",
        Error::Embedding("rate limit".to_owned()).message()
    );
    assert_eq!("Invalid xml format: ", Error::invalid_xml("").message());
}
