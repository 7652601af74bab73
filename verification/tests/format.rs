use eventcore::format::SerializationFormat;

#[test]
fn test_default_format() {
    assert_eq!(SerializationFormat::default(), SerializationFormat::Json);
}

#[test]
fn test_file_extensions() {
    assert_eq!(SerializationFormat::Json.file_extension(), "json");
    assert_eq!(SerializationFormat::MessagePack.file_extension(), "msgpack");
    assert_eq!(SerializationFormat::Bincode.file_extension(), "bincode");
}

#[test]
fn test_mime_types() {
    assert_eq!(SerializationFormat::Json.mime_type(), "application/json");
    assert_eq!(SerializationFormat::MessagePack.mime_type(), "application/msgpack");
    assert_eq!(SerializationFormat::Bincode.mime_type(), "application/octet-stream");
}

#[test]
fn test_from_str() {
    assert_eq!("json".parse::<SerializationFormat>().unwrap(), SerializationFormat::Json);
    assert_eq!("JSON".parse::<SerializationFormat>().unwrap(), SerializationFormat::Json);
    assert_eq!("messagepack".parse::<SerializationFormat>().unwrap(), SerializationFormat::MessagePack);
    assert_eq!("msgpack".parse::<SerializationFormat>().unwrap(), SerializationFormat::MessagePack);
    assert_eq!("bincode".parse::<SerializationFormat>().unwrap(), SerializationFormat::Bincode);
    assert!("invalid".parse::<SerializationFormat>().is_err());
}

#[test]
fn test_display() {
    assert_eq!(SerializationFormat::Json.name(), "JSON");
    assert_eq!(SerializationFormat::MessagePack.name(), "MessagePack");
    assert_eq!(SerializationFormat::Bincode.name(), "Bincode");
}

#[test]
fn unknown_format_message_keeps_the_input() {
    assert_eq!(
        SerializationFormat::parse("YAML"),
        Err("Unknown serialization format: YAML".to_string())
    );
    assert_eq!(SerializationFormat::parse("MsgPack"), Ok(SerializationFormat::MessagePack));
    assert_eq!(SerializationFormat::from_lowercase_name("JSON"), None);
}
