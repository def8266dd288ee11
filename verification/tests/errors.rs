use minecraft_server::error::{ErrorKind, MinecraftError, VarIntError};
use minecraft_server::json::JsonValue;

#[test]
fn io_error_becomes_an_io_kind() {
    let source = std::io::Error::new(std::io::ErrorKind::BrokenPipe, "gone");
    let err = MinecraftError::from(source);
    assert!(matches!(err, MinecraftError::Io(_)));
    assert_eq!(err.kind(), ErrorKind::Io);
}

#[test]
fn utf8_error_becomes_a_utf8_kind() {
    let bytes = [0xffu8, 0xfe];
    let source = std::str::from_utf8(&bytes).unwrap_err();
    let err = MinecraftError::from(source);
    assert!(matches!(err, MinecraftError::Utf8(_)));
    assert_eq!(err.kind(), ErrorKind::Utf8Decode);
}

#[test]
fn json_error_becomes_a_catalog_kind() {
    let source = serde_json::from_str::<serde_json::Value>("{").unwrap_err();
    let err = MinecraftError::from(source);
    assert!(matches!(err, MinecraftError::Json(_)));
    assert_eq!(err.kind(), ErrorKind::CatalogParse);
}

#[test]
fn every_variant_has_its_kind() {
    assert_eq!(
        MinecraftError::VarInt(VarIntError::Incomplete).kind(),
        ErrorKind::VarIntIncomplete
    );
    assert_eq!(
        MinecraftError::VarInt(VarIntError::Oversized).kind(),
        ErrorKind::VarIntOversized
    );
    assert_eq!(
        MinecraftError::BufferUnderrun("x".to_string()).kind(),
        ErrorKind::BufferUnderrun
    );
    assert_eq!(
        MinecraftError::Protocol("x".to_string()).kind(),
        ErrorKind::Protocol
    );
}

#[test]
fn json_values_are_written_by_serde_json() {
    assert_eq!(JsonValue::integer(-5).render(), "-5");
    assert_eq!(JsonValue::text("a\"b\n").render(), "\"a\\\"b\\n\"");
    assert_eq!(JsonValue::array(Vec::new()).render(), "[]");
    assert_eq!(JsonValue::object(Vec::new()).render(), "{}");
    let list = JsonValue::array(vec![JsonValue::integer(1), JsonValue::text("x")]);
    assert_eq!(list.render(), "[1,\"x\"]");
}

#[test]
fn json_members_are_added_in_order() {
    let mut members = Vec::new();
    minecraft_server::json::push_member(&mut members, "a", JsonValue::integer(1));
    minecraft_server::json::push_member(&mut members, "b", JsonValue::integer(2));
    assert_eq!(members.len(), 2);
    assert_eq!(members[0].0, "a");
    assert_eq!(members[1].0, "b");
    let mut items = Vec::new();
    minecraft_server::json::push_item(&mut items, JsonValue::integer(3));
    assert_eq!(items.len(), 1);
    let parsed: serde_json::Value =
        serde_json::from_str(&JsonValue::object(members).render()).unwrap();
    assert_eq!(parsed["a"], 1);
    assert_eq!(parsed["b"], 2);
}
