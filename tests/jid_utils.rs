use tina::{format_jid_for_display, format_message_preview, format_phone_number, format_timestamp_at};

#[test]
fn test_format_brazilian_mobile() {
    assert_eq!(format_phone_number("5511999999999"), "+55 11 99999-9999");
}

#[test]
fn test_format_brazilian_landline() {
    assert_eq!(format_phone_number("551133334444"), "+55 11 3333-4444");
}

#[test]
fn test_format_jid_phone() {
    let result = format_jid_for_display("5511999999999@s.whatsapp.net");
    assert_eq!(result.as_str(), "+55 11 99999-9999");
}

#[test]
fn test_format_jid_lid() {
    let result = format_jid_for_display("2:abc123");
    assert_eq!(result.as_str(), "(LID)");
}

#[test]
fn test_format_jid_user_lid() {
    let result = format_jid_for_display("abc123@lid");
    assert_eq!(result.as_str(), "(U)");
}

#[test]
fn phone_number_edge_cases() {
    assert_eq!(format_phone_number(""), "");
    assert_eq!(format_phone_number("12345"), "12345");
    assert_eq!(format_phone_number("14155552671"), "+14155552671");
    assert_eq!(format_phone_number("55119999999999"), "+55119999999999");
}

#[test]
fn jid_display_other_forms() {
    assert_eq!(format_jid_for_display("1203634@g.us"), "1203634@g.us");
    assert_eq!(format_jid_for_display("abc:12"), "(LID)");
    assert_eq!(format_jid_for_display("abc@s.whatsapp.net"), "abc@s.whatsapp.net");
    assert_eq!(format_jid_for_display("someone@example"), "someone@example");
}

#[test]
fn message_previews() {
    assert_eq!(format_message_preview("text", "hello"), "hello");
    assert_eq!(format_message_preview("extendedText", "hi"), "hi");
    assert_eq!(format_message_preview("imageMessage", "ignored"), "📷 Image");
    assert_eq!(format_message_preview("poll", "x"), "📊 Poll");
    assert_eq!(format_message_preview("unknownKind", "raw"), "raw");
}

#[test]
fn timestamps_by_age() {
    let ts = 13 * 3600 + 5 * 60;
    assert_eq!(format_timestamp_at(ts, ts + 10), "13:05");
    assert_eq!(format_timestamp_at(0, 2 * 86400), "Thu");
    assert_eq!(format_timestamp_at(86400 * 365 * 30, 86400 * 365 * 30 + 86400 * 10), "2000");
    assert_eq!(format_timestamp_at(-(86400 * 365 * 2) - 5, 0), "1968");
    assert_eq!(format_timestamp_at(500, 100), "1970");
    assert!(!tina::format_timestamp(0).is_empty());
}
