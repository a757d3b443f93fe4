use tina::protocol::to_hex;
use tina::{generate_id, ContactData, GroupData, IpcCommand, IpcEvent, IpcMessage, IpcMessageContent, JsonValue, MessageData, ParticipantData};

fn command_round_trip(c: IpcCommand) {
    let original = IpcMessage { id: "abc".to_string(), content: IpcMessageContent::Command(c.clone()) };
    let line = IpcMessage { id: "abc".to_string(), content: IpcMessageContent::Command(c) }.to_line();
    assert!(line.ends_with('\n'));
    assert_eq!(line.matches('\n').count(), 1);
    let back = IpcMessage::from_line(&line).expect("line decodes");
    assert_eq!(back, original);
}

fn contact() -> ContactData {
    ContactData {
        jid: "1@s".to_string(),
        lid: Some("2:1".to_string()),
        phone_number: None,
        name: Some("Ana \"A\"\n".to_string()),
        notify: None,
        verified_name: None,
        img_url: None,
        status: Some("ok".to_string()),
    }
}

fn group() -> GroupData {
    GroupData {
        jid: "g@g.us".to_string(),
        subject: Some("Team".to_string()),
        owner: None,
        description: Some("d".to_string()),
        participants: vec![ParticipantData { id: "1@s".to_string(), admin: None, phone_number: Some("55".to_string()) }],
    }
}

fn message() -> MessageData {
    MessageData {
        message_id: "m1".to_string(),
        chat_jid: "1@s".to_string(),
        sender_jid: "2@s".to_string(),
        content: None,
        message_type: "image".to_string(),
        timestamp: -5,
        is_from_me: true,
        raw_json: Some("{}".to_string()),
    }
}

fn events() -> Vec<IpcEvent> {
    vec![
        IpcEvent::Ready { account_id: "a".to_string() },
        IpcEvent::QrCode { account_id: "a".to_string(), qr: "qr".to_string() },
        IpcEvent::Connected { account_id: "a".to_string(), phone_number: Some("55".to_string()) },
        IpcEvent::Connected { account_id: "a".to_string(), phone_number: None },
        IpcEvent::Disconnected { account_id: "a".to_string(), reason: "r".to_string() },
        IpcEvent::LoggedOut { account_id: "a".to_string() },
        IpcEvent::AuthStateUpdated { account_id: "a".to_string(), auth_state: "s".to_string() },
        IpcEvent::ContactsUpsert { account_id: "a".to_string(), contacts: vec![contact(), contact()] },
        IpcEvent::ContactsUpdate { account_id: "a".to_string(), contacts: vec![] },
        IpcEvent::GroupsUpsert { account_id: "a".to_string(), groups: vec![group()] },
        IpcEvent::GroupsUpdate { account_id: "a".to_string(), groups: vec![group(), group()] },
        IpcEvent::MessagesUpsert { account_id: "a".to_string(), messages: vec![message()] },
        IpcEvent::HistorySyncComplete { account_id: "a".to_string(), messages_count: 12 },
        IpcEvent::Error { account_id: None, error: "e".to_string() },
        IpcEvent::Error { account_id: Some("a".to_string()), error: "e".to_string() },
        IpcEvent::CommandResult {
            command_id: "c".to_string(),
            success: true,
            data: Some(JsonValue::Object(vec![("k".to_string(), JsonValue::Array(vec![JsonValue::Number(1), JsonValue::Bool(false)]))])),
            error: None,
        },
        IpcEvent::CommandResult { command_id: "c".to_string(), success: false, data: None, error: Some("bad".to_string()) },
    ]
}

#[test]
fn every_command_round_trips() {
    let commands = vec![
        IpcCommand::StartAccount { account_id: "a".to_string() },
        IpcCommand::StopAccount { account_id: "a".to_string() },
        IpcCommand::GetQrCode { account_id: "a".to_string() },
        IpcCommand::SendMessage { account_id: "a".to_string(), to: "1@s".to_string(), content: "olá\n".to_string() },
        IpcCommand::GetContacts { account_id: "a".to_string() },
        IpcCommand::GetGroups { account_id: "a".to_string() },
        IpcCommand::GetMessages { account_id: "a".to_string(), chat_jid: None, limit: 20 },
        IpcCommand::GetMessages { account_id: "a".to_string(), chat_jid: Some("1@s".to_string()), limit: -1 },
        IpcCommand::SetAuthState { account_id: "a".to_string(), auth_state: "{\"k\":1}".to_string() },
        IpcCommand::Shutdown,
    ];
    for c in commands {
        command_round_trip(c);
    }
}

#[test]
fn every_event_round_trips() {
    for (i, e) in events().into_iter().enumerate() {
        let original = IpcMessage { id: format!("{:x}", i), content: IpcMessageContent::Event(e) };
        let again = IpcMessage { id: format!("{:x}", i), content: IpcMessageContent::Event(events().into_iter().nth(i).unwrap()) };
        let line = again.to_line();
        assert_eq!(line.matches('\n').count(), 1);
        let back = IpcMessage::from_line(&line).expect("line decodes");
        assert_eq!(back, original);
    }
}

#[test]
fn wire_shape_is_tagged() {
    let line = IpcMessage { id: "7f".to_string(), content: IpcMessageContent::Command(IpcCommand::StartAccount { account_id: "acme".to_string() }) }
        .to_line();
    let v: serde_json::Value = serde_json::from_str(&line).unwrap();
    assert_eq!(v["id"], "7f");
    assert_eq!(v["type"], "StartAccount");
    assert_eq!(v["payload"]["account_id"], "acme");
    let shutdown = IpcMessage { id: "1".to_string(), content: IpcMessageContent::Command(IpcCommand::Shutdown) }.to_line();
    let v: serde_json::Value = serde_json::from_str(&shutdown).unwrap();
    assert_eq!(v["type"], "Shutdown");
    assert!(v.get("payload").is_none());
}

#[test]
fn engine_lines_decode() {
    let line = r#"{"id":"9","type":"ContactsUpsert","payload":{"account_id":"acme","contacts":[{"jid":"1@s","name":"Ana"}]}}"#;
    let m = IpcMessage::from_line(line).unwrap();
    match m.content {
        IpcMessageContent::Event(IpcEvent::ContactsUpsert { account_id, contacts }) => {
            assert_eq!(account_id, "acme");
            assert_eq!(contacts.len(), 1);
            assert_eq!(contacts[0].name.as_deref(), Some("Ana"));
            assert_eq!(contacts[0].lid, None);
        },
        other => panic!("unexpected {:?}", other),
    }
    let ready = IpcMessage::from_line("{\"type\":\"Ready\",\"id\":\"1\",\"payload\":{\"account_id\":\"\"}}\n").unwrap();
    assert_eq!(ready.content, IpcMessageContent::Event(IpcEvent::Ready { account_id: String::new() }));
}

#[test]
fn malformed_lines_are_dropped() {
    assert!(IpcMessage::from_line("").is_none());
    assert!(IpcMessage::from_line("not json").is_none());
    assert!(IpcMessage::from_line("{\"id\":\"1\",\"type\":\"Nope\",\"payload\":{}}").is_none());
    assert!(IpcMessage::from_line("{\"id\":\"1\",\"type\":\"Ready\",\"payload\":{}}").is_none());
    assert!(IpcMessage::from_line("{\"id\":\"1\",\"type\":\"HistorySyncComplete\",\"payload\":{\"account_id\":\"a\",\"messages_count\":1.5}}").is_none());
    assert!(IpcMessage::from_line("[1,2]").is_none());
}

#[test]
fn hex_identifiers() {
    assert_eq!(to_hex(0), "0");
    assert_eq!(to_hex(255), "ff");
    assert_eq!(to_hex(0x1a2b3c), "1a2b3c");
    let id = generate_id();
    assert!(!id.is_empty());
    assert!(id.chars().all(|c| c.is_ascii_hexdigit() && !c.is_ascii_uppercase()));
    let m = IpcMessage::new_command(IpcCommand::Shutdown);
    assert!(!m.id.is_empty());
}
