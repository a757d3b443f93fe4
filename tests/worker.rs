use tina::{ContactData, DbError, IpcCommand, IpcEvent, IpcMessage, IpcMessageContent, MessageData, TinaWorker, WorkerError, WorkerEvent};

fn running_worker() -> TinaWorker {
    let mut w = TinaWorker::new("/opt/engine".to_string());
    assert!(w.start(Ok(())).unwrap().is_some());
    w.attach_process(Ok(())).unwrap();
    w
}

fn next_command(w: &mut TinaWorker) -> IpcCommand {
    let line = w.next_outbound_line().expect("a queued line");
    match IpcMessage::from_line(&line).unwrap().content {
        IpcMessageContent::Command(c) => c,
        other => panic!("unexpected {:?}", other),
    }
}

#[test]
fn start_account_replays_auth_state_first() {
    let mut w = running_worker();
    w.create_account("acme".to_string(), Some("Acme".to_string()));
    let out = w.handle_event(IpcEvent::AuthStateUpdated { account_id: "acme".to_string(), auth_state: "creds".to_string() });
    assert_eq!(out.result, Ok(()));
    w.start_account(&"acme".to_string()).unwrap();
    assert_eq!(next_command(&mut w), IpcCommand::SetAuthState { account_id: "acme".to_string(), auth_state: "creds".to_string() });
    assert_eq!(next_command(&mut w), IpcCommand::StartAccount { account_id: "acme".to_string() });
    assert!(w.next_outbound_line().is_none());
}

#[test]
fn start_account_without_auth_state_sends_start_only() {
    let mut w = running_worker();
    w.create_account("acme".to_string(), None);
    w.start_account(&"acme".to_string()).unwrap();
    assert_eq!(next_command(&mut w), IpcCommand::StartAccount { account_id: "acme".to_string() });
    assert!(w.next_outbound_line().is_none());
}

#[test]
fn start_account_unknown_fails() {
    let mut w = running_worker();
    assert_eq!(w.start_account(&"nope".to_string()), Err(WorkerError::Db(DbError::AccountNotFound("nope".to_string()))));
    assert!(w.next_outbound_line().is_none());
}

#[test]
fn send_and_stop_commands() {
    let mut w = running_worker();
    w.send_message(&"acme".to_string(), &"1@s".to_string(), &"hello".to_string()).unwrap();
    w.stop_account(&"acme".to_string()).unwrap();
    assert_eq!(
        next_command(&mut w),
        IpcCommand::SendMessage { account_id: "acme".to_string(), to: "1@s".to_string(), content: "hello".to_string() }
    );
    assert_eq!(next_command(&mut w), IpcCommand::StopAccount { account_id: "acme".to_string() });
    assert!(w.stop().is_some());
    assert!(w.stop().is_none());
    assert!(matches!(w.send_message(&"a".to_string(), &"b".to_string(), &"c".to_string()), Err(WorkerError::Ipc(_))));
}

#[test]
fn listing_through_the_worker() {
    let mut w = TinaWorker::new("/opt/engine".to_string());
    w.create_account("acme".to_string(), Some("Acme".to_string()));
    let accounts = w.list_accounts();
    assert_eq!(accounts.len(), 1);
    assert_eq!(accounts[0].name.as_deref(), Some("Acme"));
    let out = w.handle_event(IpcEvent::LoggedOut { account_id: "acme".to_string() });
    assert_eq!(out.published, vec![WorkerEvent::LoggedOut { account_id: "acme".to_string() }]);
    assert!(w.get_chats(&"acme".to_string()).is_empty());
    assert!(w.get_groups(&"acme".to_string()).is_empty());
    w.delete_account(&"acme".to_string());
    assert!(w.list_accounts().is_empty());
}

#[test]
fn chat_previews_resolve_names() {
    let mut w = TinaWorker::new("/opt/engine".to_string());
    w.create_account("acme".to_string(), None);
    let contact = ContactData {
        jid: "1@s".to_string(),
        lid: None,
        phone_number: None,
        name: Some("Ana".to_string()),
        notify: None,
        verified_name: None,
        img_url: None,
        status: None,
    };
    w.handle_event(IpcEvent::ContactsUpsert { account_id: "acme".to_string(), contacts: vec![contact] });
    let msg = |id: &str, chat: &str, ts: i64, kind: &str| MessageData {
        message_id: id.to_string(),
        chat_jid: chat.to_string(),
        sender_jid: chat.to_string(),
        content: Some("hello".to_string()),
        message_type: kind.to_string(),
        timestamp: ts,
        is_from_me: false,
        raw_json: None,
    };
    w.handle_event(IpcEvent::MessagesUpsert {
        account_id: "acme".to_string(),
        messages: vec![msg("a", "1@s", 10, "text"), msg("b", "2@s", 20, "imageMessage")],
    });
    let previews = w.get_chat_previews(&"acme".to_string());
    assert_eq!(previews.len(), 2);
    assert_eq!(previews[0].jid, "2@s");
    assert_eq!(previews[0].name, "2@s");
    assert_eq!(previews[0].last_message.as_deref(), Some("📷 Image"));
    assert_eq!(previews[1].name, "Ana");
    assert_eq!(previews[1].last_message.as_deref(), Some("hello"));
    assert_eq!(previews[1].last_message_timestamp, Some(10));
    assert!(!previews[1].is_group);
    assert_eq!(w.get_chat_name(&"acme".to_string(), &"1@s".to_string()).as_deref(), Some("Ana"));
}

#[test]
fn basic_chat_rows_have_no_preview() {
    let mut w = TinaWorker::new("/opt/engine".to_string());
    w.create_account("acme".to_string(), None);
    let m = MessageData {
        message_id: "a".to_string(),
        chat_jid: "g@g.us".to_string(),
        sender_jid: "1@s".to_string(),
        content: Some("yo".to_string()),
        message_type: "text".to_string(),
        timestamp: 77,
        is_from_me: true,
        raw_json: None,
    };
    w.handle_event(IpcEvent::MessagesUpsert { account_id: "acme".to_string(), messages: vec![m] });
    let rows = w.get_chats_basic(&"acme".to_string());
    assert_eq!(rows.len(), 1);
    assert_eq!(rows[0].name, "g@g.us");
    assert_eq!(rows[0].last_message, None);
    assert_eq!(rows[0].last_message_timestamp, Some(77));
}

#[test]
fn engine_lines_parse_to_events_only() {
    let e = tina::NanachiManager::parse_event("{\"id\":\"1\",\"type\":\"LoggedOut\",\"payload\":{\"account_id\":\"a\"}}");
    assert_eq!(e, Some(IpcEvent::LoggedOut { account_id: "a".to_string() }));
    assert_eq!(tina::NanachiManager::parse_event("{\"id\":\"1\",\"type\":\"Shutdown\"}"), None);
    assert_eq!(tina::NanachiManager::parse_event("garbage"), None);
}

#[test]
fn worker_start_and_stop_plans() {
    let mut w = TinaWorker::new("/opt/engine".to_string());
    let spec = w.start(Ok(())).unwrap().unwrap();
    assert_eq!(spec.working_dir, "/opt/engine");
    assert_eq!(spec.program, "bun");
    assert_eq!(spec.args, vec!["run", "index.ts"]);
    w.attach_process(Ok(())).unwrap();
    let mut plan = w.stop().unwrap();
    assert_eq!(plan.grace_period_ms, 500);
    assert!(plan.force_kill);
    let line = plan.process.next_line().unwrap();
    assert_eq!(IpcMessage::from_line(&line).unwrap().content, IpcMessageContent::Command(IpcCommand::Shutdown));
}

#[test]
fn null_command_data_reads_back_as_none() {
    let m = IpcMessage {
        id: "1".to_string(),
        content: IpcMessageContent::Event(IpcEvent::CommandResult {
            command_id: "c".to_string(),
            success: true,
            data: Some(tina::JsonValue::Null),
            error: None,
        }),
    };
    let back = IpcMessage::from_line(&m.to_line()).unwrap();
    assert_eq!(
        back.content,
        IpcMessageContent::Event(IpcEvent::CommandResult { command_id: "c".to_string(), success: true, data: None, error: None })
    );
}
