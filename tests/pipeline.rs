use tina::{handle_ipc_event, ContactData, DbError, GroupData, IpcEvent, MessageData, ParticipantData, SyncType, TinaDb, WorkerEvent};

fn contact(jid: &str, name: Option<&str>) -> ContactData {
    ContactData {
        jid: jid.to_string(),
        lid: None,
        phone_number: None,
        name: name.map(|s| s.to_string()),
        notify: None,
        verified_name: None,
        img_url: None,
        status: None,
    }
}

fn message(id: &str) -> MessageData {
    MessageData {
        message_id: id.to_string(),
        chat_jid: "1@s".to_string(),
        sender_jid: "1@s".to_string(),
        content: Some("hi".to_string()),
        message_type: "text".to_string(),
        timestamp: 42,
        is_from_me: false,
        raw_json: None,
    }
}

fn store_with_acme() -> TinaDb {
    let mut db = TinaDb::new();
    db.create_account("acme".to_string(), Some("Acme".to_string()), 1);
    db
}

#[test]
fn scenario_contacts_upsert_publishes_in_order() {
    let mut db = store_with_acme();
    let event = IpcEvent::ContactsUpsert { account_id: "acme".to_string(), contacts: vec![contact("1@s", Some("Ana"))] };
    let out = handle_ipc_event(&mut db, event, 10);
    assert_eq!(out.result, Ok(()));
    let rows = db.get_contacts(&"acme".to_string());
    assert_eq!(rows.len(), 1);
    assert_eq!(rows[0].jid, "1@s");
    assert_eq!(rows[0].name.as_deref(), Some("Ana"));
    assert_eq!(
        out.published,
        vec![
            WorkerEvent::SyncStarted { account_id: "acme".to_string(), sync_type: SyncType::Contacts },
            WorkerEvent::SyncCompleted { account_id: "acme".to_string(), sync_type: SyncType::Contacts, count: 1 },
            WorkerEvent::ContactsSynced { account_id: "acme".to_string(), count: 1 },
        ]
    );
}

#[test]
fn scenario_duplicate_message_ids_store_one_row() {
    let mut db = store_with_acme();
    let event = IpcEvent::MessagesUpsert { account_id: "acme".to_string(), messages: vec![message("dup"), message("dup")] };
    let out = handle_ipc_event(&mut db, event, 10);
    assert_eq!(out.result, Ok(()));
    assert_eq!(db.get_messages(&"acme".to_string(), None, -1, 0).len(), 1);
    let new_messages = out.published.iter().filter(|e| matches!(e, WorkerEvent::NewMessage { .. })).count();
    assert_eq!(new_messages, 2);
    assert_eq!(out.published.len(), 5);
    assert_eq!(
        out.published[1],
        WorkerEvent::NewMessage { account_id: "acme".to_string(), chat_jid: "1@s".to_string(), content: Some("hi".to_string()), timestamp: 42 }
    );
    assert_eq!(out.published.last(), Some(&WorkerEvent::MessagesSynced { account_id: "acme".to_string(), count: 2 }));
}

#[test]
fn batch_of_120_contacts_reports_two_progress_events() {
    let mut db = store_with_acme();
    let contacts: Vec<ContactData> = (0..120).map(|i| contact(&format!("{}@s", i), None)).collect();
    let out = handle_ipc_event(&mut db, IpcEvent::ContactsUpsert { account_id: "acme".to_string(), contacts }, 10);
    let progress: Vec<usize> = out
        .published
        .iter()
        .filter_map(|e| match e {
            WorkerEvent::SyncProgress { current, total, .. } => {
                assert_eq!(*total, Some(120));
                Some(*current)
            },
            _ => None,
        })
        .collect();
    assert_eq!(progress, vec![50, 100]);
    assert_eq!(out.published.len(), 5);
    assert!(matches!(out.published[3], WorkerEvent::SyncCompleted { count: 120, .. }));
    assert_eq!(db.get_contacts(&"acme".to_string()).len(), 120);
}

#[test]
fn small_batches_report_no_progress() {
    let mut db = store_with_acme();
    let contacts: Vec<ContactData> = (0..10).map(|i| contact(&format!("{}@s", i), None)).collect();
    let out = handle_ipc_event(&mut db, IpcEvent::ContactsUpsert { account_id: "acme".to_string(), contacts }, 10);
    assert_eq!(out.published.len(), 3);
}

#[test]
fn message_batch_progress_every_hundred() {
    let mut db = store_with_acme();
    let messages: Vec<MessageData> = (0..250).map(|i| message(&format!("m{}", i))).collect();
    let out = handle_ipc_event(&mut db, IpcEvent::MessagesUpsert { account_id: "acme".to_string(), messages }, 10);
    let progress: Vec<usize> = out
        .published
        .iter()
        .filter_map(|e| match e {
            WorkerEvent::SyncProgress { current, .. } => Some(*current),
            _ => None,
        })
        .collect();
    assert_eq!(progress, vec![100, 200]);
}

#[test]
fn batch_for_unknown_account_stops_at_first_item() {
    let mut db = TinaDb::new();
    let event = IpcEvent::ContactsUpsert { account_id: "ghost".to_string(), contacts: vec![contact("1@s", None)] };
    let out = handle_ipc_event(&mut db, event, 10);
    assert_eq!(out.result, Err(DbError::AccountNotFound("ghost".to_string())));
    assert_eq!(out.published, vec![WorkerEvent::SyncStarted { account_id: "ghost".to_string(), sync_type: SyncType::Contacts }]);
}

#[test]
fn ready_events() {
    let mut db = TinaDb::new();
    let out = handle_ipc_event(&mut db, IpcEvent::Ready { account_id: String::new() }, 1);
    assert_eq!(out.published, vec![WorkerEvent::NanachiReady]);
    let out = handle_ipc_event(&mut db, IpcEvent::Ready { account_id: "acme".to_string() }, 1);
    assert_eq!(out.published, vec![WorkerEvent::AccountReady { account_id: "acme".to_string() }]);
}

#[test]
fn history_sync_and_errors_republished() {
    let mut db = TinaDb::new();
    let out = handle_ipc_event(&mut db, IpcEvent::HistorySyncComplete { account_id: "a".to_string(), messages_count: 7 }, 1);
    assert_eq!(
        out.published,
        vec![
            WorkerEvent::SyncCompleted { account_id: "a".to_string(), sync_type: SyncType::History, count: 7 },
            WorkerEvent::HistorySyncComplete { account_id: "a".to_string(), messages_count: 7 },
        ]
    );
    let out = handle_ipc_event(&mut db, IpcEvent::Error { account_id: None, error: "boom".to_string() }, 1);
    assert_eq!(out.published, vec![WorkerEvent::Error { account_id: None, error: "boom".to_string() }]);
    let out = handle_ipc_event(
        &mut db,
        IpcEvent::CommandResult { command_id: "x".to_string(), success: true, data: None, error: None },
        1,
    );
    assert!(out.published.is_empty());
}

#[test]
fn auth_state_update_is_stored_silently() {
    let mut db = store_with_acme();
    let out = handle_ipc_event(&mut db, IpcEvent::AuthStateUpdated { account_id: "acme".to_string(), auth_state: "creds".to_string() }, 5);
    assert!(out.published.is_empty());
    assert_eq!(db.get_auth_state(&"acme".to_string()), Ok(Some("creds".to_string())));
}

#[test]
fn groups_upsert_stores_participants_as_json() {
    let mut db = store_with_acme();
    let group = GroupData {
        jid: "g@g.us".to_string(),
        subject: Some("Team".to_string()),
        owner: None,
        description: None,
        participants: vec![ParticipantData { id: "1@s".to_string(), admin: Some("admin".to_string()), phone_number: None }],
    };
    let out = handle_ipc_event(&mut db, IpcEvent::GroupsUpsert { account_id: "acme".to_string(), groups: vec![group] }, 3);
    assert_eq!(out.result, Ok(()));
    assert_eq!(out.published.last(), Some(&WorkerEvent::GroupsSynced { account_id: "acme".to_string(), count: 1 }));
    let row = db.get_group_by_jid(&"acme".to_string(), &"g@g.us".to_string()).unwrap();
    let text = row.participants_json.unwrap();
    let parsed: serde_json::Value = serde_json::from_str(&text).unwrap();
    assert_eq!(parsed[0]["id"], "1@s");
    assert_eq!(parsed[0]["admin"], "admin");
    assert!(parsed[0]["phone_number"].is_null());
    let empty = GroupData { jid: "g@g.us".to_string(), subject: None, owner: None, description: None, participants: vec![] };
    handle_ipc_event(&mut db, IpcEvent::GroupsUpdate { account_id: "acme".to_string(), groups: vec![empty] }, 4);
    let row = db.get_group_by_jid(&"acme".to_string(), &"g@g.us".to_string()).unwrap();
    assert_eq!(row.participants_json, Some(text));
    assert_eq!(row.subject.as_deref(), Some("Team"));
}

#[test]
fn sync_type_labels() {
    assert_eq!(SyncType::Contacts.label(), "contacts");
    assert_eq!(SyncType::History.label(), "history");
}
