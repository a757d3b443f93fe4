use tina::{ContactData, DbError, GroupFields, MessageData, TinaDb};

fn contact(jid: &str, name: Option<&str>) -> ContactData {
    ContactData {
        jid: jid.to_string(),
        lid: None,
        phone_number: None,
        name: name.map(|s| s.to_string()),
        notify: None,
        verified_name: None,
        img_url: None,
        status: None,
    }
}

fn message(id: &str, chat: &str, timestamp: i64) -> MessageData {
    MessageData {
        message_id: id.to_string(),
        chat_jid: chat.to_string(),
        sender_jid: "9@s".to_string(),
        content: Some(format!("body {}", id)),
        message_type: "text".to_string(),
        timestamp,
        is_from_me: false,
        raw_json: None,
    }
}

#[test]
fn scenario_account_created_is_listed() {
    let mut db = TinaDb::new();
    let a = db.create_account("acme".to_string(), Some("Acme".to_string()), 100);
    assert_eq!(a.id, "acme");
    let all = db.list_accounts();
    assert_eq!(all.len(), 1);
    assert_eq!(all[0].id, "acme");
    assert_eq!(all[0].name.as_deref(), Some("Acme"));
}

#[test]
fn create_account_twice_refreshes_name() {
    let mut db = TinaDb::new();
    db.create_account("acme".to_string(), Some("Acme".to_string()), 100);
    let a = db.create_account("acme".to_string(), Some("Acme Inc".to_string()), 200);
    assert_eq!(a.name.as_deref(), Some("Acme Inc"));
    assert_eq!(a.created_at, 100);
    assert_eq!(a.updated_at, 200);
    assert_eq!(db.list_accounts().len(), 1);
}

#[test]
fn accounts_listed_oldest_first() {
    let mut db = TinaDb::new();
    db.create_account("b".to_string(), None, 20);
    db.create_account("a".to_string(), None, 10);
    db.create_account("c".to_string(), None, 20);
    let ids: Vec<String> = db.list_accounts().into_iter().map(|a| a.id).collect();
    assert_eq!(ids, vec!["a", "b", "c"]);
}

#[test]
fn duplicate_message_leaves_one_row() {
    let mut db = TinaDb::new();
    db.create_account("acme".to_string(), None, 1);
    assert_eq!(db.insert_message("acme".to_string(), message("m1", "1@s", 5), 10), Ok(true));
    let mut again = message("m1", "1@s", 99);
    again.content = Some("other".to_string());
    assert_eq!(db.insert_message("acme".to_string(), again, 11), Ok(false));
    let rows = db.get_messages(&"acme".to_string(), None, -1, 0);
    assert_eq!(rows.len(), 1);
    assert_eq!(rows[0].timestamp, 5);
    assert_eq!(rows[0].content.as_deref(), Some("body m1"));
}

#[test]
fn null_upsert_keeps_stored_fields() {
    let mut db = TinaDb::new();
    db.create_account("acme".to_string(), None, 1);
    let mut c = contact("1@s", Some("Ana"));
    c.status = Some("busy".to_string());
    db.upsert_contact("acme".to_string(), c, false, 10).unwrap();
    db.upsert_contact("acme".to_string(), contact("1@s", None), true, 20).unwrap();
    let rows = db.get_contacts(&"acme".to_string());
    assert_eq!(rows.len(), 1);
    assert_eq!(rows[0].name.as_deref(), Some("Ana"));
    assert_eq!(rows[0].status.as_deref(), Some("busy"));
    assert!(rows[0].is_local);
    assert_eq!(rows[0].created_at, 10);
    assert_eq!(rows[0].updated_at, 20);
}

#[test]
fn upsert_overwrites_with_present_fields() {
    let mut db = TinaDb::new();
    db.create_account("acme".to_string(), None, 1);
    db.upsert_contact("acme".to_string(), contact("1@s", Some("Ana")), false, 10).unwrap();
    db.upsert_contact("acme".to_string(), contact("1@s", Some("Ana Maria")), false, 11).unwrap();
    let row = db.get_contact_by_jid(&"acme".to_string(), &"1@s".to_string()).unwrap();
    assert_eq!(row.name.as_deref(), Some("Ana Maria"));
    assert!(db.get_contact_by_jid(&"acme".to_string(), &"2@s".to_string()).is_none());
}

#[test]
fn rows_need_their_account() {
    let mut db = TinaDb::new();
    assert_eq!(
        db.upsert_contact("ghost".to_string(), contact("1@s", None), false, 1),
        Err(DbError::AccountNotFound("ghost".to_string()))
    );
    assert_eq!(
        db.insert_message("ghost".to_string(), message("m", "c", 1), 1),
        Err(DbError::AccountNotFound("ghost".to_string()))
    );
    assert_eq!(db.get_account(&"ghost".to_string()), Err(DbError::AccountNotFound("ghost".to_string())));
}

#[test]
fn group_participants_replaced_only_when_given() {
    let mut db = TinaDb::new();
    db.create_account("acme".to_string(), None, 1);
    let g = GroupFields {
        jid: "g@g.us".to_string(),
        subject: Some("Team".to_string()),
        owner: None,
        description: None,
        participants_json: Some("[1]".to_string()),
    };
    db.upsert_group("acme".to_string(), g, 5).unwrap();
    let g2 = GroupFields { jid: "g@g.us".to_string(), subject: None, owner: None, description: None, participants_json: None };
    db.upsert_group("acme".to_string(), g2, 6).unwrap();
    let row = db.get_group_by_jid(&"acme".to_string(), &"g@g.us".to_string()).unwrap();
    assert_eq!(row.subject.as_deref(), Some("Team"));
    assert_eq!(row.participants_json.as_deref(), Some("[1]"));
    assert_eq!(db.get_groups(&"acme".to_string()).len(), 1);
}

#[test]
fn chats_most_recent_first_and_message_window() {
    let mut db = TinaDb::new();
    db.create_account("acme".to_string(), None, 1);
    db.insert_message("acme".to_string(), message("a", "x", 10), 1).unwrap();
    db.insert_message("acme".to_string(), message("b", "y", 30), 1).unwrap();
    db.insert_message("acme".to_string(), message("c", "x", 20), 1).unwrap();
    db.insert_message("acme".to_string(), message("d", "z", 5), 1).unwrap();
    assert_eq!(db.get_chats(&"acme".to_string()), vec!["y", "x", "z"]);
    let ids: Vec<String> = db.get_messages(&"acme".to_string(), None, 2, 1).into_iter().map(|m| m.message_id).collect();
    assert_eq!(ids, vec!["c", "a"]);
    let in_x: Vec<String> = db.get_messages(&"acme".to_string(), Some(&"x".to_string()), 10, -3).into_iter().map(|m| m.message_id).collect();
    assert_eq!(in_x, vec!["c", "a"]);
}

#[test]
fn deleting_an_account_removes_its_rows() {
    let mut db = TinaDb::new();
    db.create_account("acme".to_string(), None, 1);
    db.create_account("other".to_string(), None, 2);
    db.upsert_contact("acme".to_string(), contact("1@s", None), false, 1).unwrap();
    db.insert_message("acme".to_string(), message("m", "1@s", 1), 1).unwrap();
    db.insert_message("other".to_string(), message("m", "1@s", 1), 1).unwrap();
    db.delete_account(&"acme".to_string());
    assert_eq!(db.list_accounts().len(), 1);
    assert!(db.get_contacts(&"acme".to_string()).is_empty());
    assert!(db.get_messages(&"acme".to_string(), None, -1, 0).is_empty());
    assert_eq!(db.get_messages(&"other".to_string(), None, -1, 0).len(), 1);
}

#[test]
fn auth_state_is_saved() {
    let mut db = TinaDb::new();
    db.create_account("acme".to_string(), None, 1);
    db.save_auth_state(&"acme".to_string(), "blob".to_string(), 7);
    assert_eq!(db.get_auth_state(&"acme".to_string()), Ok(Some("blob".to_string())));
    db.save_auth_state(&"nobody".to_string(), "blob".to_string(), 7);
    assert_eq!(db.list_accounts().len(), 1);
}

#[test]
fn contacts_listed_by_name() {
    let mut db = TinaDb::new();
    db.create_account("acme".to_string(), None, 1);
    for (jid, name) in [("1@s", Some("Bia")), ("2@s", None), ("3@s", Some("Ana")), ("4@s", Some("ana")), ("5@s", Some("An"))] {
        db.upsert_contact("acme".to_string(), contact(jid, name), false, 1).unwrap();
    }
    let jids: Vec<String> = db.get_contacts(&"acme".to_string()).into_iter().map(|c| c.jid).collect();
    assert_eq!(jids, vec!["2@s", "5@s", "3@s", "1@s", "4@s"]);
}
