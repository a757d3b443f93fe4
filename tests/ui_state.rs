use tina::{AccountState, AppStateInner, ChatState};

fn account(id: &str) -> AccountState {
    AccountState { id: id.to_string(), name: id.to_uppercase(), phone_number: None, is_connected: false, is_syncing: true }
}

fn chat(jid: &str, name: &str) -> ChatState {
    ChatState { jid: jid.to_string(), name: name.to_string(), last_message: None, last_message_time: None, unread_count: 0, is_group: false }
}

#[test]
fn new_state_welcomes() {
    let s = AppStateInner::new();
    assert_eq!(s.status_message, "Welcome to Tina");
    assert!(s.accounts.is_empty());
    assert!(s.current_chat_jid.is_none());
}

#[test]
fn accounts_are_added_once_and_track_connection() {
    let mut s = AppStateInner::new();
    s.add_account(account("a"));
    s.add_account(account("a"));
    s.add_account(account("b"));
    assert_eq!(s.accounts.len(), 2);
    s.set_account_connected("b", Some("5511".to_string()));
    assert!(s.accounts[1].is_connected);
    assert_eq!(s.accounts[1].phone_number.as_deref(), Some("5511"));
    assert!(!s.accounts[0].is_connected);
    s.set_account_disconnected("b");
    assert!(!s.accounts[1].is_connected);
    assert!(!s.accounts[1].is_syncing);
    s.set_account_connected("zzz", None);
    assert_eq!(s.accounts.len(), 2);
}

#[test]
fn selecting_a_chat_sets_its_name() {
    let mut s = AppStateInner::new();
    s.set_chats(vec![chat("1@s", "Ana"), chat("2@s", "Bia")]);
    s.select_chat("2@s");
    assert_eq!(s.current_chat_jid.as_deref(), Some("2@s"));
    assert_eq!(s.current_chat_name.as_deref(), Some("Bia"));
    s.select_chat("9@s");
    assert_eq!(s.current_chat_jid.as_deref(), Some("9@s"));
    assert_eq!(s.current_chat_name.as_deref(), Some("Bia"));
    s.set_messages(vec![]);
    assert!(s.messages.is_empty());
}
