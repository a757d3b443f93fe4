//! Commands sent to the engine and events it reports, with their payload records.
use vstd::prelude::*;

use crate::json::JsonValue;

verus! {

/// A command from the bridge to the engine.
#[derive(Debug, Clone, PartialEq)]
pub enum IpcCommand {
    StartAccount { account_id: String },
    StopAccount { account_id: String },
    GetQrCode { account_id: String },
    SendMessage { account_id: String, to: String, content: String },
    GetContacts { account_id: String },
    GetGroups { account_id: String },
    GetMessages { account_id: String, chat_jid: Option<String>, limit: i64 },
    SetAuthState { account_id: String, auth_state: String },
    Shutdown,
}

/// An event from the engine to the bridge.
#[derive(Debug, PartialEq)]
pub enum IpcEvent {
    Ready { account_id: String },
    QrCode { account_id: String, qr: String },
    Connected { account_id: String, phone_number: Option<String> },
    Disconnected { account_id: String, reason: String },
    LoggedOut { account_id: String },
    AuthStateUpdated { account_id: String, auth_state: String },
    ContactsUpsert { account_id: String, contacts: Vec<ContactData> },
    ContactsUpdate { account_id: String, contacts: Vec<ContactData> },
    GroupsUpsert { account_id: String, groups: Vec<GroupData> },
    GroupsUpdate { account_id: String, groups: Vec<GroupData> },
    MessagesUpsert { account_id: String, messages: Vec<MessageData> },
    HistorySyncComplete { account_id: String, messages_count: usize },
    Error { account_id: Option<String>, error: String },
    CommandResult {
        command_id: String,
        success: bool,
        data: Option<JsonValue>,
        error: Option<String>,
    },
}

/// A contact as the engine reports it; absent fields are `None`.
#[derive(Debug, Clone, PartialEq)]
pub struct ContactData {
    pub jid: String,
    pub lid: Option<String>,
    pub phone_number: Option<String>,
    pub name: Option<String>,
    pub notify: Option<String>,
    pub verified_name: Option<String>,
    pub img_url: Option<String>,
    pub status: Option<String>,
}

/// A group as the engine reports it.
#[derive(Debug, Clone, PartialEq)]
pub struct GroupData {
    pub jid: String,
    pub subject: Option<String>,
    pub owner: Option<String>,
    pub description: Option<String>,
    pub participants: Vec<ParticipantData>,
}

/// One member of a group.
#[derive(Debug, Clone, PartialEq)]
pub struct ParticipantData {
    pub id: String,
    pub admin: Option<String>,
    pub phone_number: Option<String>,
}

/// A message as the engine reports it.
#[derive(Debug, Clone, PartialEq)]
pub struct MessageData {
    pub message_id: String,
    pub chat_jid: String,
    pub sender_jid: String,
    pub content: Option<String>,
    pub message_type: String,
    pub timestamp: i64,
    pub is_from_me: bool,
    pub raw_json: Option<String>,
}

/// A copy of an optional string, equal to it.
pub fn copy_opt(o: &Option<String>) -> (r: Option<String>)
    ensures
        r == *o,
{
    match o {
        Some(s) => Some(s.clone()),
        None => None,
    }
}

impl ContactData {
    pub fn copy(&self) -> (r: ContactData)
        ensures
            r == *self,
    {
        ContactData {
            jid: self.jid.clone(),
            lid: copy_opt(&self.lid),
            phone_number: copy_opt(&self.phone_number),
            name: copy_opt(&self.name),
            notify: copy_opt(&self.notify),
            verified_name: copy_opt(&self.verified_name),
            img_url: copy_opt(&self.img_url),
            status: copy_opt(&self.status),
        }
    }
}

impl ParticipantData {
    pub fn copy(&self) -> (r: ParticipantData)
        ensures
            r == *self,
    {
        ParticipantData {
            id: self.id.clone(),
            admin: copy_opt(&self.admin),
            phone_number: copy_opt(&self.phone_number),
        }
    }
}

impl MessageData {
    pub fn copy(&self) -> (r: MessageData)
        ensures
            r == *self,
    {
        MessageData {
            message_id: self.message_id.clone(),
            chat_jid: self.chat_jid.clone(),
            sender_jid: self.sender_jid.clone(),
            content: copy_opt(&self.content),
            message_type: self.message_type.clone(),
            timestamp: self.timestamp,
            is_from_me: self.is_from_me,
            raw_json: copy_opt(&self.raw_json),
        }
    }
}

} // verus!
