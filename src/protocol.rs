//! The line protocol: envelopes of one JSON object per line, and the mapping between
//! commands, events and their JSON form.
use vstd::prelude::*;
use vstd::string::*;

use crate::events::{ContactData, GroupData, IpcCommand, IpcEvent, MessageData, ParticipantData};
use crate::json::{field_of, json_canonical, get_field, json_parse, json_text, opt_text, opt_text_json, parse_json, render_json, text, JsonValue};

verus! {

broadcast use vstd::string::group_string_axioms;

/// `fields` holds exactly the given keys, in order, with the given values.
pub open spec fn fields_are(fields: Seq<(String, JsonValue)>, keys: Seq<Seq<char>>, values: Seq<JsonValue>) -> bool {
    &&& fields.len() == keys.len()
    &&& fields.len() == values.len()
    &&& forall|i: int| 0 <= i < fields.len() ==> (#[trigger] fields[i]).0@ == keys[i] && fields[i].1 == values[i]
}

/// `v` is an object with exactly the given keys and values.
pub open spec fn object_is(v: JsonValue, keys: Seq<Seq<char>>, values: Seq<JsonValue>) -> bool {
    match v {
        JsonValue::Object(fields) => fields_are(fields@, keys, values),
        _ => false,
    }
}

pub open spec fn participant_json_is(v: JsonValue, p: ParticipantData) -> bool {
    object_is(
        v,
        seq!["id"@, "admin"@, "phone_number"@],
        seq![JsonValue::Text(p.id), opt_text_json(p.admin), opt_text_json(p.phone_number)],
    )
}

/// `v` is an array of the JSON forms of `ps`.
pub open spec fn participants_json_is(v: JsonValue, ps: Seq<ParticipantData>) -> bool {
    match v {
        JsonValue::Array(items) => items@.len() == ps.len() && forall|i: int|
            0 <= i < ps.len() ==> participant_json_is(#[trigger] items@[i], ps[i]),
        _ => false,
    }
}

/// The text stored for a group's participant list: none for an empty list, else the
/// JSON text of the list.
pub open spec fn participants_text_is(t: Option<String>, ps: Seq<ParticipantData>) -> bool {
    if ps.len() == 0 {
        t is None
    } else {
        t is Some && exists|v: JsonValue| participants_json_is(v, ps) && t.unwrap()@ == json_text(v)
    }
}

fn entry(key: &str, v: JsonValue) -> (r: (String, JsonValue))
    ensures
        r.0@ == key@,
        r.1 == v,
{
    (key.to_owned(), v)
}

impl ParticipantData {
    pub fn to_json(&self) -> (r: JsonValue)
        ensures
            participant_json_is(r, *self),
    {
        let fields = vec![
            entry("id", text(&self.id)),
            entry("admin", opt_text(&self.admin)),
            entry("phone_number", opt_text(&self.phone_number)),
        ];
        let r = JsonValue::Object(fields);
        assert(fields_are(fields@, seq!["id"@, "admin"@, "phone_number"@],
            seq![JsonValue::Text(self.id), opt_text_json(self.admin), opt_text_json(self.phone_number)]));
        r
    }
}

pub fn participants_to_json(ps: &Vec<ParticipantData>) -> (r: JsonValue)
    ensures
        participants_json_is(r, ps@),
{
    let mut items: Vec<JsonValue> = Vec::new();
    let mut i: usize = 0;
    while i < ps.len()
        invariant
            i <= ps@.len(),
            items@.len() == i,
            forall|k: int| 0 <= k < i ==> participant_json_is(#[trigger] items@[k], ps@[k]),
        decreases ps@.len() - i,
    {
        items.push(ps[i].to_json());
        i += 1;
    }
    JsonValue::Array(items)
}

/// The text to store for a group's participant list.
pub fn participants_text(ps: &Vec<ParticipantData>) -> (r: Option<String>)
    ensures
        participants_text_is(r, ps@),
{
    if ps.len() == 0 {
        None
    } else {
        let v = participants_to_json(ps);
        let t = render_json(&v);
        Some(t)
    }
}

/// What the solver needs to tell the protocol's tags and keys apart: the length of
/// each and, for two of one length, a position where they differ.
proof fn lemma_literal_facts()
    ensures
        "id"@.len() == 2,
        "qr"@.len() == 2,
        "to"@.len() == 2,
        "jid"@.len() == 3,
        "lid"@.len() == 3,
        "data"@.len() == 4,
        "name"@.len() == 4,
        "type"@.len() == 4,
        "Error"@.len() == 5,
        "Ready"@.len() == 5,
        "admin"@.len() == 5,
        "error"@.len() == 5,
        "limit"@.len() == 5,
        "owner"@.len() == 5,
        "QrCode"@.len() == 6,
        "groups"@.len() == 6,
        "notify"@.len() == 6,
        "reason"@.len() == 6,
        "status"@.len() == 6,
        "content"@.len() == 7,
        "img_url"@.len() == 7,
        "payload"@.len() == 7,
        "subject"@.len() == 7,
        "success"@.len() == 7,
        "Shutdown"@.len() == 8,
        "chat_jid"@.len() == 8,
        "contacts"@.len() == 8,
        "messages"@.len() == 8,
        "raw_json"@.len() == 8,
        "Connected"@.len() == 9,
        "GetGroups"@.len() == 9,
        "GetQrCode"@.len() == 9,
        "LoggedOut"@.len() == 9,
        "timestamp"@.len() == 9,
        "account_id"@.len() == 10,
        "auth_state"@.len() == 10,
        "command_id"@.len() == 10,
        "is_from_me"@.len() == 10,
        "message_id"@.len() == 10,
        "sender_jid"@.len() == 10,
        "GetContacts"@.len() == 11,
        "GetMessages"@.len() == 11,
        "SendMessage"@.len() == 11,
        "StopAccount"@.len() == 11,
        "description"@.len() == 11,
        "Disconnected"@.len() == 12,
        "GroupsUpdate"@.len() == 12,
        "GroupsUpsert"@.len() == 12,
        "SetAuthState"@.len() == 12,
        "StartAccount"@.len() == 12,
        "message_type"@.len() == 12,
        "participants"@.len() == 12,
        "phone_number"@.len() == 12,
        "CommandResult"@.len() == 13,
        "verified_name"@.len() == 13,
        "ContactsUpdate"@.len() == 14,
        "ContactsUpsert"@.len() == 14,
        "MessagesUpsert"@.len() == 14,
        "messages_count"@.len() == 14,
        "AuthStateUpdated"@.len() == 16,
        "HistorySyncComplete"@.len() == 19,
        "id"@[0] == 'i' && "qr"@[0] == 'q',
        "id"@[0] == 'i' && "to"@[0] == 't',
        "qr"@[0] == 'q' && "to"@[0] == 't',
        "jid"@[0] == 'j' && "lid"@[0] == 'l',
        "data"@[0] == 'd' && "name"@[0] == 'n',
        "data"@[0] == 'd' && "type"@[0] == 't',
        "name"@[0] == 'n' && "type"@[0] == 't',
        "Error"@[0] == 'E' && "Ready"@[0] == 'R',
        "Error"@[0] == 'E' && "admin"@[0] == 'a',
        "Error"@[0] == 'E' && "error"@[0] == 'e',
        "Error"@[0] == 'E' && "limit"@[0] == 'l',
        "Error"@[0] == 'E' && "owner"@[0] == 'o',
        "Ready"@[0] == 'R' && "admin"@[0] == 'a',
        "Ready"@[0] == 'R' && "error"@[0] == 'e',
        "Ready"@[0] == 'R' && "limit"@[0] == 'l',
        "Ready"@[0] == 'R' && "owner"@[0] == 'o',
        "admin"@[0] == 'a' && "error"@[0] == 'e',
        "admin"@[0] == 'a' && "limit"@[0] == 'l',
        "admin"@[0] == 'a' && "owner"@[0] == 'o',
        "error"@[0] == 'e' && "limit"@[0] == 'l',
        "error"@[0] == 'e' && "owner"@[0] == 'o',
        "limit"@[0] == 'l' && "owner"@[0] == 'o',
        "QrCode"@[0] == 'Q' && "groups"@[0] == 'g',
        "QrCode"@[0] == 'Q' && "notify"@[0] == 'n',
        "QrCode"@[0] == 'Q' && "reason"@[0] == 'r',
        "QrCode"@[0] == 'Q' && "status"@[0] == 's',
        "groups"@[0] == 'g' && "notify"@[0] == 'n',
        "groups"@[0] == 'g' && "reason"@[0] == 'r',
        "groups"@[0] == 'g' && "status"@[0] == 's',
        "notify"@[0] == 'n' && "reason"@[0] == 'r',
        "notify"@[0] == 'n' && "status"@[0] == 's',
        "reason"@[0] == 'r' && "status"@[0] == 's',
        "content"@[0] == 'c' && "img_url"@[0] == 'i',
        "content"@[0] == 'c' && "payload"@[0] == 'p',
        "content"@[0] == 'c' && "subject"@[0] == 's',
        "content"@[0] == 'c' && "success"@[0] == 's',
        "img_url"@[0] == 'i' && "payload"@[0] == 'p',
        "img_url"@[0] == 'i' && "subject"@[0] == 's',
        "img_url"@[0] == 'i' && "success"@[0] == 's',
        "payload"@[0] == 'p' && "subject"@[0] == 's',
        "payload"@[0] == 'p' && "success"@[0] == 's',
        "subject"@[2] == 'b' && "success"@[2] == 'c',
        "Shutdown"@[0] == 'S' && "chat_jid"@[0] == 'c',
        "Shutdown"@[0] == 'S' && "contacts"@[0] == 'c',
        "Shutdown"@[0] == 'S' && "messages"@[0] == 'm',
        "Shutdown"@[0] == 'S' && "raw_json"@[0] == 'r',
        "chat_jid"@[1] == 'h' && "contacts"@[1] == 'o',
        "chat_jid"@[0] == 'c' && "messages"@[0] == 'm',
        "chat_jid"@[0] == 'c' && "raw_json"@[0] == 'r',
        "contacts"@[0] == 'c' && "messages"@[0] == 'm',
        "contacts"@[0] == 'c' && "raw_json"@[0] == 'r',
        "messages"@[0] == 'm' && "raw_json"@[0] == 'r',
        "Connected"@[0] == 'C' && "GetGroups"@[0] == 'G',
        "Connected"@[0] == 'C' && "GetQrCode"@[0] == 'G',
        "Connected"@[0] == 'C' && "LoggedOut"@[0] == 'L',
        "Connected"@[0] == 'C' && "timestamp"@[0] == 't',
        "GetGroups"@[3] == 'G' && "GetQrCode"@[3] == 'Q',
        "GetGroups"@[0] == 'G' && "LoggedOut"@[0] == 'L',
        "GetGroups"@[0] == 'G' && "timestamp"@[0] == 't',
        "GetQrCode"@[0] == 'G' && "LoggedOut"@[0] == 'L',
        "GetQrCode"@[0] == 'G' && "timestamp"@[0] == 't',
        "LoggedOut"@[0] == 'L' && "timestamp"@[0] == 't',
        "account_id"@[1] == 'c' && "auth_state"@[1] == 'u',
        "account_id"@[0] == 'a' && "command_id"@[0] == 'c',
        "account_id"@[0] == 'a' && "is_from_me"@[0] == 'i',
        "account_id"@[0] == 'a' && "message_id"@[0] == 'm',
        "account_id"@[0] == 'a' && "sender_jid"@[0] == 's',
        "auth_state"@[0] == 'a' && "command_id"@[0] == 'c',
        "auth_state"@[0] == 'a' && "is_from_me"@[0] == 'i',
        "auth_state"@[0] == 'a' && "message_id"@[0] == 'm',
        "auth_state"@[0] == 'a' && "sender_jid"@[0] == 's',
        "command_id"@[0] == 'c' && "is_from_me"@[0] == 'i',
        "command_id"@[0] == 'c' && "message_id"@[0] == 'm',
        "command_id"@[0] == 'c' && "sender_jid"@[0] == 's',
        "is_from_me"@[0] == 'i' && "message_id"@[0] == 'm',
        "is_from_me"@[0] == 'i' && "sender_jid"@[0] == 's',
        "message_id"@[0] == 'm' && "sender_jid"@[0] == 's',
        "GetContacts"@[3] == 'C' && "GetMessages"@[3] == 'M',
        "GetContacts"@[0] == 'G' && "SendMessage"@[0] == 'S',
        "GetContacts"@[0] == 'G' && "StopAccount"@[0] == 'S',
        "GetContacts"@[0] == 'G' && "description"@[0] == 'd',
        "GetMessages"@[0] == 'G' && "SendMessage"@[0] == 'S',
        "GetMessages"@[0] == 'G' && "StopAccount"@[0] == 'S',
        "GetMessages"@[0] == 'G' && "description"@[0] == 'd',
        "SendMessage"@[1] == 'e' && "StopAccount"@[1] == 't',
        "SendMessage"@[0] == 'S' && "description"@[0] == 'd',
        "StopAccount"@[0] == 'S' && "description"@[0] == 'd',
        "Disconnected"@[0] == 'D' && "GroupsUpdate"@[0] == 'G',
        "Disconnected"@[0] == 'D' && "GroupsUpsert"@[0] == 'G',
        "Disconnected"@[0] == 'D' && "SetAuthState"@[0] == 'S',
        "Disconnected"@[0] == 'D' && "StartAccount"@[0] == 'S',
        "Disconnected"@[0] == 'D' && "message_type"@[0] == 'm',
        "Disconnected"@[0] == 'D' && "participants"@[0] == 'p',
        "Disconnected"@[0] == 'D' && "phone_number"@[0] == 'p',
        "GroupsUpdate"@[8] == 'd' && "GroupsUpsert"@[8] == 's',
        "GroupsUpdate"@[0] == 'G' && "SetAuthState"@[0] == 'S',
        "GroupsUpdate"@[0] == 'G' && "StartAccount"@[0] == 'S',
        "GroupsUpdate"@[0] == 'G' && "message_type"@[0] == 'm',
        "GroupsUpdate"@[0] == 'G' && "participants"@[0] == 'p',
        "GroupsUpdate"@[0] == 'G' && "phone_number"@[0] == 'p',
        "GroupsUpsert"@[0] == 'G' && "SetAuthState"@[0] == 'S',
        "GroupsUpsert"@[0] == 'G' && "StartAccount"@[0] == 'S',
        "GroupsUpsert"@[0] == 'G' && "message_type"@[0] == 'm',
        "GroupsUpsert"@[0] == 'G' && "participants"@[0] == 'p',
        "GroupsUpsert"@[0] == 'G' && "phone_number"@[0] == 'p',
        "SetAuthState"@[1] == 'e' && "StartAccount"@[1] == 't',
        "SetAuthState"@[0] == 'S' && "message_type"@[0] == 'm',
        "SetAuthState"@[0] == 'S' && "participants"@[0] == 'p',
        "SetAuthState"@[0] == 'S' && "phone_number"@[0] == 'p',
        "StartAccount"@[0] == 'S' && "message_type"@[0] == 'm',
        "StartAccount"@[0] == 'S' && "participants"@[0] == 'p',
        "StartAccount"@[0] == 'S' && "phone_number"@[0] == 'p',
        "message_type"@[0] == 'm' && "participants"@[0] == 'p',
        "message_type"@[0] == 'm' && "phone_number"@[0] == 'p',
        "participants"@[1] == 'a' && "phone_number"@[1] == 'h',
        "CommandResult"@[0] == 'C' && "verified_name"@[0] == 'v',
        "ContactsUpdate"@[10] == 'd' && "ContactsUpsert"@[10] == 's',
        "ContactsUpdate"@[0] == 'C' && "MessagesUpsert"@[0] == 'M',
        "ContactsUpdate"@[0] == 'C' && "messages_count"@[0] == 'm',
        "ContactsUpsert"@[0] == 'C' && "MessagesUpsert"@[0] == 'M',
        "ContactsUpsert"@[0] == 'C' && "messages_count"@[0] == 'm',
        "MessagesUpsert"@[0] == 'M' && "messages_count"@[0] == 'm',
{
    reveal_strlit("id");
    reveal_strlit("qr");
    reveal_strlit("to");
    reveal_strlit("jid");
    reveal_strlit("lid");
    reveal_strlit("data");
    reveal_strlit("name");
    reveal_strlit("type");
    reveal_strlit("Error");
    reveal_strlit("Ready");
    reveal_strlit("admin");
    reveal_strlit("error");
    reveal_strlit("limit");
    reveal_strlit("owner");
    reveal_strlit("QrCode");
    reveal_strlit("groups");
    reveal_strlit("notify");
    reveal_strlit("reason");
    reveal_strlit("status");
    reveal_strlit("content");
    reveal_strlit("img_url");
    reveal_strlit("payload");
    reveal_strlit("subject");
    reveal_strlit("success");
    reveal_strlit("Shutdown");
    reveal_strlit("chat_jid");
    reveal_strlit("contacts");
    reveal_strlit("messages");
    reveal_strlit("raw_json");
    reveal_strlit("Connected");
    reveal_strlit("GetGroups");
    reveal_strlit("GetQrCode");
    reveal_strlit("LoggedOut");
    reveal_strlit("timestamp");
    reveal_strlit("account_id");
    reveal_strlit("auth_state");
    reveal_strlit("command_id");
    reveal_strlit("is_from_me");
    reveal_strlit("message_id");
    reveal_strlit("sender_jid");
    reveal_strlit("GetContacts");
    reveal_strlit("GetMessages");
    reveal_strlit("SendMessage");
    reveal_strlit("StopAccount");
    reveal_strlit("description");
    reveal_strlit("Disconnected");
    reveal_strlit("GroupsUpdate");
    reveal_strlit("GroupsUpsert");
    reveal_strlit("SetAuthState");
    reveal_strlit("StartAccount");
    reveal_strlit("message_type");
    reveal_strlit("participants");
    reveal_strlit("phone_number");
    reveal_strlit("CommandResult");
    reveal_strlit("verified_name");
    reveal_strlit("ContactsUpdate");
    reveal_strlit("ContactsUpsert");
    reveal_strlit("MessagesUpsert");
    reveal_strlit("messages_count");
    reveal_strlit("AuthStateUpdated");
    reveal_strlit("HistorySyncComplete");
}

/// The keys are pairwise different.
pub open spec fn distinct_keys(keys: Seq<Seq<char>>) -> bool {
    forall|i: int, j: int| 0 <= i < j < keys.len() ==> keys[i] != keys[j]
}

proof fn lemma_fields_lookup(fields: Seq<(String, JsonValue)>, keys: Seq<Seq<char>>, values: Seq<JsonValue>)
    requires
        fields_are(fields, keys, values),
        distinct_keys(keys),
    ensures
        forall|j: int| 0 <= j < keys.len() ==> field_of(fields, #[trigger] keys[j]) == Some(values[j]),
    decreases fields.len(),
{
    if fields.len() > 0 {
        lemma_fields_lookup(fields.drop_first(), keys.drop_first(), values.drop_first());
        assert forall|j: int| 0 <= j < keys.len() implies field_of(fields, #[trigger] keys[j]) == Some(values[j]) by {
            if j > 0 {
                assert(keys.drop_first()[j - 1] == keys[j]);
            }
        }
    }
}

// Reading typed fields out of an object's fields.

pub open spec fn text_at(p: Seq<(String, JsonValue)>, key: Seq<char>) -> Option<String> {
    match field_of(p, key) {
        Some(JsonValue::Text(s)) => Some(s),
        _ => None,
    }
}

/// An optional text: absent or `null` is `None`.
pub open spec fn opt_text_at(p: Seq<(String, JsonValue)>, key: Seq<char>) -> Option<Option<String>> {
    match field_of(p, key) {
        None => Some(None),
        Some(JsonValue::Null) => Some(None),
        Some(JsonValue::Text(s)) => Some(Some(s)),
        _ => None,
    }
}

pub open spec fn i64_at(p: Seq<(String, JsonValue)>, key: Seq<char>) -> Option<i64> {
    match field_of(p, key) {
        Some(JsonValue::Number(n)) => if i64::MIN <= n <= i64::MAX { Some(n as i64) } else { None },
        _ => None,
    }
}

pub open spec fn usize_at(p: Seq<(String, JsonValue)>, key: Seq<char>) -> Option<usize> {
    match field_of(p, key) {
        Some(JsonValue::Number(n)) => if 0 <= n <= usize::MAX { Some(n as usize) } else { None },
        _ => None,
    }
}

pub open spec fn bool_at(p: Seq<(String, JsonValue)>, key: Seq<char>) -> Option<bool> {
    match field_of(p, key) {
        Some(JsonValue::Bool(b)) => Some(b),
        _ => None,
    }
}

pub open spec fn array_at(p: Seq<(String, JsonValue)>, key: Seq<char>) -> Option<Vec<JsonValue>> {
    match field_of(p, key) {
        Some(JsonValue::Array(items)) => Some(items),
        _ => None,
    }
}

/// Any JSON value, where absent or `null` is `None`.
pub open spec fn value_at(p: Seq<(String, JsonValue)>, key: Seq<char>) -> Option<JsonValue> {
    match field_of(p, key) {
        Some(JsonValue::Null) => None,
        v => v,
    }
}

fn field_index(p: &Vec<(String, JsonValue)>, key: &str) -> (r: Option<usize>)
    ensures
        match r {
            Some(i) => i < p@.len() && field_of(p@, key@) == Some(p@[i as int].1),
            None => field_of(p@, key@) is None,
        },
{
    let k = key.to_owned();
    let mut i: usize = 0;
    assert(p@.skip(0) =~= p@);
    while i < p.len()
        invariant
            i <= p@.len(),
            k@ == key@,
            field_of(p@, key@) == field_of(p@.skip(i as int), key@),
        decreases p@.len() - i,
    {
        assert(p@.skip(i as int).drop_first() =~= p@.skip(i + 1));
        if <String as PartialEq>::eq(&p[i].0, &k) {
            return Some(i);
        }
        i += 1;
    }
    None
}

fn text_field(p: &Vec<(String, JsonValue)>, key: &str) -> (r: Option<String>)
    ensures
        r == text_at(p@, key@),
{
    match get_field(p, key) {
        Some(JsonValue::Text(s)) => Some(s.clone()),
        _ => None,
    }
}

fn opt_text_field(p: &Vec<(String, JsonValue)>, key: &str) -> (r: Option<Option<String>>)
    ensures
        r == opt_text_at(p@, key@),
{
    match get_field(p, key) {
        None => Some(None),
        Some(JsonValue::Null) => Some(None),
        Some(JsonValue::Text(s)) => Some(Some(s.clone())),
        _ => None,
    }
}

fn i64_field(p: &Vec<(String, JsonValue)>, key: &str) -> (r: Option<i64>)
    ensures
        r == i64_at(p@, key@),
{
    match get_field(p, key) {
        Some(JsonValue::Number(n)) => if i64::MIN as i128 <= *n && *n <= i64::MAX as i128 { Some(*n as i64) } else { None },
        _ => None,
    }
}

fn usize_field(p: &Vec<(String, JsonValue)>, key: &str) -> (r: Option<usize>)
    ensures
        r == usize_at(p@, key@),
{
    match get_field(p, key) {
        Some(JsonValue::Number(n)) => if 0 <= *n && *n <= usize::MAX as i128 { Some(*n as usize) } else { None },
        _ => None,
    }
}

fn bool_field(p: &Vec<(String, JsonValue)>, key: &str) -> (r: Option<bool>)
    ensures
        r == bool_at(p@, key@),
{
    match get_field(p, key) {
        Some(JsonValue::Bool(b)) => Some(*b),
        _ => None,
    }
}

fn array_field<'a>(p: &'a Vec<(String, JsonValue)>, key: &str) -> (r: Option<&'a Vec<JsonValue>>)
    ensures
        match array_at(p@, key@) {
            Some(items) => r is Some && *r.unwrap() == items,
            None => r is None,
        },
{
    match get_field(p, key) {
        Some(JsonValue::Array(items)) => Some(items),
        _ => None,
    }
}

/// Moves the value under `key` out of the fields; absent or `null` is `None`.
fn take_value(p: &mut Vec<(String, JsonValue)>, key: &str) -> (r: Option<JsonValue>)
    ensures
        r == value_at(old(p)@, key@),
{
    match field_index(p, key) {
        Some(i) => {
            let (_, v) = p.remove(i);
            match v {
                JsonValue::Null => None,
                v => Some(v),
            }
        },
        None => None,
    }
}

// The records that events carry.

pub open spec fn contact_of(v: JsonValue) -> Option<ContactData> {
    match v {
        JsonValue::Object(f) => {
            let p = f@;
            match (text_at(p, "jid"@), opt_text_at(p, "lid"@), opt_text_at(p, "phone_number"@), opt_text_at(p, "name"@)) {
                (Some(jid), Some(lid), Some(phone_number), Some(name)) => match (
                    opt_text_at(p, "notify"@),
                    opt_text_at(p, "verified_name"@),
                    opt_text_at(p, "img_url"@),
                    opt_text_at(p, "status"@),
                ) {
                    (Some(notify), Some(verified_name), Some(img_url), Some(status)) => Some(
                        ContactData { jid, lid, phone_number, name, notify, verified_name, img_url, status },
                    ),
                    _ => None,
                },
                _ => None,
            }
        },
        _ => None,
    }
}

pub open spec fn participant_of(v: JsonValue) -> Option<ParticipantData> {
    match v {
        JsonValue::Object(f) => match (text_at(f@, "id"@), opt_text_at(f@, "admin"@), opt_text_at(f@, "phone_number"@)) {
            (Some(id), Some(admin), Some(phone_number)) => Some(ParticipantData { id, admin, phone_number }),
            _ => None,
        },
        _ => None,
    }
}

pub open spec fn message_of(v: JsonValue) -> Option<MessageData> {
    match v {
        JsonValue::Object(f) => {
            let p = f@;
            match (text_at(p, "message_id"@), text_at(p, "chat_jid"@), text_at(p, "sender_jid"@), opt_text_at(p, "content"@)) {
                (Some(message_id), Some(chat_jid), Some(sender_jid), Some(content)) => match (
                    text_at(p, "message_type"@),
                    i64_at(p, "timestamp"@),
                    bool_at(p, "is_from_me"@),
                    opt_text_at(p, "raw_json"@),
                ) {
                    (Some(message_type), Some(timestamp), Some(is_from_me), Some(raw_json)) => Some(
                        MessageData { message_id, chat_jid, sender_jid, content, message_type, timestamp, is_from_me, raw_json },
                    ),
                    _ => None,
                },
                _ => None,
            }
        },
        _ => None,
    }
}

pub open spec fn contacts_decode(items: Seq<JsonValue>, cs: Seq<ContactData>) -> bool {
    items.len() == cs.len() && forall|i: int| 0 <= i < items.len() ==> contact_of(#[trigger] items[i]) == Some(cs[i])
}

pub open spec fn contacts_ok(items: Seq<JsonValue>) -> bool {
    forall|i: int| 0 <= i < items.len() ==> (#[trigger] contact_of(items[i])) is Some
}

pub open spec fn participants_decode(items: Seq<JsonValue>, ps: Seq<ParticipantData>) -> bool {
    items.len() == ps.len() && forall|i: int| 0 <= i < items.len() ==> participant_of(#[trigger] items[i]) == Some(ps[i])
}

pub open spec fn participants_ok(items: Seq<JsonValue>) -> bool {
    forall|i: int| 0 <= i < items.len() ==> (#[trigger] participant_of(items[i])) is Some
}

pub open spec fn messages_decode(items: Seq<JsonValue>, ms: Seq<MessageData>) -> bool {
    items.len() == ms.len() && forall|i: int| 0 <= i < items.len() ==> message_of(#[trigger] items[i]) == Some(ms[i])
}

pub open spec fn messages_ok(items: Seq<JsonValue>) -> bool {
    forall|i: int| 0 <= i < items.len() ==> (#[trigger] message_of(items[i])) is Some
}

/// `v` is the JSON form of `g`.
pub open spec fn group_decodes(v: JsonValue, g: GroupData) -> bool {
    match v {
        JsonValue::Object(f) => {
            &&& text_at(f@, "jid"@) == Some(g.jid)
            &&& opt_text_at(f@, "subject"@) == Some(g.subject)
            &&& opt_text_at(f@, "owner"@) == Some(g.owner)
            &&& opt_text_at(f@, "description"@) == Some(g.description)
            &&& match array_at(f@, "participants"@) {
                Some(items) => participants_decode(items@, g.participants@),
                None => false,
            }
        },
        _ => false,
    }
}

/// `v` is the JSON form of some group.
pub open spec fn group_ok(v: JsonValue) -> bool {
    match v {
        JsonValue::Object(f) => {
            &&& text_at(f@, "jid"@) is Some
            &&& opt_text_at(f@, "subject"@) is Some
            &&& opt_text_at(f@, "owner"@) is Some
            &&& opt_text_at(f@, "description"@) is Some
            &&& match array_at(f@, "participants"@) {
                Some(items) => participants_ok(items@),
                None => false,
            }
        },
        _ => false,
    }
}

pub open spec fn groups_decode(items: Seq<JsonValue>, gs: Seq<GroupData>) -> bool {
    items.len() == gs.len() && forall|i: int| 0 <= i < items.len() ==> group_decodes(#[trigger] items[i], gs[i])
}

pub open spec fn groups_ok(items: Seq<JsonValue>) -> bool {
    forall|i: int| 0 <= i < items.len() ==> group_ok(#[trigger] items[i])
}

fn opt_text_into(o: Option<String>) -> (r: JsonValue)
    ensures
        r == opt_text_json(o),
{
    match o {
        Some(s) => JsonValue::Text(s),
        None => JsonValue::Null,
    }
}

impl ContactData {
    pub fn to_json(&self) -> (r: JsonValue)
        ensures
            contact_of(r) == Some(*self),
    {
        let fields = vec![
            entry("jid", text(&self.jid)),
            entry("lid", opt_text(&self.lid)),
            entry("phone_number", opt_text(&self.phone_number)),
            entry("name", opt_text(&self.name)),
            entry("notify", opt_text(&self.notify)),
            entry("verified_name", opt_text(&self.verified_name)),
            entry("img_url", opt_text(&self.img_url)),
            entry("status", opt_text(&self.status)),
        ];
        proof {
            lemma_literal_facts();
            let keys = seq!["jid"@, "lid"@, "phone_number"@, "name"@, "notify"@, "verified_name"@, "img_url"@, "status"@];
            let values = seq![
                JsonValue::Text(self.jid),
                opt_text_json(self.lid),
                opt_text_json(self.phone_number),
                opt_text_json(self.name),
                opt_text_json(self.notify),
                opt_text_json(self.verified_name),
                opt_text_json(self.img_url),
                opt_text_json(self.status),
            ];
            assert(fields_are(fields@, keys, values));
            lemma_fields_lookup(fields@, keys, values);
            assert(keys[0] == "jid"@ && keys[1] == "lid"@ && keys[2] == "phone_number"@ && keys[3] == "name"@);
            assert(keys[4] == "notify"@ && keys[5] == "verified_name"@ && keys[6] == "img_url"@ && keys[7] == "status"@);
        }
        JsonValue::Object(fields)
    }

    pub fn from_json(v: &JsonValue) -> (r: Option<ContactData>)
        ensures
            r == contact_of(*v),
    {
        match v {
            JsonValue::Object(f) => {
                let jid = text_field(f, "jid")?;
                let lid = opt_text_field(f, "lid")?;
                let phone_number = opt_text_field(f, "phone_number")?;
                let name = opt_text_field(f, "name")?;
                let notify = opt_text_field(f, "notify")?;
                let verified_name = opt_text_field(f, "verified_name")?;
                let img_url = opt_text_field(f, "img_url")?;
                let status = opt_text_field(f, "status")?;
                Some(ContactData { jid, lid, phone_number, name, notify, verified_name, img_url, status })
            },
            _ => None,
        }
    }
}

impl ParticipantData {
    pub fn from_json(v: &JsonValue) -> (r: Option<ParticipantData>)
        ensures
            r == participant_of(*v),
    {
        match v {
            JsonValue::Object(f) => {
                let id = text_field(f, "id")?;
                let admin = opt_text_field(f, "admin")?;
                let phone_number = opt_text_field(f, "phone_number")?;
                Some(ParticipantData { id, admin, phone_number })
            },
            _ => None,
        }
    }
}

proof fn lemma_participant_decodes(v: JsonValue, p: ParticipantData)
    requires
        participant_json_is(v, p),
    ensures
        participant_of(v) == Some(p),
{
    lemma_literal_facts();
    let keys = seq!["id"@, "admin"@, "phone_number"@];
    let values = seq![JsonValue::Text(p.id), opt_text_json(p.admin), opt_text_json(p.phone_number)];
    let f = v->Object_0@;
    lemma_fields_lookup(f, keys, values);
    assert(keys[0] == "id"@ && keys[1] == "admin"@ && keys[2] == "phone_number"@);
}

impl MessageData {
    pub fn to_json(&self) -> (r: JsonValue)
        ensures
            message_of(r) == Some(*self),
    {
        let fields = vec![
            entry("message_id", text(&self.message_id)),
            entry("chat_jid", text(&self.chat_jid)),
            entry("sender_jid", text(&self.sender_jid)),
            entry("content", opt_text(&self.content)),
            entry("message_type", text(&self.message_type)),
            entry("timestamp", JsonValue::Number(self.timestamp as i128)),
            entry("is_from_me", JsonValue::Bool(self.is_from_me)),
            entry("raw_json", opt_text(&self.raw_json)),
        ];
        proof {
            lemma_literal_facts();
            let keys = seq!["message_id"@, "chat_jid"@, "sender_jid"@, "content"@, "message_type"@, "timestamp"@, "is_from_me"@, "raw_json"@];
            let values = seq![
                JsonValue::Text(self.message_id),
                JsonValue::Text(self.chat_jid),
                JsonValue::Text(self.sender_jid),
                opt_text_json(self.content),
                JsonValue::Text(self.message_type),
                JsonValue::Number(self.timestamp as i128),
                JsonValue::Bool(self.is_from_me),
                opt_text_json(self.raw_json),
            ];
            assert(fields_are(fields@, keys, values));
            lemma_fields_lookup(fields@, keys, values);
            assert(keys[0] == "message_id"@ && keys[1] == "chat_jid"@ && keys[2] == "sender_jid"@ && keys[3] == "content"@);
            assert(keys[4] == "message_type"@ && keys[5] == "timestamp"@ && keys[6] == "is_from_me"@ && keys[7] == "raw_json"@);
        }
        JsonValue::Object(fields)
    }

    pub fn from_json(v: &JsonValue) -> (r: Option<MessageData>)
        ensures
            r == message_of(*v),
    {
        match v {
            JsonValue::Object(f) => {
                let message_id = text_field(f, "message_id")?;
                let chat_jid = text_field(f, "chat_jid")?;
                let sender_jid = text_field(f, "sender_jid")?;
                let content = opt_text_field(f, "content")?;
                let message_type = text_field(f, "message_type")?;
                let timestamp = i64_field(f, "timestamp")?;
                let is_from_me = bool_field(f, "is_from_me")?;
                let raw_json = opt_text_field(f, "raw_json")?;
                Some(MessageData { message_id, chat_jid, sender_jid, content, message_type, timestamp, is_from_me, raw_json })
            },
            _ => None,
        }
    }
}

fn participants_from_json(items: &Vec<JsonValue>) -> (r: Option<Vec<ParticipantData>>)
    ensures
        match r {
            Some(ps) => participants_decode(items@, ps@),
            None => forall|ps: Seq<ParticipantData>| !participants_decode(items@, ps),
        },
{
    let mut out: Vec<ParticipantData> = Vec::new();
    let mut i: usize = 0;
    while i < items.len()
        invariant
            i <= items@.len(),
            out@.len() == i,
            forall|k: int| 0 <= k < i ==> participant_of(#[trigger] items@[k]) == Some(out@[k]),
        decreases items@.len() - i,
    {
        match ParticipantData::from_json(&items[i]) {
            Some(p) => out.push(p),
            None => {
                assert(participant_of(items@[i as int]) is None);
                return None;
            },
        }
        i += 1;
    }
    Some(out)
}

impl GroupData {
    pub fn to_json(&self) -> (r: JsonValue)
        ensures
            group_decodes(r, *self),
    {
        let ps = participants_to_json(&self.participants);
        proof {
            let items = ps->Array_0@;
            assert forall|i: int| 0 <= i < items.len() implies participant_of(#[trigger] items[i]) == Some(self.participants@[i]) by {
                lemma_participant_decodes(items[i], self.participants@[i]);
            }
        }
        let fields = vec![
            entry("jid", text(&self.jid)),
            entry("subject", opt_text(&self.subject)),
            entry("owner", opt_text(&self.owner)),
            entry("description", opt_text(&self.description)),
            entry("participants", ps),
        ];
        proof {
        lemma_literal_facts();
            let keys = seq!["jid"@, "subject"@, "owner"@, "description"@, "participants"@];
            let values = seq![
                JsonValue::Text(self.jid),
                opt_text_json(self.subject),
                opt_text_json(self.owner),
                opt_text_json(self.description),
                ps,
            ];
            assert(fields_are(fields@, keys, values));
            lemma_fields_lookup(fields@, keys, values);
            assert(keys[0] == "jid"@ && keys[1] == "subject"@ && keys[2] == "owner"@ && keys[3] == "description"@ && keys[4] == "participants"@);
        }
        JsonValue::Object(fields)
    }

    pub fn from_json(v: &JsonValue) -> (r: Option<GroupData>)
        ensures
            match r {
                Some(g) => group_decodes(*v, g),
                None => forall|g: GroupData| !group_decodes(*v, g),
            },
    {
        match v {
            JsonValue::Object(f) => {
                let jid = text_field(f, "jid")?;
                let subject = opt_text_field(f, "subject")?;
                let owner = opt_text_field(f, "owner")?;
                let description = opt_text_field(f, "description")?;
                let items = array_field(f, "participants")?;
                let participants = participants_from_json(items)?;
                Some(GroupData { jid, subject, owner, description, participants })
            },
            _ => None,
        }
    }
}

fn contacts_to_json(cs: &Vec<ContactData>) -> (r: Vec<JsonValue>)
    ensures
        contacts_decode(r@, cs@),
{
    let mut out: Vec<JsonValue> = Vec::new();
    let mut i: usize = 0;
    while i < cs.len()
        invariant
            i <= cs@.len(),
            out@.len() == i,
            forall|k: int| 0 <= k < i ==> contact_of(#[trigger] out@[k]) == Some(cs@[k]),
        decreases cs@.len() - i,
    {
        out.push(cs[i].to_json());
        i += 1;
    }
    out
}

fn contacts_from_json(items: &Vec<JsonValue>) -> (r: Option<Vec<ContactData>>)
    ensures
        match r {
            Some(cs) => contacts_decode(items@, cs@),
            None => forall|cs: Seq<ContactData>| !contacts_decode(items@, cs),
        },
{
    let mut out: Vec<ContactData> = Vec::new();
    let mut i: usize = 0;
    while i < items.len()
        invariant
            i <= items@.len(),
            out@.len() == i,
            forall|k: int| 0 <= k < i ==> contact_of(#[trigger] items@[k]) == Some(out@[k]),
        decreases items@.len() - i,
    {
        match ContactData::from_json(&items[i]) {
            Some(c) => out.push(c),
            None => {
                assert(contact_of(items@[i as int]) is None);
                return None;
            },
        }
        i += 1;
    }
    Some(out)
}

fn messages_to_json(ms: &Vec<MessageData>) -> (r: Vec<JsonValue>)
    ensures
        messages_decode(r@, ms@),
{
    let mut out: Vec<JsonValue> = Vec::new();
    let mut i: usize = 0;
    while i < ms.len()
        invariant
            i <= ms@.len(),
            out@.len() == i,
            forall|k: int| 0 <= k < i ==> message_of(#[trigger] out@[k]) == Some(ms@[k]),
        decreases ms@.len() - i,
    {
        out.push(ms[i].to_json());
        i += 1;
    }
    out
}

fn messages_from_json(items: &Vec<JsonValue>) -> (r: Option<Vec<MessageData>>)
    ensures
        match r {
            Some(ms) => messages_decode(items@, ms@),
            None => forall|ms: Seq<MessageData>| !messages_decode(items@, ms),
        },
{
    let mut out: Vec<MessageData> = Vec::new();
    let mut i: usize = 0;
    while i < items.len()
        invariant
            i <= items@.len(),
            out@.len() == i,
            forall|k: int| 0 <= k < i ==> message_of(#[trigger] items@[k]) == Some(out@[k]),
        decreases items@.len() - i,
    {
        match MessageData::from_json(&items[i]) {
            Some(m) => out.push(m),
            None => {
                assert(message_of(items@[i as int]) is None);
                return None;
            },
        }
        i += 1;
    }
    Some(out)
}

fn groups_to_json(gs: &Vec<GroupData>) -> (r: Vec<JsonValue>)
    ensures
        groups_decode(r@, gs@),
{
    let mut out: Vec<JsonValue> = Vec::new();
    let mut i: usize = 0;
    while i < gs.len()
        invariant
            i <= gs@.len(),
            out@.len() == i,
            forall|k: int| 0 <= k < i ==> group_decodes(#[trigger] out@[k], gs@[k]),
        decreases gs@.len() - i,
    {
        out.push(gs[i].to_json());
        i += 1;
    }
    out
}

fn groups_from_json(items: &Vec<JsonValue>) -> (r: Option<Vec<GroupData>>)
    ensures
        match r {
            Some(gs) => groups_decode(items@, gs@),
            None => forall|gs: Seq<GroupData>| !groups_decode(items@, gs),
        },
{
    let mut out: Vec<GroupData> = Vec::new();
    let mut i: usize = 0;
    while i < items.len()
        invariant
            i <= items@.len(),
            out@.len() == i,
            forall|k: int| 0 <= k < i ==> group_decodes(#[trigger] items@[k], out@[k]),
        decreases items@.len() - i,
    {
        match GroupData::from_json(&items[i]) {
            Some(g) => out.push(g),
            None => {
                assert forall|gs: Seq<GroupData>| !groups_decode(items@, gs) by {
                    if groups_decode(items@, gs) {
                        assert(group_decodes(items@[i as int], gs[i as int]));
                    }
                }
                return None;
            },
        }
        i += 1;
    }
    Some(out)
}


impl IpcEvent {
    /// Whether the event reads back from its JSON form unchanged, as a value and as
    /// text: all do but an error result whose data is `null` (it reads back as no
    /// data) or is not in the form that serde_json keeps (see `json_canonical`).
    pub open spec fn round_trips(self) -> bool {
        match self {
            IpcEvent::CommandResult { data, .. } => match data {
                Some(v) => v != JsonValue::Null && json_canonical(v),
                None => true,
            },
            _ => true,
        }
    }

    /// The event that its JSON form reads back as: an error result's `null` data
    /// becomes no data; every other event is unchanged.
    pub open spec fn read_back(self) -> IpcEvent {
        match self {
            IpcEvent::CommandResult { command_id, success, data, error } => IpcEvent::CommandResult {
                command_id: command_id,
                success: success,
                data: if data == Some(JsonValue::Null) { None } else { data },
                error: error,
            },
            _ => self,
        }
    }
}

/// The command that a tag and payload fields stand for; `Shutdown` carries no payload
/// and is read from the tag alone.
pub open spec fn command_of(tag: Seq<char>, p: Seq<(String, JsonValue)>) -> Option<IpcCommand> {
    if tag == "StartAccount"@ {
        match text_at(p, "account_id"@) { Some(account_id) => Some(IpcCommand::StartAccount { account_id }), None => None }
    } else if tag == "StopAccount"@ {
        match text_at(p, "account_id"@) { Some(account_id) => Some(IpcCommand::StopAccount { account_id }), None => None }
    } else if tag == "GetQrCode"@ {
        match text_at(p, "account_id"@) { Some(account_id) => Some(IpcCommand::GetQrCode { account_id }), None => None }
    } else if tag == "SendMessage"@ {
        match (text_at(p, "account_id"@), text_at(p, "to"@), text_at(p, "content"@)) { (Some(account_id), Some(to), Some(content)) => Some(IpcCommand::SendMessage { account_id, to, content }), _ => None }
    } else if tag == "GetContacts"@ {
        match text_at(p, "account_id"@) { Some(account_id) => Some(IpcCommand::GetContacts { account_id }), None => None }
    } else if tag == "GetGroups"@ {
        match text_at(p, "account_id"@) { Some(account_id) => Some(IpcCommand::GetGroups { account_id }), None => None }
    } else if tag == "GetMessages"@ {
        match (text_at(p, "account_id"@), opt_text_at(p, "chat_jid"@), i64_at(p, "limit"@)) { (Some(account_id), Some(chat_jid), Some(limit)) => Some(IpcCommand::GetMessages { account_id, chat_jid, limit }), _ => None }
    } else if tag == "SetAuthState"@ {
        match (text_at(p, "account_id"@), text_at(p, "auth_state"@)) { (Some(account_id), Some(auth_state)) => Some(IpcCommand::SetAuthState { account_id, auth_state }), _ => None }
    } else {
        None
    }
}

/// `e` is the event that a tag and payload fields stand for.
pub open spec fn event_decodes(tag: Seq<char>, p: Seq<(String, JsonValue)>, e: IpcEvent) -> bool {
    if tag == "Ready"@ {
        match e { IpcEvent::Ready { account_id } => (text_at(p, "account_id"@) == Some(account_id)), _ => false }
    } else if tag == "QrCode"@ {
        match e { IpcEvent::QrCode { account_id, qr } => (text_at(p, "account_id"@) == Some(account_id)) && (text_at(p, "qr"@) == Some(qr)), _ => false }
    } else if tag == "Connected"@ {
        match e { IpcEvent::Connected { account_id, phone_number } => (text_at(p, "account_id"@) == Some(account_id)) && (opt_text_at(p, "phone_number"@) == Some(phone_number)), _ => false }
    } else if tag == "Disconnected"@ {
        match e { IpcEvent::Disconnected { account_id, reason } => (text_at(p, "account_id"@) == Some(account_id)) && (text_at(p, "reason"@) == Some(reason)), _ => false }
    } else if tag == "LoggedOut"@ {
        match e { IpcEvent::LoggedOut { account_id } => (text_at(p, "account_id"@) == Some(account_id)), _ => false }
    } else if tag == "AuthStateUpdated"@ {
        match e { IpcEvent::AuthStateUpdated { account_id, auth_state } => (text_at(p, "account_id"@) == Some(account_id)) && (text_at(p, "auth_state"@) == Some(auth_state)), _ => false }
    } else if tag == "ContactsUpsert"@ {
        match e { IpcEvent::ContactsUpsert { account_id, contacts } => (text_at(p, "account_id"@) == Some(account_id)) && (match array_at(p, "contacts"@) { Some(items) => contacts_decode(items@, contacts@), None => false }), _ => false }
    } else if tag == "ContactsUpdate"@ {
        match e { IpcEvent::ContactsUpdate { account_id, contacts } => (text_at(p, "account_id"@) == Some(account_id)) && (match array_at(p, "contacts"@) { Some(items) => contacts_decode(items@, contacts@), None => false }), _ => false }
    } else if tag == "GroupsUpsert"@ {
        match e { IpcEvent::GroupsUpsert { account_id, groups } => (text_at(p, "account_id"@) == Some(account_id)) && (match array_at(p, "groups"@) { Some(items) => groups_decode(items@, groups@), None => false }), _ => false }
    } else if tag == "GroupsUpdate"@ {
        match e { IpcEvent::GroupsUpdate { account_id, groups } => (text_at(p, "account_id"@) == Some(account_id)) && (match array_at(p, "groups"@) { Some(items) => groups_decode(items@, groups@), None => false }), _ => false }
    } else if tag == "MessagesUpsert"@ {
        match e { IpcEvent::MessagesUpsert { account_id, messages } => (text_at(p, "account_id"@) == Some(account_id)) && (match array_at(p, "messages"@) { Some(items) => messages_decode(items@, messages@), None => false }), _ => false }
    } else if tag == "HistorySyncComplete"@ {
        match e { IpcEvent::HistorySyncComplete { account_id, messages_count } => (text_at(p, "account_id"@) == Some(account_id)) && (usize_at(p, "messages_count"@) == Some(messages_count)), _ => false }
    } else if tag == "Error"@ {
        match e { IpcEvent::Error { account_id, error } => (opt_text_at(p, "account_id"@) == Some(account_id)) && (text_at(p, "error"@) == Some(error)), _ => false }
    } else if tag == "CommandResult"@ {
        match e { IpcEvent::CommandResult { command_id, success, data, error } => (text_at(p, "command_id"@) == Some(command_id)) && (bool_at(p, "success"@) == Some(success)) && (value_at(p, "data"@) == data) && (opt_text_at(p, "error"@) == Some(error)), _ => false }
    } else {
        false
    }
}

fn is_tag(tag: &String, lit: &str) -> (r: bool)
    ensures
        r == (tag@ == lit@),
{
    <String as PartialEq>::eq(tag, &lit.to_owned())
}

/// `Null` for `None`.
pub open spec fn opt_value_json(o: Option<JsonValue>) -> JsonValue {
    match o {
        Some(v) => v,
        None => JsonValue::Null,
    }
}

fn opt_value_into(o: Option<JsonValue>) -> (r: JsonValue)
    ensures
        r == opt_value_json(o),
{
    match o {
        Some(v) => v,
        None => JsonValue::Null,
    }
}

fn command_from_payload(tag: &String, p: &Vec<(String, JsonValue)>) -> (r: Option<IpcCommand>)
    ensures
        r == command_of(tag@, p@),
{
    if is_tag(tag, "StartAccount") {
        let account_id = text_field(p, "account_id")?;
        Some(IpcCommand::StartAccount { account_id })
    } else if is_tag(tag, "StopAccount") {
        let account_id = text_field(p, "account_id")?;
        Some(IpcCommand::StopAccount { account_id })
    } else if is_tag(tag, "GetQrCode") {
        let account_id = text_field(p, "account_id")?;
        Some(IpcCommand::GetQrCode { account_id })
    } else if is_tag(tag, "SendMessage") {
        let account_id = text_field(p, "account_id")?;
        let to = text_field(p, "to")?;
        let content = text_field(p, "content")?;
        Some(IpcCommand::SendMessage { account_id, to, content })
    } else if is_tag(tag, "GetContacts") {
        let account_id = text_field(p, "account_id")?;
        Some(IpcCommand::GetContacts { account_id })
    } else if is_tag(tag, "GetGroups") {
        let account_id = text_field(p, "account_id")?;
        Some(IpcCommand::GetGroups { account_id })
    } else if is_tag(tag, "GetMessages") {
        let account_id = text_field(p, "account_id")?;
        let chat_jid = opt_text_field(p, "chat_jid")?;
        let limit = i64_field(p, "limit")?;
        Some(IpcCommand::GetMessages { account_id, chat_jid, limit })
    } else if is_tag(tag, "SetAuthState") {
        let account_id = text_field(p, "account_id")?;
        let auth_state = text_field(p, "auth_state")?;
        Some(IpcCommand::SetAuthState { account_id, auth_state })
    } else {
        None
    }
}

fn event_from_payload(tag: &String, p: Vec<(String, JsonValue)>) -> (r: Option<IpcEvent>)
    ensures
        match r {
            Some(e) => event_decodes(tag@, p@, e),
            None => forall|e: IpcEvent| !event_decodes(tag@, p@, e),
        },
{
    let mut p = p;
    if is_tag(tag, "Ready") {
        let account_id = text_field(&p, "account_id")?;
        Some(IpcEvent::Ready { account_id })
    } else if is_tag(tag, "QrCode") {
        let account_id = text_field(&p, "account_id")?;
        let qr = text_field(&p, "qr")?;
        Some(IpcEvent::QrCode { account_id, qr })
    } else if is_tag(tag, "Connected") {
        let account_id = text_field(&p, "account_id")?;
        let phone_number = opt_text_field(&p, "phone_number")?;
        Some(IpcEvent::Connected { account_id, phone_number })
    } else if is_tag(tag, "Disconnected") {
        let account_id = text_field(&p, "account_id")?;
        let reason = text_field(&p, "reason")?;
        Some(IpcEvent::Disconnected { account_id, reason })
    } else if is_tag(tag, "LoggedOut") {
        let account_id = text_field(&p, "account_id")?;
        Some(IpcEvent::LoggedOut { account_id })
    } else if is_tag(tag, "AuthStateUpdated") {
        let account_id = text_field(&p, "account_id")?;
        let auth_state = text_field(&p, "auth_state")?;
        Some(IpcEvent::AuthStateUpdated { account_id, auth_state })
    } else if is_tag(tag, "ContactsUpsert") {
        let account_id = text_field(&p, "account_id")?;
        let contacts = contacts_from_json(array_field(&p, "contacts")?)?;
        Some(IpcEvent::ContactsUpsert { account_id, contacts })
    } else if is_tag(tag, "ContactsUpdate") {
        let account_id = text_field(&p, "account_id")?;
        let contacts = contacts_from_json(array_field(&p, "contacts")?)?;
        Some(IpcEvent::ContactsUpdate { account_id, contacts })
    } else if is_tag(tag, "GroupsUpsert") {
        let account_id = text_field(&p, "account_id")?;
        let groups = groups_from_json(array_field(&p, "groups")?)?;
        Some(IpcEvent::GroupsUpsert { account_id, groups })
    } else if is_tag(tag, "GroupsUpdate") {
        let account_id = text_field(&p, "account_id")?;
        let groups = groups_from_json(array_field(&p, "groups")?)?;
        Some(IpcEvent::GroupsUpdate { account_id, groups })
    } else if is_tag(tag, "MessagesUpsert") {
        let account_id = text_field(&p, "account_id")?;
        let messages = messages_from_json(array_field(&p, "messages")?)?;
        Some(IpcEvent::MessagesUpsert { account_id, messages })
    } else if is_tag(tag, "HistorySyncComplete") {
        let account_id = text_field(&p, "account_id")?;
        let messages_count = usize_field(&p, "messages_count")?;
        Some(IpcEvent::HistorySyncComplete { account_id, messages_count })
    } else if is_tag(tag, "Error") {
        let account_id = opt_text_field(&p, "account_id")?;
        let error = text_field(&p, "error")?;
        Some(IpcEvent::Error { account_id, error })
    } else if is_tag(tag, "CommandResult") {
        let command_id = text_field(&p, "command_id")?;
        let success = bool_field(&p, "success")?;
        let error = opt_text_field(&p, "error")?;
        let data = take_value(&mut p, "data");
        Some(IpcEvent::CommandResult { command_id, success, data, error })
    } else {
        None
    }
}

impl IpcCommand {
    /// The tag of the command and, but for `Shutdown`, its payload fields.
    pub fn into_payload(self) -> (r: (&'static str, Option<Vec<(String, JsonValue)>>))
        ensures
            match r.1 {
                Some(p) => r.0@ != "Shutdown"@ && command_of(r.0@, p@) == Some(self),
                None => r.0@ == "Shutdown"@ && self is Shutdown,
            },
    {
        match self {
            IpcCommand::Shutdown => ("Shutdown", None),
            IpcCommand::StartAccount { account_id } => {
                let fields = vec![entry("account_id", JsonValue::Text(account_id))];
                proof {
                    lemma_literal_facts();
                    let keys = seq!["account_id"@];
                    let values = seq![JsonValue::Text(account_id)];
                    assert(fields_are(fields@, keys, values));
                    lemma_fields_lookup(fields@, keys, values);
                    assert(keys[0] == "account_id"@);
                }
                ("StartAccount", Some(fields))
            },
            IpcCommand::StopAccount { account_id } => {
                let fields = vec![entry("account_id", JsonValue::Text(account_id))];
                proof {
                    lemma_literal_facts();
                    let keys = seq!["account_id"@];
                    let values = seq![JsonValue::Text(account_id)];
                    assert(fields_are(fields@, keys, values));
                    lemma_fields_lookup(fields@, keys, values);
                    assert(keys[0] == "account_id"@);
                }
                ("StopAccount", Some(fields))
            },
            IpcCommand::GetQrCode { account_id } => {
                let fields = vec![entry("account_id", JsonValue::Text(account_id))];
                proof {
                    lemma_literal_facts();
                    let keys = seq!["account_id"@];
                    let values = seq![JsonValue::Text(account_id)];
                    assert(fields_are(fields@, keys, values));
                    lemma_fields_lookup(fields@, keys, values);
                    assert(keys[0] == "account_id"@);
                }
                ("GetQrCode", Some(fields))
            },
            IpcCommand::SendMessage { account_id, to, content } => {
                let fields = vec![entry("account_id", JsonValue::Text(account_id)), entry("to", JsonValue::Text(to)), entry("content", JsonValue::Text(content))];
                proof {
                    lemma_literal_facts();
                    let keys = seq!["account_id"@, "to"@, "content"@];
                    let values = seq![JsonValue::Text(account_id), JsonValue::Text(to), JsonValue::Text(content)];
                    assert(fields_are(fields@, keys, values));
                    lemma_fields_lookup(fields@, keys, values);
                    assert(keys[0] == "account_id"@ && keys[1] == "to"@ && keys[2] == "content"@);
                }
                ("SendMessage", Some(fields))
            },
            IpcCommand::GetContacts { account_id } => {
                let fields = vec![entry("account_id", JsonValue::Text(account_id))];
                proof {
                    lemma_literal_facts();
                    let keys = seq!["account_id"@];
                    let values = seq![JsonValue::Text(account_id)];
                    assert(fields_are(fields@, keys, values));
                    lemma_fields_lookup(fields@, keys, values);
                    assert(keys[0] == "account_id"@);
                }
                ("GetContacts", Some(fields))
            },
            IpcCommand::GetGroups { account_id } => {
                let fields = vec![entry("account_id", JsonValue::Text(account_id))];
                proof {
                    lemma_literal_facts();
                    let keys = seq!["account_id"@];
                    let values = seq![JsonValue::Text(account_id)];
                    assert(fields_are(fields@, keys, values));
                    lemma_fields_lookup(fields@, keys, values);
                    assert(keys[0] == "account_id"@);
                }
                ("GetGroups", Some(fields))
            },
            IpcCommand::GetMessages { account_id, chat_jid, limit } => {
                let fields = vec![entry("account_id", JsonValue::Text(account_id)), entry("chat_jid", opt_text_into(chat_jid)), entry("limit", JsonValue::Number(limit as i128))];
                proof {
                    lemma_literal_facts();
                    let keys = seq!["account_id"@, "chat_jid"@, "limit"@];
                    let values = seq![JsonValue::Text(account_id), opt_text_json(chat_jid), JsonValue::Number(limit as i128)];
                    assert(fields_are(fields@, keys, values));
                    lemma_fields_lookup(fields@, keys, values);
                    assert(keys[0] == "account_id"@ && keys[1] == "chat_jid"@ && keys[2] == "limit"@);
                }
                ("GetMessages", Some(fields))
            },
            IpcCommand::SetAuthState { account_id, auth_state } => {
                let fields = vec![entry("account_id", JsonValue::Text(account_id)), entry("auth_state", JsonValue::Text(auth_state))];
                proof {
                    lemma_literal_facts();
                    let keys = seq!["account_id"@, "auth_state"@];
                    let values = seq![JsonValue::Text(account_id), JsonValue::Text(auth_state)];
                    assert(fields_are(fields@, keys, values));
                    lemma_fields_lookup(fields@, keys, values);
                    assert(keys[0] == "account_id"@ && keys[1] == "auth_state"@);
                }
                ("SetAuthState", Some(fields))
            },
        }
    }
}

impl IpcEvent {
    /// The tag of the event and its payload fields. An error result carrying `null`
    /// data is written as `null`, which reads back as no data.
    pub fn into_payload(self) -> (r: (&'static str, Vec<(String, JsonValue)>))
        ensures
            r.0@ != "Shutdown"@,
            command_of(r.0@, r.1@) is None,
            event_decodes(r.0@, r.1@, self.read_back()),
            self.round_trips() ==> self.read_back() == self,
    {
        match self {
            IpcEvent::Ready { account_id } => {
                let fields = vec![entry("account_id", JsonValue::Text(account_id))];
                proof {
                    lemma_literal_facts();
                    let keys = seq!["account_id"@];
                    let values = seq![JsonValue::Text(account_id)];
                    assert(fields_are(fields@, keys, values));
                    lemma_fields_lookup(fields@, keys, values);
                    assert(keys[0] == "account_id"@);
                }
                ("Ready", fields)
            },
            IpcEvent::QrCode { account_id, qr } => {
                let fields = vec![entry("account_id", JsonValue::Text(account_id)), entry("qr", JsonValue::Text(qr))];
                proof {
                    lemma_literal_facts();
                    let keys = seq!["account_id"@, "qr"@];
                    let values = seq![JsonValue::Text(account_id), JsonValue::Text(qr)];
                    assert(fields_are(fields@, keys, values));
                    lemma_fields_lookup(fields@, keys, values);
                    assert(keys[0] == "account_id"@ && keys[1] == "qr"@);
                }
                ("QrCode", fields)
            },
            IpcEvent::Connected { account_id, phone_number } => {
                let fields = vec![entry("account_id", JsonValue::Text(account_id)), entry("phone_number", opt_text_into(phone_number))];
                proof {
                    lemma_literal_facts();
                    let keys = seq!["account_id"@, "phone_number"@];
                    let values = seq![JsonValue::Text(account_id), opt_text_json(phone_number)];
                    assert(fields_are(fields@, keys, values));
                    lemma_fields_lookup(fields@, keys, values);
                    assert(keys[0] == "account_id"@ && keys[1] == "phone_number"@);
                }
                ("Connected", fields)
            },
            IpcEvent::Disconnected { account_id, reason } => {
                let fields = vec![entry("account_id", JsonValue::Text(account_id)), entry("reason", JsonValue::Text(reason))];
                proof {
                    lemma_literal_facts();
                    let keys = seq!["account_id"@, "reason"@];
                    let values = seq![JsonValue::Text(account_id), JsonValue::Text(reason)];
                    assert(fields_are(fields@, keys, values));
                    lemma_fields_lookup(fields@, keys, values);
                    assert(keys[0] == "account_id"@ && keys[1] == "reason"@);
                }
                ("Disconnected", fields)
            },
            IpcEvent::LoggedOut { account_id } => {
                let fields = vec![entry("account_id", JsonValue::Text(account_id))];
                proof {
                    lemma_literal_facts();
                    let keys = seq!["account_id"@];
                    let values = seq![JsonValue::Text(account_id)];
                    assert(fields_are(fields@, keys, values));
                    lemma_fields_lookup(fields@, keys, values);
                    assert(keys[0] == "account_id"@);
                }
                ("LoggedOut", fields)
            },
            IpcEvent::AuthStateUpdated { account_id, auth_state } => {
                let fields = vec![entry("account_id", JsonValue::Text(account_id)), entry("auth_state", JsonValue::Text(auth_state))];
                proof {
                    lemma_literal_facts();
                    let keys = seq!["account_id"@, "auth_state"@];
                    let values = seq![JsonValue::Text(account_id), JsonValue::Text(auth_state)];
                    assert(fields_are(fields@, keys, values));
                    lemma_fields_lookup(fields@, keys, values);
                    assert(keys[0] == "account_id"@ && keys[1] == "auth_state"@);
                }
                ("AuthStateUpdated", fields)
            },
            IpcEvent::ContactsUpsert { account_id, contacts } => {
                let fields = vec![entry("account_id", JsonValue::Text(account_id)), entry("contacts", JsonValue::Array(contacts_to_json(&contacts)))];
                proof {
                    lemma_literal_facts();
                    let keys = seq!["account_id"@, "contacts"@];
                    let values = seq![JsonValue::Text(account_id), fields@[1].1];
                    assert(fields_are(fields@, keys, values));
                    lemma_fields_lookup(fields@, keys, values);
                    assert(keys[0] == "account_id"@ && keys[1] == "contacts"@);
                }
                ("ContactsUpsert", fields)
            },
            IpcEvent::ContactsUpdate { account_id, contacts } => {
                let fields = vec![entry("account_id", JsonValue::Text(account_id)), entry("contacts", JsonValue::Array(contacts_to_json(&contacts)))];
                proof {
                    lemma_literal_facts();
                    let keys = seq!["account_id"@, "contacts"@];
                    let values = seq![JsonValue::Text(account_id), fields@[1].1];
                    assert(fields_are(fields@, keys, values));
                    lemma_fields_lookup(fields@, keys, values);
                    assert(keys[0] == "account_id"@ && keys[1] == "contacts"@);
                }
                ("ContactsUpdate", fields)
            },
            IpcEvent::GroupsUpsert { account_id, groups } => {
                let fields = vec![entry("account_id", JsonValue::Text(account_id)), entry("groups", JsonValue::Array(groups_to_json(&groups)))];
                proof {
                    lemma_literal_facts();
                    let keys = seq!["account_id"@, "groups"@];
                    let values = seq![JsonValue::Text(account_id), fields@[1].1];
                    assert(fields_are(fields@, keys, values));
                    lemma_fields_lookup(fields@, keys, values);
                    assert(keys[0] == "account_id"@ && keys[1] == "groups"@);
                }
                ("GroupsUpsert", fields)
            },
            IpcEvent::GroupsUpdate { account_id, groups } => {
                let fields = vec![entry("account_id", JsonValue::Text(account_id)), entry("groups", JsonValue::Array(groups_to_json(&groups)))];
                proof {
                    lemma_literal_facts();
                    let keys = seq!["account_id"@, "groups"@];
                    let values = seq![JsonValue::Text(account_id), fields@[1].1];
                    assert(fields_are(fields@, keys, values));
                    lemma_fields_lookup(fields@, keys, values);
                    assert(keys[0] == "account_id"@ && keys[1] == "groups"@);
                }
                ("GroupsUpdate", fields)
            },
            IpcEvent::MessagesUpsert { account_id, messages } => {
                let fields = vec![entry("account_id", JsonValue::Text(account_id)), entry("messages", JsonValue::Array(messages_to_json(&messages)))];
                proof {
                    lemma_literal_facts();
                    let keys = seq!["account_id"@, "messages"@];
                    let values = seq![JsonValue::Text(account_id), fields@[1].1];
                    assert(fields_are(fields@, keys, values));
                    lemma_fields_lookup(fields@, keys, values);
                    assert(keys[0] == "account_id"@ && keys[1] == "messages"@);
                }
                ("MessagesUpsert", fields)
            },
            IpcEvent::HistorySyncComplete { account_id, messages_count } => {
                let fields = vec![entry("account_id", JsonValue::Text(account_id)), entry("messages_count", JsonValue::Number(messages_count as i128))];
                proof {
                    lemma_literal_facts();
                    let keys = seq!["account_id"@, "messages_count"@];
                    let values = seq![JsonValue::Text(account_id), JsonValue::Number(messages_count as i128)];
                    assert(fields_are(fields@, keys, values));
                    lemma_fields_lookup(fields@, keys, values);
                    assert(keys[0] == "account_id"@ && keys[1] == "messages_count"@);
                }
                ("HistorySyncComplete", fields)
            },
            IpcEvent::Error { account_id, error } => {
                let fields = vec![entry("account_id", opt_text_into(account_id)), entry("error", JsonValue::Text(error))];
                proof {
                    lemma_literal_facts();
                    let keys = seq!["account_id"@, "error"@];
                    let values = seq![opt_text_json(account_id), JsonValue::Text(error)];
                    assert(fields_are(fields@, keys, values));
                    lemma_fields_lookup(fields@, keys, values);
                    assert(keys[0] == "account_id"@ && keys[1] == "error"@);
                }
                ("Error", fields)
            },
            IpcEvent::CommandResult { command_id, success, data, error } => {
                let fields = vec![entry("command_id", JsonValue::Text(command_id)), entry("success", JsonValue::Bool(success)), entry("data", opt_value_into(data)), entry("error", opt_text_into(error))];
                proof {
                    lemma_literal_facts();
                    let keys = seq!["command_id"@, "success"@, "data"@, "error"@];
                    let values = seq![JsonValue::Text(command_id), JsonValue::Bool(success), opt_value_json(data), opt_text_json(error)];
                    assert(fields_are(fields@, keys, values));
                    lemma_fields_lookup(fields@, keys, values);
                    assert(keys[0] == "command_id"@ && keys[1] == "success"@ && keys[2] == "data"@ && keys[3] == "error"@);
                }
                ("CommandResult", fields)
            },
        }
    }
}


/// The content of an envelope: a command to the engine or an event from it.
#[derive(Debug, PartialEq)]
pub enum IpcMessageContent {
    Command(IpcCommand),
    Event(IpcEvent),
}

/// One line of the protocol: an identifier and a command or an event.
#[derive(Debug, PartialEq)]
pub struct IpcMessage {
    pub id: String,
    pub content: IpcMessageContent,
}

/// `m` is the message that the JSON value `v` stands for: an object with a text `id`,
/// a text `type`, and, but for `Shutdown`, an object `payload`. A command is tried
/// first, then an event.
pub open spec fn message_decodes(v: JsonValue, m: IpcMessage) -> bool {
    match v {
        JsonValue::Object(f) => match (text_at(f@, "id"@), text_at(f@, "type"@)) {
            (Some(id), Some(tag)) => m.id == id && if tag@ == "Shutdown"@ {
                m.content == IpcMessageContent::Command(IpcCommand::Shutdown)
            } else {
                match value_at(f@, "payload"@) {
                    Some(JsonValue::Object(pf)) => match command_of(tag@, pf@) {
                        Some(c) => m.content == IpcMessageContent::Command(c),
                        None => match m.content {
                            IpcMessageContent::Event(e) => event_decodes(tag@, pf@, e),
                            _ => false,
                        },
                    },
                    _ => false,
                }
            },
            _ => false,
        },
        _ => false,
    }
}

pub open spec fn group_same(a: GroupData, b: GroupData) -> bool {
    &&& a.jid == b.jid
    &&& a.subject == b.subject
    &&& a.owner == b.owner
    &&& a.description == b.description
    &&& a.participants@ == b.participants@
}

/// Equal events, where lists are compared by their elements.
pub open spec fn event_same(a: IpcEvent, b: IpcEvent) -> bool {
    match (a, b) {
        (IpcEvent::ContactsUpsert { account_id: x, contacts: c }, IpcEvent::ContactsUpsert { account_id: y, contacts: d }) => x == y && c@ == d@,
        (IpcEvent::ContactsUpdate { account_id: x, contacts: c }, IpcEvent::ContactsUpdate { account_id: y, contacts: d }) => x == y && c@ == d@,
        (IpcEvent::GroupsUpsert { account_id: x, groups: c }, IpcEvent::GroupsUpsert { account_id: y, groups: d }) => x == y && c@.len() == d@.len()
            && forall|i: int| 0 <= i < c@.len() ==> group_same(#[trigger] c@[i], d@[i]),
        (IpcEvent::GroupsUpdate { account_id: x, groups: c }, IpcEvent::GroupsUpdate { account_id: y, groups: d }) => x == y && c@.len() == d@.len()
            && forall|i: int| 0 <= i < c@.len() ==> group_same(#[trigger] c@[i], d@[i]),
        (IpcEvent::MessagesUpsert { account_id: x, messages: c }, IpcEvent::MessagesUpsert { account_id: y, messages: d }) => x == y && c@ == d@,
        _ => a == b,
    }
}

impl IpcMessage {
    /// Equal messages, where lists inside events are compared by their elements.
    pub open spec fn same_as(self, other: IpcMessage) -> bool {
        &&& self.id == other.id
        &&& match (self.content, other.content) {
            (IpcMessageContent::Command(a), IpcMessageContent::Command(b)) => a == b,
            (IpcMessageContent::Event(a), IpcMessageContent::Event(b)) => event_same(a, b),
            _ => false,
        }
    }

    pub open spec fn round_trips(self) -> bool {
        match self.content {
            IpcMessageContent::Event(e) => e.round_trips(),
            _ => true,
        }
    }

    /// The message that its JSON form reads back as; see `IpcEvent::read_back`.
    pub open spec fn read_back(self) -> IpcMessage {
        match self.content {
            IpcMessageContent::Event(e) => IpcMessage { id: self.id, content: IpcMessageContent::Event(e.read_back()) },
            _ => self,
        }
    }

    /// A message with a fresh identifier.
    pub fn new_command(command: IpcCommand) -> (r: IpcMessage)
        ensures
            r.content == IpcMessageContent::Command(command),
            is_hex(r.id@),
    {
        IpcMessage { id: generate_id(), content: IpcMessageContent::Command(command) }
    }

    /// A message with a fresh identifier.
    pub fn new_event(event: IpcEvent) -> (r: IpcMessage)
        ensures
            r.content == IpcMessageContent::Event(event),
            is_hex(r.id@),
    {
        IpcMessage { id: generate_id(), content: IpcMessageContent::Event(event) }
    }

    /// The JSON form of the message.
    pub fn to_json(self) -> (r: JsonValue)
        ensures
            message_decodes(r, self.read_back()),
            self.round_trips() ==> message_decodes(r, self),
    {
        let (tag, payload) = match self.content {
            IpcMessageContent::Command(c) => c.into_payload(),
            IpcMessageContent::Event(e) => {
                let (t, p) = e.into_payload();
                (t, Some(p))
            },
        };
        let ghost pv = payload;
        let mut fields = vec![entry("id", JsonValue::Text(self.id)), entry("type", JsonValue::Text(tag.to_owned()))];
        match payload {
            Some(p) => fields.push(entry("payload", JsonValue::Object(p))),
            None => {},
        }
        proof {
            lemma_literal_facts();
            if pv is Some {
                let keys = seq!["id"@, "type"@, "payload"@];
                let values = seq![fields@[0].1, fields@[1].1, JsonValue::Object(pv.unwrap())];
                assert(fields_are(fields@, keys, values));
                lemma_fields_lookup(fields@, keys, values);
                assert(keys[0] == "id"@ && keys[1] == "type"@ && keys[2] == "payload"@);
            } else {
                let keys = seq!["id"@, "type"@];
                let values = seq![fields@[0].1, fields@[1].1];
                assert(fields_are(fields@, keys, values));
                lemma_fields_lookup(fields@, keys, values);
                assert(keys[0] == "id"@ && keys[1] == "type"@);
            }
        }
        JsonValue::Object(fields)
    }

    /// The message that a JSON value stands for, if it stands for one.
    pub fn from_json(v: JsonValue) -> (r: Option<IpcMessage>)
        ensures
            match r {
                Some(m) => message_decodes(v, m),
                None => forall|m: IpcMessage| !message_decodes(v, m),
            },
    {
        match v {
            JsonValue::Object(f) => {
                let mut f = f;
                let ghost f0 = f@;
                let id = text_field(&f, "id")?;
                let tag = text_field(&f, "type")?;
                if is_tag(&tag, "Shutdown") {
                    return Some(IpcMessage { id, content: IpcMessageContent::Command(IpcCommand::Shutdown) });
                }
                let payload = take_value(&mut f, "payload");
                match payload {
                    Some(JsonValue::Object(pf)) => match command_from_payload(&tag, &pf) {
                        Some(c) => Some(IpcMessage { id, content: IpcMessageContent::Command(c) }),
                        None => match event_from_payload(&tag, pf) {
                            Some(e) => Some(IpcMessage { id, content: IpcMessageContent::Event(e) }),
                            None => None,
                        },
                    },
                    _ => None,
                }
            },
            _ => None,
        }
    }

    /// The protocol line of the message: its JSON text and one line break, which
    /// is the only one in the line.
    pub fn to_line(self) -> (r: String)
        ensures
            exists|v: JsonValue| #![trigger json_text(v)] (self.round_trips() ==> message_decodes(v, self)) && message_decodes(v, self.read_back())
                && r@ == json_text(v).push('\n'),
            r@.len() > 0,
            r@.last() == '\n',
            !r@.drop_last().contains('\n'),
    {
        let v = self.to_json();
        let text = render_json(&v);
        let r = text.concat("\n");
        proof {
            reveal_strlit("\n");
            assert(r@.drop_last() =~= text@);
            assert(r@ =~= json_text(v).push('\n'));
        }
        r
    }

    /// The message that a protocol line holds; malformed lines give `None`.
    pub fn from_line(line: &str) -> (r: Option<IpcMessage>)
        ensures
            match json_parse(line@) {
                Some(v) => match r {
                    Some(m) => message_decodes(v, m),
                    None => forall|m: IpcMessage| !message_decodes(v, m),
                },
                None => r is None,
            },
    {
        match parse_json(line) {
            Some(v) => IpcMessage::from_json(v),
            None => None,
        }
    }
}

proof fn lemma_event_decodes_unique(tag: Seq<char>, p: Seq<(String, JsonValue)>, a: IpcEvent, b: IpcEvent)
    requires
        event_decodes(tag, p, a),
        event_decodes(tag, p, b),
    ensures
        event_same(a, b),
{
    match (a, b) {
        (IpcEvent::ContactsUpsert { contacts: c, .. }, IpcEvent::ContactsUpsert { contacts: d, .. }) => {
            let items = array_at(p, "contacts"@).unwrap()@;
            assert(contacts_decode(items, c@) && contacts_decode(items, d@));
            assert forall|i: int| 0 <= i < c@.len() implies c@[i] == d@[i] by {
                assert(contact_of(items[i]) == Some(c@[i]));
            }
            assert(c@ =~= d@);
        },
        (IpcEvent::ContactsUpdate { contacts: c, .. }, IpcEvent::ContactsUpdate { contacts: d, .. }) => {
            let items = array_at(p, "contacts"@).unwrap()@;
            assert(contacts_decode(items, c@) && contacts_decode(items, d@));
            assert forall|i: int| 0 <= i < c@.len() implies c@[i] == d@[i] by {
                assert(contact_of(items[i]) == Some(c@[i]));
            }
            assert(c@ =~= d@);
        },
        (IpcEvent::MessagesUpsert { messages: c, .. }, IpcEvent::MessagesUpsert { messages: d, .. }) => {
            let items = array_at(p, "messages"@).unwrap()@;
            assert(messages_decode(items, c@) && messages_decode(items, d@));
            assert forall|i: int| 0 <= i < c@.len() implies c@[i] == d@[i] by {
                assert(message_of(items[i]) == Some(c@[i]));
            }
            assert(c@ =~= d@);
        },
        (IpcEvent::GroupsUpsert { groups: c, .. }, IpcEvent::GroupsUpsert { groups: d, .. }) => {
            lemma_groups_unique(array_at(p, "groups"@).unwrap()@, c@, d@);
        },
        (IpcEvent::GroupsUpdate { groups: c, .. }, IpcEvent::GroupsUpdate { groups: d, .. }) => {
            lemma_groups_unique(array_at(p, "groups"@).unwrap()@, c@, d@);
        },
        _ => {},
    }
}

proof fn lemma_groups_unique(items: Seq<JsonValue>, c: Seq<GroupData>, d: Seq<GroupData>)
    requires
        groups_decode(items, c),
        groups_decode(items, d),
    ensures
        c.len() == d.len(),
        forall|i: int| 0 <= i < c.len() ==> group_same(#[trigger] c[i], d[i]),
{
    assert forall|i: int| 0 <= i < c.len() implies group_same(#[trigger] c[i], d[i]) by {
        assert(group_decodes(items[i], c[i]));
        assert(group_decodes(items[i], d[i]));
        let f = items[i]->Object_0@;
        let pi = array_at(f, "participants"@).unwrap()@;
        assert(c[i].participants@ =~= d[i].participants@) by {
            assert forall|k: int| 0 <= k < pi.len() implies c[i].participants@[k] == d[i].participants@[k] by {
                assert(participant_of(pi[k]) == Some(c[i].participants@[k]));
                assert(participant_of(pi[k]) == Some(d[i].participants@[k]));
            }
        }
    }
}

/// Reading back what `to_json` wrote gives the message that was written: a message
/// that round-trips (every one but an error result with `null` data) is the only
/// message, up to equal list elements, that its JSON form decodes to, and
/// `from_json` returns a message whenever one decodes.
pub proof fn codec_round_trip(m: IpcMessage, v: JsonValue)
    requires
        m.round_trips(),
        message_decodes(v, m),
    ensures
        forall|d: IpcMessage| #[trigger] message_decodes(v, d) ==> d.same_as(m),
{
    assert forall|d: IpcMessage| #[trigger] message_decodes(v, d) implies d.same_as(m) by {
        let f = v->Object_0@;
        let tag = text_at(f, "type"@).unwrap();
        if tag@ != "Shutdown"@ {
            let pf = value_at(f, "payload"@).unwrap()->Object_0@;
            if command_of(tag@, pf) is None {
                lemma_event_decodes_unique(tag@, pf, d.content->Event_0, m.content->Event_0);
            }
        }
    }
}

pub open spec fn hex_digit(d: nat) -> char {
    if d < 10 {
        ('0' as u8 + d) as char
    } else {
        ('a' as u8 + (d - 10)) as char
    }
}

/// The lower-case hexadecimal digits of `n`, without leading zeros.
pub open spec fn hex_of(n: nat) -> Seq<char>
    decreases n,
{
    if n < 16 {
        seq![hex_digit(n)]
    } else {
        hex_of(n / 16).push(hex_digit(n % 16))
    }
}

pub open spec fn is_hex(s: Seq<char>) -> bool {
    s.len() > 0 && forall|i: int| 0 <= i < s.len() ==> ('0' <= #[trigger] s[i] <= '9' || 'a' <= s[i] <= 'f')
}

fn hex_digit_text(d: u128) -> (r: &'static str)
    requires
        d < 16,
    ensures
        r@ == seq![hex_digit(d as nat)],
{
    proof {
        reveal_strlit("0"); reveal_strlit("1"); reveal_strlit("2"); reveal_strlit("3");
        reveal_strlit("4"); reveal_strlit("5"); reveal_strlit("6"); reveal_strlit("7");
        reveal_strlit("8"); reveal_strlit("9"); reveal_strlit("a"); reveal_strlit("b");
        reveal_strlit("c"); reveal_strlit("d"); reveal_strlit("e"); reveal_strlit("f");
    }
    let r = if d == 0 { "0" } else if d == 1 { "1" } else if d == 2 { "2" } else if d == 3 { "3" }
        else if d == 4 { "4" } else if d == 5 { "5" } else if d == 6 { "6" } else if d == 7 { "7" }
        else if d == 8 { "8" } else if d == 9 { "9" } else if d == 10 { "a" } else if d == 11 { "b" }
        else if d == 12 { "c" } else if d == 13 { "d" } else if d == 14 { "e" } else { "f" };
    assert(r@ =~= seq![hex_digit(d as nat)]);
    r
}

/// `n` written in lower-case hexadecimal.
pub fn to_hex(n: u128) -> (r: String)
    ensures
        r@ == hex_of(n as nat),
        is_hex(r@),
{
    let mut rest = n / 16;
    let mut s = String::from_str(hex_digit_text(n % 16));
    assert(hex_of(n as nat) == (if rest == 0 { Seq::<char>::empty() } else { hex_of(rest as nat) }) + s@) by {
        if n >= 16 {
            assert(hex_of(n as nat) =~= hex_of((n / 16) as nat) + seq![hex_digit((n % 16) as nat)]);
        } else {
            assert(hex_of(n as nat) =~= Seq::<char>::empty() + seq![hex_digit((n % 16) as nat)]);
        }
    }
    while rest > 0
        invariant
            hex_of(n as nat) == (if rest == 0 { Seq::<char>::empty() } else { hex_of(rest as nat) }) + s@,
            is_hex(s@),
        decreases rest,
    {
        let d = hex_digit_text(rest % 16);
        let ghost old_s = s@;
        s = String::from_str(d).concat(s.as_str());
        let ghost r0 = rest;
        rest = rest / 16;
        proof {
            if r0 >= 16 {
                assert(hex_of(r0 as nat) =~= hex_of(rest as nat) + seq![hex_digit((r0 % 16) as nat)]);
            } else {
                assert(hex_of(r0 as nat) =~= Seq::<char>::empty() + seq![hex_digit((r0 % 16) as nat)]);
            }
            assert(s@ =~= seq![hex_digit((r0 % 16) as nat)] + old_s);
            assert(hex_of(n as nat) =~= (if rest == 0 { Seq::<char>::empty() } else { hex_of(rest as nat) }) + s@);
        }
    }
    assert(hex_of(n as nat) =~= s@);
    s
}

/// A fresh envelope identifier: the current time in nanoseconds, in hexadecimal.
/// Good enough to correlate log lines; not guaranteed unique.
pub fn generate_id() -> (r: String)
    ensures
        is_hex(r@),
        exists|n: u128| r@ == hex_of(n as nat),
{
    to_hex(crate::clock::unix_time_nanos())
}

} // verus!
