//! The persistence store: accounts, contacts, groups and messages, with
//! upsert-merge and insert-or-ignore semantics and cascading account deletion.
use vstd::multiset::Multiset;
use vstd::prelude::*;

use crate::events::{copy_opt, ContactData, MessageData};

verus! {

#[derive(Debug, Clone, PartialEq)]
pub struct Account {
    pub id: String,
    pub name: Option<String>,
    pub phone_number: Option<String>,
    pub auth_state: Option<String>,
    pub created_at: i64,
    pub updated_at: i64,
}

#[derive(Debug, Clone, PartialEq)]
pub struct Contact {
    pub id: i64,
    pub account_id: String,
    pub jid: String,
    pub lid: Option<String>,
    pub phone_number: Option<String>,
    pub name: Option<String>,
    pub notify_name: Option<String>,
    pub verified_name: Option<String>,
    pub img_url: Option<String>,
    pub status: Option<String>,
    pub is_local: bool,
    pub created_at: i64,
    pub updated_at: i64,
}

#[derive(Debug, Clone, PartialEq)]
pub struct Group {
    pub id: i64,
    pub account_id: String,
    pub jid: String,
    pub subject: Option<String>,
    pub owner: Option<String>,
    pub description: Option<String>,
    pub participants_json: Option<String>,
    pub created_at: i64,
    pub updated_at: i64,
}

#[derive(Debug, Clone, PartialEq)]
pub struct Message {
    pub id: i64,
    pub account_id: String,
    pub message_id: String,
    pub chat_jid: String,
    pub sender_jid: String,
    pub content: Option<String>,
    pub message_type: String,
    pub timestamp: i64,
    pub is_from_me: bool,
    pub raw_json: Option<String>,
    pub created_at: i64,
}

/// A group member as stored inside a group's participant list.
#[derive(Debug, Clone, PartialEq)]
pub struct GroupParticipant {
    pub id: String,
    pub admin: Option<String>,
    pub phone_number: Option<String>,
}

#[derive(Debug, Clone, PartialEq)]
pub enum DbError {
    /// No account has this id.
    AccountNotFound(String),
    /// Every row id has been handed out.
    RowIdsExhausted,
}

/// The store's four tables and the next row id to hand out.
pub struct TinaDb {
    accounts: Vec<Account>,
    contacts: Vec<Contact>,
    groups: Vec<Group>,
    messages: Vec<Message>,
    next_row_id: i64,
}

/// What a store holds, as mathematical sequences in insertion order.
pub struct StoreModel {
    pub accounts: Seq<Account>,
    pub contacts: Seq<Contact>,
    pub groups: Seq<Group>,
    pub messages: Seq<Message>,
    pub next_row_id: i64,
}

impl View for TinaDb {
    type V = StoreModel;

    closed spec fn view(&self) -> StoreModel {
        StoreModel {
            accounts: self.accounts@,
            contacts: self.contacts@,
            groups: self.groups@,
            messages: self.messages@,
            next_row_id: self.next_row_id,
        }
    }
}

/// An incoming value overwrites; an absent one keeps what is stored.
pub open spec fn coalesce(incoming: Option<String>, stored: Option<String>) -> Option<String> {
    if incoming is Some {
        incoming
    } else {
        stored
    }
}

pub open spec fn is_contact_key(c: Contact, account_id: Seq<char>, jid: Seq<char>) -> bool {
    c.account_id@ == account_id && c.jid@ == jid
}

pub open spec fn is_group_key(g: Group, account_id: Seq<char>, jid: Seq<char>) -> bool {
    g.account_id@ == account_id && g.jid@ == jid
}

pub open spec fn is_message_key(m: Message, account_id: Seq<char>, message_id: Seq<char>) -> bool {
    m.account_id@ == account_id && m.message_id@ == message_id
}

/// A contact row after `c` was merged into `row`.
pub open spec fn merged_contact(row: Contact, c: ContactData, is_local: bool, now: i64) -> Contact {
    Contact {
        id: row.id,
        account_id: row.account_id,
        jid: row.jid,
        lid: coalesce(c.lid, row.lid),
        phone_number: coalesce(c.phone_number, row.phone_number),
        name: coalesce(c.name, row.name),
        notify_name: coalesce(c.notify, row.notify_name),
        verified_name: coalesce(c.verified_name, row.verified_name),
        img_url: coalesce(c.img_url, row.img_url),
        status: coalesce(c.status, row.status),
        is_local: is_local,
        created_at: row.created_at,
        updated_at: now,
    }
}

/// The contact row that a first upsert of `c` creates.
pub open spec fn new_contact(id: i64, account_id: String, c: ContactData, is_local: bool, now: i64) -> Contact {
    Contact {
        id: id,
        account_id: account_id,
        jid: c.jid,
        lid: c.lid,
        phone_number: c.phone_number,
        name: c.name,
        notify_name: c.notify,
        verified_name: c.verified_name,
        img_url: c.img_url,
        status: c.status,
        is_local: is_local,
        created_at: now,
        updated_at: now,
    }
}

/// What a group upsert carries besides the key.
#[derive(Debug, Clone, PartialEq)]
pub struct GroupFields {
    pub jid: String,
    pub subject: Option<String>,
    pub owner: Option<String>,
    pub description: Option<String>,
    pub participants_json: Option<String>,
}

pub open spec fn merged_group(row: Group, g: GroupFields, now: i64) -> Group {
    Group {
        id: row.id,
        account_id: row.account_id,
        jid: row.jid,
        subject: coalesce(g.subject, row.subject),
        owner: coalesce(g.owner, row.owner),
        description: coalesce(g.description, row.description),
        participants_json: coalesce(g.participants_json, row.participants_json),
        created_at: row.created_at,
        updated_at: now,
    }
}

pub open spec fn new_group(id: i64, account_id: String, g: GroupFields, now: i64) -> Group {
    Group {
        id: id,
        account_id: account_id,
        jid: g.jid,
        subject: g.subject,
        owner: g.owner,
        description: g.description,
        participants_json: g.participants_json,
        created_at: now,
        updated_at: now,
    }
}

pub open spec fn new_message(id: i64, account_id: String, m: MessageData, now: i64) -> Message {
    Message {
        id: id,
        account_id: account_id,
        message_id: m.message_id,
        chat_jid: m.chat_jid,
        sender_jid: m.sender_jid,
        content: m.content,
        message_type: m.message_type,
        timestamp: m.timestamp,
        is_from_me: m.is_from_me,
        raw_json: m.raw_json,
        created_at: now,
    }
}

impl StoreModel {
    pub open spec fn has_account(self, id: Seq<char>) -> bool {
        exists|i: int| 0 <= i < self.accounts.len() && #[trigger] self.accounts[i].id@ == id
    }

    pub open spec fn has_contact(self, account_id: Seq<char>, jid: Seq<char>) -> bool {
        exists|i: int| 0 <= i < self.contacts.len() && is_contact_key(#[trigger] self.contacts[i], account_id, jid)
    }

    pub open spec fn has_group(self, account_id: Seq<char>, jid: Seq<char>) -> bool {
        exists|i: int| 0 <= i < self.groups.len() && is_group_key(#[trigger] self.groups[i], account_id, jid)
    }

    pub open spec fn has_message(self, account_id: Seq<char>, message_id: Seq<char>) -> bool {
        exists|i: int| 0 <= i < self.messages.len() && is_message_key(#[trigger] self.messages[i], account_id, message_id)
    }

    /// Keys are unique in every table, and every row belongs to a stored account.
    pub open spec fn wf(self) -> bool {
        &&& forall|i: int, j: int| 0 <= i < j < self.accounts.len() ==> #[trigger] self.accounts[i].id@ != #[trigger] self.accounts[j].id@
        &&& forall|i: int, j: int| 0 <= i < j < self.contacts.len() ==> !is_contact_key(#[trigger] self.contacts[i], (#[trigger] self.contacts[j]).account_id@, self.contacts[j].jid@)
        &&& forall|i: int, j: int| 0 <= i < j < self.groups.len() ==> !is_group_key(#[trigger] self.groups[i], (#[trigger] self.groups[j]).account_id@, self.groups[j].jid@)
        &&& forall|i: int, j: int| 0 <= i < j < self.messages.len() ==> !is_message_key(#[trigger] self.messages[i], (#[trigger] self.messages[j]).account_id@, self.messages[j].message_id@)
        &&& forall|i: int| 0 <= i < self.contacts.len() ==> self.has_account(#[trigger] self.contacts[i].account_id@)
        &&& forall|i: int| 0 <= i < self.groups.len() ==> self.has_account(#[trigger] self.groups[i].account_id@)
        &&& forall|i: int| 0 <= i < self.messages.len() ==> self.has_account(#[trigger] self.messages[i].account_id@)
    }

    /// The store after a contact upsert, or the error it fails with.
    pub open spec fn upsert_contact(self, account_id: String, c: ContactData, is_local: bool, now: i64) -> Result<StoreModel, DbError> {
        if !self.has_account(account_id@) {
            Err(DbError::AccountNotFound(account_id))
        } else if self.has_contact(account_id@, c.jid@) {
            let i = choose|i: int| 0 <= i < self.contacts.len() && is_contact_key(self.contacts[i], account_id@, c.jid@);
            Ok(StoreModel { contacts: self.contacts.update(i, merged_contact(self.contacts[i], c, is_local, now)), ..self })
        } else if self.next_row_id == i64::MAX {
            Err(DbError::RowIdsExhausted)
        } else {
            Ok(StoreModel {
                contacts: self.contacts.push(new_contact(self.next_row_id, account_id, c, is_local, now)),
                next_row_id: (self.next_row_id + 1) as i64,
                ..self
            })
        }
    }

    /// The store after a group upsert, or the error it fails with.
    pub open spec fn upsert_group(self, account_id: String, g: GroupFields, now: i64) -> Result<StoreModel, DbError> {
        if !self.has_account(account_id@) {
            Err(DbError::AccountNotFound(account_id))
        } else if self.has_group(account_id@, g.jid@) {
            let i = choose|i: int| 0 <= i < self.groups.len() && is_group_key(self.groups[i], account_id@, g.jid@);
            Ok(StoreModel { groups: self.groups.update(i, merged_group(self.groups[i], g, now)), ..self })
        } else if self.next_row_id == i64::MAX {
            Err(DbError::RowIdsExhausted)
        } else {
            Ok(StoreModel {
                groups: self.groups.push(new_group(self.next_row_id, account_id, g, now)),
                next_row_id: (self.next_row_id + 1) as i64,
                ..self
            })
        }
    }

    /// The store after an insert-or-ignore of a message, or the error it fails with.
    pub open spec fn insert_message(self, account_id: String, m: MessageData, now: i64) -> Result<StoreModel, DbError> {
        if !self.has_account(account_id@) {
            Err(DbError::AccountNotFound(account_id))
        } else if self.has_message(account_id@, m.message_id@) {
            Ok(self)
        } else if self.next_row_id == i64::MAX {
            Err(DbError::RowIdsExhausted)
        } else {
            Ok(StoreModel {
                messages: self.messages.push(new_message(self.next_row_id, account_id, m, now)),
                next_row_id: (self.next_row_id + 1) as i64,
                ..self
            })
        }
    }
}

impl Account {
    pub fn copy(&self) -> (r: Account)
        ensures
            r == *self,
    {
        Account {
            id: self.id.clone(),
            name: copy_opt(&self.name),
            phone_number: copy_opt(&self.phone_number),
            auth_state: copy_opt(&self.auth_state),
            created_at: self.created_at,
            updated_at: self.updated_at,
        }
    }
}

impl StoreModel {
    /// The store after `create_account`: an existing account gets the new name and
    /// update time, a new one is appended.
    pub open spec fn create_account(self, id: String, name: Option<String>, now: i64) -> StoreModel {
        if self.has_account(id@) {
            let i = choose|i: int| 0 <= i < self.accounts.len() && self.accounts[i].id@ == id@;
            let a = self.accounts[i];
            StoreModel {
                accounts: self.accounts.update(i, Account { name: name, updated_at: now, ..a }),
                ..self
            }
        } else {
            StoreModel {
                accounts: self.accounts.push(
                    Account { id: id, name: name, phone_number: None, auth_state: None, created_at: now, updated_at: now },
                ),
                ..self
            }
        }
    }

    /// The store after `save_auth_state`: a no-op when no account has that id.
    pub open spec fn save_auth_state(self, id: Seq<char>, auth_state: String, now: i64) -> StoreModel {
        if self.has_account(id) {
            let i = choose|i: int| 0 <= i < self.accounts.len() && self.accounts[i].id@ == id;
            let a = self.accounts[i];
            StoreModel {
                accounts: self.accounts.update(i, Account { auth_state: Some(auth_state), updated_at: now, ..a }),
                ..self
            }
        } else {
            self
        }
    }

    /// The stored account with this id.
    pub open spec fn account(self, id: Seq<char>) -> Account
        recommends
            self.has_account(id),
    {
        let i = choose|i: int| 0 <= i < self.accounts.len() && self.accounts[i].id@ == id;
        self.accounts[i]
    }
}

fn same_text(a: &String, b: &String) -> (r: bool)
    ensures
        r == (a@ == b@),
{
    <String as PartialEq>::eq(a, b)
}

impl TinaDb {
    pub open spec fn wf(&self) -> bool {
        self@.wf()
    }

    /// An empty store.
    pub fn new() -> (r: TinaDb)
        ensures
            r.wf(),
            r@.accounts.len() == 0,
            r@.contacts.len() == 0,
            r@.groups.len() == 0,
            r@.messages.len() == 0,
            r@.next_row_id == 1,
    {
        TinaDb { accounts: Vec::new(), contacts: Vec::new(), groups: Vec::new(), messages: Vec::new(), next_row_id: 1 }
    }

    fn find_account(&self, id: &String) -> (r: Option<usize>)
        ensures
            match r {
                Some(i) => i < self@.accounts.len() && self@.accounts[i as int].id@ == id@,
                None => !self@.has_account(id@),
            },
    {
        let mut i: usize = 0;
        while i < self.accounts.len()
            invariant
                i <= self.accounts@.len(),
                forall|k: int| 0 <= k < i ==> self.accounts@[k].id@ != id@,
            decreases self.accounts@.len() - i,
        {
            if same_text(&self.accounts[i].id, id) {
                return Some(i);
            }
            i += 1;
        }
        None
    }

    fn find_contact(&self, account_id: &String, jid: &String) -> (r: Option<usize>)
        ensures
            match r {
                Some(i) => i < self@.contacts.len() && is_contact_key(self@.contacts[i as int], account_id@, jid@),
                None => !self@.has_contact(account_id@, jid@),
            },
    {
        let mut i: usize = 0;
        while i < self.contacts.len()
            invariant
                i <= self.contacts@.len(),
                forall|k: int| 0 <= k < i ==> !is_contact_key(self.contacts@[k], account_id@, jid@),
            decreases self.contacts@.len() - i,
        {
            if same_text(&self.contacts[i].account_id, account_id) && same_text(&self.contacts[i].jid, jid) {
                return Some(i);
            }
            i += 1;
        }
        None
    }

    fn find_group(&self, account_id: &String, jid: &String) -> (r: Option<usize>)
        ensures
            match r {
                Some(i) => i < self@.groups.len() && is_group_key(self@.groups[i as int], account_id@, jid@),
                None => !self@.has_group(account_id@, jid@),
            },
    {
        let mut i: usize = 0;
        while i < self.groups.len()
            invariant
                i <= self.groups@.len(),
                forall|k: int| 0 <= k < i ==> !is_group_key(self.groups@[k], account_id@, jid@),
            decreases self.groups@.len() - i,
        {
            if same_text(&self.groups[i].account_id, account_id) && same_text(&self.groups[i].jid, jid) {
                return Some(i);
            }
            i += 1;
        }
        None
    }

    fn find_message(&self, account_id: &String, message_id: &String) -> (r: Option<usize>)
        ensures
            match r {
                Some(i) => i < self@.messages.len() && is_message_key(self@.messages[i as int], account_id@, message_id@),
                None => !self@.has_message(account_id@, message_id@),
            },
    {
        let mut i: usize = 0;
        while i < self.messages.len()
            invariant
                i <= self.messages@.len(),
                forall|k: int| 0 <= k < i ==> !is_message_key(self.messages@[k], account_id@, message_id@),
            decreases self.messages@.len() - i,
        {
            if same_text(&self.messages[i].account_id, account_id) && same_text(&self.messages[i].message_id, message_id) {
                return Some(i);
            }
            i += 1;
        }
        None
    }

    /// Merges `contact` into the row keyed by (`account_id`, its JID), or creates that row.
    pub fn upsert_contact(&mut self, account_id: String, contact: ContactData, is_local: bool, now: i64) -> (r: Result<(), DbError>)
        requires
            old(self).wf(),
        ensures
            final(self).wf(),
            match old(self)@.upsert_contact(account_id, contact, is_local, now) {
                Ok(m) => r is Ok && final(self)@ == m,
                Err(e) => r == Err::<(), DbError>(e) && final(self)@ == old(self)@,
            },
    {
        let ghost c0 = contact;
        let ghost acc0 = account_id;
        if self.find_account(&account_id).is_none() {
            return Err(DbError::AccountNotFound(account_id));
        }
        match self.find_contact(&account_id, &contact.jid) {
            Some(i) => {
                proof {
                    let j = choose|j: int| 0 <= j < self@.contacts.len() && is_contact_key(self@.contacts[j], acc0@, c0.jid@);
                    assert(j == i as int) by {
                        if j < i { assert(!is_contact_key(self@.contacts[j], self@.contacts[i as int].account_id@, self@.contacts[i as int].jid@)); }
                        if j > i { assert(!is_contact_key(self@.contacts[i as int], self@.contacts[j].account_id@, self@.contacts[j].jid@)); }
                    }
                }
                let row = &self.contacts[i];
                let new_row = Contact {
                    id: row.id,
                    account_id: row.account_id.clone(),
                    jid: row.jid.clone(),
                    lid: if contact.lid.is_some() { contact.lid } else { copy_opt(&row.lid) },
                    phone_number: if contact.phone_number.is_some() { contact.phone_number } else { copy_opt(&row.phone_number) },
                    name: if contact.name.is_some() { contact.name } else { copy_opt(&row.name) },
                    notify_name: if contact.notify.is_some() { contact.notify } else { copy_opt(&row.notify_name) },
                    verified_name: if contact.verified_name.is_some() { contact.verified_name } else { copy_opt(&row.verified_name) },
                    img_url: if contact.img_url.is_some() { contact.img_url } else { copy_opt(&row.img_url) },
                    status: if contact.status.is_some() { contact.status } else { copy_opt(&row.status) },
                    is_local: is_local,
                    created_at: row.created_at,
                    updated_at: now,
                };
                self.contacts[i] = new_row;
                proof {
                    assert(self@.contacts =~= old(self)@.contacts.update(i as int, merged_contact(old(self)@.contacts[i as int], c0, is_local, now)));
                    assert(forall|k: int| 0 <= k < self@.contacts.len() && k != i ==> self@.contacts[k] == old(self)@.contacts[k]);
                    assert(forall|k: int| 0 <= k < self@.contacts.len() ==> #[trigger] self@.contacts[k].account_id@ == old(self)@.contacts[k].account_id@ && self@.contacts[k].jid@ == old(self)@.contacts[k].jid@);
                }
                Ok(())
            },
            None => {
                if self.next_row_id == i64::MAX {
                    return Err(DbError::RowIdsExhausted);
                }
                let id = self.next_row_id;
                let row = Contact {
                    id: id,
                    account_id: account_id,
                    jid: contact.jid,
                    lid: contact.lid,
                    phone_number: contact.phone_number,
                    name: contact.name,
                    notify_name: contact.notify,
                    verified_name: contact.verified_name,
                    img_url: contact.img_url,
                    status: contact.status,
                    is_local: is_local,
                    created_at: now,
                    updated_at: now,
                };
                self.contacts.push(row);
                self.next_row_id = id + 1;
                proof {
                    assert(self@.contacts =~= old(self)@.contacts.push(new_contact(id, acc0, c0, is_local, now)));
                    assert(forall|k: int| 0 <= k < old(self)@.contacts.len() ==> self@.contacts[k] == old(self)@.contacts[k]);
                }
                Ok(())
            },
        }
    }

    /// Merges `group` into the row keyed by (`account_id`, its JID), or creates that row.
    pub fn upsert_group(&mut self, account_id: String, group: GroupFields, now: i64) -> (r: Result<(), DbError>)
        requires
            old(self).wf(),
        ensures
            final(self).wf(),
            match old(self)@.upsert_group(account_id, group, now) {
                Ok(m) => r is Ok && final(self)@ == m,
                Err(e) => r == Err::<(), DbError>(e) && final(self)@ == old(self)@,
            },
    {
        let ghost g0 = group;
        let ghost acc0 = account_id;
        if self.find_account(&account_id).is_none() {
            return Err(DbError::AccountNotFound(account_id));
        }
        match self.find_group(&account_id, &group.jid) {
            Some(i) => {
                proof {
                    let j = choose|j: int| 0 <= j < self@.groups.len() && is_group_key(self@.groups[j], acc0@, g0.jid@);
                    assert(j == i as int) by {
                        if j < i { assert(!is_group_key(self@.groups[j], self@.groups[i as int].account_id@, self@.groups[i as int].jid@)); }
                        if j > i { assert(!is_group_key(self@.groups[i as int], self@.groups[j].account_id@, self@.groups[j].jid@)); }
                    }
                }
                let row = &self.groups[i];
                let new_row = Group {
                    id: row.id,
                    account_id: row.account_id.clone(),
                    jid: row.jid.clone(),
                    subject: if group.subject.is_some() { group.subject } else { copy_opt(&row.subject) },
                    owner: if group.owner.is_some() { group.owner } else { copy_opt(&row.owner) },
                    description: if group.description.is_some() { group.description } else { copy_opt(&row.description) },
                    participants_json: if group.participants_json.is_some() { group.participants_json } else { copy_opt(&row.participants_json) },
                    created_at: row.created_at,
                    updated_at: now,
                };
                self.groups[i] = new_row;
                proof {
                    assert(self@.groups =~= old(self)@.groups.update(i as int, merged_group(old(self)@.groups[i as int], g0, now)));
                    assert(forall|k: int| 0 <= k < self@.groups.len() ==> #[trigger] self@.groups[k].account_id@ == old(self)@.groups[k].account_id@ && self@.groups[k].jid@ == old(self)@.groups[k].jid@);
                }
                Ok(())
            },
            None => {
                if self.next_row_id == i64::MAX {
                    return Err(DbError::RowIdsExhausted);
                }
                let id = self.next_row_id;
                let row = Group {
                    id: id,
                    account_id: account_id,
                    jid: group.jid,
                    subject: group.subject,
                    owner: group.owner,
                    description: group.description,
                    participants_json: group.participants_json,
                    created_at: now,
                    updated_at: now,
                };
                self.groups.push(row);
                self.next_row_id = id + 1;
                proof {
                    assert(self@.groups =~= old(self)@.groups.push(new_group(id, acc0, g0, now)));
                    assert(forall|k: int| 0 <= k < old(self)@.groups.len() ==> self@.groups[k] == old(self)@.groups[k]);
                }
                Ok(())
            },
        }
    }

    /// Stores `message` unless a row with its key exists already; a redelivery is a no-op.
    /// Returns whether a row was added.
    pub fn insert_message(&mut self, account_id: String, message: MessageData, now: i64) -> (r: Result<bool, DbError>)
        requires
            old(self).wf(),
        ensures
            final(self).wf(),
            match old(self)@.insert_message(account_id, message, now) {
                Ok(m) => r == Ok::<bool, DbError>(!old(self)@.has_message(account_id@, message.message_id@)) && final(self)@ == m,
                Err(e) => r == Err::<bool, DbError>(e) && final(self)@ == old(self)@,
            },
    {
        let ghost m0 = message;
        let ghost acc0 = account_id;
        if self.find_account(&account_id).is_none() {
            return Err(DbError::AccountNotFound(account_id));
        }
        if self.find_message(&account_id, &message.message_id).is_some() {
            return Ok(false);
        }
        if self.next_row_id == i64::MAX {
            return Err(DbError::RowIdsExhausted);
        }
        let id = self.next_row_id;
        let row = Message {
            id: id,
            account_id: account_id,
            message_id: message.message_id,
            chat_jid: message.chat_jid,
            sender_jid: message.sender_jid,
            content: message.content,
            message_type: message.message_type,
            timestamp: message.timestamp,
            is_from_me: message.is_from_me,
            raw_json: message.raw_json,
            created_at: now,
        };
        self.messages.push(row);
        self.next_row_id = id + 1;
        proof {
            assert(self@.messages =~= old(self)@.messages.push(new_message(id, acc0, m0, now)));
            assert(forall|k: int| 0 <= k < old(self)@.messages.len() ==> self@.messages[k] == old(self)@.messages[k]);
        }
        Ok(true)
    }

    proof fn lemma_account_index(&self, i: int, id: Seq<char>)
        requires
            self.wf(),
            0 <= i < self@.accounts.len(),
            self@.accounts[i].id@ == id,
        ensures
            (choose|j: int| 0 <= j < self@.accounts.len() && self@.accounts[j].id@ == id) == i,
    {
        let j = choose|j: int| 0 <= j < self@.accounts.len() && self@.accounts[j].id@ == id;
        if j < i { assert(self@.accounts[j].id@ != self@.accounts[i].id@); }
        if j > i { assert(self@.accounts[i].id@ != self@.accounts[j].id@); }
    }

    /// Creates the account, or refreshes the name and update time of the one with this id;
    /// returns the stored row.
    pub fn create_account(&mut self, id: String, name: Option<String>, now: i64) -> (r: Account)
        requires
            old(self).wf(),
        ensures
            final(self).wf(),
            final(self)@ == old(self)@.create_account(id, name, now),
            final(self)@.has_account(id@),
            r == final(self)@.account(id@),
    {
        let ghost id0 = id;
        let ghost name0 = name;
        match self.find_account(&id) {
            Some(i) => {
                proof { self.lemma_account_index(i as int, id0@); }
                let old_row = &self.accounts[i];
                let row = Account {
                    id: old_row.id.clone(),
                    name: name,
                    phone_number: copy_opt(&old_row.phone_number),
                    auth_state: copy_opt(&old_row.auth_state),
                    created_at: old_row.created_at,
                    updated_at: now,
                };
                self.accounts[i] = row;
                proof {
                    assert(self@.accounts =~= old(self)@.create_account(id0, name0, now).accounts);
                    assert(forall|k: int| 0 <= k < self@.accounts.len() ==> #[trigger] self@.accounts[k].id@ == old(self)@.accounts[k].id@);
                    assert(forall|k: int| 0 <= k < self@.accounts.len() && k != i ==> self@.accounts[k] == old(self)@.accounts[k]);
                    assert forall|s: Seq<char>| old(self)@.has_account(s) implies self@.has_account(s) by {
                        let k = choose|k: int| 0 <= k < old(self)@.accounts.len() && old(self)@.accounts[k].id@ == s;
                        assert(self@.accounts[k].id@ == s);
                    }
                    self.lemma_account_index(i as int, id0@);
                }
                self.accounts[i].copy()
            },
            None => {
                let row = Account { id: id, name: name, phone_number: None, auth_state: None, created_at: now, updated_at: now };
                self.accounts.push(row);
                let ghost n = self@.accounts.len() - 1;
                proof {
                    assert(self@.accounts =~= old(self)@.create_account(id0, name0, now).accounts);
                    assert(forall|k: int| 0 <= k < old(self)@.accounts.len() ==> self@.accounts[k] == old(self)@.accounts[k]);
                    assert forall|s: Seq<char>| old(self)@.has_account(s) implies self@.has_account(s) by {
                        let k = choose|k: int| 0 <= k < old(self)@.accounts.len() && old(self)@.accounts[k].id@ == s;
                        assert(self@.accounts[k].id@ == s);
                    }
                    assert(self@.accounts[n].id@ == id0@);
                    self.lemma_account_index(n, id0@);
                }
                let last = self.accounts.len() - 1;
                self.accounts[last].copy()
            },
        }
    }

    /// Records the engine's credential blob for an account; a no-op for an unknown id.
    pub fn save_auth_state(&mut self, account_id: &String, auth_state: String, now: i64)
        requires
            old(self).wf(),
        ensures
            final(self).wf(),
            final(self)@ == old(self)@.save_auth_state(account_id@, auth_state, now),
    {
        let ghost a0 = auth_state;
        match self.find_account(account_id) {
            Some(i) => {
                proof { self.lemma_account_index(i as int, account_id@); }
                let old_row = &self.accounts[i];
                let row = Account {
                    id: old_row.id.clone(),
                    name: copy_opt(&old_row.name),
                    phone_number: copy_opt(&old_row.phone_number),
                    auth_state: Some(auth_state),
                    created_at: old_row.created_at,
                    updated_at: now,
                };
                self.accounts[i] = row;
                proof {
                    assert(self@.accounts =~= old(self)@.save_auth_state(account_id@, a0, now).accounts);
                    assert(forall|k: int| 0 <= k < self@.accounts.len() ==> #[trigger] self@.accounts[k].id@ == old(self)@.accounts[k].id@);
                    assert forall|s: Seq<char>| old(self)@.has_account(s) implies self@.has_account(s) by {
                        let k = choose|k: int| 0 <= k < old(self)@.accounts.len() && old(self)@.accounts[k].id@ == s;
                        assert(self@.accounts[k].id@ == s);
                    }
                }
            },
            None => {},
        }
    }

    /// The account with this id.
    pub fn get_account(&self, id: &String) -> (r: Result<Account, DbError>)
        requires
            self.wf(),
        ensures
            self@.has_account(id@) ==> r == Ok::<Account, DbError>(self@.account(id@)),
            !self@.has_account(id@) ==> r == Err::<Account, DbError>(DbError::AccountNotFound(*id)),
    {
        match self.find_account(id) {
            Some(i) => {
                proof { self.lemma_account_index(i as int, id@); }
                Ok(self.accounts[i].copy())
            },
            None => Err(DbError::AccountNotFound(id.clone())),
        }
    }

    /// The stored credential blob of an account.
    pub fn get_auth_state(&self, id: &String) -> (r: Result<Option<String>, DbError>)
        requires
            self.wf(),
        ensures
            self@.has_account(id@) ==> r == Ok::<Option<String>, DbError>(self@.account(id@).auth_state),
            !self@.has_account(id@) ==> r == Err::<Option<String>, DbError>(DbError::AccountNotFound(*id)),
    {
        match self.get_account(id) {
            Ok(a) => Ok(a.auth_state),
            Err(e) => Err(e),
        }
    }
}

/// The only rows with this message key.
pub open spec fn message_rows_with_key(m: StoreModel, account_id: Seq<char>, message_id: Seq<char>) -> Set<int> {
    Set::new(|i: int| 0 <= i < m.messages.len() && is_message_key(m.messages[i], account_id, message_id))
}

/// Inserting a message twice under one message id leaves exactly one row with that
/// id: the second insert changes nothing, whatever else the second message holds.
pub proof fn message_insert_idempotent(m: StoreModel, account_id: String, first: MessageData, second: MessageData, now: i64, later: i64)
    requires
        m.wf(),
        m.insert_message(account_id, first, now) is Ok,
        second.message_id@ == first.message_id@,
    ensures
        ({
            let m1 = m.insert_message(account_id, first, now)->Ok_0;
            &&& m1.insert_message(account_id, second, later) == Ok::<StoreModel, DbError>(m1)
            &&& message_rows_with_key(m1, account_id@, first.message_id@).len() == 1
        }),
{
    let m1 = m.insert_message(account_id, first, now)->Ok_0;
    let key = message_rows_with_key(m1, account_id@, first.message_id@);
    let i = if m.has_message(account_id@, first.message_id@) {
        choose|i: int| 0 <= i < m.messages.len() && is_message_key(m.messages[i], account_id@, first.message_id@)
    } else {
        assert(m1.messages[m.messages.len() as int] == new_message(m.next_row_id, account_id, first, now));
        m.messages.len() as int
    };
    assert(m1.has_message(account_id@, first.message_id@)) by {
        assert(is_message_key(m1.messages[i], account_id@, first.message_id@));
    }
    assert(m1.has_account(account_id@)) by {
        let k = choose|k: int| 0 <= k < m.accounts.len() && m.accounts[k].id@ == account_id@;
        assert(m1.accounts[k].id@ == account_id@);
    }
    assert(key =~= set![i]) by {
        assert forall|j: int| key.contains(j) implies j == i by {
            if j != i {
                if j < i && i < m.messages.len() {
                    assert(!is_message_key(m.messages[j], m.messages[i].account_id@, m.messages[i].message_id@));
                } else if i < j && j < m.messages.len() {
                    assert(!is_message_key(m.messages[i], m.messages[j].account_id@, m.messages[j].message_id@));
                } else if j < m.messages.len() {
                    assert(is_message_key(m.messages[j], account_id@, first.message_id@));
                }
            }
        }
    }
}

/// Upserting a stored contact with every optional field absent keeps all of its
/// stored values: only the local flag and the update time are written.
pub proof fn contact_null_upsert_keeps_fields(m: StoreModel, account_id: String, c: ContactData, is_local: bool, now: i64)
    requires
        m.wf(),
        m.has_contact(account_id@, c.jid@),
        c.lid is None,
        c.phone_number is None,
        c.name is None,
        c.notify is None,
        c.verified_name is None,
        c.img_url is None,
        c.status is None,
    ensures
        m.upsert_contact(account_id, c, is_local, now) is Ok,
        ({
            let m2 = m.upsert_contact(account_id, c, is_local, now)->Ok_0;
            &&& m2.contacts.len() == m.contacts.len()
            &&& forall|i: int| 0 <= i < m.contacts.len() ==> #[trigger] m2.contacts[i] == if is_contact_key(m.contacts[i], account_id@, c.jid@) {
                Contact { is_local: is_local, updated_at: now, ..m.contacts[i] }
            } else {
                m.contacts[i]
            }
        }),
{
    let k = choose|k: int| 0 <= k < m.contacts.len() && is_contact_key(m.contacts[k], account_id@, c.jid@);
    assert(m.has_account(account_id@)) by {
        assert(m.has_account(m.contacts[k].account_id@));
    }
    let m2 = m.upsert_contact(account_id, c, is_local, now)->Ok_0;
    assert forall|i: int| 0 <= i < m.contacts.len() implies #[trigger] m2.contacts[i] == if is_contact_key(m.contacts[i], account_id@, c.jid@) {
        Contact { is_local: is_local, updated_at: now, ..m.contacts[i] }
    } else {
        m.contacts[i]
    } by {
        if is_contact_key(m.contacts[i], account_id@, c.jid@) && i != k {
            if i < k {
                assert(!is_contact_key(m.contacts[i], m.contacts[k].account_id@, m.contacts[k].jid@));
            } else {
                assert(!is_contact_key(m.contacts[k], m.contacts[i].account_id@, m.contacts[i].jid@));
            }
        }
    }
}

/// `x` placed before the first element that it precedes, newest first; equal keys keep
/// their order.
pub open spec fn newest_first_insert(s: Seq<Message>, x: Message) -> Seq<Message>
    decreases s.len(),
{
    if s.len() == 0 {
        seq![x]
    } else if x.timestamp > s[0].timestamp {
        seq![x] + s
    } else {
        seq![s[0]] + newest_first_insert(s.drop_first(), x)
    }
}

/// `s` sorted newest first, stably.
pub open spec fn newest_first_sorted(s: Seq<Message>) -> Seq<Message>
    decreases s.len(),
{
    if s.len() == 0 {
        s
    } else {
        newest_first_insert(newest_first_sorted(s.drop_last()), s.last())
    }
}

proof fn lemma_newest_first_insert(s: Seq<Message>, x: Message, p: int)
    requires
        0 <= p <= s.len(),
        forall|i: int| 0 <= i < p ==> !(x.timestamp > #[trigger] s[i].timestamp),
        p < s.len() ==> x.timestamp > s[p].timestamp,
    ensures
        newest_first_insert(s, x) == s.take(p) + seq![x] + s.skip(p),
    decreases s.len(),
{
    if s.len() == 0 {
        assert(s.take(p) + seq![x] + s.skip(p) =~= seq![x]);
    } else if p == 0 {
        assert(s.take(p) + seq![x] + s.skip(p) =~= seq![x] + s);
    } else {
        lemma_newest_first_insert(s.drop_first(), x, p - 1);
        assert(s.take(p) + seq![x] + s.skip(p) =~= seq![s[0]] + (s.drop_first().take(p - 1) + seq![x] + s.drop_first().skip(p - 1)));
    }
}

/// Inserts `x` into `v` where `newest_first_insert` puts it.
fn newest_first_insert_exec(v: &mut Vec<Message>, x: Message)
    ensures
        final(v)@ == newest_first_insert(old(v)@, x),
{
    let mut p: usize = 0;
    while p < v.len() && !(x.timestamp > v[p].timestamp)
        invariant
            p <= v@.len(),
            forall|i: int| 0 <= i < p ==> !(x.timestamp > #[trigger] v@[i].timestamp),
        decreases v@.len() - p,
    {
        p += 1;
    }
    proof {
        lemma_newest_first_insert(v@, x, p as int);
    }
    v.insert(p, x);
    assert(v@ =~= old(v)@.take(p as int) + seq![x] + old(v)@.skip(p as int));
}

/// `x` placed before the first element that it precedes, oldest first; equal keys keep
/// their order.
pub open spec fn oldest_first_insert(s: Seq<Account>, x: Account) -> Seq<Account>
    decreases s.len(),
{
    if s.len() == 0 {
        seq![x]
    } else if x.created_at < s[0].created_at {
        seq![x] + s
    } else {
        seq![s[0]] + oldest_first_insert(s.drop_first(), x)
    }
}

/// `s` sorted oldest first, stably.
pub open spec fn oldest_first_sorted(s: Seq<Account>) -> Seq<Account>
    decreases s.len(),
{
    if s.len() == 0 {
        s
    } else {
        oldest_first_insert(oldest_first_sorted(s.drop_last()), s.last())
    }
}

proof fn lemma_oldest_first_insert(s: Seq<Account>, x: Account, p: int)
    requires
        0 <= p <= s.len(),
        forall|i: int| 0 <= i < p ==> !(x.created_at < #[trigger] s[i].created_at),
        p < s.len() ==> x.created_at < s[p].created_at,
    ensures
        oldest_first_insert(s, x) == s.take(p) + seq![x] + s.skip(p),
    decreases s.len(),
{
    if s.len() == 0 {
        assert(s.take(p) + seq![x] + s.skip(p) =~= seq![x]);
    } else if p == 0 {
        assert(s.take(p) + seq![x] + s.skip(p) =~= seq![x] + s);
    } else {
        lemma_oldest_first_insert(s.drop_first(), x, p - 1);
        assert(s.take(p) + seq![x] + s.skip(p) =~= seq![s[0]] + (s.drop_first().take(p - 1) + seq![x] + s.drop_first().skip(p - 1)));
    }
}

/// Inserts `x` into `v` where `oldest_first_insert` puts it.
fn oldest_first_insert_exec(v: &mut Vec<Account>, x: Account)
    ensures
        final(v)@ == oldest_first_insert(old(v)@, x),
{
    let mut p: usize = 0;
    while p < v.len() && !(x.created_at < v[p].created_at)
        invariant
            p <= v@.len(),
            forall|i: int| 0 <= i < p ==> !(x.created_at < #[trigger] v@[i].created_at),
        decreases v@.len() - p,
    {
        p += 1;
    }
    proof {
        lemma_oldest_first_insert(v@, x, p as int);
    }
    v.insert(p, x);
    assert(v@ =~= old(v)@.take(p as int) + seq![x] + old(v)@.skip(p as int));
}

/// The messages of an account, in one chat or in all when `chat_jid` is `None`,
/// in insertion order.
pub open spec fn messages_of(m: StoreModel, account_id: Seq<char>, chat_jid: Option<Seq<char>>) -> Seq<Message> {
    m.messages.filter(|x: Message| x.account_id@ == account_id && (chat_jid is None || x.chat_jid@ == chat_jid.unwrap()))
}

/// The part of `s` that `LIMIT limit OFFSET offset` selects: a negative offset
/// counts as zero and a negative limit as no limit.
pub open spec fn window<T>(s: Seq<T>, limit: i64, offset: i64) -> Seq<T> {
    let start = if offset < 0 { 0 } else if offset > s.len() { s.len() as int } else { offset as int };
    let rest = s.skip(start);
    if limit < 0 || limit >= rest.len() {
        rest
    } else {
        rest.take(limit as int)
    }
}

/// Chat JIDs in order of their first appearance in `s`.
pub open spec fn first_chats(s: Seq<Message>) -> Seq<Seq<char>>
    decreases s.len(),
{
    if s.len() == 0 {
        Seq::empty()
    } else {
        let prev = first_chats(s.drop_last());
        if prev.contains(s.last().chat_jid@) {
            prev
        } else {
            prev.push(s.last().chat_jid@)
        }
    }
}

impl Message {
    pub fn copy(&self) -> (r: Message)
        ensures
            r == *self,
    {
        Message {
            id: self.id,
            account_id: self.account_id.clone(),
            message_id: self.message_id.clone(),
            chat_jid: self.chat_jid.clone(),
            sender_jid: self.sender_jid.clone(),
            content: copy_opt(&self.content),
            message_type: self.message_type.clone(),
            timestamp: self.timestamp,
            is_from_me: self.is_from_me,
            raw_json: copy_opt(&self.raw_json),
            created_at: self.created_at,
        }
    }
}

impl TinaDb {
    /// Every account, oldest first by creation time; equal times keep insertion order.
    pub fn list_accounts(&self) -> (r: Vec<Account>)
        ensures
            r@ == oldest_first_sorted(self@.accounts),
    {
        let mut out: Vec<Account> = Vec::new();
        let mut i: usize = 0;
        while i < self.accounts.len()
            invariant
                i <= self@.accounts.len(),
                out@ == oldest_first_sorted(self@.accounts.take(i as int)),
            decreases self@.accounts.len() - i,
        {
            assert(self@.accounts.take(i + 1).drop_last() =~= self@.accounts.take(i as int));
            oldest_first_insert_exec(&mut out, self.accounts[i].copy());
            i += 1;
        }
        assert(self@.accounts.take(i as int) =~= self@.accounts);
        out
    }

    fn account_messages_newest_first(&self, account_id: &String, chat_jid: Option<&String>) -> (r: Vec<Message>)
        ensures
            r@ == newest_first_sorted(messages_of(self@, account_id@, match chat_jid { Some(c) => Some(c@), None => None })),
    {
        let ghost chat = match chat_jid { Some(c) => Some(c@), None => None::<Seq<char>> };
        let ghost pred = |x: Message| x.account_id@ == account_id@ && (chat is None || x.chat_jid@ == chat.unwrap());
        let mut out: Vec<Message> = Vec::new();
        let mut i: usize = 0;
        while i < self.messages.len()
            invariant
                i <= self@.messages.len(),
                pred == (|x: Message| x.account_id@ == account_id@ && (chat is None || x.chat_jid@ == chat.unwrap())),
                chat == match chat_jid { Some(c) => Some(c@), None => None::<Seq<char>> },
                out@ == newest_first_sorted(self@.messages.take(i as int).filter(pred)),
            decreases self@.messages.len() - i,
        {
            let m = &self.messages[i];
            assert(self@.messages.take(i + 1).drop_last() =~= self@.messages.take(i as int));
            proof {
                reveal(Seq::filter);
            }
            let keep = same_text(&m.account_id, account_id) && match chat_jid {
                None => true,
                Some(c) => same_text(&m.chat_jid, c),
            };
            if keep {
                assert(self@.messages.take(i + 1).filter(pred) == self@.messages.take(i as int).filter(pred).push(self@.messages[i as int]));
                newest_first_insert_exec(&mut out, m.copy());
                assert(self@.messages.take(i + 1).filter(pred).drop_last() =~= self@.messages.take(i as int).filter(pred));
            } else {
                assert(self@.messages.take(i + 1).filter(pred) == self@.messages.take(i as int).filter(pred));
            }
            i += 1;
        }
        assert(self@.messages.take(i as int) =~= self@.messages);
        out
    }

    /// Messages of an account, in one chat or in all, newest first (equal timestamps
    /// keep insertion order), with `LIMIT limit OFFSET offset` applied.
    pub fn get_messages(&self, account_id: &String, chat_jid: Option<&String>, limit: i64, offset: i64) -> (r: Vec<Message>)
        ensures
            r@ == window(newest_first_sorted(messages_of(self@, account_id@, match chat_jid { Some(c) => Some(c@), None => None })), limit, offset),
    {
        let all = self.account_messages_newest_first(account_id, chat_jid);
        let n = all.len();
        let start: usize = if offset < 0 { 0 } else if offset as u64 > n as u64 { n } else { offset as usize };
        let end: usize = if limit < 0 || limit as u64 >= (n - start) as u64 { n } else { start + limit as usize };
        let mut out: Vec<Message> = Vec::new();
        let mut i: usize = start;
        while i < end
            invariant
                start <= i <= end <= n,
                n == all@.len(),
                out@ == all@.subrange(start as int, i as int),
            decreases end - i,
        {
            out.push(all[i].copy());
            i += 1;
            assert(out@ =~= all@.subrange(start as int, i as int));
        }
        assert(out@ =~= window(all@, limit, offset));
        out
    }

    /// The chats of an account, most recently active first.
    pub fn get_chats(&self, account_id: &String) -> (r: Vec<String>)
        ensures
            r@.map_values(|s: String| s@) == first_chats(newest_first_sorted(messages_of(self@, account_id@, None))),
    {
        let all = self.account_messages_newest_first(account_id, None);
        let mut out: Vec<String> = Vec::new();
        let mut i: usize = 0;
        assert(all@.take(0) =~= Seq::<Message>::empty());
        while i < all.len()
            invariant
                i <= all@.len(),
                out@.map_values(|s: String| s@) == first_chats(all@.take(i as int)),
            decreases all@.len() - i,
        {
            assert(all@.take(i + 1).drop_last() =~= all@.take(i as int));
            let mut seen = false;
            let mut k: usize = 0;
            while k < out.len()
                invariant
                    i < all@.len(),
                    k <= out@.len(),
                    seen == exists|j: int| 0 <= j < k && out@[j]@ == all@[i as int].chat_jid@,
                decreases out@.len() - k,
            {
                if same_text(&out[k], &all[i].chat_jid) {
                    seen = true;
                }
                k += 1;
            }
            proof {
                let v = out@.map_values(|s: String| s@);
                if seen {
                    let j = choose|j: int| 0 <= j < out@.len() && out@[j]@ == all@[i as int].chat_jid@;
                    assert(v[j] == all@[i as int].chat_jid@);
                } else {
                    assert forall|j: int| 0 <= j < v.len() implies v[j] != all@[i as int].chat_jid@ by {
                        assert(v[j] == out@[j]@);
                    }
                }
            }
            if !seen {
                out.push(all[i].chat_jid.clone());
            }
            i += 1;
            assert(out@.map_values(|s: String| s@) =~= first_chats(all@.take(i as int)));
        }
        assert(all@.take(i as int) =~= all@);
        out
    }
}

proof fn lemma_filter_from<T>(s: Seq<T>, p: spec_fn(T) -> bool)
    ensures
        forall|i: int| 0 <= i < s.filter(p).len() ==> s.contains(#[trigger] s.filter(p)[i]),
    decreases s.len(),
{
    reveal(Seq::filter);
    if s.len() > 0 {
        let d = s.drop_last();
        lemma_filter_from(d, p);
        assert forall|i: int| 0 <= i < s.filter(p).len() implies s.contains(#[trigger] s.filter(p)[i]) by {
            if i < d.filter(p).len() {
                let k = choose|k: int| 0 <= k < d.len() && d[k] == d.filter(p)[i];
                assert(s[k] == d[k]);
            } else {
                assert(s[s.len() - 1] == s.last());
            }
        }
    }
}

proof fn lemma_filter_pairwise<T>(s: Seq<T>, p: spec_fn(T) -> bool, rel: spec_fn(T, T) -> bool)
    requires
        forall|i: int, j: int| 0 <= i < j < s.len() ==> !rel(#[trigger] s[i], #[trigger] s[j]),
    ensures
        forall|i: int, j: int| 0 <= i < j < s.filter(p).len() ==> !rel(#[trigger] s.filter(p)[i], #[trigger] s.filter(p)[j]),
    decreases s.len(),
{
    reveal(Seq::filter);
    if s.len() > 0 {
        let d = s.drop_last();
        lemma_filter_pairwise(d, p, rel);
        let f0 = d.filter(p);
        if p(s.last()) {
            assert forall|i: int| 0 <= i < f0.len() implies !rel(#[trigger] f0[i], s.last()) by {
                lemma_filter_from(d, p);
                assert(d.contains(f0[i]));
                let k = choose|k: int| 0 <= k < d.len() && d[k] == f0[i];
                assert(s[k] == f0[i]);
                assert(s[s.len() - 1] == s.last());
            }
            let f = s.filter(p);
            assert(f == f0.push(s.last()));
            assert forall|i: int, j: int| 0 <= i < j < f.len() implies !rel(#[trigger] f[i], #[trigger] f[j]) by {
                if j < f0.len() {
                    assert(f[i] == f0[i] && f[j] == f0[j]);
                } else {
                    assert(f[i] == f0[i] && f[j] == s.last());
                }
            }
        }
    }
}

impl Contact {
    pub fn copy(&self) -> (r: Contact)
        ensures
            r == *self,
    {
        Contact {
            id: self.id,
            account_id: self.account_id.clone(),
            jid: self.jid.clone(),
            lid: copy_opt(&self.lid),
            phone_number: copy_opt(&self.phone_number),
            name: copy_opt(&self.name),
            notify_name: copy_opt(&self.notify_name),
            verified_name: copy_opt(&self.verified_name),
            img_url: copy_opt(&self.img_url),
            status: copy_opt(&self.status),
            is_local: self.is_local,
            created_at: self.created_at,
            updated_at: self.updated_at,
        }
    }
}

impl Group {
    pub fn copy(&self) -> (r: Group)
        ensures
            r == *self,
    {
        Group {
            id: self.id,
            account_id: self.account_id.clone(),
            jid: self.jid.clone(),
            subject: copy_opt(&self.subject),
            owner: copy_opt(&self.owner),
            description: copy_opt(&self.description),
            participants_json: copy_opt(&self.participants_json),
            created_at: self.created_at,
            updated_at: self.updated_at,
        }
    }
}

pub open spec fn other_account(id: Seq<char>) -> spec_fn(Account) -> bool {
    |a: Account| a.id@ != id
}

pub open spec fn contact_of_other(id: Seq<char>) -> spec_fn(Contact) -> bool {
    |c: Contact| c.account_id@ != id
}

pub open spec fn group_of_other(id: Seq<char>) -> spec_fn(Group) -> bool {
    |g: Group| g.account_id@ != id
}

pub open spec fn message_of_other(id: Seq<char>) -> spec_fn(Message) -> bool {
    |m: Message| m.account_id@ != id
}

impl StoreModel {
    /// The store without the account and every contact, group and message of it.
    pub open spec fn delete_account(self, id: Seq<char>) -> StoreModel {
        StoreModel {
            accounts: self.accounts.filter(other_account(id)),
            contacts: self.contacts.filter(contact_of_other(id)),
            groups: self.groups.filter(group_of_other(id)),
            messages: self.messages.filter(message_of_other(id)),
            next_row_id: self.next_row_id,
        }
    }

    /// The contact stored under this key.
    pub open spec fn contact(self, account_id: Seq<char>, jid: Seq<char>) -> Contact {
        let i = choose|i: int| 0 <= i < self.contacts.len() && is_contact_key(self.contacts[i], account_id, jid);
        self.contacts[i]
    }

    /// The group stored under this key.
    pub open spec fn group(self, account_id: Seq<char>, jid: Seq<char>) -> Group {
        let i = choose|i: int| 0 <= i < self.groups.len() && is_group_key(self.groups[i], account_id, jid);
        self.groups[i]
    }
}

impl TinaDb {
    /// The contacts of an account, by name; contacts without a name come first.
    pub fn get_contacts(&self, account_id: &String) -> (r: Vec<Contact>)
        ensures
            r@ == by_name_sorted(self@.contacts.filter(|c: Contact| c.account_id@ == account_id@)),
    {
        let ghost pred = |c: Contact| c.account_id@ == account_id@;
        let mut out: Vec<Contact> = Vec::new();
        let mut i: usize = 0;
        while i < self.contacts.len()
            invariant
                i <= self@.contacts.len(),
                pred == (|c: Contact| c.account_id@ == account_id@),
                out@ == by_name_sorted(self@.contacts.take(i as int).filter(pred)),
            decreases self@.contacts.len() - i,
        {
            proof {
                reveal(Seq::filter);
            }
            assert(self@.contacts.take(i + 1).drop_last() =~= self@.contacts.take(i as int));
            if same_text(&self.contacts[i].account_id, account_id) {
                assert(self@.contacts.take(i + 1).filter(pred) == self@.contacts.take(i as int).filter(pred).push(self@.contacts[i as int]));
                by_name_insert_exec(&mut out, self.contacts[i].copy());
                assert(self@.contacts.take(i + 1).filter(pred).drop_last() =~= self@.contacts.take(i as int).filter(pred));
            } else {
                assert(self@.contacts.take(i + 1).filter(pred) == self@.contacts.take(i as int).filter(pred));
            }
            i += 1;
        }
        assert(self@.contacts.take(i as int) =~= self@.contacts);
        out
    }

    /// The groups of an account, by subject; groups without a subject come first.
    pub fn get_groups(&self, account_id: &String) -> (r: Vec<Group>)
        ensures
            r@ == by_subject_sorted(self@.groups.filter(|g: Group| g.account_id@ == account_id@)),
    {
        let ghost pred = |g: Group| g.account_id@ == account_id@;
        let mut out: Vec<Group> = Vec::new();
        let mut i: usize = 0;
        while i < self.groups.len()
            invariant
                i <= self@.groups.len(),
                pred == (|g: Group| g.account_id@ == account_id@),
                out@ == by_subject_sorted(self@.groups.take(i as int).filter(pred)),
            decreases self@.groups.len() - i,
        {
            proof {
                reveal(Seq::filter);
            }
            assert(self@.groups.take(i + 1).drop_last() =~= self@.groups.take(i as int));
            if same_text(&self.groups[i].account_id, account_id) {
                assert(self@.groups.take(i + 1).filter(pred) == self@.groups.take(i as int).filter(pred).push(self@.groups[i as int]));
                by_subject_insert_exec(&mut out, self.groups[i].copy());
                assert(self@.groups.take(i + 1).filter(pred).drop_last() =~= self@.groups.take(i as int).filter(pred));
            } else {
                assert(self@.groups.take(i + 1).filter(pred) == self@.groups.take(i as int).filter(pred));
            }
            i += 1;
        }
        assert(self@.groups.take(i as int) =~= self@.groups);
        out
    }

    /// The contact stored under (`account_id`, `jid`), if any.
    pub fn get_contact_by_jid(&self, account_id: &String, jid: &String) -> (r: Option<Contact>)
        requires
            self.wf(),
        ensures
            self@.has_contact(account_id@, jid@) ==> r == Some(self@.contact(account_id@, jid@)),
            !self@.has_contact(account_id@, jid@) ==> r is None,
    {
        match self.find_contact(account_id, jid) {
            Some(i) => {
                proof {
                    let j = choose|j: int| 0 <= j < self@.contacts.len() && is_contact_key(self@.contacts[j], account_id@, jid@);
                    if j < i { assert(!is_contact_key(self@.contacts[j], self@.contacts[i as int].account_id@, self@.contacts[i as int].jid@)); }
                    if j > i { assert(!is_contact_key(self@.contacts[i as int], self@.contacts[j].account_id@, self@.contacts[j].jid@)); }
                }
                Some(self.contacts[i].copy())
            },
            None => None,
        }
    }

    /// The group stored under (`account_id`, `jid`), if any.
    pub fn get_group_by_jid(&self, account_id: &String, jid: &String) -> (r: Option<Group>)
        requires
            self.wf(),
        ensures
            self@.has_group(account_id@, jid@) ==> r == Some(self@.group(account_id@, jid@)),
            !self@.has_group(account_id@, jid@) ==> r is None,
    {
        match self.find_group(account_id, jid) {
            Some(i) => {
                proof {
                    let j = choose|j: int| 0 <= j < self@.groups.len() && is_group_key(self@.groups[j], account_id@, jid@);
                    if j < i { assert(!is_group_key(self@.groups[j], self@.groups[i as int].account_id@, self@.groups[i as int].jid@)); }
                    if j > i { assert(!is_group_key(self@.groups[i as int], self@.groups[j].account_id@, self@.groups[j].jid@)); }
                }
                Some(self.groups[i].copy())
            },
            None => None,
        }
    }
}

proof fn lemma_kept_account(m: StoreModel, id: Seq<char>, owner: Seq<char>)
    requires
        m.has_account(owner),
        owner != id,
    ensures
        m.delete_account(id).has_account(owner),
{
    let p = other_account(id);
    let k = choose|k: int| 0 <= k < m.accounts.len() && m.accounts[k].id@ == owner;
    m.accounts.lemma_filter_contains(p, k);
    let f = m.accounts.filter(p);
    let j = choose|j: int| 0 <= j < f.len() && f[j] == m.accounts[k];
    assert(f[j].id@ == owner);
}

proof fn lemma_delete_wf(m: StoreModel, id: Seq<char>)
    requires
        m.wf(),
    ensures
        m.delete_account(id).wf(),
{
    let d = m.delete_account(id);
    lemma_filter_pairwise(m.accounts, other_account(id), |x: Account, y: Account| x.id@ == y.id@);
    lemma_filter_pairwise(m.contacts, contact_of_other(id), |x: Contact, y: Contact| is_contact_key(x, y.account_id@, y.jid@));
    lemma_filter_pairwise(m.groups, group_of_other(id), |x: Group, y: Group| is_group_key(x, y.account_id@, y.jid@));
    lemma_filter_pairwise(m.messages, message_of_other(id), |x: Message, y: Message| is_message_key(x, y.account_id@, y.message_id@));
    lemma_filter_from(m.contacts, contact_of_other(id));
    lemma_filter_from(m.groups, group_of_other(id));
    lemma_filter_from(m.messages, message_of_other(id));
    assert forall|i: int| 0 <= i < d.contacts.len() implies (contact_of_other(id))(#[trigger] d.contacts[i]) by {
        m.contacts.lemma_filter_pred(contact_of_other(id), i);
    }
    assert forall|i: int| 0 <= i < d.groups.len() implies (group_of_other(id))(#[trigger] d.groups[i]) by {
        m.groups.lemma_filter_pred(group_of_other(id), i);
    }
    assert forall|i: int| 0 <= i < d.messages.len() implies (message_of_other(id))(#[trigger] d.messages[i]) by {
        m.messages.lemma_filter_pred(message_of_other(id), i);
    }
    assert forall|i: int| 0 <= i < d.contacts.len() implies d.has_account(#[trigger] d.contacts[i].account_id@) by {
        assert(m.contacts.contains(d.contacts[i]));
        let k = choose|k: int| 0 <= k < m.contacts.len() && m.contacts[k] == d.contacts[i];
        assert(m.has_account(m.contacts[k].account_id@));
        lemma_kept_account(m, id, d.contacts[i].account_id@);
    }
    assert forall|i: int| 0 <= i < d.groups.len() implies d.has_account(#[trigger] d.groups[i].account_id@) by {
        assert(m.groups.contains(d.groups[i]));
        let k = choose|k: int| 0 <= k < m.groups.len() && m.groups[k] == d.groups[i];
        assert(m.has_account(m.groups[k].account_id@));
        lemma_kept_account(m, id, d.groups[i].account_id@);
    }
    assert forall|i: int| 0 <= i < d.messages.len() implies d.has_account(#[trigger] d.messages[i].account_id@) by {
        assert(m.messages.contains(d.messages[i]));
        let k = choose|k: int| 0 <= k < m.messages.len() && m.messages[k] == d.messages[i];
        assert(m.has_account(m.messages[k].account_id@));
        lemma_kept_account(m, id, d.messages[i].account_id@);
    }
}

impl TinaDb {
    /// Deletes the account and, with it, every contact, group and message of it.
    pub fn delete_account(&mut self, id: &String)
        requires
            old(self).wf(),
        ensures
            final(self).wf(),
            final(self)@ == old(self)@.delete_account(id@),
    {
        let ghost p_accounts = other_account(id@);
        let mut accounts: Vec<Account> = Vec::new();
        let mut i: usize = 0;
        while i < self.accounts.len()
            invariant
                i <= self@.accounts.len(),
                p_accounts == other_account(id@),
                accounts@ == self@.accounts.take(i as int).filter(p_accounts),
            decreases self@.accounts.len() - i,
        {
            proof {
                reveal(Seq::filter);
            }
            assert(self@.accounts.take(i + 1).drop_last() =~= self@.accounts.take(i as int));
            if !same_text(&self.accounts[i].id, id) {
                accounts.push(self.accounts[i].copy());
            }
            i += 1;
        }
        assert(self@.accounts.take(i as int) =~= self@.accounts);
        let ghost p_contacts = contact_of_other(id@);
        let mut contacts: Vec<Contact> = Vec::new();
        let mut i: usize = 0;
        while i < self.contacts.len()
            invariant
                i <= self@.contacts.len(),
                p_contacts == contact_of_other(id@),
                contacts@ == self@.contacts.take(i as int).filter(p_contacts),
            decreases self@.contacts.len() - i,
        {
            proof {
                reveal(Seq::filter);
            }
            assert(self@.contacts.take(i + 1).drop_last() =~= self@.contacts.take(i as int));
            if !same_text(&self.contacts[i].account_id, id) {
                contacts.push(self.contacts[i].copy());
            }
            i += 1;
        }
        assert(self@.contacts.take(i as int) =~= self@.contacts);
        let ghost p_groups = group_of_other(id@);
        let mut groups: Vec<Group> = Vec::new();
        let mut i: usize = 0;
        while i < self.groups.len()
            invariant
                i <= self@.groups.len(),
                p_groups == group_of_other(id@),
                groups@ == self@.groups.take(i as int).filter(p_groups),
            decreases self@.groups.len() - i,
        {
            proof {
                reveal(Seq::filter);
            }
            assert(self@.groups.take(i + 1).drop_last() =~= self@.groups.take(i as int));
            if !same_text(&self.groups[i].account_id, id) {
                groups.push(self.groups[i].copy());
            }
            i += 1;
        }
        assert(self@.groups.take(i as int) =~= self@.groups);
        let ghost p_messages = message_of_other(id@);
        let mut messages: Vec<Message> = Vec::new();
        let mut i: usize = 0;
        while i < self.messages.len()
            invariant
                i <= self@.messages.len(),
                p_messages == message_of_other(id@),
                messages@ == self@.messages.take(i as int).filter(p_messages),
            decreases self@.messages.len() - i,
        {
            proof {
                reveal(Seq::filter);
            }
            assert(self@.messages.take(i + 1).drop_last() =~= self@.messages.take(i as int));
            if !same_text(&self.messages[i].account_id, id) {
                messages.push(self.messages[i].copy());
            }
            i += 1;
        }
        assert(self@.messages.take(i as int) =~= self@.messages);
        self.accounts = accounts;
        self.contacts = contacts;
        self.groups = groups;
        self.messages = messages;
        proof {
            lemma_delete_wf(old(self)@, id@);
            assert(self@ == old(self)@.delete_account(id@));
        }
    }
}

/// The name a chat is shown under: the group's subject, else the contact's name.
pub open spec fn resolved_name(m: StoreModel, account_id: Seq<char>, jid: Seq<char>) -> Option<String> {
    if m.has_group(account_id, jid) && m.group(account_id, jid).subject is Some {
        m.group(account_id, jid).subject
    } else if m.has_contact(account_id, jid) && m.contact(account_id, jid).name is Some {
        m.contact(account_id, jid).name
    } else {
        None
    }
}

impl TinaDb {
    /// The group subject or contact name of a chat, if the store has one.
    pub fn get_chat_name(&self, account_id: &String, jid: &String) -> (r: Option<String>)
        requires
            self.wf(),
        ensures
            r == resolved_name(self@, account_id@, jid@),
    {
        match self.get_group_by_jid(account_id, jid) {
            Some(g) => {
                if g.subject.is_some() {
                    return g.subject;
                }
            },
            None => {},
        }
        match self.get_contact_by_jid(account_id, jid) {
            Some(c) => c.name,
            None => None,
        }
    }
}

/// `a` sorts before `b` by character codes, a prefix first.
pub open spec fn text_lt(a: Seq<char>, b: Seq<char>) -> bool
    decreases a.len(),
{
    if a.len() == 0 {
        b.len() > 0
    } else if b.len() == 0 {
        false
    } else if a[0] != b[0] {
        (a[0] as u32) < (b[0] as u32)
    } else {
        text_lt(a.drop_first(), b.drop_first())
    }
}

/// An absent value sorts before any text.
pub open spec fn opt_text_lt(a: Option<String>, b: Option<String>) -> bool {
    match (a, b) {
        (None, Some(_)) => true,
        (Some(x), Some(y)) => text_lt(x@, y@),
        _ => false,
    }
}

fn text_less(a: &str, b: &str) -> (r: bool)
    ensures
        r == text_lt(a@, b@),
{
    let n = a.unicode_len();
    let m = b.unicode_len();
    let mut i: usize = 0;
    assert(a@.skip(0) =~= a@ && b@.skip(0) =~= b@);
    while i < n && i < m
        invariant
            n == a@.len(),
            m == b@.len(),
            i <= n,
            i <= m,
            text_lt(a@, b@) == text_lt(a@.skip(i as int), b@.skip(i as int)),
        decreases n - i,
    {
        let x = a.get_char(i);
        let y = b.get_char(i);
        if x != y {
            return (x as u32) < (y as u32);
        }
        assert(a@.skip(i as int).drop_first() =~= a@.skip(i + 1));
        assert(b@.skip(i as int).drop_first() =~= b@.skip(i + 1));
        i += 1;
    }
    i == n && i < m
}

fn opt_text_less(a: &Option<String>, b: &Option<String>) -> (r: bool)
    ensures
        r == opt_text_lt(*a, *b),
{
    match (a, b) {
        (None, Some(_)) => true,
        (Some(x), Some(y)) => text_less(x.as_str(), y.as_str()),
        _ => false,
    }
}

/// `x` placed before the first element whose name it sorts before; equal keys
/// keep their order.
pub open spec fn by_name_insert(s: Seq<Contact>, x: Contact) -> Seq<Contact>
    decreases s.len(),
{
    if s.len() == 0 {
        seq![x]
    } else if opt_text_lt(x.name, s[0].name) {
        seq![x] + s
    } else {
        seq![s[0]] + by_name_insert(s.drop_first(), x)
    }
}

/// `s` sorted by name, absent names first, stably.
pub open spec fn by_name_sorted(s: Seq<Contact>) -> Seq<Contact>
    decreases s.len(),
{
    if s.len() == 0 {
        s
    } else {
        by_name_insert(by_name_sorted(s.drop_last()), s.last())
    }
}

proof fn lemma_by_name_insert(s: Seq<Contact>, x: Contact, p: int)
    requires
        0 <= p <= s.len(),
        forall|i: int| 0 <= i < p ==> !opt_text_lt(x.name, #[trigger] s[i].name),
        p < s.len() ==> opt_text_lt(x.name, s[p].name),
    ensures
        by_name_insert(s, x) == s.take(p) + seq![x] + s.skip(p),
    decreases s.len(),
{
    if s.len() == 0 {
        assert(s.take(p) + seq![x] + s.skip(p) =~= seq![x]);
    } else if p == 0 {
        assert(s.take(p) + seq![x] + s.skip(p) =~= seq![x] + s);
    } else {
        lemma_by_name_insert(s.drop_first(), x, p - 1);
        assert(s.take(p) + seq![x] + s.skip(p) =~= seq![s[0]] + (s.drop_first().take(p - 1) + seq![x] + s.drop_first().skip(p - 1)));
    }
}

fn by_name_insert_exec(v: &mut Vec<Contact>, x: Contact)
    ensures
        final(v)@ == by_name_insert(old(v)@, x),
{
    let mut p: usize = 0;
    while p < v.len() && !opt_text_less(&x.name, &v[p].name)
        invariant
            p <= v@.len(),
            forall|i: int| 0 <= i < p ==> !opt_text_lt(x.name, #[trigger] v@[i].name),
        decreases v@.len() - p,
    {
        p += 1;
    }
    proof {
        lemma_by_name_insert(v@, x, p as int);
    }
    v.insert(p, x);
    assert(v@ =~= old(v)@.take(p as int) + seq![x] + old(v)@.skip(p as int));
}

/// `x` placed before the first element whose subject it sorts before; equal keys
/// keep their order.
pub open spec fn by_subject_insert(s: Seq<Group>, x: Group) -> Seq<Group>
    decreases s.len(),
{
    if s.len() == 0 {
        seq![x]
    } else if opt_text_lt(x.subject, s[0].subject) {
        seq![x] + s
    } else {
        seq![s[0]] + by_subject_insert(s.drop_first(), x)
    }
}

/// `s` sorted by subject, absent subjects first, stably.
pub open spec fn by_subject_sorted(s: Seq<Group>) -> Seq<Group>
    decreases s.len(),
{
    if s.len() == 0 {
        s
    } else {
        by_subject_insert(by_subject_sorted(s.drop_last()), s.last())
    }
}

proof fn lemma_by_subject_insert(s: Seq<Group>, x: Group, p: int)
    requires
        0 <= p <= s.len(),
        forall|i: int| 0 <= i < p ==> !opt_text_lt(x.subject, #[trigger] s[i].subject),
        p < s.len() ==> opt_text_lt(x.subject, s[p].subject),
    ensures
        by_subject_insert(s, x) == s.take(p) + seq![x] + s.skip(p),
    decreases s.len(),
{
    if s.len() == 0 {
        assert(s.take(p) + seq![x] + s.skip(p) =~= seq![x]);
    } else if p == 0 {
        assert(s.take(p) + seq![x] + s.skip(p) =~= seq![x] + s);
    } else {
        lemma_by_subject_insert(s.drop_first(), x, p - 1);
        assert(s.take(p) + seq![x] + s.skip(p) =~= seq![s[0]] + (s.drop_first().take(p - 1) + seq![x] + s.drop_first().skip(p - 1)));
    }
}

fn by_subject_insert_exec(v: &mut Vec<Group>, x: Group)
    ensures
        final(v)@ == by_subject_insert(old(v)@, x),
{
    let mut p: usize = 0;
    while p < v.len() && !opt_text_less(&x.subject, &v[p].subject)
        invariant
            p <= v@.len(),
            forall|i: int| 0 <= i < p ==> !opt_text_lt(x.subject, #[trigger] v@[i].subject),
        decreases v@.len() - p,
    {
        p += 1;
    }
    proof {
        lemma_by_subject_insert(v@, x, p as int);
    }
    v.insert(p, x);
    assert(v@ =~= old(v)@.take(p as int) + seq![x] + old(v)@.skip(p as int));
}

proof fn lemma_text_lt_asym(a: Seq<char>, b: Seq<char>)
    ensures
        text_lt(a, b) ==> !text_lt(b, a),
    decreases a.len(),
{
    if a.len() > 0 && b.len() > 0 {
        lemma_text_lt_asym(a.drop_first(), b.drop_first());
    }
}

proof fn lemma_text_lt_order(a: Seq<char>, b: Seq<char>, c: Seq<char>)
    ensures
        text_lt(a, b) ==> !text_lt(b, a),
        text_lt(a, b) && text_lt(b, c) ==> text_lt(a, c),
    decreases a.len(),
{
    lemma_text_lt_asym(a, b);
    if a.len() > 0 && b.len() > 0 && c.len() > 0 {
        lemma_text_lt_order(a.drop_first(), b.drop_first(), c.drop_first());
    }
}

/// Ordering by optional text is a strict order: `r` before `x` before `y` puts `r`
/// before `y`, and nothing goes before what it follows.
proof fn lemma_opt_text_lt_order(r: Option<String>, x: Option<String>, y: Option<String>)
    ensures
        opt_text_lt(r, x) ==> !opt_text_lt(x, r),
        opt_text_lt(r, x) && opt_text_lt(x, y) ==> opt_text_lt(r, y),
        !opt_text_lt(r, y) && opt_text_lt(x, y) ==> !opt_text_lt(r, x),
        opt_text_lt(x, y) ==> !opt_text_lt(y, x),
{
    match (r, x, y) {
        (Some(a), Some(b), Some(c)) => {
            lemma_text_lt_order(a@, b@, c@);
            lemma_text_lt_order(b@, c@, a@);
            lemma_text_lt_order(c@, a@, b@);
            lemma_text_lt_order(a@, c@, b@);
            lemma_text_lt_order(b@, a@, c@);
            lemma_text_lt_order(c@, b@, a@);
        },
        (Some(a), Some(b), _) => {
            lemma_text_lt_order(a@, b@, a@);
            lemma_text_lt_order(b@, a@, b@);
        },
        (_, Some(b), Some(c)) => {
            lemma_text_lt_order(b@, c@, b@);
            lemma_text_lt_order(c@, b@, c@);
        },
        (Some(a), _, Some(c)) => {
            lemma_text_lt_order(a@, c@, a@);
        },
        _ => {},
    }
}

/// `s` is ordered newest first: no element goes before an earlier one.
pub open spec fn newest_first_ordered(s: Seq<Message>) -> bool {
    forall|i: int, j: int| 0 <= i < j < s.len() ==> !(s[j].timestamp > s[i].timestamp)
}

proof fn lemma_newest_first_insert_law(s: Seq<Message>, x: Message)
    requires
        newest_first_ordered(s),
    ensures
        newest_first_ordered(newest_first_insert(s, x)),
        newest_first_insert(s, x).to_multiset() == s.to_multiset().insert(x),
    decreases s.len(),
{
    broadcast use vstd::seq_lib::group_to_multiset_ensures;
    if s.len() == 0 {
        assert(seq![x] =~= Seq::<Message>::empty().push(x));
        assert(Seq::<Message>::empty().to_multiset() =~= Multiset::empty()) by {
            broadcast use vstd::multiset::group_multiset_axioms;
        }
    } else if x.timestamp > s[0].timestamp {
        assert(seq![x] + s =~= s.insert(0, x));
        assert forall|k: int| 0 <= k < s.len() implies !(s[k].timestamp > x.timestamp) by {
            
        }
    } else {
        let rest = s.drop_first();
        assert(newest_first_ordered(rest)) by {
            assert forall|i: int, j: int| 0 <= i < j < rest.len() implies !(rest[j].timestamp > rest[i].timestamp) by {
                assert(rest[i] == s[i + 1] && rest[j] == s[j + 1]);
            }
        }
        lemma_newest_first_insert_law(rest, x);
        let r = newest_first_insert(rest, x);
        assert forall|k: int| 0 <= k < r.len() implies !(r[k].timestamp > s[0].timestamp) by {
            assert(r.contains(r[k]));
            assert(r.to_multiset().count(r[k]) > 0);
            if r[k] != x {
                assert(rest.to_multiset().count(r[k]) > 0);
                assert(rest.contains(r[k]));
                let m = choose|m: int| 0 <= m < rest.len() && rest[m] == r[k];
                assert(s[m + 1] == r[k]);
            }
        }
        assert(seq![s[0]] + r =~= r.insert(0, s[0]));
        assert(s =~= rest.insert(0, s[0]));
        let t = seq![s[0]] + r;
        assert forall|i: int, j: int| 0 <= i < j < t.len() implies !(t[j].timestamp > t[i].timestamp) by {
            if i == 0 {
                assert(t[j] == r[j - 1]);
            } else {
                assert(t[i] == r[i - 1] && t[j] == r[j - 1]);
            }
        }
    }
}

/// Sorting newest first gives an ordered permutation of `s`: the same elements, each
/// as often.
pub proof fn newest_first_sorted_law(s: Seq<Message>)
    ensures
        newest_first_ordered(newest_first_sorted(s)),
        newest_first_sorted(s).to_multiset() == s.to_multiset(),
    decreases s.len(),
{
    broadcast use vstd::seq_lib::group_to_multiset_ensures;
    if s.len() == 0 {
    } else {
        newest_first_sorted_law(s.drop_last());
        lemma_newest_first_insert_law(newest_first_sorted(s.drop_last()), s.last());
        assert(s =~= s.drop_last().push(s.last()));
    }
}

/// `s` is ordered oldest first: no element goes before an earlier one.
pub open spec fn oldest_first_ordered(s: Seq<Account>) -> bool {
    forall|i: int, j: int| 0 <= i < j < s.len() ==> !(s[j].created_at < s[i].created_at)
}

proof fn lemma_oldest_first_insert_law(s: Seq<Account>, x: Account)
    requires
        oldest_first_ordered(s),
    ensures
        oldest_first_ordered(oldest_first_insert(s, x)),
        oldest_first_insert(s, x).to_multiset() == s.to_multiset().insert(x),
    decreases s.len(),
{
    broadcast use vstd::seq_lib::group_to_multiset_ensures;
    if s.len() == 0 {
        assert(seq![x] =~= Seq::<Account>::empty().push(x));
        assert(Seq::<Account>::empty().to_multiset() =~= Multiset::empty()) by {
            broadcast use vstd::multiset::group_multiset_axioms;
        }
    } else if x.created_at < s[0].created_at {
        assert(seq![x] + s =~= s.insert(0, x));
        assert forall|k: int| 0 <= k < s.len() implies !(s[k].created_at < x.created_at) by {
            
        }
    } else {
        let rest = s.drop_first();
        assert(oldest_first_ordered(rest)) by {
            assert forall|i: int, j: int| 0 <= i < j < rest.len() implies !(rest[j].created_at < rest[i].created_at) by {
                assert(rest[i] == s[i + 1] && rest[j] == s[j + 1]);
            }
        }
        lemma_oldest_first_insert_law(rest, x);
        let r = oldest_first_insert(rest, x);
        assert forall|k: int| 0 <= k < r.len() implies !(r[k].created_at < s[0].created_at) by {
            assert(r.contains(r[k]));
            assert(r.to_multiset().count(r[k]) > 0);
            if r[k] != x {
                assert(rest.to_multiset().count(r[k]) > 0);
                assert(rest.contains(r[k]));
                let m = choose|m: int| 0 <= m < rest.len() && rest[m] == r[k];
                assert(s[m + 1] == r[k]);
            }
        }
        assert(seq![s[0]] + r =~= r.insert(0, s[0]));
        assert(s =~= rest.insert(0, s[0]));
        let t = seq![s[0]] + r;
        assert forall|i: int, j: int| 0 <= i < j < t.len() implies !(t[j].created_at < t[i].created_at) by {
            if i == 0 {
                assert(t[j] == r[j - 1]);
            } else {
                assert(t[i] == r[i - 1] && t[j] == r[j - 1]);
            }
        }
    }
}

/// Sorting oldest first gives an ordered permutation of `s`: the same elements, each
/// as often.
pub proof fn oldest_first_sorted_law(s: Seq<Account>)
    ensures
        oldest_first_ordered(oldest_first_sorted(s)),
        oldest_first_sorted(s).to_multiset() == s.to_multiset(),
    decreases s.len(),
{
    broadcast use vstd::seq_lib::group_to_multiset_ensures;
    if s.len() == 0 {
    } else {
        oldest_first_sorted_law(s.drop_last());
        lemma_oldest_first_insert_law(oldest_first_sorted(s.drop_last()), s.last());
        assert(s =~= s.drop_last().push(s.last()));
    }
}

/// `s` is ordered by name: no element goes before an earlier one.
pub open spec fn by_name_ordered(s: Seq<Contact>) -> bool {
    forall|i: int, j: int| 0 <= i < j < s.len() ==> !(opt_text_lt(s[j].name, s[i].name))
}

proof fn lemma_by_name_insert_law(s: Seq<Contact>, x: Contact)
    requires
        by_name_ordered(s),
    ensures
        by_name_ordered(by_name_insert(s, x)),
        by_name_insert(s, x).to_multiset() == s.to_multiset().insert(x),
    decreases s.len(),
{
    broadcast use vstd::seq_lib::group_to_multiset_ensures;
    if s.len() == 0 {
        assert(seq![x] =~= Seq::<Contact>::empty().push(x));
        assert(Seq::<Contact>::empty().to_multiset() =~= Multiset::empty()) by {
            broadcast use vstd::multiset::group_multiset_axioms;
        }
    } else if opt_text_lt(x.name, s[0].name) {
        assert(seq![x] + s =~= s.insert(0, x));
        assert forall|k: int| 0 <= k < s.len() implies !(opt_text_lt(s[k].name, x.name)) by {
            lemma_opt_text_lt_order(s[k].name, x.name, s[0].name);
        }
    } else {
        let rest = s.drop_first();
        assert(by_name_ordered(rest)) by {
            assert forall|i: int, j: int| 0 <= i < j < rest.len() implies !(opt_text_lt(rest[j].name, rest[i].name)) by {
                assert(rest[i] == s[i + 1] && rest[j] == s[j + 1]);
            }
        }
        lemma_by_name_insert_law(rest, x);
        let r = by_name_insert(rest, x);
        assert forall|k: int| 0 <= k < r.len() implies !(opt_text_lt(r[k].name, s[0].name)) by {
            assert(r.contains(r[k]));
            assert(r.to_multiset().count(r[k]) > 0);
            if r[k] != x {
                assert(rest.to_multiset().count(r[k]) > 0);
                assert(rest.contains(r[k]));
                let m = choose|m: int| 0 <= m < rest.len() && rest[m] == r[k];
                assert(s[m + 1] == r[k]);
            }
        }
        assert(seq![s[0]] + r =~= r.insert(0, s[0]));
        assert(s =~= rest.insert(0, s[0]));
        let t = seq![s[0]] + r;
        assert forall|i: int, j: int| 0 <= i < j < t.len() implies !(opt_text_lt(t[j].name, t[i].name)) by {
            if i == 0 {
                assert(t[j] == r[j - 1]);
            } else {
                assert(t[i] == r[i - 1] && t[j] == r[j - 1]);
            }
        }
    }
}

/// Sorting by name gives an ordered permutation of `s`: the same elements, each
/// as often.
pub proof fn by_name_sorted_law(s: Seq<Contact>)
    ensures
        by_name_ordered(by_name_sorted(s)),
        by_name_sorted(s).to_multiset() == s.to_multiset(),
    decreases s.len(),
{
    broadcast use vstd::seq_lib::group_to_multiset_ensures;
    if s.len() == 0 {
    } else {
        by_name_sorted_law(s.drop_last());
        lemma_by_name_insert_law(by_name_sorted(s.drop_last()), s.last());
        assert(s =~= s.drop_last().push(s.last()));
    }
}

/// `s` is ordered by subject: no element goes before an earlier one.
pub open spec fn by_subject_ordered(s: Seq<Group>) -> bool {
    forall|i: int, j: int| 0 <= i < j < s.len() ==> !(opt_text_lt(s[j].subject, s[i].subject))
}

proof fn lemma_by_subject_insert_law(s: Seq<Group>, x: Group)
    requires
        by_subject_ordered(s),
    ensures
        by_subject_ordered(by_subject_insert(s, x)),
        by_subject_insert(s, x).to_multiset() == s.to_multiset().insert(x),
    decreases s.len(),
{
    broadcast use vstd::seq_lib::group_to_multiset_ensures;
    if s.len() == 0 {
        assert(seq![x] =~= Seq::<Group>::empty().push(x));
        assert(Seq::<Group>::empty().to_multiset() =~= Multiset::empty()) by {
            broadcast use vstd::multiset::group_multiset_axioms;
        }
    } else if opt_text_lt(x.subject, s[0].subject) {
        assert(seq![x] + s =~= s.insert(0, x));
        assert forall|k: int| 0 <= k < s.len() implies !(opt_text_lt(s[k].subject, x.subject)) by {
            lemma_opt_text_lt_order(s[k].subject, x.subject, s[0].subject);
        }
    } else {
        let rest = s.drop_first();
        assert(by_subject_ordered(rest)) by {
            assert forall|i: int, j: int| 0 <= i < j < rest.len() implies !(opt_text_lt(rest[j].subject, rest[i].subject)) by {
                assert(rest[i] == s[i + 1] && rest[j] == s[j + 1]);
            }
        }
        lemma_by_subject_insert_law(rest, x);
        let r = by_subject_insert(rest, x);
        assert forall|k: int| 0 <= k < r.len() implies !(opt_text_lt(r[k].subject, s[0].subject)) by {
            assert(r.contains(r[k]));
            assert(r.to_multiset().count(r[k]) > 0);
            if r[k] != x {
                assert(rest.to_multiset().count(r[k]) > 0);
                assert(rest.contains(r[k]));
                let m = choose|m: int| 0 <= m < rest.len() && rest[m] == r[k];
                assert(s[m + 1] == r[k]);
            }
        }
        assert(seq![s[0]] + r =~= r.insert(0, s[0]));
        assert(s =~= rest.insert(0, s[0]));
        let t = seq![s[0]] + r;
        assert forall|i: int, j: int| 0 <= i < j < t.len() implies !(opt_text_lt(t[j].subject, t[i].subject)) by {
            if i == 0 {
                assert(t[j] == r[j - 1]);
            } else {
                assert(t[i] == r[i - 1] && t[j] == r[j - 1]);
            }
        }
    }
}

/// Sorting by subject gives an ordered permutation of `s`: the same elements, each
/// as often.
pub proof fn by_subject_sorted_law(s: Seq<Group>)
    ensures
        by_subject_ordered(by_subject_sorted(s)),
        by_subject_sorted(s).to_multiset() == s.to_multiset(),
    decreases s.len(),
{
    broadcast use vstd::seq_lib::group_to_multiset_ensures;
    if s.len() == 0 {
    } else {
        by_subject_sorted_law(s.drop_last());
        lemma_by_subject_insert_law(by_subject_sorted(s.drop_last()), s.last());
        assert(s =~= s.drop_last().push(s.last()));
    }
}

/// Some message of chat `a` comes before every message of chat `b` in `s`.
pub open spec fn appears_before(s: Seq<Message>, a: Seq<char>, b: Seq<char>) -> bool {
    exists|p: int| 0 <= p < s.len() && s[p].chat_jid@ == a && forall|q: int| 0 <= q <= p ==> (#[trigger] s[q]).chat_jid@ != b
}

/// The chats scanned from `s` are the chats of its messages, each listed once, in
/// order of first appearance: for two listed chats, a message of the earlier one
/// comes before every message of the later one.
pub proof fn first_chats_law(s: Seq<Message>)
    ensures
        first_chats(s).no_duplicates(),
        forall|j: Seq<char>| #[trigger] first_chats(s).contains(j) <==> exists|i: int| 0 <= i < s.len() && s[i].chat_jid@ == j,
        forall|k: int, l: int| 0 <= k < l < first_chats(s).len() ==> appears_before(s, #[trigger] first_chats(s)[k], #[trigger] first_chats(s)[l]),
    decreases s.len(),
{
    if s.len() > 0 {
        let d = s.drop_last();
        first_chats_law(d);
        let prev = first_chats(d);
        let c = s.last().chat_jid@;
        let r = first_chats(s);
        assert forall|j: Seq<char>| #[trigger] r.contains(j) <==> exists|i: int| 0 <= i < s.len() && s[i].chat_jid@ == j by {
            if prev.contains(c) {
                assert(r == prev);
                if exists|i: int| 0 <= i < s.len() && s[i].chat_jid@ == j {
                    let i = choose|i: int| 0 <= i < s.len() && s[i].chat_jid@ == j;
                    if i < s.len() - 1 {
                        assert(d[i] == s[i]);
                        assert(prev.contains(j));
                    }
                }
            } else {
                assert(r == prev.push(c));
                if r.contains(j) {
                    let k = choose|k: int| 0 <= k < r.len() && r[k] == j;
                    if k == prev.len() {
                        assert(s[s.len() - 1].chat_jid@ == j);
                    } else {
                        assert(prev[k] == j);
                        assert(prev.contains(j));
                        let i = choose|i: int| 0 <= i < d.len() && d[i].chat_jid@ == j;
                        assert(s[i] == d[i]);
                    }
                }
                if exists|i: int| 0 <= i < s.len() && s[i].chat_jid@ == j {
                    let i = choose|i: int| 0 <= i < s.len() && s[i].chat_jid@ == j;
                    if i < s.len() - 1 {
                        assert(d[i] == s[i]);
                        assert(prev.contains(j));
                        let k = choose|k: int| 0 <= k < prev.len() && prev[k] == j;
                        assert(r[k] == j);
                    } else {
                        assert(r[prev.len() as int] == j);
                    }
                }
            }
        }
        if !prev.contains(c) {
            assert(r == prev.push(c));
            assert forall|k: int, l: int| 0 <= k < l < r.len() implies r[k] != r[l] by {
                if l == prev.len() {
                    assert(prev[k] == r[k]);
                    assert(prev.contains(r[k]));
                } else {
                    assert(prev[k] == r[k] && prev[l] == r[l]);
                }
            }
            assert forall|k: int, l: int| 0 <= k < l < r.len() implies appears_before(s, #[trigger] r[k], #[trigger] r[l]) by {
                assert(r[k] == prev[k]);
                if l == prev.len() {
                    assert(prev.contains(prev[k]));
                    let p = choose|p: int| 0 <= p < d.len() && d[p].chat_jid@ == prev[k];
                    assert(s[p] == d[p]);
                    assert forall|q: int| 0 <= q <= p implies s[q].chat_jid@ != r[l] by {
                        assert(s[q] == d[q]);
                        if d[q].chat_jid@ == c {
                            assert(prev.contains(c));
                        }
                    }
                } else {
                    assert(r[l] == prev[l]);
                    assert(appears_before(d, prev[k], prev[l]));
                    let p = choose|p: int| 0 <= p < d.len() && d[p].chat_jid@ == prev[k]
                        && forall|q: int| 0 <= q <= p ==> (#[trigger] d[q]).chat_jid@ != prev[l];
                    assert(s[p] == d[p]);
                    assert forall|q: int| 0 <= q <= p implies s[q].chat_jid@ != r[l] by {
                        assert(s[q] == d[q]);
                    }
                }
            }
        } else {
            assert(r == prev);
            assert forall|k: int, l: int| 0 <= k < l < r.len() implies appears_before(s, #[trigger] r[k], #[trigger] r[l]) by {
                assert(appears_before(d, prev[k], prev[l]));
                let p = choose|p: int| 0 <= p < d.len() && d[p].chat_jid@ == prev[k]
                    && forall|q: int| 0 <= q <= p ==> (#[trigger] d[q]).chat_jid@ != prev[l];
                assert(s[p] == d[p]);
                assert forall|q: int| 0 <= q <= p implies s[q].chat_jid@ != r[l] by {
                    assert(s[q] == d[q]);
                }
            }
        }
    }
}

/// `get_chats` lists the chats of an account most recently active first: for two
/// listed chats, the earlier one has a message at least as new as every message of
/// the later one.
pub proof fn chats_by_activity_law(m: StoreModel, account_id: Seq<char>)
    ensures
        ({
            let s = newest_first_sorted(messages_of(m, account_id, None));
            let r = first_chats(s);
            forall|k: int, l: int, q: int| #![trigger r[k], r[l], s[q]] 0 <= k < l < r.len() && 0 <= q < s.len() && s[q].chat_jid@ == r[l]
                ==> exists|p: int| 0 <= p < s.len() && s[p].chat_jid@ == r[k] && s[p].timestamp >= s[q].timestamp
        }),
{
    let s = newest_first_sorted(messages_of(m, account_id, None));
    newest_first_sorted_law(messages_of(m, account_id, None));
    first_chats_law(s);
    let r = first_chats(s);
    assert forall|k: int, l: int, q: int| #![trigger r[k], r[l], s[q]] 0 <= k < l < r.len() && 0 <= q < s.len() && s[q].chat_jid@ == r[l]
        implies exists|p: int| 0 <= p < s.len() && s[p].chat_jid@ == r[k] && s[p].timestamp >= s[q].timestamp by {
        assert(appears_before(s, r[k], r[l]));
        let p = choose|p: int| 0 <= p < s.len() && s[p].chat_jid@ == r[k]
            && forall|q2: int| 0 <= q2 <= p ==> (#[trigger] s[q2]).chat_jid@ != r[l];
        assert(q > p);
        assert(!(s[q].timestamp > s[p].timestamp));
    }
}

} // verus!
