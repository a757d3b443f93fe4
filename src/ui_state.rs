//! What a front end shows: accounts, chats, the open chat and its messages.
use vstd::prelude::*;
use vstd::string::*;

verus! {

#[derive(Debug, Clone, PartialEq)]
pub struct AccountState {
    pub id: String,
    pub name: String,
    pub phone_number: Option<String>,
    pub is_connected: bool,
    pub is_syncing: bool,
}

#[derive(Debug, Clone, PartialEq)]
pub struct ChatState {
    pub jid: String,
    pub name: String,
    pub last_message: Option<String>,
    pub last_message_time: Option<i64>,
    pub unread_count: i32,
    pub is_group: bool,
}

#[derive(Debug, Clone, PartialEq)]
pub struct MessageState {
    pub id: String,
    pub sender_name: String,
    pub content: String,
    pub timestamp: i64,
    pub is_from_me: bool,
    pub message_type: String,
}

/// A request from a front end to its event loop.
#[derive(Debug, Clone, PartialEq)]
pub enum Command {
    CreateAccount { id: String, name: String },
    StartAccount { account_id: String },
    StopAccount { account_id: String },
    SelectAccount { account_id: String },
    SelectChat { chat_jid: String },
    LoadMessages { account_id: String, chat_jid: String },
    SendMessage { account_id: String, to: String, content: String },
    RefreshChats,
    Shutdown,
}

pub struct AppStateInner {
    pub current_account_id: Option<String>,
    pub current_chat_jid: Option<String>,
    pub current_chat_name: Option<String>,
    pub accounts: Vec<AccountState>,
    pub chats: Vec<ChatState>,
    pub messages: Vec<MessageState>,
    pub is_loading: bool,
    pub status_message: String,
    pub qr_code_data: Option<String>,
    pub show_qr_dialog: bool,
    pub sync_status: String,
}

/// The index of the first account with this id.
pub open spec fn first_account(s: Seq<AccountState>, id: Seq<char>) -> Option<int>
    decreases s.len(),
{
    if s.len() == 0 {
        None
    } else if s[0].id@ == id {
        Some(0)
    } else {
        match first_account(s.drop_first(), id) {
            Some(i) => Some(i + 1),
            None => None,
        }
    }
}

/// The index of the first chat with this JID.
pub open spec fn first_chat(s: Seq<ChatState>, jid: Seq<char>) -> Option<int>
    decreases s.len(),
{
    if s.len() == 0 {
        None
    } else if s[0].jid@ == jid {
        Some(0)
    } else {
        match first_chat(s.drop_first(), jid) {
            Some(i) => Some(i + 1),
            None => None,
        }
    }
}

proof fn lemma_first_account(s: Seq<AccountState>, id: Seq<char>, i: int)
    requires
        0 <= i <= s.len(),
        forall|k: int| 0 <= k < i ==> s[k].id@ != id,
        i < s.len() ==> s[i].id@ == id,
    ensures
        first_account(s, id) == if i < s.len() { Some(i) } else { None::<int> },
    decreases s.len(),
{
    if s.len() > 0 && i > 0 {
        lemma_first_account(s.drop_first(), id, i - 1);
    }
}

proof fn lemma_first_chat(s: Seq<ChatState>, jid: Seq<char>, i: int)
    requires
        0 <= i <= s.len(),
        forall|k: int| 0 <= k < i ==> s[k].jid@ != jid,
        i < s.len() ==> s[i].jid@ == jid,
    ensures
        first_chat(s, jid) == if i < s.len() { Some(i) } else { None::<int> },
    decreases s.len(),
{
    if s.len() > 0 && i > 0 {
        lemma_first_chat(s.drop_first(), jid, i - 1);
    }
}

fn find_account(s: &Vec<AccountState>, id: &str) -> (r: Option<usize>)
    ensures
        match r {
            Some(i) => i < s@.len() && first_account(s@, id@) == Some(i as int),
            None => first_account(s@, id@) is None,
        },
{
    let key = id.to_owned();
    let mut i: usize = 0;
    while i < s.len()
        invariant
            i <= s@.len(),
            key@ == id@,
            forall|k: int| 0 <= k < i ==> s@[k].id@ != id@,
        decreases s@.len() - i,
    {
        if <String as PartialEq>::eq(&s[i].id, &key) {
            proof {
                lemma_first_account(s@, id@, i as int);
            }
            return Some(i);
        }
        i += 1;
    }
    proof {
        lemma_first_account(s@, id@, i as int);
    }
    None
}

impl AppStateInner {
    /// The other fields than the account list are those of `other`.
    pub open spec fn same_but_accounts(&self, other: &AppStateInner) -> bool {
        &&& self.current_account_id == other.current_account_id
        &&& self.current_chat_jid == other.current_chat_jid
        &&& self.current_chat_name == other.current_chat_name
        &&& self.chats == other.chats
        &&& self.messages == other.messages
        &&& self.is_loading == other.is_loading
        &&& self.status_message == other.status_message
        &&& self.qr_code_data == other.qr_code_data
        &&& self.show_qr_dialog == other.show_qr_dialog
        &&& self.sync_status == other.sync_status
    }

    /// The fields that no chat or message update touches are those of `other`.
    pub open spec fn same_settings(&self, other: &AppStateInner) -> bool {
        &&& self.current_account_id == other.current_account_id
        &&& self.is_loading == other.is_loading
        &&& self.status_message == other.status_message
        &&& self.qr_code_data == other.qr_code_data
        &&& self.show_qr_dialog == other.show_qr_dialog
        &&& self.sync_status == other.sync_status
    }

    /// The start state: a welcome status and nothing else.
    pub fn new() -> (r: AppStateInner)
        ensures
            r.status_message@ == "Welcome to Tina"@,
            r.current_account_id is None,
            r.current_chat_jid is None,
            r.current_chat_name is None,
            r.accounts@.len() == 0,
            r.chats@.len() == 0,
            r.messages@.len() == 0,
            !r.is_loading,
            r.qr_code_data is None,
            !r.show_qr_dialog,
            r.sync_status@.len() == 0,
    {
        AppStateInner {
            current_account_id: None,
            current_chat_jid: None,
            current_chat_name: None,
            accounts: Vec::new(),
            chats: Vec::new(),
            messages: Vec::new(),
            is_loading: false,
            status_message: String::from_str("Welcome to Tina"),
            qr_code_data: None,
            show_qr_dialog: false,
            sync_status: String::new(),
        }
    }

    /// Marks the first account with this id connected, with the reported phone number.
    pub fn set_account_connected(&mut self, account_id: &str, phone_number: Option<String>)
        ensures
            final(self).same_but_accounts(old(self)),
            match first_account(old(self).accounts@, account_id@) {
                Some(i) => final(self).accounts@ == old(self).accounts@.update(
                    i,
                    AccountState { is_connected: true, phone_number: phone_number, ..old(self).accounts@[i] },
                ),
                None => final(self).accounts@ == old(self).accounts@,
            },
    {
        match find_account(&self.accounts, account_id) {
            Some(i) => {
                self.accounts[i].is_connected = true;
                self.accounts[i].phone_number = phone_number;
            },
            None => {},
        }
    }

    /// Marks the first account with this id disconnected and no longer syncing.
    pub fn set_account_disconnected(&mut self, account_id: &str)
        ensures
            final(self).same_but_accounts(old(self)),
            match first_account(old(self).accounts@, account_id@) {
                Some(i) => final(self).accounts@ == old(self).accounts@.update(
                    i,
                    AccountState { is_connected: false, is_syncing: false, ..old(self).accounts@[i] },
                ),
                None => final(self).accounts@ == old(self).accounts@,
            },
    {
        match find_account(&self.accounts, account_id) {
            Some(i) => {
                self.accounts[i].is_connected = false;
                self.accounts[i].is_syncing = false;
            },
            None => {},
        }
    }

    /// Adds the account unless one with its id is listed already.
    pub fn add_account(&mut self, account: AccountState)
        ensures
            final(self).same_but_accounts(old(self)),
            first_account(old(self).accounts@, account.id@) is None ==> final(self).accounts@ == old(self).accounts@.push(account),
            first_account(old(self).accounts@, account.id@) is Some ==> final(self).accounts@ == old(self).accounts@,
    {
        if find_account(&self.accounts, account.id.as_str()).is_none() {
            self.accounts.push(account);
        }
    }

    pub fn set_chats(&mut self, chats: Vec<ChatState>)
        ensures
            final(self).chats == chats,
            final(self).same_settings(old(self)),
            final(self).accounts == old(self).accounts,
            final(self).messages == old(self).messages,
            final(self).current_chat_jid == old(self).current_chat_jid,
            final(self).current_chat_name == old(self).current_chat_name,
    {
        self.chats = chats;
    }

    pub fn set_messages(&mut self, messages: Vec<MessageState>)
        ensures
            final(self).messages == messages,
            final(self).same_settings(old(self)),
            final(self).accounts == old(self).accounts,
            final(self).chats == old(self).chats,
            final(self).current_chat_jid == old(self).current_chat_jid,
            final(self).current_chat_name == old(self).current_chat_name,
    {
        self.messages = messages;
    }

    /// Opens the chat: its JID becomes current, and its name too when it is listed.
    pub fn select_chat(&mut self, jid: &str)
        ensures
            final(self).current_chat_jid matches Some(j) && j@ == jid@,
            match first_chat(old(self).chats@, jid@) {
                Some(i) => final(self).current_chat_name == Some(old(self).chats@[i].name),
                None => final(self).current_chat_name == old(self).current_chat_name,
            },
            final(self).same_settings(old(self)),
            final(self).accounts == old(self).accounts,
            final(self).chats == old(self).chats,
            final(self).messages == old(self).messages,
    {
        let key = jid.to_owned();
        self.current_chat_jid = Some(jid.to_owned());
        let mut i: usize = 0;
        while i < self.chats.len()
            invariant
                i <= self.chats@.len(),
                key@ == jid@,
                self.chats == old(self).chats,
                self.same_settings(old(self)),
                self.accounts == old(self).accounts,
                self.messages == old(self).messages,
                self.current_chat_name == old(self).current_chat_name,
                self.current_chat_jid matches Some(j) && j@ == jid@,
                forall|k: int| 0 <= k < i ==> self.chats@[k].jid@ != jid@,
            decreases self.chats@.len() - i,
        {
            if <String as PartialEq>::eq(&self.chats[i].jid, &key) {
                proof {
                    lemma_first_chat(self.chats@, jid@, i as int);
                }
                let name = self.chats[i].name.clone();
                self.current_chat_name = Some(name);
                return;
            }
            i += 1;
        }
        proof {
            lemma_first_chat(self.chats@, jid@, i as int);
        }
    }
}

} // verus!
