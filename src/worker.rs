//! The event pipeline: each engine event is persisted and translated into the
//! domain events that consumers see.
use vstd::prelude::*;

use crate::bridge::{is_command_line, BridgeModel, IpcError, NanachiManager, SpawnSpec, StopPlan, SHUTDOWN_GRACE_MS};
use crate::clock::chrono_timestamp;
use crate::display::{format_message_preview, preview_of};
use crate::events::{ContactData, GroupData, IpcCommand, IpcEvent, MessageData};
use crate::protocol::{participants_text, participants_text_is};
use crate::store::{
    by_name_sorted, by_subject_sorted, resolved_name, window, first_chats, messages_of, newest_first_sorted, oldest_first_sorted, Account, Contact, DbError, Group, GroupFields,
    Message, StoreModel, TinaDb,
};

verus! {

#[derive(Debug, Clone, Copy, PartialEq, Eq, Structural)]
pub enum SyncType {
    Contacts,
    Groups,
    Messages,
    History,
    All,
}

/// A domain event published to consumers.
#[derive(Debug, Clone, PartialEq)]
pub enum WorkerEvent {
    NanachiReady,
    AccountReady { account_id: String },
    QrCode { account_id: String, qr: String },
    Connected { account_id: String, phone_number: Option<String> },
    Disconnected { account_id: String, reason: String },
    LoggedOut { account_id: String },
    SyncStarted { account_id: String, sync_type: SyncType },
    SyncProgress { account_id: String, sync_type: SyncType, current: usize, total: Option<usize> },
    SyncCompleted { account_id: String, sync_type: SyncType, count: usize },
    ContactsSynced { account_id: String, count: usize },
    GroupsSynced { account_id: String, count: usize },
    MessagesSynced { account_id: String, count: usize },
    HistorySyncComplete { account_id: String, messages_count: usize },
    NewMessage { account_id: String, chat_jid: String, content: Option<String>, timestamp: i64 },
    Error { account_id: Option<String>, error: String },
}

/// A contact or group batch reports progress every this many items...
pub const BATCH_PROGRESS_EVERY: usize = 50;

/// ...once it holds more than this many items.
pub const BATCH_PROGRESS_THRESHOLD: usize = 10;

/// A message batch reports progress every this many items...
pub const MESSAGE_PROGRESS_EVERY: usize = 100;

/// ...once it holds more than this many items.
pub const MESSAGE_PROGRESS_THRESHOLD: usize = 50;

pub open spec fn sync_type_label(t: SyncType) -> Seq<char> {
    match t {
        SyncType::Contacts => "contacts"@,
        SyncType::Groups => "groups"@,
        SyncType::Messages => "messages"@,
        SyncType::History => "history"@,
        SyncType::All => "all"@,
    }
}

impl SyncType {
    /// The lower-case name of the sync kind.
    pub fn label(&self) -> (r: &'static str)
        ensures
            r@ == sync_type_label(*self),
    {
        match self {
            SyncType::Contacts => "contacts",
            SyncType::Groups => "groups",
            SyncType::Messages => "messages",
            SyncType::History => "history",
            SyncType::All => "all",
        }
    }
}

/// Whether the item that brings a batch of `total` to `done` processed items is reported.
pub open spec fn progress_due(total: usize, done: nat, every: nat, threshold: nat) -> bool {
    total > threshold && done % every == 0
}

pub open spec fn progress_event(account_id: String, sync_type: SyncType, total: usize, done: nat) -> WorkerEvent {
    WorkerEvent::SyncProgress { account_id: account_id, sync_type: sync_type, current: done as usize, total: Some(total) }
}

/// The progress events of a batch of `total` items after its first `done` items.
pub open spec fn progress_events(account_id: String, sync_type: SyncType, total: usize, done: nat, every: nat, threshold: nat) -> Seq<WorkerEvent>
    decreases done,
{
    if done == 0 {
        Seq::empty()
    } else {
        progress_events(account_id, sync_type, total, (done - 1) as nat, every, threshold) + (if progress_due(total, done, every, threshold) {
            seq![progress_event(account_id, sync_type, total, done)]
        } else {
            Seq::empty()
        })
    }
}

/// The store after upserting contacts in order, how many were applied, and the
/// error that stopped the batch, if one did.
pub open spec fn contacts_applied(m: StoreModel, account_id: String, cs: Seq<ContactData>, now: i64) -> (StoreModel, nat, Option<DbError>)
    decreases cs.len(),
{
    if cs.len() == 0 {
        (m, 0, None)
    } else {
        let prev = contacts_applied(m, account_id, cs.drop_last(), now);
        if prev.2 is Some {
            prev
        } else {
            match prev.0.upsert_contact(account_id, cs.last(), false, now) {
                Ok(m2) => (m2, prev.1 + 1, None),
                Err(e) => (prev.0, prev.1, Some(e)),
            }
        }
    }
}

pub open spec fn group_fields(g: GroupData, participants_json: Option<String>) -> GroupFields {
    GroupFields { jid: g.jid, subject: g.subject, owner: g.owner, description: g.description, participants_json: participants_json }
}

/// As `contacts_applied`, for groups whose participant texts are `ts`, by position.
pub open spec fn groups_applied(m: StoreModel, account_id: String, gs: Seq<GroupData>, ts: Seq<Option<String>>, now: i64) -> (StoreModel, nat, Option<DbError>)
    decreases gs.len(),
{
    if gs.len() == 0 {
        (m, 0, None)
    } else {
        let prev = groups_applied(m, account_id, gs.drop_last(), ts, now);
        if prev.2 is Some {
            prev
        } else {
            match prev.0.upsert_group(account_id, group_fields(gs.last(), ts[gs.len() - 1]), now) {
                Ok(m2) => (m2, prev.1 + 1, None),
                Err(e) => (prev.0, prev.1, Some(e)),
            }
        }
    }
}

pub open spec fn new_message_event(account_id: String, msg: MessageData) -> WorkerEvent {
    WorkerEvent::NewMessage { account_id: account_id, chat_jid: msg.chat_jid, content: msg.content, timestamp: msg.timestamp }
}

/// The store after inserting messages in order, the events published on the way
/// (a new-message event for each message whose insert succeeded, a redelivered
/// one included, then progress when due), how many
/// were applied, and the error that stopped the batch, if one did.
pub open spec fn messages_applied(m: StoreModel, account_id: String, ms: Seq<MessageData>, total: usize, now: i64) -> (StoreModel, Seq<WorkerEvent>, nat, Option<DbError>)
    decreases ms.len(),
{
    if ms.len() == 0 {
        (m, Seq::empty(), 0, None)
    } else {
        let prev = messages_applied(m, account_id, ms.drop_last(), total, now);
        if prev.3 is Some {
            prev
        } else {
            let msg = ms.last();
            match prev.0.insert_message(account_id, msg, now) {
                Ok(m2) => {
                    let done = prev.2 + 1;
                    let fresh = seq![new_message_event(account_id, msg)];
                    let progress = if progress_due(total, done, MESSAGE_PROGRESS_EVERY as nat, MESSAGE_PROGRESS_THRESHOLD as nat) {
                        seq![progress_event(account_id, SyncType::Messages, total, done)]
                    } else {
                        Seq::empty()
                    };
                    (m2, prev.1 + fresh + progress, done, None)
                },
                Err(e) => (prev.0, prev.1, prev.2, Some(e)),
            }
        }
    }
}

/// A bulk batch's events: started, what the items produced, then, if every item was
/// applied, completed and the summary event.
pub open spec fn batch_events(account_id: String, sync_type: SyncType, total: usize, body: Seq<WorkerEvent>, complete: bool, summary: WorkerEvent) -> Seq<WorkerEvent> {
    seq![WorkerEvent::SyncStarted { account_id: account_id, sync_type: sync_type }] + body + (if complete {
        seq![WorkerEvent::SyncCompleted { account_id: account_id, sync_type: sync_type, count: total }, summary]
    } else {
        Seq::empty()
    })
}

pub open spec fn result_of(e: Option<DbError>) -> Result<(), DbError> {
    match e {
        Some(e) => Err(e),
        None => Ok(()),
    }
}

/// What handling `event` does: the store goes from `m` to `m2`, `published` is
/// published in order, and `result` is returned.
pub open spec fn handled(m: StoreModel, event: IpcEvent, now: i64, m2: StoreModel, published: Seq<WorkerEvent>, result: Result<(), DbError>) -> bool {
    match event {
        IpcEvent::Ready { account_id } => m2 == m && result is Ok && published == (if account_id@.len() == 0 {
            seq![WorkerEvent::NanachiReady]
        } else {
            seq![WorkerEvent::AccountReady { account_id: account_id }]
        }),
        IpcEvent::QrCode { account_id, qr } => m2 == m && result is Ok && published == seq![WorkerEvent::QrCode { account_id: account_id, qr: qr }],
        IpcEvent::Connected { account_id, phone_number } => m2 == m && result is Ok && published
            == seq![WorkerEvent::Connected { account_id: account_id, phone_number: phone_number }],
        IpcEvent::Disconnected { account_id, reason } => m2 == m && result is Ok && published
            == seq![WorkerEvent::Disconnected { account_id: account_id, reason: reason }],
        IpcEvent::LoggedOut { account_id } => m2 == m && result is Ok && published == seq![WorkerEvent::LoggedOut { account_id: account_id }],
        IpcEvent::AuthStateUpdated { account_id, auth_state } => m2 == m.save_auth_state(account_id@, auth_state, now) && result is Ok
            && published == Seq::<WorkerEvent>::empty(),
        IpcEvent::ContactsUpsert { account_id, contacts } => {
            let a = contacts_applied(m, account_id, contacts@, now);
            let total = contacts@.len() as usize;
            &&& m2 == a.0
            &&& result == result_of(a.2)
            &&& published == batch_events(
                account_id,
                SyncType::Contacts,
                total,
                progress_events(account_id, SyncType::Contacts, total, a.1, BATCH_PROGRESS_EVERY as nat, BATCH_PROGRESS_THRESHOLD as nat),
                a.2 is None,
                WorkerEvent::ContactsSynced { account_id: account_id, count: total },
            )
        },
        IpcEvent::ContactsUpdate { account_id, contacts } => {
            let a = contacts_applied(m, account_id, contacts@, now);
            m2 == a.0 && result == result_of(a.2) && published == Seq::<WorkerEvent>::empty()
        },
        IpcEvent::GroupsUpsert { account_id, groups } => {
            let total = groups@.len() as usize;
            exists|ts: Seq<Option<String>>| #![trigger groups_applied(m, account_id, groups@, ts, now)] {
                let a = groups_applied(m, account_id, groups@, ts, now);
                &&& ts.len() == groups@.len()
                &&& forall|i: int| 0 <= i < ts.len() ==> participants_text_is(#[trigger] ts[i], groups@[i].participants@)
                &&& m2 == a.0
                &&& result == result_of(a.2)
                &&& published == batch_events(
                    account_id,
                    SyncType::Groups,
                    total,
                    progress_events(account_id, SyncType::Groups, total, a.1, BATCH_PROGRESS_EVERY as nat, BATCH_PROGRESS_THRESHOLD as nat),
                    a.2 is None,
                    WorkerEvent::GroupsSynced { account_id: account_id, count: total },
                )
            }
        },
        IpcEvent::GroupsUpdate { account_id, groups } => {
            exists|ts: Seq<Option<String>>| #![trigger groups_applied(m, account_id, groups@, ts, now)] {
                let a = groups_applied(m, account_id, groups@, ts, now);
                &&& ts.len() == groups@.len()
                &&& forall|i: int| 0 <= i < ts.len() ==> participants_text_is(#[trigger] ts[i], groups@[i].participants@)
                &&& m2 == a.0
                &&& result == result_of(a.2)
                &&& published == Seq::<WorkerEvent>::empty()
            }
        },
        IpcEvent::MessagesUpsert { account_id, messages } => {
            let total = messages@.len() as usize;
            let a = messages_applied(m, account_id, messages@, total, now);
            &&& m2 == a.0
            &&& result == result_of(a.3)
            &&& published == batch_events(
                account_id,
                SyncType::Messages,
                total,
                a.1,
                a.3 is None,
                WorkerEvent::MessagesSynced { account_id: account_id, count: total },
            )
        },
        IpcEvent::HistorySyncComplete { account_id, messages_count } => m2 == m && result is Ok && published == seq![
            WorkerEvent::SyncCompleted { account_id: account_id, sync_type: SyncType::History, count: messages_count },
            WorkerEvent::HistorySyncComplete { account_id: account_id, messages_count: messages_count },
        ],
        IpcEvent::Error { account_id, error } => m2 == m && result is Ok && published == seq![WorkerEvent::Error { account_id: account_id, error: error }],
        IpcEvent::CommandResult { .. } => m2 == m && result is Ok && published == Seq::<WorkerEvent>::empty(),
    }
}

/// What handling one engine event produced.
pub struct EventOutcome {
    /// The domain events to publish, in order.
    pub published: Vec<WorkerEvent>,
    /// The store error that stopped a batch, if one did.
    pub result: Result<(), DbError>,
}

proof fn lemma_contacts_stop(m: StoreModel, account_id: String, cs: Seq<ContactData>, now: i64, j: int)
    requires
        0 <= j <= cs.len(),
        contacts_applied(m, account_id, cs.take(j), now).2 is Some,
    ensures
        contacts_applied(m, account_id, cs, now) == contacts_applied(m, account_id, cs.take(j), now),
    decreases cs.len(),
{
    if j == cs.len() {
        assert(cs.take(j) =~= cs);
    } else {
        assert(cs.drop_last().take(j) =~= cs.take(j));
        lemma_contacts_stop(m, account_id, cs.drop_last(), now, j);
    }
}

proof fn lemma_groups_stop(m: StoreModel, account_id: String, gs: Seq<GroupData>, ts: Seq<Option<String>>, now: i64, j: int)
    requires
        0 <= j <= gs.len(),
        groups_applied(m, account_id, gs.take(j), ts, now).2 is Some,
    ensures
        groups_applied(m, account_id, gs, ts, now) == groups_applied(m, account_id, gs.take(j), ts, now),
    decreases gs.len(),
{
    if j == gs.len() {
        assert(gs.take(j) =~= gs);
    } else {
        assert(gs.drop_last().take(j) =~= gs.take(j));
        lemma_groups_stop(m, account_id, gs.drop_last(), ts, now, j);
    }
}

proof fn lemma_messages_stop(m: StoreModel, account_id: String, ms: Seq<MessageData>, total: usize, now: i64, j: int)
    requires
        0 <= j <= ms.len(),
        messages_applied(m, account_id, ms.take(j), total, now).3 is Some,
    ensures
        messages_applied(m, account_id, ms, total, now) == messages_applied(m, account_id, ms.take(j), total, now),
    decreases ms.len(),
{
    if j == ms.len() {
        assert(ms.take(j) =~= ms);
    } else {
        assert(ms.drop_last().take(j) =~= ms.take(j));
        lemma_messages_stop(m, account_id, ms.drop_last(), total, now, j);
    }
}

/// Upserts a batch of contacts in order, stopping at the first store error; when
/// `report` holds, progress events are appended to `published`.
fn apply_contacts(db: &mut TinaDb, account_id: &String, contacts: &Vec<ContactData>, now: i64, report: bool, published: &mut Vec<WorkerEvent>) -> (r: Result<(), DbError>)
    requires
        old(db).wf(),
    ensures
        final(db).wf(),
        ({
            let a = contacts_applied(old(db)@, *account_id, contacts@, now);
            &&& final(db)@ == a.0
            &&& r == result_of(a.2)
            &&& final(published)@ == old(published)@ + (if report {
                progress_events(*account_id, SyncType::Contacts, contacts@.len() as usize, a.1, BATCH_PROGRESS_EVERY as nat, BATCH_PROGRESS_THRESHOLD as nat)
            } else {
                Seq::empty()
            })
        }),
{
    let count = contacts.len();
    let mut i: usize = 0;
    assert(contacts@.take(0) =~= Seq::<ContactData>::empty());
    while i < count
        invariant
            count == contacts@.len(),
            i <= count,
            db.wf(),
            contacts_applied(old(db)@, *account_id, contacts@.take(i as int), now) == (db@, i as nat, None::<DbError>),
            published@ == old(published)@ + (if report {
                progress_events(*account_id, SyncType::Contacts, count, i as nat, BATCH_PROGRESS_EVERY as nat, BATCH_PROGRESS_THRESHOLD as nat)
            } else {
                Seq::empty()
            }),
        decreases count - i,
    {
        assert(contacts@.take(i + 1).drop_last() =~= contacts@.take(i as int));
        assert(contacts@.take(i + 1).last() == contacts@[i as int]);
        let c = contacts[i].copy();
        match db.upsert_contact(account_id.clone(), c, false, now) {
            Ok(()) => {},
            Err(e) => {
                proof {
                    lemma_contacts_stop(old(db)@, *account_id, contacts@, now, i + 1);
                }
                return Err(e);
            },
        }
        if report && count > BATCH_PROGRESS_THRESHOLD && (i + 1) % BATCH_PROGRESS_EVERY == 0 {
            published.push(WorkerEvent::SyncProgress { account_id: account_id.clone(), sync_type: SyncType::Contacts, current: i + 1, total: Some(count) });
        }
        i += 1;
        proof {
            if report {
                assert(published@ =~= old(published)@ + progress_events(*account_id, SyncType::Contacts, count, i as nat, BATCH_PROGRESS_EVERY as nat, BATCH_PROGRESS_THRESHOLD as nat));
            } else {
                assert(published@ =~= old(published)@ + Seq::<WorkerEvent>::empty());
            }
        }
    }
    assert(contacts@.take(count as int) =~= contacts@);
    Ok(())
}

/// Upserts a batch of groups in order, stopping at the first store error; when
/// `report` holds, progress events are appended to `published`.
fn apply_groups(db: &mut TinaDb, account_id: &String, groups: &Vec<GroupData>, now: i64, report: bool, published: &mut Vec<WorkerEvent>) -> (r: Result<(), DbError>)
    requires
        old(db).wf(),
    ensures
        final(db).wf(),
        exists|ts: Seq<Option<String>>| #![trigger groups_applied(old(db)@, *account_id, groups@, ts, now)] {
            let a = groups_applied(old(db)@, *account_id, groups@, ts, now);
            &&& ts.len() == groups@.len()
            &&& forall|i: int| 0 <= i < ts.len() ==> participants_text_is(#[trigger] ts[i], groups@[i].participants@)
            &&& final(db)@ == a.0
            &&& r == result_of(a.2)
            &&& final(published)@ == old(published)@ + (if report {
                progress_events(*account_id, SyncType::Groups, groups@.len() as usize, a.1, BATCH_PROGRESS_EVERY as nat, BATCH_PROGRESS_THRESHOLD as nat)
            } else {
                Seq::empty()
            })
        },
{
    let count = groups.len();
    let mut texts: Vec<Option<String>> = Vec::new();
    let mut k: usize = 0;
    while k < count
        invariant
            count == groups@.len(),
            k <= count,
            texts@.len() == k,
            forall|i: int| 0 <= i < k ==> participants_text_is(#[trigger] texts@[i], groups@[i].participants@),
        decreases count - k,
    {
        texts.push(participants_text(&groups[k].participants));
        k += 1;
    }
    let ghost ts = texts@;
    let mut i: usize = 0;
    assert(groups@.take(0) =~= Seq::<GroupData>::empty());
    while i < count
        invariant
            count == groups@.len(),
            i <= count,
            texts@ == ts,
            ts.len() == count,
            forall|k: int| 0 <= k < ts.len() ==> participants_text_is(#[trigger] ts[k], groups@[k].participants@),
            db.wf(),
            groups_applied(old(db)@, *account_id, groups@.take(i as int), ts, now) == (db@, i as nat, None::<DbError>),
            published@ == old(published)@ + (if report {
                progress_events(*account_id, SyncType::Groups, count, i as nat, BATCH_PROGRESS_EVERY as nat, BATCH_PROGRESS_THRESHOLD as nat)
            } else {
                Seq::empty()
            }),
        decreases count - i,
    {
        assert(groups@.take(i + 1).drop_last() =~= groups@.take(i as int));
        assert(groups@.take(i + 1).last() == groups@[i as int]);
        let g = &groups[i];
        let fields = GroupFields {
            jid: g.jid.clone(),
            subject: crate::events::copy_opt(&g.subject),
            owner: crate::events::copy_opt(&g.owner),
            description: crate::events::copy_opt(&g.description),
            participants_json: crate::events::copy_opt(&texts[i]),
        };
        assert(fields == group_fields(groups@[i as int], ts[i as int]));
        match db.upsert_group(account_id.clone(), fields, now) {
            Ok(()) => {},
            Err(e) => {
                proof {
                    lemma_groups_stop(old(db)@, *account_id, groups@, ts, now, i + 1);
                    assert(groups_applied(old(db)@, *account_id, groups@, ts, now).1 == i as nat);
                }
                return Err(e);
            },
        }
        if report && count > BATCH_PROGRESS_THRESHOLD && (i + 1) % BATCH_PROGRESS_EVERY == 0 {
            published.push(WorkerEvent::SyncProgress { account_id: account_id.clone(), sync_type: SyncType::Groups, current: i + 1, total: Some(count) });
        }
        i += 1;
        proof {
            if report {
                assert(published@ =~= old(published)@ + progress_events(*account_id, SyncType::Groups, count, i as nat, BATCH_PROGRESS_EVERY as nat, BATCH_PROGRESS_THRESHOLD as nat));
            } else {
                assert(published@ =~= old(published)@ + Seq::<WorkerEvent>::empty());
            }
        }
    }
    assert(groups@.take(count as int) =~= groups@);
    Ok(())
}

/// Inserts a batch of messages in order, stopping at the first store error, and
/// appends the events that `messages_applied` describes to `published`.
fn apply_messages(db: &mut TinaDb, account_id: &String, messages: &Vec<MessageData>, now: i64, published: &mut Vec<WorkerEvent>) -> (r: Result<(), DbError>)
    requires
        old(db).wf(),
    ensures
        final(db).wf(),
        ({
            let a = messages_applied(old(db)@, *account_id, messages@, messages@.len() as usize, now);
            &&& final(db)@ == a.0
            &&& r == result_of(a.3)
            &&& final(published)@ == old(published)@ + a.1
        }),
{
    let count = messages.len();
    let mut i: usize = 0;
    assert(messages@.take(0) =~= Seq::<MessageData>::empty());
    assert(published@ =~= old(published)@ + Seq::<WorkerEvent>::empty());
    while i < count
        invariant
            count == messages@.len(),
            i <= count,
            db.wf(),
            ({
                let a = messages_applied(old(db)@, *account_id, messages@.take(i as int), count, now);
                &&& a.0 == db@
                &&& a.2 == i as nat
                &&& a.3 is None
                &&& published@ == old(published)@ + a.1
            }),
        decreases count - i,
    {
        assert(messages@.take(i + 1).drop_last() =~= messages@.take(i as int));
        assert(messages@.take(i + 1).last() == messages@[i as int]);
        let m = &messages[i];
        let chat_jid = m.chat_jid.clone();
        let content = crate::events::copy_opt(&m.content);
        let timestamp = m.timestamp;
        match db.insert_message(account_id.clone(), m.copy(), now) {
            Ok(_) => {
                published.push(WorkerEvent::NewMessage { account_id: account_id.clone(), chat_jid: chat_jid, content: content, timestamp: timestamp });
            },
            Err(e) => {
                proof {
                    lemma_messages_stop(old(db)@, *account_id, messages@, count, now, i + 1);
                }
                return Err(e);
            },
        }
        if count > MESSAGE_PROGRESS_THRESHOLD && (i + 1) % MESSAGE_PROGRESS_EVERY == 0 {
            published.push(WorkerEvent::SyncProgress { account_id: account_id.clone(), sync_type: SyncType::Messages, current: i + 1, total: Some(count) });
        }
        i += 1;
        proof {
            let a = messages_applied(old(db)@, *account_id, messages@.take(i as int), count, now);
            assert(published@ =~= old(published)@ + a.1);
        }
    }
    assert(messages@.take(count as int) =~= messages@);
    Ok(())
}

/// Persists what `event` carries and returns the domain events it translates to.
/// A store error stops a batch at the failing item; the events of the items before
/// it are still published.
pub fn handle_ipc_event(db: &mut TinaDb, event: IpcEvent, now: i64) -> (r: EventOutcome)
    requires
        old(db).wf(),
    ensures
        final(db).wf(),
        handled(old(db)@, event, now, final(db)@, r.published@, r.result),
{
    let mut published: Vec<WorkerEvent> = Vec::new();
    let result = match event {
        IpcEvent::Ready { account_id } => {
            if account_id.as_str().is_empty() {
                published.push(WorkerEvent::NanachiReady);
            } else {
                published.push(WorkerEvent::AccountReady { account_id });
            }
            Ok(())
        },
        IpcEvent::QrCode { account_id, qr } => {
            published.push(WorkerEvent::QrCode { account_id, qr });
            Ok(())
        },
        IpcEvent::Connected { account_id, phone_number } => {
            published.push(WorkerEvent::Connected { account_id, phone_number });
            Ok(())
        },
        IpcEvent::Disconnected { account_id, reason } => {
            published.push(WorkerEvent::Disconnected { account_id, reason });
            Ok(())
        },
        IpcEvent::LoggedOut { account_id } => {
            published.push(WorkerEvent::LoggedOut { account_id });
            Ok(())
        },
        IpcEvent::AuthStateUpdated { account_id, auth_state } => {
            db.save_auth_state(&account_id, auth_state, now);
            Ok(())
        },
        IpcEvent::ContactsUpsert { account_id, contacts } => {
            let count = contacts.len();
            published.push(WorkerEvent::SyncStarted { account_id: account_id.clone(), sync_type: SyncType::Contacts });
            let ghost started = published@;
            let r = apply_contacts(db, &account_id, &contacts, now, true, &mut published);
            let ghost body = published@.skip(1);
            assert(published@ =~= started + body);
            if r.is_ok() {
                published.push(WorkerEvent::SyncCompleted { account_id: account_id.clone(), sync_type: SyncType::Contacts, count });
                published.push(WorkerEvent::ContactsSynced { account_id, count });
            }
            assert(published@ =~= batch_events(account_id, SyncType::Contacts, count, body, r is Ok,
                WorkerEvent::ContactsSynced { account_id: account_id, count: count }));
            r
        },
        IpcEvent::ContactsUpdate { account_id, contacts } => {
            apply_contacts(db, &account_id, &contacts, now, false, &mut published)
        },
        IpcEvent::GroupsUpsert { account_id, groups } => {
            let count = groups.len();
            published.push(WorkerEvent::SyncStarted { account_id: account_id.clone(), sync_type: SyncType::Groups });
            let ghost started = published@;
            let r = apply_groups(db, &account_id, &groups, now, true, &mut published);
            let ghost body = published@.skip(1);
            assert(published@ =~= started + body);
            if r.is_ok() {
                published.push(WorkerEvent::SyncCompleted { account_id: account_id.clone(), sync_type: SyncType::Groups, count });
                published.push(WorkerEvent::GroupsSynced { account_id, count });
            }
            assert(published@ =~= batch_events(account_id, SyncType::Groups, count, body, r is Ok,
                WorkerEvent::GroupsSynced { account_id: account_id, count: count }));
            r
        },
        IpcEvent::GroupsUpdate { account_id, groups } => {
            apply_groups(db, &account_id, &groups, now, false, &mut published)
        },
        IpcEvent::MessagesUpsert { account_id, messages } => {
            let count = messages.len();
            published.push(WorkerEvent::SyncStarted { account_id: account_id.clone(), sync_type: SyncType::Messages });
            let ghost started = published@;
            let r = apply_messages(db, &account_id, &messages, now, &mut published);
            let ghost body = published@.skip(1);
            assert(published@ =~= started + body);
            if r.is_ok() {
                published.push(WorkerEvent::SyncCompleted { account_id: account_id.clone(), sync_type: SyncType::Messages, count });
                published.push(WorkerEvent::MessagesSynced { account_id, count });
            }
            assert(published@ =~= batch_events(account_id, SyncType::Messages, count, body, r is Ok,
                WorkerEvent::MessagesSynced { account_id: account_id, count: count }));
            r
        },
        IpcEvent::HistorySyncComplete { account_id, messages_count } => {
            published.push(WorkerEvent::SyncCompleted { account_id: account_id.clone(), sync_type: SyncType::History, count: messages_count });
            published.push(WorkerEvent::HistorySyncComplete { account_id, messages_count });
            assert(published@ =~= seq![
                WorkerEvent::SyncCompleted { account_id: account_id, sync_type: SyncType::History, count: messages_count },
                WorkerEvent::HistorySyncComplete { account_id: account_id, messages_count: messages_count },
            ]);
            Ok(())
        },
        IpcEvent::Error { account_id, error } => {
            published.push(WorkerEvent::Error { account_id, error });
            Ok(())
        },
        IpcEvent::CommandResult { .. } => Ok(()),
    };
    EventOutcome { published, result }
}

proof fn lemma_batch_progress(account_id: String, sync_type: SyncType, total: usize, done: nat)
    requires
        total > BATCH_PROGRESS_THRESHOLD,
    ensures
        progress_events(account_id, sync_type, total, done, BATCH_PROGRESS_EVERY as nat, BATCH_PROGRESS_THRESHOLD as nat).len() == done / 50,
        forall|i: int| 0 <= i < done / 50 ==> #[trigger] progress_events(account_id, sync_type, total, done, BATCH_PROGRESS_EVERY as nat, BATCH_PROGRESS_THRESHOLD as nat)[i]
            == progress_event(account_id, sync_type, total, (50 * (i + 1)) as nat),
    decreases done,
{
    if done > 0 {
        lemma_batch_progress(account_id, sync_type, total, (done - 1) as nat);
    }
}

/// In a contact or group batch of more than ten items that is applied in full,
/// progress is reported after every fiftieth item: there are `total / 50` progress
/// events, and their `current` counts are 50, 100, 150, ... in that order, so each
/// is larger than the one before.
pub proof fn batch_progress_law(account_id: String, sync_type: SyncType, total: usize)
    requires
        total > BATCH_PROGRESS_THRESHOLD,
    ensures
        ({
            let p = progress_events(account_id, sync_type, total, total as nat, BATCH_PROGRESS_EVERY as nat, BATCH_PROGRESS_THRESHOLD as nat);
            &&& p.len() == total / 50
            &&& forall|i: int| 0 <= i < p.len() ==> p[i] == progress_event(account_id, sync_type, total, (50 * (i + 1)) as nat)
            &&& forall|i: int, j: int| 0 <= i < j < p.len() ==> (p[i]->current < p[j]->current)
        }),
{
    lemma_batch_progress(account_id, sync_type, total, total as nat);
    let p = progress_events(account_id, sync_type, total, total as nat, BATCH_PROGRESS_EVERY as nat, BATCH_PROGRESS_THRESHOLD as nat);
    assert forall|i: int, j: int| 0 <= i < j < p.len() implies (p[i]->current < p[j]->current) by {
        assert(p[i] == progress_event(account_id, sync_type, total, (50 * (i + 1)) as nat));
        assert(p[j] == progress_event(account_id, sync_type, total, (50 * (j + 1)) as nat));
        assert(50 * (j + 1) <= total) by {
            assert(j < total / 50);
        }
    }
}

#[derive(Debug, Clone, PartialEq)]
pub enum WorkerError {
    Db(DbError),
    Ipc(IpcError),
    NotStarted,
    AccountNotFound(String),
    ChannelClosed,
}

/// The bridge after the lines were queued in order, stopping at the first refusal,
/// and the result.
pub open spec fn sent_in_order(b: BridgeModel, lines: Seq<Seq<char>>) -> (BridgeModel, Result<(), IpcError>)
    decreases lines.len(),
{
    if lines.len() == 0 {
        (b, Ok(()))
    } else {
        let (b1, r1) = b.send(lines[0]);
        match r1 {
            Err(e) => (b1, Err(e)),
            Ok(()) => sent_in_order(b1, lines.drop_first()),
        }
    }
}

/// `lines` carry the first commands of `commands`, one each, in order.
pub open spec fn lines_carry(lines: Seq<Seq<char>>, commands: Seq<IpcCommand>) -> bool {
    lines.len() <= commands.len() && forall|i: int| 0 <= i < lines.len() ==> is_command_line(#[trigger] lines[i], commands[i])
}

pub open spec fn ipc_result(r: Result<(), IpcError>) -> Result<(), WorkerError> {
    match r {
        Ok(()) => Ok(()),
        Err(e) => Err(WorkerError::Ipc(e)),
    }
}

/// The commands that `start_account` sends: the stored credential blob first, if
/// there is one, then the start itself.
pub open spec fn start_account_commands(account_id: String, auth_state: Option<String>) -> Seq<IpcCommand> {
    match auth_state {
        Some(a) => seq![
            IpcCommand::SetAuthState { account_id: account_id, auth_state: a },
            IpcCommand::StartAccount { account_id: account_id },
        ],
        None => seq![IpcCommand::StartAccount { account_id: account_id }],
    }
}

/// The worker: the store and the bridge to the engine.
pub struct TinaWorker {
    db: TinaDb,
    nanachi: NanachiManager,
}

impl TinaWorker {
    pub open spec fn wf(&self) -> bool {
        self.db().wf()
    }

    pub closed spec fn db(&self) -> TinaDb {
        self.db
    }

    pub closed spec fn bridge(&self) -> BridgeModel {
        self.nanachi@
    }

    /// The engine's directory.
    pub closed spec fn dir(&self) -> Seq<char> {
        self.nanachi.dir()
    }

    /// A worker with an empty store and no engine process.
    pub fn new(nanachi_dir: String) -> (r: TinaWorker)
        ensures
            r.wf(),
            r.db()@.accounts.len() == 0,
            r.db()@.next_row_id == 1,
            !r.bridge().running,
            r.dir() == nanachi_dir@,
    {
        TinaWorker { db: TinaDb::new(), nanachi: NanachiManager::new(nanachi_dir) }
    }

    /// A worker over an existing store, with no engine process.
    pub fn with_store(db: TinaDb, nanachi_dir: String) -> (r: TinaWorker)
        requires
            db.wf(),
        ensures
            r.wf(),
            r.db() == db,
            !r.bridge().running,
            r.dir() == nanachi_dir@,
    {
        TinaWorker { db, nanachi: NanachiManager::new(nanachi_dir) }
    }

    /// The store, for reading.
    pub fn store(&self) -> (r: &TinaDb)
        ensures
            *r == self.db(),
    {
        &self.db
    }

    /// Starts the engine; see `NanachiManager::start`.
    pub fn start(&mut self, dependencies: Result<(), IpcError>) -> (r: Result<Option<SpawnSpec>, WorkerError>)
        ensures
            final(self).dir() == old(self).dir(),
            final(self).db() == old(self).db(),
            final(self).bridge() == old(self).bridge(),
            match old(self).bridge().start(dependencies) {
                Ok(false) => r matches Ok(None),
                Ok(true) => (r matches Ok(Some(s)) && s.working_dir@ == old(self).dir() && s.program@ == "bun"@
                    && s.args@.len() == 2 && s.args@[0]@ == "run"@ && s.args@[1]@ == "index.ts"@),
                Err(e) => r == Err::<Option<SpawnSpec>, WorkerError>(WorkerError::Ipc(e)),
            },
    {
        match self.nanachi.start(dependencies) {
            Ok(s) => Ok(s),
            Err(e) => Err(WorkerError::Ipc(e)),
        }
    }

    /// Records the outcome of spawning the engine.
    pub fn attach_process(&mut self, spawned: Result<(), String>) -> (r: Result<(), WorkerError>)
        requires
            !old(self).bridge().running,
        ensures
            final(self).dir() == old(self).dir(),
            final(self).db() == old(self).db(),
            match spawned {
                Ok(()) => r is Ok && final(self).bridge().running && final(self).bridge().writer_open,
                Err(m) => r == Err::<(), WorkerError>(WorkerError::Ipc(IpcError::SpawnFailed(m))) && final(self).bridge() == old(self).bridge(),
            },
    {
        match self.nanachi.attach_process(spawned) {
            Ok(()) => Ok(()),
            Err(e) => Err(WorkerError::Ipc(e)),
        }
    }

    /// Stops the engine; see `NanachiManager::stop`.
    pub fn stop(&mut self) -> (r: Option<StopPlan>)
        ensures
            final(self).dir() == old(self).dir(),
            final(self).db() == old(self).db(),
            final(self).bridge() == old(self).bridge().stopped(),
            !old(self).bridge().running ==> r is None,
            old(self).bridge().running ==> (r matches Some(plan) && plan.grace_period_ms == SHUTDOWN_GRACE_MS && plan.force_kill
                && exists|line: Seq<char>| #![trigger old(self).bridge().send(line)] is_command_line(line, IpcCommand::Shutdown)
                    && plan.process.model_outbound() == old(self).bridge().send(line).0.outbound),
    {
        self.nanachi.stop()
    }

    /// Polls the engine process; see `NanachiManager::is_running`.
    pub fn is_running(&mut self, process_alive: bool) -> (r: bool)
        ensures
            final(self).dir() == old(self).dir(),
            final(self).db() == old(self).db(),
            r == (old(self).bridge().running && process_alive),
            r ==> final(self).bridge() == old(self).bridge(),
            !r ==> final(self).bridge() == old(self).bridge().stopped(),
    {
        self.nanachi.is_running(process_alive)
    }

    /// The oldest line waiting for the engine's input.
    pub fn next_outbound_line(&mut self) -> (r: Option<String>)
        ensures
            final(self).dir() == old(self).dir(),
            final(self).db() == old(self).db(),
            old(self).bridge().outbound.len() > 0 ==> r is Some && r.unwrap()@ == old(self).bridge().outbound[0]
                && final(self).bridge().outbound == old(self).bridge().outbound.drop_first(),
            old(self).bridge().outbound.len() == 0 ==> r is None,
    {
        self.nanachi.next_outbound_line()
    }

    /// The engine's writer stopped taking lines.
    pub fn writer_stopped(&mut self)
        ensures
            final(self).dir() == old(self).dir(),
            final(self).db() == old(self).db(),
            final(self).bridge().running == old(self).bridge().running,
            !final(self).bridge().writer_open,
            final(self).bridge().outbound == old(self).bridge().outbound,
    {
        self.nanachi.writer_stopped()
    }

    fn send(&mut self, command: IpcCommand) -> (r: Result<(), IpcError>)
        ensures
            final(self).dir() == old(self).dir(),
            final(self).db() == old(self).db(),
            exists|line: Seq<char>| #![trigger old(self).bridge().send(line)] is_command_line(line, command)
                && (final(self).bridge(), r) == old(self).bridge().send(line),
    {
        let ghost c0 = command;
        let ghost b0 = self.bridge();
        let r = self.nanachi.send_command(command);
        proof {
            let l = choose|line: Seq<char>| #![trigger b0.send(line)] is_command_line(line, c0) && (self.nanachi@, r) == b0.send(line);
            assert(old(self).bridge().send(l) == b0.send(l));
        }
        r
    }

    /// Persists an engine event and returns the domain events to publish.
    pub fn handle_event(&mut self, event: IpcEvent) -> (r: EventOutcome)
        requires
            old(self).wf(),
        ensures
            final(self).dir() == old(self).dir(),
            final(self).wf(),
            final(self).bridge() == old(self).bridge(),
            exists|now: i64| handled(old(self).db()@, event, now, final(self).db()@, r.published@, r.result),
    {
        let now = chrono_timestamp();
        let ghost e0 = event;
        let r = handle_ipc_event(&mut self.db, event, now);
        assert(handled(old(self).db()@, e0, now, self.db()@, r.published@, r.result));
        r
    }

    /// Creates or refreshes an account, stamped with the current time.
    pub fn create_account(&mut self, account_id: String, name: Option<String>) -> (r: Account)
        requires
            old(self).wf(),
        ensures
            final(self).dir() == old(self).dir(),
            final(self).wf(),
            final(self).bridge() == old(self).bridge(),
            exists|now: i64| final(self).db()@ == old(self).db()@.create_account(account_id, name, now),
            r == final(self).db()@.account(account_id@),
    {
        let now = chrono_timestamp();
        self.db.create_account(account_id, name, now)
    }

    pub fn list_accounts(&self) -> (r: Vec<Account>)
        ensures
            r@ == oldest_first_sorted(self.db()@.accounts),
    {
        self.db.list_accounts()
    }

    pub fn delete_account(&mut self, account_id: &String)
        requires
            old(self).wf(),
        ensures
            final(self).dir() == old(self).dir(),
            final(self).wf(),
            final(self).bridge() == old(self).bridge(),
            final(self).db()@ == old(self).db()@.delete_account(account_id@),
    {
        self.db.delete_account(account_id)
    }

    /// Asks the engine to connect the account, first handing back its stored
    /// credential blob, if any, so that the session resumes without pairing again.
    pub fn start_account(&mut self, account_id: &String) -> (r: Result<(), WorkerError>)
        requires
            old(self).wf(),
        ensures
            final(self).dir() == old(self).dir(),
            final(self).db() == old(self).db(),
            !old(self).db()@.has_account(account_id@) ==> r == Err::<(), WorkerError>(WorkerError::Db(DbError::AccountNotFound(*account_id)))
                && final(self).bridge() == old(self).bridge(),
            old(self).db()@.has_account(account_id@) ==> exists|lines: Seq<Seq<char>>| #![trigger sent_in_order(old(self).bridge(), lines)]
                lines_carry(lines, start_account_commands(*account_id, old(self).db()@.account(account_id@).auth_state))
                && final(self).bridge() == sent_in_order(old(self).bridge(), lines).0
                && r == ipc_result(sent_in_order(old(self).bridge(), lines).1)
                && (r is Ok ==> lines.len() == start_account_commands(*account_id, old(self).db()@.account(account_id@).auth_state).len()),
    {
        let account = match self.db.get_account(account_id) {
            Ok(a) => a,
            Err(e) => return Err(WorkerError::Db(e)),
        };
        let ghost b0 = self.bridge();
        match account.auth_state {
            Some(auth_state) => {
                let ghost a0 = auth_state;
                let r1 = self.send(IpcCommand::SetAuthState { account_id: account_id.clone(), auth_state });
                let ghost b1 = self.bridge();
                let ghost l1 = choose|line: Seq<char>| #![trigger b0.send(line)] is_command_line(line, IpcCommand::SetAuthState { account_id: *account_id, auth_state: a0 })
                    && (b1, r1) == b0.send(line);
                match r1 {
                    Err(e) => {
                        proof {
                            let lines = seq![l1];
                            assert(lines_carry(lines, start_account_commands(*account_id, Some(a0))));
                            assert(sent_in_order(b0, lines) == (b1, Err::<(), IpcError>(e)));
                        }
                        return Err(WorkerError::Ipc(e));
                    },
                    Ok(()) => {},
                }
                let r2 = self.send(IpcCommand::StartAccount { account_id: account_id.clone() });
                proof {
                    let l2 = choose|line: Seq<char>| #![trigger b1.send(line)] is_command_line(line, IpcCommand::StartAccount { account_id: *account_id })
                        && (self.bridge(), r2) == b1.send(line);
                    let lines = seq![l1, l2];
                    assert(lines.drop_first() =~= seq![l2]);
                    assert(seq![l2].drop_first() =~= Seq::<Seq<char>>::empty());
                    assert(lines_carry(lines, start_account_commands(*account_id, Some(a0))));
                    reveal_with_fuel(sent_in_order, 3);
                    assert(sent_in_order(b0, lines) == (self.bridge(), r2));
                }
                match r2 {
                    Ok(()) => Ok(()),
                    Err(e) => Err(WorkerError::Ipc(e)),
                }
            },
            None => {
                let r2 = self.send(IpcCommand::StartAccount { account_id: account_id.clone() });
                proof {
                    let l2 = choose|line: Seq<char>| #![trigger b0.send(line)] is_command_line(line, IpcCommand::StartAccount { account_id: *account_id })
                        && (self.bridge(), r2) == b0.send(line);
                    let lines = seq![l2];
                    assert(lines.drop_first() =~= Seq::<Seq<char>>::empty());
                    assert(lines_carry(lines, start_account_commands(*account_id, None)));
                    reveal_with_fuel(sent_in_order, 3);
                    assert(sent_in_order(b0, lines) == (self.bridge(), r2));
                }
                match r2 {
                    Ok(()) => Ok(()),
                    Err(e) => Err(WorkerError::Ipc(e)),
                }
            },
        }
    }

    /// Asks the engine to disconnect the account.
    pub fn stop_account(&mut self, account_id: &String) -> (r: Result<(), WorkerError>)
        ensures
            final(self).dir() == old(self).dir(),
            final(self).db() == old(self).db(),
            exists|line: Seq<char>| #![trigger old(self).bridge().send(line)] is_command_line(line, IpcCommand::StopAccount { account_id: *account_id })
                && final(self).bridge() == old(self).bridge().send(line).0 && r == ipc_result(old(self).bridge().send(line).1),
    {
        match self.send(IpcCommand::StopAccount { account_id: account_id.clone() }) {
            Ok(()) => Ok(()),
            Err(e) => Err(WorkerError::Ipc(e)),
        }
    }

    /// Asks the engine to send a text message.
    pub fn send_message(&mut self, account_id: &String, to: &String, content: &String) -> (r: Result<(), WorkerError>)
        ensures
            final(self).dir() == old(self).dir(),
            final(self).db() == old(self).db(),
            exists|line: Seq<char>| #![trigger old(self).bridge().send(line)]
                is_command_line(line, IpcCommand::SendMessage { account_id: *account_id, to: *to, content: *content })
                && final(self).bridge() == old(self).bridge().send(line).0 && r == ipc_result(old(self).bridge().send(line).1),
    {
        match self.send(IpcCommand::SendMessage { account_id: account_id.clone(), to: to.clone(), content: content.clone() }) {
            Ok(()) => Ok(()),
            Err(e) => Err(WorkerError::Ipc(e)),
        }
    }

    pub fn get_contacts(&self, account_id: &String) -> (r: Vec<Contact>)
        ensures
            r@ == by_name_sorted(self.db()@.contacts.filter(|c: Contact| c.account_id@ == account_id@)),
    {
        self.db.get_contacts(account_id)
    }

    pub fn get_groups(&self, account_id: &String) -> (r: Vec<Group>)
        ensures
            r@ == by_subject_sorted(self.db()@.groups.filter(|g: Group| g.account_id@ == account_id@)),
    {
        self.db.get_groups(account_id)
    }

    pub fn get_messages(&self, account_id: &String, chat_jid: Option<&String>, limit: i64, offset: i64) -> (r: Vec<Message>)
        ensures
            r@ == window(newest_first_sorted(messages_of(self.db()@, account_id@, match chat_jid { Some(c) => Some(c@), None => None })), limit, offset),
    {
        self.db.get_messages(account_id, chat_jid, limit, offset)
    }

    pub fn get_chats(&self, account_id: &String) -> (r: Vec<String>)
        ensures
            r@.map_values(|s: String| s@) == first_chats(newest_first_sorted(messages_of(self.db()@, account_id@, None))),
    {
        self.db.get_chats(account_id)
    }
}

/// One row of a chat list.
#[derive(Debug, Clone, PartialEq)]
pub struct ChatPreviewInfo {
    pub jid: String,
    pub name: String,
    pub is_group: bool,
    pub last_message: Option<String>,
    pub last_message_timestamp: Option<i64>,
    pub unread_count: u32,
}

/// The preview row of chat `jid`: its resolved name or, failing one, the JID; its
/// newest message's preview and time.
pub open spec fn chat_preview(m: StoreModel, account_id: Seq<char>, jid: String, p: ChatPreviewInfo) -> bool {
    let newest = newest_first_sorted(messages_of(m, account_id, Some(jid@)));
    &&& p.jid == jid
    &&& p.name@ == match resolved_name(m, account_id, jid@) {
        Some(n) => n@,
        None => jid@,
    }
    &&& p.is_group == m.has_group(account_id, jid@)
    &&& p.unread_count == 0
    &&& newest.len() > 0 ==> p.last_message_timestamp == Some(newest[0].timestamp) && match newest[0].content {
        Some(c) => p.last_message matches Some(t) && t@ == preview_of(newest[0].message_type@, c@),
        None => p.last_message is None,
    }
}

/// The row of chat `jid` without a message preview: its resolved name or the JID,
/// and its newest message's time.
pub open spec fn chat_basic(m: StoreModel, account_id: Seq<char>, jid: String, p: ChatPreviewInfo) -> bool {
    let newest = newest_first_sorted(messages_of(m, account_id, Some(jid@)));
    &&& p.jid == jid
    &&& p.name@ == match resolved_name(m, account_id, jid@) {
        Some(n) => n@,
        None => jid@,
    }
    &&& p.is_group == m.has_group(account_id, jid@)
    &&& p.unread_count == 0
    &&& p.last_message is None
    &&& newest.len() > 0 ==> p.last_message_timestamp == Some(newest[0].timestamp)
}

impl TinaWorker {
    /// The chat list of an account, most recently active first, with names and
    /// times but no message previews.
    pub fn get_chats_basic(&self, account_id: &String) -> (r: Vec<ChatPreviewInfo>)
        requires
            self.wf(),
        ensures
            r@.len() == first_chats(newest_first_sorted(messages_of(self.db()@, account_id@, None))).len(),
            forall|i: int| 0 <= i < r@.len() ==> (#[trigger] r@[i]).jid@ == first_chats(newest_first_sorted(messages_of(self.db()@, account_id@, None)))[i]
                && chat_basic(self.db()@, account_id@, r@[i].jid, r@[i]),
    {
        let chats = self.db.get_chats(account_id);
        let ghost names = chats@.map_values(|s: String| s@);
        let mut out: Vec<ChatPreviewInfo> = Vec::new();
        let mut i: usize = 0;
        while i < chats.len()
            invariant
                self.wf(),
                i <= chats@.len(),
                names == chats@.map_values(|s: String| s@),
                names == first_chats(newest_first_sorted(messages_of(self.db()@, account_id@, None))),
                out@.len() == i,
                forall|k: int| 0 <= k < i ==> (#[trigger] out@[k]).jid@ == names[k] && chat_basic(self.db()@, account_id@, out@[k].jid, out@[k]),
            decreases chats@.len() - i,
        {
            let jid = &chats[i];
            let newest = self.db.get_messages(account_id, Some(jid), 1, 0);
            let name = match self.db.get_chat_name(account_id, jid) {
                Some(n) => n,
                None => jid.clone(),
            };
            let is_group = self.db.get_group_by_jid(account_id, jid).is_some();
            let last_message_timestamp = if newest.len() > 0 { Some(newest[0].timestamp) } else { None };
            out.push(ChatPreviewInfo { jid: jid.clone(), name, is_group, last_message: None, last_message_timestamp, unread_count: 0 });
            proof {
                assert(names[i as int] == chats@[i as int]@);
            }
            i += 1;
        }
        out
    }

    /// The chat list of an account, most recently active first, each with its name
    /// and the preview of its newest message.
    pub fn get_chat_previews(&self, account_id: &String) -> (r: Vec<ChatPreviewInfo>)
        requires
            self.wf(),
        ensures
            r@.len() == first_chats(newest_first_sorted(messages_of(self.db()@, account_id@, None))).len(),
            forall|i: int| 0 <= i < r@.len() ==> (#[trigger] r@[i]).jid@ == first_chats(newest_first_sorted(messages_of(self.db()@, account_id@, None)))[i]
                && chat_preview(self.db()@, account_id@, r@[i].jid, r@[i]),
    {
        let chats = self.db.get_chats(account_id);
        let ghost names = chats@.map_values(|s: String| s@);
        let mut out: Vec<ChatPreviewInfo> = Vec::new();
        let mut i: usize = 0;
        while i < chats.len()
            invariant
                self.wf(),
                i <= chats@.len(),
                names == chats@.map_values(|s: String| s@),
                names == first_chats(newest_first_sorted(messages_of(self.db()@, account_id@, None))),
                out@.len() == i,
                forall|k: int| 0 <= k < i ==> (#[trigger] out@[k]).jid@ == names[k] && chat_preview(self.db()@, account_id@, out@[k].jid, out@[k]),
            decreases chats@.len() - i,
        {
            let jid = &chats[i];
            let newest = self.db.get_messages(account_id, Some(jid), 1, 0);
            let name = match self.db.get_chat_name(account_id, jid) {
                Some(n) => n,
                None => jid.clone(),
            };
            let is_group = self.db.get_group_by_jid(account_id, jid).is_some();
            let (last_message, last_message_timestamp) = if newest.len() > 0 {
                let m = &newest[0];
                let preview = match &m.content {
                    Some(c) => Some(format_message_preview(m.message_type.as_str(), c.as_str())),
                    None => None,
                };
                (preview, Some(m.timestamp))
            } else {
                (None, None)
            };
            out.push(ChatPreviewInfo { jid: jid.clone(), name, is_group, last_message, last_message_timestamp, unread_count: 0 });
            proof {
                assert(names[i as int] == chats@[i as int]@);
            }
            i += 1;
        }
        out
    }

    /// The name a chat is shown under, if the store has one.
    pub fn get_chat_name(&self, account_id: &String, jid: &String) -> (r: Option<String>)
        requires
            self.wf(),
        ensures
            r == resolved_name(self.db()@, account_id@, jid@),
    {
        self.db.get_chat_name(account_id, jid)
    }
}

} // verus!
