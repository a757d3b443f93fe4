//! A bridge to an external messaging engine: a line protocol of JSON envelopes, the
//! engine's lifecycle, a store with merge and insert-or-ignore semantics, and the
//! pipeline that turns engine events into stored rows and domain events.
pub mod bridge;
pub mod clock;
pub mod display;
pub mod events;
pub mod json;
pub mod protocol;
pub mod store;
pub mod ui_state;
pub mod worker;

pub use bridge::{DependencyStep, IpcError, NanachiManager, ProcessHandle, SpawnSpec, StopPlan};
pub use clock::chrono_timestamp;
pub use display::{format_jid_for_display, format_message_preview, format_phone_number, format_timestamp, format_timestamp_at};
pub use events::{ContactData, GroupData, IpcCommand, IpcEvent, MessageData, ParticipantData};
pub use json::JsonValue;
pub use protocol::{generate_id, IpcMessage, IpcMessageContent};
pub use store::{Account, Contact, DbError, Group, GroupFields, GroupParticipant, Message, TinaDb};
pub use ui_state::{AccountState, AppStateInner, ChatState, Command, MessageState};
pub use worker::{handle_ipc_event, ChatPreviewInfo, EventOutcome, SyncType, TinaWorker, WorkerError, WorkerEvent};
