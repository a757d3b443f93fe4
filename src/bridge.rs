//! The bridge to the engine process: dependency gate, idempotent start and stop, the
//! two-phase shutdown, and the queue of lines for the process's input.
//!
//! The process itself and its streams are driven from outside; this module decides
//! what to do next and keeps the outbound lines in order.
use vstd::prelude::*;
use vstd::string::*;

use crate::events::{IpcCommand, IpcEvent};
use crate::json::{json_parse, json_text, JsonValue};
use crate::protocol::{message_decodes, IpcMessage, IpcMessageContent};

verus! {

#[derive(Debug, Clone, PartialEq)]
pub enum IpcError {
    Io(String),
    ProcessNotRunning,
    SpawnFailed(String),
    BunInstallFailed(String),
    Serialization(String),
    ChannelClosed,
    Timeout,
}

/// How long the engine gets to exit after `Shutdown` before it is killed.
pub const SHUTDOWN_GRACE_MS: u64 = 500;

/// The writer side of a running process: lines wait here, oldest first, until the
/// writer task takes them.
pub struct ProcessHandle {
    outbound: Vec<String>,
    writer_open: bool,
}

/// What the bridge holds: whether a process runs, whether its writer still takes
/// lines, and the lines waiting for it.
pub struct BridgeModel {
    pub running: bool,
    pub writer_open: bool,
    pub outbound: Seq<Seq<char>>,
}

/// `line`, ended by a line break unless it already ends with one.
pub open spec fn framed(line: Seq<char>) -> Seq<char> {
    if line.len() > 0 && line.last() == '\n' {
        line
    } else {
        line.push('\n')
    }
}

/// `line` is a protocol line carrying `command` under some identifier.
pub open spec fn is_command_line(line: Seq<char>, command: IpcCommand) -> bool {
    exists|v: JsonValue, id: String| #![trigger json_text(v), message_decodes(v, IpcMessage { id: id, content: IpcMessageContent::Command(command) })]
        message_decodes(v, IpcMessage { id: id, content: IpcMessageContent::Command(command) }) && !json_text(v).contains('\n')
            && line == json_text(v).push('\n')
}

impl BridgeModel {
    /// What `start` does, given the outcome of the dependency check: nothing while a
    /// process runs; otherwise the dependency error, or a request to spawn (`true`).
    pub open spec fn start(self, dependencies: Result<(), IpcError>) -> Result<bool, IpcError> {
        if self.running {
            Ok(false)
        } else {
            match dependencies {
                Err(e) => Err(e),
                Ok(()) => Ok(true),
            }
        }
    }

    /// The bridge after a line was queued, or the error that refused it.
    pub open spec fn send(self, line: Seq<char>) -> (BridgeModel, Result<(), IpcError>) {
        if !self.running {
            (self, Err(IpcError::ProcessNotRunning))
        } else if !self.writer_open {
            (self, Err(IpcError::ChannelClosed))
        } else {
            (BridgeModel { outbound: self.outbound.push(line), ..self }, Ok(()))
        }
    }

    /// The bridge after `stop`: no process.
    pub open spec fn stopped(self) -> BridgeModel {
        BridgeModel { running: false, writer_open: false, outbound: Seq::empty() }
    }
}

impl ProcessHandle {
    pub closed spec fn model_outbound(&self) -> Seq<Seq<char>> {
        self.outbound@.map_values(|s: String| s@)
    }

    pub closed spec fn is_writer_open(&self) -> bool {
        self.writer_open
    }

    /// The handle of a freshly spawned process: its writer takes lines, none waits.
    pub fn new() -> (r: ProcessHandle)
        ensures
            r.is_writer_open(),
            r.model_outbound() == Seq::<Seq<char>>::empty(),
    {
        let r = ProcessHandle { outbound: Vec::new(), writer_open: true };
        assert(r.model_outbound() =~= Seq::<Seq<char>>::empty());
        r
    }

    /// Queues `line` for the process's input, with exactly one line break at its end
    /// if it had none; fails once the writer has stopped.
    pub fn send(&mut self, line: &str) -> (r: Result<(), IpcError>)
        ensures
            final(self).is_writer_open() == old(self).is_writer_open(),
            old(self).is_writer_open() ==> r == Ok::<(), IpcError>(()) && final(self).model_outbound() == old(self).model_outbound().push(framed(line@)),
            !old(self).is_writer_open() ==> r == Err::<(), IpcError>(IpcError::ChannelClosed) && final(self).model_outbound() == old(self).model_outbound(),
    {
        if !self.writer_open {
            return Err(IpcError::ChannelClosed);
        }
        let n = line.unicode_len();
        let msg = if n > 0 && line.get_char(n - 1) == '\n' {
            line.to_owned()
        } else {
            proof { reveal_strlit("\n"); }
            let s = line.to_owned().concat("\n");
            assert(s@ =~= line@.push('\n'));
            s
        };
        self.outbound.push(msg);
        assert(self.model_outbound() =~= old(self).model_outbound().push(framed(line@)));
        Ok(())
    }

    /// The oldest waiting line, taken by the writer.
    pub fn next_line(&mut self) -> (r: Option<String>)
        ensures
            final(self).is_writer_open() == old(self).is_writer_open(),
            old(self).model_outbound().len() == 0 ==> r is None && final(self).model_outbound() == old(self).model_outbound(),
            old(self).model_outbound().len() > 0 ==> r is Some && r.unwrap()@ == old(self).model_outbound()[0]
                && final(self).model_outbound() == old(self).model_outbound().drop_first(),
    {
        if self.outbound.len() == 0 {
            None
        } else {
            let s = self.outbound.remove(0);
            assert(self.model_outbound() =~= old(self).model_outbound().drop_first());
            Some(s)
        }
    }

    /// The writer failed or its queue closed: no further line is taken.
    pub fn close_writer(&mut self)
        ensures
            !final(self).is_writer_open(),
            final(self).model_outbound() == old(self).model_outbound(),
    {
        self.writer_open = false;
    }
}

/// How to launch the engine.
pub struct SpawnSpec {
    pub working_dir: String,
    pub program: String,
    pub args: Vec<String>,
}

/// What the dependency check asks for next.
#[derive(Debug, Clone, Copy, PartialEq, Eq, Structural)]
pub enum DependencyStep {
    /// The engine can be started.
    Ready,
    /// The dependency cache is missing: run the one-shot install first.
    Install,
}

/// The second phase of `stop`: after the grace period the process is killed and
/// reaped whether or not it exited on its own.
pub struct StopPlan {
    /// The detached writer side, whose queue ends with the `Shutdown` line when the
    /// writer still took lines.
    pub process: ProcessHandle,
    pub grace_period_ms: u64,
    pub force_kill: bool,
}

/// The bridge: the engine's directory and the running process, if any.
pub struct NanachiManager {
    nanachi_dir: String,
    process: Option<ProcessHandle>,
}

impl View for NanachiManager {
    type V = BridgeModel;

    closed spec fn view(&self) -> BridgeModel {
        match self.process {
            Some(p) => BridgeModel { running: true, writer_open: p.writer_open, outbound: p.model_outbound() },
            None => BridgeModel { running: false, writer_open: false, outbound: Seq::empty() },
        }
    }
}

impl NanachiManager {
    pub closed spec fn dir(&self) -> Seq<char> {
        self.nanachi_dir@
    }

    pub fn new(nanachi_dir: String) -> (r: NanachiManager)
        ensures
            r.dir() == nanachi_dir@,
            r@ == (BridgeModel { running: false, writer_open: false, outbound: Seq::empty() }),
    {
        NanachiManager { nanachi_dir, process: None }
    }

    /// Checks the engine's project files: without the manifest nothing can start;
    /// without the dependency cache an install runs first.
    pub fn ensure_dependencies(manifest_present: bool, cache_present: bool) -> (r: Result<DependencyStep, IpcError>)
        ensures
            !manifest_present ==> (r matches Err(IpcError::BunInstallFailed(msg)) && msg@ == "package.json not found"@),
            manifest_present && !cache_present ==> r == Ok::<DependencyStep, IpcError>(DependencyStep::Install),
            manifest_present && cache_present ==> r == Ok::<DependencyStep, IpcError>(DependencyStep::Ready),
    {
        if !manifest_present {
            return Err(IpcError::BunInstallFailed(String::from_str("package.json not found")));
        }
        if !cache_present {
            Ok(DependencyStep::Install)
        } else {
            Ok(DependencyStep::Ready)
        }
    }

    /// The outcome of the install: its captured error output when it failed.
    pub fn install_finished(success: bool, stderr: String) -> (r: Result<(), IpcError>)
        ensures
            success ==> r is Ok,
            !success ==> r == Err::<(), IpcError>(IpcError::BunInstallFailed(stderr)),
    {
        if success {
            Ok(())
        } else {
            Err(IpcError::BunInstallFailed(stderr))
        }
    }

    /// Starts the engine: a no-op while one runs; the dependency error, with nothing
    /// spawned, when the check failed; otherwise how to spawn it.
    pub fn start(&mut self, dependencies: Result<(), IpcError>) -> (r: Result<Option<SpawnSpec>, IpcError>)
        ensures
            final(self)@ == old(self)@,
            final(self).dir() == old(self).dir(),
            match old(self)@.start(dependencies) {
                Ok(false) => r matches Ok(None),
                Ok(true) => (r matches Ok(Some(s)) && s.working_dir@ == old(self).dir() && s.program@ == "bun"@
                    && s.args@.len() == 2 && s.args@[0]@ == "run"@ && s.args@[1]@ == "index.ts"@),
                Err(e) => r == Err::<Option<SpawnSpec>, IpcError>(e),
            },
    {
        if self.process.is_some() {
            return Ok(None);
        }
        match dependencies {
            Err(e) => Err(e),
            Ok(()) => {
                let args = vec![String::from_str("run"), String::from_str("index.ts")];
                Ok(Some(SpawnSpec { working_dir: self.nanachi_dir.clone(), program: String::from_str("bun"), args }))
            },
        }
    }

    /// Records the outcome of spawning what `start` asked for.
    pub fn attach_process(&mut self, spawned: Result<(), String>) -> (r: Result<(), IpcError>)
        requires
            !old(self)@.running,
        ensures
            final(self).dir() == old(self).dir(),
            match spawned {
                Ok(()) => r is Ok && final(self)@ == (BridgeModel { running: true, writer_open: true, outbound: Seq::empty() }),
                Err(m) => r == Err::<(), IpcError>(IpcError::SpawnFailed(m)) && final(self)@ == old(self)@,
            },
    {
        match spawned {
            Ok(()) => {
                self.process = Some(ProcessHandle::new());
                Ok(())
            },
            Err(m) => Err(IpcError::SpawnFailed(m)),
        }
    }

    /// Encodes `command` in a fresh envelope and queues its line for the process.
    pub fn send_command(&mut self, command: IpcCommand) -> (r: Result<(), IpcError>)
        ensures
            final(self).dir() == old(self).dir(),
            exists|line: Seq<char>| #![trigger old(self)@.send(line)] is_command_line(line, command) && (final(self)@, r) == old(self)@.send(line),
    {
        let ghost c0 = command;
        let msg = IpcMessage::new_command(command);
        let ghost m = msg;
        let line = msg.to_line();
        proof {
            assert(framed(line@) == line@);
            let v = choose|v: JsonValue| #![trigger json_text(v)] (m.round_trips() ==> message_decodes(v, m)) && line@ == json_text(v).push('\n');
            assert(message_decodes(v, IpcMessage { id: m.id, content: IpcMessageContent::Command(c0) }));
            assert(json_text(v) =~= line@.drop_last());
            assert(is_command_line(line@, c0));
        }
        let r = match self.process.take() {
            None => Err(IpcError::ProcessNotRunning),
            Some(mut p) => {
                let r = p.send(line.as_str());
                self.process = Some(p);
                r
            },
        };
        assert((self@, r) == old(self)@.send(line@));
        r
    }

    /// The event that a line from the engine holds; malformed lines and command
    /// lines give `None`.
    pub fn parse_event(line: &str) -> (r: Option<IpcEvent>)
        ensures
            match r {
                Some(e) => exists|v: JsonValue, id: String| #![trigger message_decodes(v, IpcMessage { id: id, content: IpcMessageContent::Event(e) })]
                    json_parse(line@) == Some(v) && message_decodes(v, IpcMessage { id: id, content: IpcMessageContent::Event(e) }),
                None => match json_parse(line@) {
                    Some(v) => forall|m: IpcMessage| #[trigger] message_decodes(v, m) ==> m.content is Command,
                    None => true,
                },
            },
    {
        match IpcMessage::from_line(line) {
            Some(m) => {
                let ghost m0 = m;
                match m.content {
                    IpcMessageContent::Event(e) => {
                        proof {
                            let v = json_parse(line@).unwrap();
                            assert(message_decodes(v, IpcMessage { id: m0.id, content: IpcMessageContent::Event(e) }));
                        }
                        Some(e)
                    },
                    IpcMessageContent::Command(_) => {
                        proof {
                            let v = json_parse(line@).unwrap();
                            assert forall|m: IpcMessage| #[trigger] message_decodes(v, m) implies m.content is Command by {
                                crate::protocol::codec_round_trip(m0, v);
                            }
                        }
                        None
                    },
                }
            },
            None => None,
        }
    }

    /// Polls the process: `process_alive` is what the operating system reported.
    /// The bridge stops counting a dead process as running.
    pub fn is_running(&mut self, process_alive: bool) -> (r: bool)
        ensures
            final(self).dir() == old(self).dir(),
            r == (old(self)@.running && process_alive),
            r ==> final(self)@ == old(self)@,
            !r ==> final(self)@ == old(self)@.stopped(),
    {
        if self.process.is_some() && process_alive {
            true
        } else {
            self.process = None;
            false
        }
    }

    /// Stops the engine: a no-op without a process. Otherwise `Shutdown` is queued
    /// (a refusal is ignored), the process is detached, and the plan says to wait the
    /// grace period and then kill it.
    pub fn stop(&mut self) -> (r: Option<StopPlan>)
        ensures
            final(self).dir() == old(self).dir(),
            final(self)@ == old(self)@.stopped(),
            !old(self)@.running ==> r is None,
            old(self)@.running ==> (r matches Some(plan) && plan.grace_period_ms == SHUTDOWN_GRACE_MS && plan.force_kill
                && exists|line: Seq<char>| #![trigger old(self)@.send(line)] is_command_line(line, IpcCommand::Shutdown)
                    && plan.process.model_outbound() == old(self)@.send(line).0.outbound),
    {
        if self.process.is_none() {
            return None;
        }
        let _ = self.send_command(IpcCommand::Shutdown);
        let process = self.process.take();
        match process {
            Some(p) => Some(StopPlan { process: p, grace_period_ms: SHUTDOWN_GRACE_MS, force_kill: true }),
            None => None,
        }
    }

    /// The oldest line waiting for the process's input, if a process runs.
    pub fn next_outbound_line(&mut self) -> (r: Option<String>)
        ensures
            final(self).dir() == old(self).dir(),
            final(self)@.running == old(self)@.running,
            final(self)@.writer_open == old(self)@.writer_open,
            old(self)@.outbound.len() == 0 ==> r is None && final(self)@ == old(self)@,
            old(self)@.outbound.len() > 0 ==> r is Some && r.unwrap()@ == old(self)@.outbound[0]
                && final(self)@.outbound == old(self)@.outbound.drop_first(),
    {
        match self.process.take() {
            None => None,
            Some(mut p) => {
                let r = p.next_line();
                self.process = Some(p);
                r
            },
        }
    }

    /// The writer task stopped: later sends fail with `ChannelClosed`.
    pub fn writer_stopped(&mut self)
        ensures
            final(self).dir() == old(self).dir(),
            final(self)@.running == old(self)@.running,
            !final(self)@.writer_open,
            final(self)@.outbound == old(self)@.outbound,
    {
        match self.process.take() {
            None => {},
            Some(mut p) => {
                p.close_writer();
                self.process = Some(p);
            },
        }
    }
}

/// Without a process, sending fails with `ProcessNotRunning` and changes nothing;
/// while a process runs, `start` is a no-op that asks for no spawn, whatever the
/// dependency check said; and stopping a stopped bridge leaves it as it was.
pub proof fn lifecycle_law(s: BridgeModel, line: Seq<char>, dependencies: Result<(), IpcError>)
    ensures
        !s.running ==> s.send(line) == (s, Err::<(), IpcError>(IpcError::ProcessNotRunning)),
        s.running ==> s.start(dependencies) == Ok::<bool, IpcError>(false),
        !s.stopped().running,
        s.stopped().stopped() == s.stopped(),
{
}

/// Lines queued one after the other wait in that order: after A then B the queue
/// ends with A's line and then B's, and the writer takes lines from the front.
pub proof fn send_order_law(s: BridgeModel, a: Seq<char>, b: Seq<char>)
    requires
        s.running,
        s.writer_open,
    ensures
        s.send(a).1 is Ok,
        s.send(a).0.send(b).1 is Ok,
        s.send(a).0.send(b).0.outbound == s.outbound.push(a).push(b),
{
}

/// When the dependency check fails (as it does without the manifest), `start`
/// returns that error and asks for no spawn.
pub proof fn failed_dependencies_block_start(s: BridgeModel, e: IpcError)
    requires
        !s.running,
    ensures
        s.start(Err(e)) == Err::<bool, IpcError>(e),
{
}

} // verus!
