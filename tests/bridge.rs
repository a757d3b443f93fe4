use tina::{DependencyStep, IpcCommand, IpcError, IpcMessage, IpcMessageContent, NanachiManager, ProcessHandle};

fn running() -> NanachiManager {
    let mut m = NanachiManager::new("/opt/engine".to_string());
    let spec = m.start(Ok(())).unwrap().unwrap();
    assert_eq!(spec.working_dir, "/opt/engine");
    assert_eq!(spec.program, "bun");
    assert_eq!(spec.args, vec!["run", "index.ts"]);
    m.attach_process(Ok(())).unwrap();
    m
}

#[test]
fn send_before_start_fails() {
    let mut m = NanachiManager::new("/opt/engine".to_string());
    assert_eq!(m.send_command(IpcCommand::Shutdown), Err(IpcError::ProcessNotRunning));
    assert_eq!(m.next_outbound_line(), None);
}

#[test]
fn start_twice_is_a_noop() {
    let mut m = running();
    assert!(matches!(m.start(Ok(())), Ok(None)));
    assert!(matches!(m.start(Err(IpcError::Timeout)), Ok(None)));
    assert!(m.is_running(true));
}

#[test]
fn stop_twice_is_a_noop() {
    let mut m = running();
    let plan = m.stop().unwrap();
    assert_eq!(plan.grace_period_ms, 500);
    assert!(plan.force_kill);
    assert!(m.stop().is_none());
    assert!(!m.is_running(true));
}

#[test]
fn stop_queues_shutdown_line() {
    let mut m = running();
    let mut plan = m.stop().unwrap();
    let line = plan.process.next_line().unwrap();
    assert!(line.ends_with('\n'));
    let msg = IpcMessage::from_line(&line).unwrap();
    assert_eq!(msg.content, IpcMessageContent::Command(IpcCommand::Shutdown));
}

#[test]
fn missing_manifest_blocks_start() {
    let deps = NanachiManager::ensure_dependencies(false, true);
    assert_eq!(deps, Err(IpcError::BunInstallFailed("package.json not found".to_string())));
    let mut m = NanachiManager::new("/opt/engine".to_string());
    let r = m.start(deps.map(|_| ()));
    assert!(matches!(r, Err(IpcError::BunInstallFailed(_))));
    assert!(!m.is_running(true));
}

#[test]
fn dependency_steps() {
    assert_eq!(NanachiManager::ensure_dependencies(true, false), Ok(DependencyStep::Install));
    assert_eq!(NanachiManager::ensure_dependencies(true, true), Ok(DependencyStep::Ready));
    assert_eq!(NanachiManager::install_finished(false, "no network".to_string()), Err(IpcError::BunInstallFailed("no network".to_string())));
    assert_eq!(NanachiManager::install_finished(true, String::new()), Ok(()));
}

#[test]
fn spawn_failure_is_reported() {
    let mut m = NanachiManager::new("/opt/engine".to_string());
    assert_eq!(m.attach_process(Err("no bun".to_string())), Err(IpcError::SpawnFailed("no bun".to_string())));
    assert!(!m.is_running(true));
}

#[test]
fn commands_reach_the_writer_in_order() {
    let mut m = running();
    m.send_command(IpcCommand::StartAccount { account_id: "a".to_string() }).unwrap();
    m.send_command(IpcCommand::StopAccount { account_id: "b".to_string() }).unwrap();
    let first = IpcMessage::from_line(&m.next_outbound_line().unwrap()).unwrap();
    let second = IpcMessage::from_line(&m.next_outbound_line().unwrap()).unwrap();
    assert_eq!(first.content, IpcMessageContent::Command(IpcCommand::StartAccount { account_id: "a".to_string() }));
    assert_eq!(second.content, IpcMessageContent::Command(IpcCommand::StopAccount { account_id: "b".to_string() }));
    assert_eq!(m.next_outbound_line(), None);
}

#[test]
fn closed_writer_refuses_lines() {
    let mut m = running();
    m.writer_stopped();
    assert_eq!(m.send_command(IpcCommand::Shutdown), Err(IpcError::ChannelClosed));
}

#[test]
fn dead_process_is_no_longer_running() {
    let mut m = running();
    assert!(!m.is_running(false));
    assert_eq!(m.send_command(IpcCommand::Shutdown), Err(IpcError::ProcessNotRunning));
}

#[test]
fn handle_frames_lines_once() {
    let mut h = ProcessHandle::new();
    h.send("a").unwrap();
    h.send("b\n").unwrap();
    h.send("").unwrap();
    assert_eq!(h.next_line().as_deref(), Some("a\n"));
    assert_eq!(h.next_line().as_deref(), Some("b\n"));
    assert_eq!(h.next_line().as_deref(), Some("\n"));
    assert_eq!(h.next_line(), None);
    h.close_writer();
    assert_eq!(h.send("c"), Err(IpcError::ChannelClosed));
}
