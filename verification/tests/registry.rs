use shellmars::models::connection::{
    AuthMethod, CommandOptions, ConfigError, ConnectionConfig, ConnectionStatus,
};
use shellmars::services::auth::AuthError;
use shellmars::services::command::{
    ReadAction, ReadOutcome, SshCommandExecutor, StopReason,
};
use shellmars::services::connection::{
    ConnectAction, ConnectEvent, Link, SshConnection, SshConnectionManager,
};
use shellmars::services::error::{ConnectStep, ConnectionError};

fn config(id: &str) -> ConnectionConfig {
    let mut config = ConnectionConfig::with_identity(
        id.to_string(),
        format!("name of {}", id),
        "test".to_string(),
        "u".to_string(),
        7,
    );
    config.port = 22;
    config.password = Some("p".to_string());
    config.auth_method = AuthMethod::Password;
    config
}

fn link(n: u64) -> Link {
    Link { session: n, sftp: Some(n + 1), shell_channel: Some(n + 2) }
}

fn connect(manager: &mut SshConnectionManager, id: &str, n: u64) -> String {
    match manager.connect(&config(id), ConnectEvent::Requested) {
        ConnectAction::Establish { stale: None } => {}
        other => panic!("unexpected action {:?}", other),
    }
    match manager.connect(&config(id), ConnectEvent::Established { link: link(n), now: 100 }) {
        ConnectAction::Registered { id, replaced: None } => id,
        other => panic!("unexpected action {:?}", other),
    }
}

/// Registers a session and marks it as broken.
fn register_stale(manager: &mut SshConnectionManager, id: &str, n: u64) {
    connect(manager, id, n);
    let broken = ConnectionStatus::Error("broken pipe".to_string());
    assert!(manager.set_connection_status(id, broken).is_ok());
}

#[test]
fn empty_registry_knows_nothing() {
    let manager = SshConnectionManager::new();
    assert!(manager.get_connections().is_empty());
    assert_eq!(manager.get_connected_count(), 0);
    assert!(matches!(manager.get_connection_status("x"), Err(ConnectionError::NotFound)));
    assert!(!manager.check_connection_health("x", true));
}

#[test]
fn connect_registers_a_connected_session() {
    let mut manager = SshConnectionManager::new();
    let id = connect(&mut manager, "a", 10);
    assert_eq!(id, "a");
    assert!(matches!(manager.get_connection_status("a"), Ok(ConnectionStatus::Connected)));
    assert_eq!(manager.get_connected_count(), 1);
    assert_eq!(manager.command_channel("a").ok(), Some(12));
}

#[test]
fn connect_on_a_connected_id_is_refused_without_side_effects() {
    let mut manager = SshConnectionManager::new();
    connect(&mut manager, "a", 10);
    connect(&mut manager, "b", 20);
    let action = manager.connect(&config("a"), ConnectEvent::Requested);
    assert!(matches!(action, ConnectAction::Rejected(ConnectionError::AlreadyConnected)));
    assert_eq!(manager.get_connected_count(), 2);
    assert_eq!(manager.command_channel("a").ok(), Some(12));
    assert_eq!(manager.command_channel("b").ok(), Some(22));
    let ids: Vec<String> = manager.get_connections().into_iter().map(|c| c.id).collect();
    assert_eq!(ids, vec!["a", "b"]);
}

#[test]
fn invalid_configuration_is_refused_before_the_registry_is_looked_at() {
    let mut manager = SshConnectionManager::new();
    connect(&mut manager, "a", 10);
    let mut broken = config("a");
    broken.host = String::new();
    let action = manager.connect(&broken, ConnectEvent::Requested);
    assert!(matches!(
        action,
        ConnectAction::Rejected(ConnectionError::ConfigInvalid(ConfigError::EmptyHost))
    ));
    assert_eq!(manager.get_connected_count(), 1);
}

#[test]
fn stale_session_is_handed_over_and_replaced() {
    let mut manager = SshConnectionManager::new();
    register_stale(&mut manager, "a", 10);
    connect(&mut manager, "b", 20);
    assert_eq!(manager.get_connected_count(), 1);

    let stale = match manager.connect(&config("a"), ConnectEvent::Requested) {
        ConnectAction::Establish { stale: Some(stale) } => stale,
        other => panic!("unexpected action {:?}", other),
    };
    // The handles to be closed are those that were opened.
    assert_eq!(stale.session, 10);
    assert_eq!(stale.sftp, Some(11));
    assert_eq!(stale.shell_channel, Some(12));
    assert!(matches!(manager.get_connection_status("a"), Err(ConnectionError::NotFound)));

    match manager.connect(&config("a"), ConnectEvent::Established { link: link(30), now: 5 }) {
        ConnectAction::Registered { id, replaced: None } => assert_eq!(id, "a"),
        other => panic!("unexpected action {:?}", other),
    }
    assert!(matches!(manager.get_connection_status("a"), Ok(ConnectionStatus::Connected)));
    assert_eq!(manager.command_channel("a").ok(), Some(32));
    assert_eq!(manager.command_channel("b").ok(), Some(22));
    assert_eq!(manager.get_connections().len(), 2);
}

#[test]
fn opens_and_closes_balance_over_reconnects() {
    // Every link that is opened is handed back exactly once to be closed.
    let mut manager = SshConnectionManager::new();
    let mut opened: Vec<u64> = Vec::new();
    let mut closed: Vec<u64> = Vec::new();
    for round in 0..5u64 {
        match manager.connect(&config("a"), ConnectEvent::Requested) {
            ConnectAction::Establish { stale } => {
                if let Some(old) = stale {
                    closed.push(old.session);
                }
            }
            other => panic!("unexpected action {:?}", other),
        }
        let n = 100 * (round + 1);
        opened.push(n);
        match manager.connect(&config("a"), ConnectEvent::Established { link: link(n), now: 0 }) {
            ConnectAction::Registered { replaced, .. } => assert!(replaced.is_none()),
            other => panic!("unexpected action {:?}", other),
        }
        let lost = ConnectionStatus::Error("lost".to_string());
        assert!(manager.set_connection_status("a", lost).is_ok());
    }
    for session in manager.disconnect_all() {
        closed.push(session.session);
    }
    assert_eq!(opened, closed);
}

#[test]
fn failure_on_the_way_registers_nothing() {
    let mut manager = SshConnectionManager::new();
    assert!(matches!(
        manager.connect(&config("a"), ConnectEvent::Requested),
        ConnectAction::Establish { stale: None }
    ));
    let failed = ConnectEvent::Failed {
        step: ConnectStep::Handshake,
        detail: "timed out".to_string(),
    };
    match manager.connect(&config("a"), failed) {
        ConnectAction::Rejected(error) => {
            assert!(matches!(error, ConnectionError::TransportError(ConnectStep::Handshake, _)));
            assert_eq!(error.message(), "SSH握手失败: timed out");
        }
        other => panic!("unexpected action {:?}", other),
    }
    let refused = ConnectEvent::Refused {
        error: AuthError::PasswordRejected,
        detail: "denied".to_string(),
    };
    match manager.connect(&config("a"), refused) {
        ConnectAction::Rejected(error) => assert_eq!(error.message(), "密码认证失败: denied"),
        other => panic!("unexpected action {:?}", other),
    }
    assert!(manager.get_connections().is_empty());
    assert!(matches!(manager.get_connection_status("a"), Err(ConnectionError::NotFound)));
}

#[test]
fn established_over_a_registered_id_hands_the_old_session_back() {
    let mut manager = SshConnectionManager::new();
    connect(&mut manager, "a", 10);
    match manager.connect(&config("a"), ConnectEvent::Established { link: link(50), now: 1 }) {
        ConnectAction::Registered { id, replaced: Some(old) } => {
            assert_eq!(id, "a");
            assert_eq!(old.session, 10);
        }
        other => panic!("unexpected action {:?}", other),
    }
    assert_eq!(manager.get_connections().len(), 1);
    assert_eq!(manager.command_channel("a").ok(), Some(52));
}

#[test]
fn disconnect_removes_and_marks_the_session() {
    let mut manager = SshConnectionManager::new();
    connect(&mut manager, "a", 10);
    connect(&mut manager, "b", 20);
    let removed = manager.disconnect("a").expect("registered");
    assert_eq!(removed.id, "a");
    assert_eq!(removed.session, 10);
    assert_eq!(removed.shell_channel, Some(12));
    assert!(matches!(removed.status, ConnectionStatus::Disconnected));
    assert!(matches!(manager.get_connection_status("a"), Err(ConnectionError::NotFound)));
    assert!(matches!(manager.get_connection_status("b"), Ok(ConnectionStatus::Connected)));
    assert!(matches!(manager.disconnect("a"), Err(ConnectionError::NotFound)));
}

#[test]
fn disconnect_all_empties_the_registry() {
    let mut manager = SshConnectionManager::new();
    connect(&mut manager, "a", 10);
    register_stale(&mut manager, "b", 20);
    connect(&mut manager, "c", 30);
    let removed = manager.disconnect_all();
    let sessions: Vec<u64> = removed.iter().map(|s| s.session).collect();
    assert_eq!(sessions, vec![10, 20, 30]);
    assert!(removed.iter().all(|s| matches!(s.status, ConnectionStatus::Disconnected)));
    assert!(manager.get_connections().is_empty());
    assert!(manager.disconnect_all().is_empty());
}

#[test]
fn health_needs_a_session_and_an_authenticated_transport() {
    let mut manager = SshConnectionManager::new();
    connect(&mut manager, "a", 10);
    assert!(manager.check_connection_health("a", true));
    assert!(!manager.check_connection_health("a", false));
    assert!(!manager.check_connection_health("b", true));
}

#[test]
fn listings_follow_the_registry() {
    let mut manager = SshConnectionManager::new();
    connect(&mut manager, "a", 10);
    register_stale(&mut manager, "b", 20);
    connect(&mut manager, "c", 30);
    let all: Vec<String> = manager.get_connections().into_iter().map(|c| c.id).collect();
    assert_eq!(all, vec!["a", "b", "c"]);
    let live: Vec<String> =
        manager.get_connected_connections().into_iter().map(|c| c.id).collect();
    assert_eq!(live, vec!["a", "c"]);
    assert_eq!(manager.get_connected_count(), 2);
}

#[test]
fn copy_for_a_terminal_leaves_the_channels_behind() {
    let mut manager = SshConnectionManager::new();
    connect(&mut manager, "a", 10);
    let copy: SshConnection = manager.get_ssh_connection("a").expect("registered");
    assert_eq!(copy.id, "a");
    assert_eq!(copy.session, 10);
    assert_eq!(copy.sftp, None);
    assert_eq!(copy.shell_channel, None);
    assert_eq!(copy.created_at, 100);
    assert!(matches!(copy.status, ConnectionStatus::Connected));
    assert_eq!(manager.command_channel("a").ok(), Some(12));
    assert!(matches!(manager.get_ssh_connection("zz"), Err(ConnectionError::NotFound)));
}

#[test]
fn status_can_be_recorded_for_a_registered_session_only() {
    let mut manager = SshConnectionManager::new();
    connect(&mut manager, "a", 10);
    connect(&mut manager, "b", 20);
    assert!(manager.set_connection_status("a", ConnectionStatus::Connecting).is_ok());
    assert!(matches!(manager.get_connection_status("a"), Ok(ConnectionStatus::Connecting)));
    assert!(matches!(manager.get_connection_status("b"), Ok(ConnectionStatus::Connected)));
    let ids: Vec<String> = manager.get_connections().into_iter().map(|c| c.id).collect();
    assert_eq!(ids, vec!["a", "b"]);
    assert!(matches!(
        manager.set_connection_status("zz", ConnectionStatus::Connected),
        Err(ConnectionError::NotFound)
    ));
    match manager.get_connection_status("a") {
        Ok(ConnectionStatus::Connecting) => {}
        other => panic!("unexpected status {:?}", other),
    }
}

#[test]
fn command_channel_errors() {
    let mut manager = SshConnectionManager::new();
    assert!(matches!(manager.command_channel("a"), Err(ConnectionError::NotFound)));
    register_stale(&mut manager, "a", 10);
    assert!(matches!(manager.command_channel("a"), Err(ConnectionError::NotConnected)));
    let bare = Link { session: 1, sftp: None, shell_channel: None };
    manager.connect(&config("b"), ConnectEvent::Established { link: bare, now: 0 });
    assert!(matches!(manager.command_channel("b"), Err(ConnectionError::ChannelUnavailable)));
}

#[test]
fn messages_of_connection_errors() {
    assert_eq!(
        ConnectionError::ConfigInvalid(ConfigError::ZeroPort).message(),
        "配置验证失败: 端口号不能为0"
    );
    assert_eq!(
        ConnectionError::TransportError(ConnectStep::OpenTcp, "refused".to_string()).message(),
        "TCP连接失败: refused"
    );
    assert_eq!(ConnectionError::AlreadyConnected.message(), "连接已存在");
    assert_eq!(ConnectionError::NotFound.message(), "连接不存在");
    assert_eq!(ConnectionError::NotConnected.message(), "连接未建立");
    assert_eq!(ConnectionError::ChannelUnavailable.message(), "Shell通道不存在");
    assert_eq!(ConnectionError::ChannelBusy.message(), "Shell通道正在执行命令");
}

#[test]
fn steps_of_a_connection_in_order() {
    let mut steps = vec![ConnectStep::first()];
    while let Some(next) = steps[steps.len() - 1].next() {
        steps.push(next);
    }
    assert_eq!(
        steps,
        vec![
            ConnectStep::OpenTcp,
            ConnectStep::CreateSession,
            ConnectStep::Handshake,
            ConnectStep::Authenticate,
            ConnectStep::OpenSftp,
            ConnectStep::OpenChannel,
            ConnectStep::RequestPty,
            ConnectStep::StartShell,
        ]
    );
}

/// A shell that prints a prompt after the handshake and echoes what `echo` is given.
struct MockShell {
    pending: Vec<Vec<u8>>,
}

impl MockShell {
    fn write(&mut self, line: &str) {
        let said = line.trim_end().strip_prefix("echo ").unwrap_or("");
        self.pending.push(format!("{}\n", said).into_bytes());
        self.pending.push(b"u@test:~$ ".to_vec());
    }

    fn read(&mut self) -> ReadOutcome {
        if self.pending.is_empty() {
            ReadOutcome::Bytes(Vec::new())
        } else {
            ReadOutcome::Bytes(self.pending.remove(0))
        }
    }
}

#[test]
fn end_to_end_connect_execute_disconnect() {
    let mut manager = SshConnectionManager::new();
    let mut config = ConnectionConfig::with_identity(
        "c-1".to_string(),
        "test box".to_string(),
        "test".to_string(),
        "u".to_string(),
        0,
    );
    config.port = 22;
    config.password = Some("p".to_string());
    config.auth_method = AuthMethod::Password;

    assert!(matches!(
        manager.connect(&config, ConnectEvent::Requested),
        ConnectAction::Establish { stale: None }
    ));
    let mut shell = MockShell { pending: vec![b"u@test:~$ ".to_vec()] };
    let id = match manager.connect(&config, ConnectEvent::Established { link: link(1), now: 9 }) {
        ConnectAction::Registered { id, .. } => id,
        other => panic!("unexpected action {:?}", other),
    };
    assert!(!id.is_empty());

    assert_eq!(manager.command_channel(&id).ok(), Some(3));
    let mut run =
        SshCommandExecutor::execute_command_with_options(&config, "echo hi", CommandOptions::default());
    // Drain the greeting prompt first, as a terminal would have.
    let _ = shell.read();
    shell.write(&run.line);
    let mut clock = 0u64;
    let reason = loop {
        match run.reader.poll(clock) {
            ReadAction::Finish(reason) => break reason,
            _ => {}
        }
        let outcome = shell.read();
        clock += 1;
        match SshCommandExecutor::read_command_output(&mut run.reader, &outcome, clock) {
            ReadAction::Finish(reason) => break reason,
            ReadAction::Pause(ms) => clock += ms,
            ReadAction::Read => {}
        }
    };
    assert_eq!(reason, StopReason::PromptDetected);
    let output = run.reader.into_output();
    assert_eq!(output, "hi\nu@test:~$ ");
    assert!(output.find("hi").unwrap() < output.find("u@test:~$ ").unwrap());

    assert!(manager.disconnect(&id).is_ok());
    assert!(matches!(manager.get_connection_status(&id), Err(ConnectionError::NotFound)));
}
