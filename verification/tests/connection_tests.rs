use bestftp::command::{create_directory, list_remote_files, Reply};
use bestftp::connection::{
    connect, connect_auto, connect_candidate, connect_report, parse_protocol, protocol_order,
    AutoStep, ConnectionManager, ConnectionState, EnsureEvent, EnsureStep,
};
use bestftp::models::{CommandResult, ConnectionInfo, ConnectionProtocol};
use bestftp::reconnect::AttemptOutcome;

fn connected_manager(protocol: &str) -> ConnectionManager {
    let mut manager = ConnectionManager::new();
    let candidate = connect(
        &mut manager,
        "example.org".to_string(),
        21,
        Some("alice".to_string()),
        Some("secret".to_string()),
        Some(protocol.to_string()),
    );
    let report = manager.finish_connect(candidate, &AttemptOutcome::Connected, false);
    assert!(report.success);
    manager
}

fn ensure(manager: &mut ConnectionManager, alive: bool, reachable_from: Option<u32>) -> (Result<(), String>, Vec<(u32, u64)>) {
    let mut attempts = Vec::new();
    let mut step = manager.ensure_connected(EnsureEvent::Begin);
    loop {
        step = match step {
            EnsureStep::Ready => return (Ok(()), attempts),
            EnsureStep::Failed(reason) => return (Err(reason), attempts),
            EnsureStep::Probe => manager.ensure_connected(EnsureEvent::Probed(alive)),
            EnsureStep::Attempt { info, number, delay_ms } => {
                assert_eq!(info.host, "example.org");
                assert_eq!(info.username, "alice");
                attempts.push((number, delay_ms));
                assert_eq!(manager.state(), ConnectionState::Reconnecting);
                let up = reachable_from.map(|n| number >= n).unwrap_or(false);
                let outcome = if up {
                    AttemptOutcome::Connected
                } else {
                    AttemptOutcome::ConnectFailed(format!("timed out ({})", number))
                };
                manager.ensure_connected(EnsureEvent::Attempted(outcome))
            }
        };
    }
}

#[test]
fn the_word_sftp_names_sftp_and_nothing_else_does() {
    assert_eq!(parse_protocol(Some("sftp")), ConnectionProtocol::SFTP);
    assert_eq!(parse_protocol(Some("ftp")), ConnectionProtocol::FTP);
    assert_eq!(parse_protocol(Some("SFTP")), ConnectionProtocol::FTP);
    assert_eq!(parse_protocol(Some("")), ConnectionProtocol::FTP);
    assert_eq!(parse_protocol(None), ConnectionProtocol::FTP);
}

#[test]
fn the_port_gives_the_order_of_the_protocols() {
    let sftp_first = (ConnectionProtocol::SFTP, ConnectionProtocol::FTP);
    let ftp_first = (ConnectionProtocol::FTP, ConnectionProtocol::SFTP);
    assert_eq!(protocol_order(22), sftp_first);
    assert_eq!(protocol_order(2222), sftp_first);
    assert_eq!(protocol_order(21), ftp_first);
    assert_eq!(protocol_order(990), ftp_first);
    assert_eq!(protocol_order(8021), ftp_first);
    assert_eq!(protocol_order(0), ftp_first);
}

#[test]
fn missing_credentials_are_anonymous() {
    let info: ConnectionInfo =
        connect_candidate("h".to_string(), 21, None, None, ConnectionProtocol::FTP);
    assert_eq!(info.username, "anonymous");
    assert_eq!(info.password, "anonymous@");
    assert_eq!(info.host, "h");
    assert_eq!(info.port, 21);
    let given = connect_candidate(
        "h".to_string(),
        22,
        Some("bob".to_string()),
        Some("".to_string()),
        ConnectionProtocol::SFTP,
    );
    assert_eq!(given.username, "bob");
    assert_eq!(given.password, "");
    assert_eq!(given.protocol, ConnectionProtocol::SFTP);
}

#[test]
fn what_the_user_is_told_after_a_connect() {
    let ok: CommandResult<String> =
        connect_report(ConnectionProtocol::FTP, &AttemptOutcome::Connected, false);
    assert!(ok.success);
    assert_eq!(ok.data.as_deref(), Some("FTP Connected successfully"));
    assert_eq!(ok.error, None);
    let auto = connect_report(ConnectionProtocol::SFTP, &AttemptOutcome::Connected, true);
    assert_eq!(auto.data.as_deref(), Some("SFTP Connected successfully (auto-detected)"));
    let login = connect_report(
        ConnectionProtocol::FTP,
        &AttemptOutcome::LoginFailed("530 Login incorrect.".to_string()),
        false,
    );
    assert!(!login.success);
    assert_eq!(login.data, None);
    assert_eq!(login.error.as_deref(), Some("FTP Login failed: 530 Login incorrect."));
    let refused = connect_report(
        ConnectionProtocol::FTP,
        &AttemptOutcome::ConnectFailed("refused".to_string()),
        false,
    );
    assert_eq!(refused.error.as_deref(), Some("FTP Connection failed: refused"));
    let sftp = connect_report(
        ConnectionProtocol::SFTP,
        &AttemptOutcome::ConnectFailed("Authentication failed: bad".to_string()),
        false,
    );
    assert_eq!(sftp.error.as_deref(), Some("SFTP Connection failed: Authentication failed: bad"));
    let sftp_login = connect_report(
        ConnectionProtocol::SFTP,
        &AttemptOutcome::LoginFailed("bad".to_string()),
        false,
    );
    assert_eq!(sftp_login.error.as_deref(), Some("SFTP Connection failed: bad"));
}

#[test]
fn a_connect_goes_through_its_states() {
    let mut manager = ConnectionManager::new();
    assert_eq!(manager.state(), ConnectionState::Disconnected);
    let candidate = connect(&mut manager, "h".to_string(), 21, None, None, None);
    assert_eq!(candidate.protocol, ConnectionProtocol::FTP);
    assert_eq!(manager.state(), ConnectionState::Connecting);
    let report = manager.finish_connect(candidate, &AttemptOutcome::Connected, false);
    assert_eq!(report.data.as_deref(), Some("FTP Connected successfully"));
    assert_eq!(manager.state(), ConnectionState::Connected);
    assert!(manager.has_client());
    assert_eq!(manager.current_path(), "/");
    assert_eq!(manager.protocol(), Some(ConnectionProtocol::FTP));
    assert_eq!(manager.connection_info().unwrap().username, "anonymous");
}

#[test]
fn a_failed_login_leaves_the_manager_disconnected() {
    let mut manager = ConnectionManager::new();
    let candidate = connect(&mut manager, "h".to_string(), 21, None, None, None);
    let report = manager.finish_connect(
        candidate,
        &AttemptOutcome::LoginFailed("530 no".to_string()),
        false,
    );
    assert!(!report.success);
    assert_eq!(report.error.as_deref(), Some("FTP Login failed: 530 no"));
    assert_eq!(manager.state(), ConnectionState::Disconnected);
    assert!(!manager.has_client());
    assert!(manager.connection_info().is_none());
}

#[test]
fn a_failed_connect_leaves_nothing_of_the_old_session() {
    for protocol in ["ftp", "sftp"] {
        let mut manager = connected_manager(protocol);
        assert_eq!(manager.state(), ConnectionState::Connected);
        let candidate = connect(&mut manager, "other".to_string(), 21, None, None, None);
        let report = manager.finish_connect(
            candidate,
            &AttemptOutcome::ConnectFailed("unreachable".to_string()),
            false,
        );
        assert_eq!(report.error.as_deref(), Some("FTP Connection failed: unreachable"));
        assert_eq!(manager.state(), ConnectionState::Disconnected);
        assert!(manager.connection_info().is_none());
        assert!(!manager.has_client());
    }
}

#[test]
fn a_new_connect_lets_go_of_the_old_session() {
    let mut manager = connected_manager("ftp");
    let candidate = connect(&mut manager, "other".to_string(), 22, None, None, Some("sftp".to_string()));
    assert!(!manager.has_client());
    assert!(manager.connection_info().is_none());
    assert_eq!(manager.state(), ConnectionState::Connecting);
    let _ = manager.finish_connect(candidate, &AttemptOutcome::Connected, false);
    assert_eq!(manager.state(), ConnectionState::Connected);
    assert!(!manager.has_client());
    assert_eq!(manager.protocol(), Some(ConnectionProtocol::SFTP));
    assert_eq!(manager.connection_info().unwrap().host, "other");
}

#[test]
fn disconnect_forgets_everything() {
    let mut manager = connected_manager("ftp");
    assert!(manager.disconnect());
    assert_eq!(manager.state(), ConnectionState::Disconnected);
    assert!(manager.connection_info().is_none());
    assert!(!manager.disconnect());
    let mut sftp = connected_manager("sftp");
    assert!(!sftp.disconnect());
    assert_eq!(sftp.state(), ConnectionState::Disconnected);
}

#[test]
fn a_live_connection_needs_no_more_than_a_probe() {
    let mut manager = connected_manager("ftp");
    assert_eq!(ensure(&mut manager, true, None), (Ok(()), vec![]));
    assert!(manager.has_client());
    assert_eq!(manager.state(), ConnectionState::Connected);
}

#[test]
fn sftp_needs_nothing() {
    let mut manager = connected_manager("sftp");
    let step = manager.ensure_connected(EnsureEvent::Begin);
    assert!(matches!(step, EnsureStep::Ready));
}

#[test]
fn a_dead_connection_is_opened_again_within_three_attempts() {
    for first_up in 1..=3u32 {
        let mut manager = connected_manager("ftp");
        let (result, attempts) = ensure(&mut manager, false, Some(first_up));
        assert_eq!(result, Ok(()));
        assert_eq!(attempts.len() as u32, first_up);
        assert_eq!(attempts[0], (1, 0));
        if first_up >= 2 {
            assert_eq!(attempts[1], (2, 1000));
        }
        if first_up >= 3 {
            assert_eq!(attempts[2], (3, 2000));
        }
        assert!(manager.has_client());
        assert_eq!(manager.state(), ConnectionState::Connected);
    }
}

#[test]
fn a_server_that_stays_away_gives_the_aggregate_error() {
    let mut manager = connected_manager("ftp");
    let (result, attempts) = ensure(&mut manager, false, None);
    assert_eq!(
        result,
        Err("Auto-reconnect failed: Failed to reconnect after 3 attempts. Last error: Connection failed on attempt 3: timed out (3)".to_string())
    );
    assert_eq!(attempts, vec![(1, 0), (2, 1000), (3, 2000)]);
    assert!(!manager.has_client());
    assert_eq!(manager.state(), ConnectionState::Disconnected);
    assert!(manager.connection_info().is_some());
}

#[test]
fn credentials_turned_down_end_the_reconnection() {
    let mut manager = connected_manager("ftp");
    assert!(matches!(manager.ensure_connected(EnsureEvent::Begin), EnsureStep::Probe));
    assert!(matches!(
        manager.ensure_connected(EnsureEvent::Probed(false)),
        EnsureStep::Attempt { number: 1, delay_ms: 0, .. }
    ));
    let step = manager.ensure_connected(EnsureEvent::Attempted(AttemptOutcome::LoginFailed(
        "530 Login incorrect.".to_string(),
    )));
    match step {
        EnsureStep::Failed(reason) => assert_eq!(
            reason,
            "Auto-reconnect failed: Failed to reconnect after 1 attempts. Last error: Login failed on attempt 1: 530 Login incorrect."
        ),
        other => panic!("went on: {:?}", other),
    }
    assert_eq!(manager.state(), ConnectionState::Disconnected);
}

#[test]
fn without_credentials_there_is_nothing_to_try() {
    let mut manager = ConnectionManager::new();
    let (result, attempts) = ensure(&mut manager, false, Some(1));
    assert_eq!(result, Err("Not connected and no connection info available".to_string()));
    assert!(attempts.is_empty());
}

#[test]
fn auto_connect_takes_the_first_protocol_that_answers() {
    let mut manager = ConnectionManager::new();
    let mut auto = connect_auto("h".to_string(), 22, None, Some("pw".to_string()));
    let first = match auto.advance(&mut manager, None) {
        AutoStep::Try(info) => info,
        AutoStep::Finished(_) => panic!("nothing tried"),
    };
    assert_eq!(first.protocol, ConnectionProtocol::SFTP);
    assert_eq!(first.username, "anonymous");
    assert_eq!(first.password, "pw");
    let second = match auto.advance(&mut manager, Some(AttemptOutcome::ConnectFailed("no ssh".to_string()))) {
        AutoStep::Try(info) => info,
        AutoStep::Finished(_) => panic!("gave up early"),
    };
    assert_eq!(second.protocol, ConnectionProtocol::FTP);
    match auto.advance(&mut manager, Some(AttemptOutcome::Connected)) {
        AutoStep::Finished(result) => {
            assert!(result.success);
            assert_eq!(result.data.as_deref(), Some("FTP Connected successfully (auto-detected)"));
        }
        AutoStep::Try(_) => panic!("tried a third time"),
    }
    assert_eq!(manager.protocol(), Some(ConnectionProtocol::FTP));
    assert!(manager.has_client());
    assert_eq!(manager.current_path(), "/");
}

#[test]
fn auto_connect_stops_at_the_first_success() {
    let mut manager = ConnectionManager::new();
    let mut auto = connect_auto("h".to_string(), 21, None, None);
    match auto.advance(&mut manager, None) {
        AutoStep::Try(info) => assert_eq!(info.protocol, ConnectionProtocol::FTP),
        AutoStep::Finished(_) => panic!("nothing tried"),
    }
    match auto.advance(&mut manager, Some(AttemptOutcome::Connected)) {
        AutoStep::Finished(result) => {
            assert_eq!(result.data.as_deref(), Some("FTP Connected successfully (auto-detected)"));
        }
        AutoStep::Try(_) => panic!("tried again after a success"),
    }
}

#[test]
fn auto_connect_names_both_protocols_when_neither_answers() {
    let mut manager = connected_manager("ftp");
    let mut auto = connect_auto("h".to_string(), 2222, None, None);
    let mut last = None;
    let mut tried = Vec::new();
    let result = loop {
        match auto.advance(&mut manager, last.take()) {
            AutoStep::Try(info) => {
                tried.push(info.protocol);
                last = Some(AttemptOutcome::LoginFailed("no".to_string()));
            }
            AutoStep::Finished(result) => break result,
        }
    };
    assert_eq!(tried, vec![ConnectionProtocol::SFTP, ConnectionProtocol::FTP]);
    assert!(!result.success);
    assert_eq!(
        result.error.as_deref(),
        Some("Failed to connect using any protocol (tried FTP and SFTP)")
    );
    assert!(!manager.has_client());
    assert!(manager.connection_info().is_none());
    assert_eq!(manager.state(), ConnectionState::Disconnected);
}

#[test]
fn only_a_listing_that_went_well_moves_the_current_path() {
    let mut manager = connected_manager("ftp");
    assert_eq!(manager.current_path(), "/");
    let (mut listing, _) = list_remote_files("ftp://example.org/pub/docs", manager.protocol());
    manager.finish_command(&listing);
    assert_eq!(manager.current_path(), "/");
    listing.advance(Reply::Done, true);
    listing.advance(Reply::Done, true);
    assert!(listing.succeeded());
    manager.finish_command(&listing);
    assert_eq!(manager.current_path(), "/pub/docs");
    let (mut failing, _) = list_remote_files("/gone", manager.protocol());
    failing.advance(Reply::Done, true);
    failing.advance(Reply::Failed("550".to_string()), true);
    failing.advance(Reply::Failed("down".to_string()), false);
    manager.finish_command(&failing);
    assert_eq!(manager.current_path(), "/pub/docs");
    let (mut other, _) = create_directory("/made", true, manager.protocol()).unwrap();
    other.advance(Reply::Done, true);
    other.advance(Reply::Done, true);
    assert!(other.succeeded());
    manager.finish_command(&other);
    assert_eq!(manager.current_path(), "/pub/docs");
}
