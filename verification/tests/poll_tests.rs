use telemetry_monitor::config::Settings;
use telemetry_monitor::error::FetchError;
use telemetry_monitor::poll::{status_text, Action, Command, ConnectionState, Poller};

fn connected() -> Poller {
    let mut poller = Poller::new();
    match poller.handle(Command::Start) {
        Action::Connect(generation) => {
            assert!(poller.connection_ended(generation, Ok(())));
        }
        other => panic!("expected a connection attempt, got {other:?}"),
    }
    assert_eq!(poller.state(), ConnectionState::Connected);
    poller
}

fn all_errors() -> Vec<FetchError> {
    vec![
        FetchError::Connect,
        FetchError::Handshake,
        FetchError::Auth,
        FetchError::RemoteExec,
        FetchError::Transfer,
        FetchError::Decode,
    ]
}

#[test]
fn new_poller_is_disconnected() {
    let poller = Poller::new();
    assert_eq!(poller.state(), ConnectionState::Disconnected);
    assert_eq!(poller.generation(), 0);
    assert_eq!(poller.status(), "Stopped");
}

#[test]
fn start_tick_stop_tick() {
    let mut poller = Poller::new();
    let generation = match poller.handle(Command::Start) {
        Action::Connect(generation) => generation,
        other => panic!("expected a connection attempt, got {other:?}"),
    };
    assert_eq!(poller.state(), ConnectionState::Connecting);
    assert!(poller.connection_ended(generation, Ok(())));
    assert_eq!(poller.state(), ConnectionState::Connected);
    assert!(matches!(poller.handle(Command::Tick), Action::Fetch(_)));
    assert_eq!(poller.handle(Command::Stop), Action::Release);
    assert_eq!(poller.state(), ConnectionState::Disconnected);
    assert_eq!(poller.handle(Command::Tick), Action::Idle);
    assert_eq!(poller.state(), ConnectionState::Disconnected);
}

#[test]
fn tick_before_start_is_a_no_op() {
    let mut poller = Poller::new();
    assert_eq!(poller.handle(Command::Tick), Action::Idle);
    assert_eq!(poller.state(), ConnectionState::Disconnected);
    assert_eq!(poller.generation(), 0);
}

#[test]
fn tick_while_connecting_is_a_no_op() {
    let mut poller = Poller::new();
    poller.handle(Command::Start);
    assert_eq!(poller.handle(Command::Tick), Action::Idle);
    assert_eq!(poller.state(), ConnectionState::Connecting);
}

#[test]
fn start_while_connected_is_a_no_op() {
    let mut poller = connected();
    let generation = poller.generation();
    assert_eq!(poller.handle(Command::Start), Action::Idle);
    assert_eq!(poller.state(), ConnectionState::Connected);
    assert_eq!(poller.generation(), generation);
}

#[test]
fn failed_connection_is_reported_by_step_and_start_retries() {
    for error in [FetchError::Connect, FetchError::Handshake, FetchError::Auth] {
        let mut poller = Poller::new();
        let generation = match poller.handle(Command::Start) {
            Action::Connect(generation) => generation,
            other => panic!("expected a connection attempt, got {other:?}"),
        };
        assert!(poller.connection_ended(generation, Err(error)));
        assert_eq!(poller.state(), ConnectionState::Failed(error));
        assert_eq!(poller.handle(Command::Tick), Action::Idle);
        let again = match poller.handle(Command::Start) {
            Action::Connect(generation) => generation,
            other => panic!("expected a connection attempt, got {other:?}"),
        };
        assert_eq!(poller.state(), ConnectionState::Connecting);
        assert!(poller.connection_ended(again, Ok(())));
        assert_eq!(poller.state(), ConnectionState::Connected);
    }
}

#[test]
fn failed_fetch_demotes_and_ticks_go_on() {
    for error in [FetchError::RemoteExec, FetchError::Transfer, FetchError::Decode] {
        let mut poller = connected();
        let generation = match poller.handle(Command::Tick) {
            Action::Fetch(generation) => generation,
            other => panic!("expected a fetch, got {other:?}"),
        };
        assert!(poller.fetch_ended(generation, Err(error)));
        assert_eq!(poller.state(), ConnectionState::Failed(error));
        assert_eq!(poller.handle(Command::Tick), Action::Idle);
        assert!(matches!(poller.handle(Command::Start), Action::Connect(_)));
    }
}

#[test]
fn successful_fetch_keeps_the_connection() {
    let mut poller = connected();
    for _ in 0..3 {
        let generation = match poller.handle(Command::Tick) {
            Action::Fetch(generation) => generation,
            other => panic!("expected a fetch, got {other:?}"),
        };
        assert!(poller.fetch_ended(generation, Ok(())));
        assert_eq!(poller.state(), ConnectionState::Connected);
    }
}

#[test]
fn fetch_overtaken_by_stop_is_dropped() {
    let mut poller = connected();
    let generation = match poller.handle(Command::Tick) {
        Action::Fetch(generation) => generation,
        other => panic!("expected a fetch, got {other:?}"),
    };
    poller.handle(Command::Stop);
    assert!(!poller.fetch_ended(generation, Ok(())));
    assert_eq!(poller.state(), ConnectionState::Disconnected);
    assert!(!poller.fetch_ended(generation, Err(FetchError::Transfer)));
    assert_eq!(poller.state(), ConnectionState::Disconnected);
}

#[test]
fn fetch_from_an_earlier_session_is_dropped() {
    let mut poller = connected();
    let stale = match poller.handle(Command::Tick) {
        Action::Fetch(generation) => generation,
        other => panic!("expected a fetch, got {other:?}"),
    };
    poller.handle(Command::Stop);
    let generation = match poller.handle(Command::Start) {
        Action::Connect(generation) => generation,
        other => panic!("expected a connection attempt, got {other:?}"),
    };
    assert!(poller.connection_ended(generation, Ok(())));
    assert!(!poller.fetch_ended(stale, Err(FetchError::Transfer)));
    assert_eq!(poller.state(), ConnectionState::Connected);
}

#[test]
fn connection_overtaken_by_stop_is_dropped() {
    let mut poller = Poller::new();
    let generation = match poller.handle(Command::Start) {
        Action::Connect(generation) => generation,
        other => panic!("expected a connection attempt, got {other:?}"),
    };
    poller.handle(Command::Stop);
    assert!(!poller.connection_ended(generation, Ok(())));
    assert_eq!(poller.state(), ConnectionState::Disconnected);
}

#[test]
fn stop_always_disconnects_and_releases() {
    let mut poller = Poller::new();
    assert_eq!(poller.handle(Command::Stop), Action::Release);
    assert_eq!(poller.state(), ConnectionState::Disconnected);
    let mut poller = connected();
    assert_eq!(poller.handle(Command::Stop), Action::Release);
    assert_eq!(poller.state(), ConnectionState::Disconnected);
    let mut poller = Poller::new();
    poller.handle(Command::Start);
    assert_eq!(poller.handle(Command::Stop), Action::Release);
    assert_eq!(poller.state(), ConnectionState::Disconnected);
}

#[test]
fn generation_counts_starts_and_stops() {
    let mut poller = Poller::new();
    assert_eq!(poller.handle(Command::Start), Action::Connect(1));
    assert_eq!(poller.generation(), 1);
    poller.handle(Command::Tick);
    assert_eq!(poller.generation(), 1);
    poller.handle(Command::Stop);
    assert_eq!(poller.generation(), 2);
    assert_eq!(poller.handle(Command::Start), Action::Connect(3));
}

#[test]
fn status_lines() {
    assert_eq!(status_text(ConnectionState::Disconnected), "Stopped");
    assert_eq!(status_text(ConnectionState::Connecting), "Connecting");
    assert_eq!(status_text(ConnectionState::Connected), "Running");
    assert_eq!(status_text(ConnectionState::Failed(FetchError::Connect)), "Fail Connect");
    assert_eq!(status_text(ConnectionState::Failed(FetchError::Handshake)), "Fail Handshake");
    assert_eq!(status_text(ConnectionState::Failed(FetchError::Auth)), "Fail Password");
    assert_eq!(status_text(ConnectionState::Failed(FetchError::RemoteExec)), "Fail Exec");
    assert_eq!(status_text(ConnectionState::Failed(FetchError::Transfer)), "Fail Transfer");
    assert_eq!(status_text(ConnectionState::Failed(FetchError::Decode)), "Fail Decode");
}

#[test]
fn status_lines_are_distinct() {
    let mut lines: Vec<&str> = vec![
        status_text(ConnectionState::Disconnected),
        status_text(ConnectionState::Connecting),
        status_text(ConnectionState::Connected),
    ];
    for error in all_errors() {
        lines.push(status_text(ConnectionState::Failed(error)));
    }
    for i in 0..lines.len() {
        for j in 0..i {
            assert_ne!(lines[i], lines[j]);
        }
    }
}

#[test]
fn status_follows_the_state() {
    let mut poller = Poller::new();
    let generation = match poller.handle(Command::Start) {
        Action::Connect(generation) => generation,
        other => panic!("expected a connection attempt, got {other:?}"),
    };
    assert_eq!(poller.status(), "Connecting");
    poller.connection_ended(generation, Err(FetchError::Auth));
    assert_eq!(poller.status(), "Fail Password");
    poller.handle(Command::Stop);
    assert_eq!(poller.status(), "Stopped");
}

#[test]
fn default_settings() {
    let settings = Settings::default();
    assert_eq!(settings.record_count, 60);
    assert_eq!(f64::from_bits(settings.threshold.to_bits()), 3.0);
    assert_eq!(settings.interval_seconds, 5);
    assert_eq!(settings.digits, 3);
    assert_eq!(settings.timeout_seconds, 10);
}
