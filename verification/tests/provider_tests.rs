use ws_messaging::config::{ConnectionConfig, Mode};
use ws_messaging::errors::RelayError;
use ws_messaging::message::BrokerMessage;
use ws_messaging::provider::{SendRoute, WebSocketMessagingProvider};
use ws_messaging::server::ServerState;
use ws_messaging::session::SessionInfo;
use ws_messaging::smap::StrMap;
use ws_messaging::tasks::{connection_task_step, SocketEvent, TaskStep};

fn opts(pairs: &[(&str, &str)]) -> StrMap<String> {
    let mut m = StrMap::new();
    for (k, v) in pairs {
        m.insert(k.to_string(), v.to_string());
    }
    m
}

fn msg(subject: &str, body: &[u8], reply_to: Option<&str>) -> BrokerMessage {
    BrokerMessage {
        subject: subject.to_string(),
        body: body.to_vec(),
        reply_to: reply_to.map(|r| r.to_string()),
    }
}

fn link_consumer(p: &mut WebSocketMessagingProvider, id: &str, session_id: &str) {
    let config = p.link_config(&StrMap::new());
    p.receive_link_config_as_target(id, &config, SessionInfo::new(session_id.to_string(), 0));
}

fn link_handler(p: &mut WebSocketMessagingProvider, id: &str, session_id: &str) {
    let config = p.link_config(&StrMap::new());
    p.receive_link_config_as_source(id, &config, SessionInfo::new(session_id.to_string(), 0));
}

#[test]
fn test_provider_creation() {
    let provider = WebSocketMessagingProvider::new();
    assert!(provider.list_sessions().is_empty());
}

#[test]
fn test_provider_from_config() {
    let config = opts(&[("URI", "ws://localhost:9090")]);
    let provider = WebSocketMessagingProvider::from_config(&config);
    assert_eq!(provider.default_configuration().uri, "ws://localhost:9090");
}

#[test]
fn test_session_management() {
    let provider = WebSocketMessagingProvider::new();
    let sessions = provider.list_sessions();
    assert_eq!(sessions.len(), 0);
}

#[test]
fn test_session_lifecycle() {
    let provider = WebSocketMessagingProvider::new();
    let sessions = provider.list_sessions();
    assert_eq!(sessions.len(), 0);
}

#[test]
fn test_config_merging() {
    let config = opts(&[("URI", "ws://default:8080"), ("CONNECT_TIMEOUT_SEC", "30")]);
    let provider = WebSocketMessagingProvider::from_config(&config);
    assert_eq!(provider.default_configuration().uri, "ws://default:8080");
}

#[test]
fn test_provider_state() {
    let provider = WebSocketMessagingProvider::new();
    let count = provider.list_sessions().len();
    assert_eq!(count, 0);
}

#[test]
fn test_concurrent_access() {
    let provider = WebSocketMessagingProvider::new();
    for i in 0..10 {
        let count = provider.list_sessions().len();
        assert_eq!(count, 0, "Task {} found unexpected sessions", i);
    }
}

#[test]
fn test_shutdown() {
    let mut provider = WebSocketMessagingProvider::new();
    provider.shutdown();
    let sessions = provider.list_sessions();
    assert_eq!(sessions.len(), 0);
}

#[test]
fn test_server_state() {
    let state = ServerState::new();
    assert_eq!(state.list_client_sessions().len(), 0);

    let mut state = state;
    state.set_handler_component("comp-1".to_string());
    assert_eq!(state.handler_component(), Some("comp-1".to_string()));
}

#[test]
fn test_server_mode_initialization() {
    let config = opts(&[("MODE", "server"), ("URI", "127.0.0.1:0")]);
    let mut provider = WebSocketMessagingProvider::from_config(&config);
    let bind = provider.start_server_if_needed();
    assert!(bind.is_some());
    provider.set_server_addr(bind.unwrap());

    let addr = provider.get_server_addr();
    assert!(addr.is_some(), "Server should have an address");

    provider.shutdown();
}

#[test]
fn test_client_mode() {
    let config = opts(&[("MODE", "client"), ("URI", "ws://echo.websocket.org")]);
    let mut provider = WebSocketMessagingProvider::from_config(&config);
    assert!(provider.start_server_if_needed().is_none());

    let addr = provider.get_server_addr();
    assert!(addr.is_none(), "Client mode should not have server address");

    provider.shutdown();
}

#[test]
fn test_session_routing() {
    let config = opts(&[("MODE", "server"), ("URI", "127.0.0.1:0")]);
    let mut provider = WebSocketMessagingProvider::from_config(&config);
    provider.start_server_if_needed();

    let sessions = provider.list_sessions();
    assert_eq!(sessions.len(), 0);

    provider.shutdown();
}

#[test]
fn test_broadcast_server_mode() {
    let config = opts(&[("MODE", "server"), ("URI", "127.0.0.1:0")]);
    let mut provider = WebSocketMessagingProvider::from_config(&config);
    provider.start_server_if_needed();

    let m = msg("test.broadcast", b"broadcast message", None);
    let result = provider.broadcast_to_clients(&m);
    assert!(result.is_ok());

    provider.shutdown();
}

#[test]
fn test_list_ws_clients() {
    let config = opts(&[("MODE", "server"), ("URI", "127.0.0.1:0")]);
    let mut provider = WebSocketMessagingProvider::from_config(&config);
    provider.start_server_if_needed();

    let clients = provider.list_ws_clients().unwrap();
    assert_eq!(clients.len(), 0);

    provider.shutdown();
}

#[test]
fn test_server_mode_shutdown() {
    let config = opts(&[("MODE", "server"), ("URI", "127.0.0.1:0")]);
    let mut provider = WebSocketMessagingProvider::from_config(&config);
    let bind = provider.start_server_if_needed();
    provider.set_server_addr(bind.unwrap());
    assert!(provider.get_server_addr().is_some());

    provider.shutdown();

    let sessions = provider.list_sessions();
    assert_eq!(sessions.len(), 0);
}

#[test]
fn test_session_tracking_config() {
    let config1 = opts(&[
        ("MODE", "server"),
        ("URI", "127.0.0.1:0"),
        ("ENABLE_SESSION_TRACKING", "true"),
    ]);
    let mut provider1 = WebSocketMessagingProvider::from_config(&config1);
    provider1.start_server_if_needed();
    provider1.shutdown();

    let config2 = opts(&[
        ("MODE", "server"),
        ("URI", "127.0.0.1:0"),
        ("ENABLE_SESSION_TRACKING", "false"),
    ]);
    let mut provider2 = WebSocketMessagingProvider::from_config(&config2);
    provider2.start_server_if_needed();
    provider2.shutdown();
}

#[test]
fn test_publish_requires_link() {
    let mut provider = WebSocketMessagingProvider::new();
    let m = msg("t", b"hi", None);

    assert_eq!(provider.publish("c1", &m), Err(RelayError::ComponentNotLinked));

    link_consumer(&mut provider, "c1", "sess-c1");
    let frame = provider.publish("c1", &m).unwrap();
    assert!(frame.contains("\"subject\":\"t\""));

    provider.delete_link_as_target("c1");
    assert_eq!(provider.publish("c1", &m), Err(RelayError::ComponentNotLinked));
}

#[test]
fn test_list_sessions_counts_live_connections() {
    let mut provider = WebSocketMessagingProvider::new();
    link_consumer(&mut provider, "c1", "sess-1");
    link_handler(&mut provider, "h1", "sess-2");
    assert_eq!(provider.list_sessions().len(), 2);

    let rows = provider.list_sessions();
    assert!(rows.iter().any(|r| r.0 == "sess-1" && r.1 == "component:c1"));
    assert!(rows.iter().any(|r| r.0 == "sess-2" && r.1 == "component:h1"));

    provider.delete_link_as_source("h1");
    assert_eq!(provider.list_sessions().len(), 1);

    provider.shutdown();
    assert_eq!(provider.list_sessions().len(), 0);
}

#[test]
fn test_untracked_link_has_no_session_row() {
    let mut provider = WebSocketMessagingProvider::new();
    let config =
        provider.link_config(&opts(&[("ENABLE_SESSION_TRACKING", "false")]));
    provider.receive_link_config_as_target("c1", &config, SessionInfo::new("s-1".to_string(), 0));
    assert_eq!(provider.list_sessions().len(), 0);
    assert_eq!(provider.get_session("s-1"), None);
}

#[test]
fn test_relink_replaces_bundle() {
    let mut provider = WebSocketMessagingProvider::new();
    link_consumer(&mut provider, "c1", "sess-old");
    let replaced = {
        let config = provider.link_config(&StrMap::new());
        provider.receive_link_config_as_target(
            "c1",
            &config,
            SessionInfo::new("sess-new".to_string(), 0),
        )
    };
    assert_eq!(replaced.unwrap().session_info.session_id, "sess-old");
    assert_eq!(provider.list_sessions().len(), 1);
    assert_eq!(provider.get_session("sess-new"), Some("c1".to_string()));
    assert_eq!(provider.get_session("sess-old"), None);
}

#[test]
fn test_send_to_session_precedence() {
    let mut provider = WebSocketMessagingProvider::new();
    let m = msg("t", b"payload", None);

    assert!(matches!(
        provider.send_to_session("nope", &m),
        Err(RelayError::SessionNotFound)
    ));

    link_consumer(&mut provider, "c1", "sess-1");
    match provider.send_to_session("sess-1", &m) {
        Ok(SendRoute::ToComponent(cid, frame)) => {
            assert_eq!(cid, "c1");
            assert!(frame.contains("\"subject\":\"t\""));
        }
        other => panic!("unexpected route: {:?}", other),
    }
}

/// Scenario: a consumer publishes against an echo endpoint; the echoed frame
/// is decoded on the consumer's connection and fanned out to the handlers,
/// which see the consumer's session as the reply subject.
#[test]
fn test_echo_reply_reaches_handlers() {
    let mut provider = WebSocketMessagingProvider::new();
    link_consumer(&mut provider, "c1", "sess-c1");
    link_handler(&mut provider, "h1", "sess-h1");

    let m = msg("t", b"hi", None);
    let frame = provider.publish("c1", &m).unwrap();

    // The echo endpoint hands the frame straight back on c1's connection.
    let step = connection_task_step(SocketEvent::TextFrame(frame), "sess-c1");
    let echoed = match step {
        TaskStep::Deliver(echoed) => echoed,
        other => panic!("unexpected step: {:?}", other),
    };
    assert_eq!(echoed.subject, "t");
    assert_eq!(echoed.body, b"hi".to_vec());
    assert_eq!(echoed.reply_to, Some("sess-c1".to_string()));

    let deliveries = provider.broadcast_to_handlers(&echoed);
    assert_eq!(deliveries.len(), 1);
    assert_eq!(deliveries[0].0, "h1");
}

/// Scenario: a bound server accepts one peer; the peer is listed, broadcast
/// to zero peers succeeds, and unicast to an unknown session fails.
#[test]
fn test_server_accepts_and_routes() {
    let config = opts(&[("MODE", "server"), ("URI", "127.0.0.1:0")]);
    let mut provider = WebSocketMessagingProvider::from_config(&config);
    let bind = provider.start_server_if_needed();
    provider.set_server_addr(bind.unwrap());

    let m = msg("test.broadcast", b"x", None);
    assert!(provider.broadcast_to_clients(&m).is_ok());
    assert_eq!(
        provider.send_to_ws_client("unknown", &m),
        Err(RelayError::SessionNotFound)
    );

    provider
        .ws_client_connected(SessionInfo::new("peer-1".to_string(), 0))
        .unwrap();
    assert_eq!(provider.list_ws_clients().unwrap(), vec!["peer-1".to_string()]);
    assert_eq!(provider.list_sessions().len(), 1);

    assert!(provider.send_to_ws_client("peer-1", &m).is_ok());

    provider.ws_client_disconnected("peer-1");
    assert_eq!(provider.list_ws_clients().unwrap().len(), 0);
}

#[test]
fn test_ws_ops_require_server_mode() {
    let provider = WebSocketMessagingProvider::new();
    let m = msg("t", b"x", None);
    assert_eq!(provider.list_ws_clients(), Err(RelayError::NotInServerMode));
    assert_eq!(
        provider.send_to_ws_client("s", &m),
        Err(RelayError::NotInServerMode)
    );
    assert_eq!(
        provider.broadcast_to_clients(&m),
        Err(RelayError::NotInServerMode)
    );
}

#[test]
fn test_request_frame_carries_inbox() {
    let mut provider = WebSocketMessagingProvider::new();
    assert_eq!(
        provider.request("c1", "subj".to_string(), b"b".to_vec(), "_INBOX.1".to_string()),
        Err(RelayError::ComponentNotLinked)
    );
    link_consumer(&mut provider, "c1", "sess-1");
    let frame = provider
        .request("c1", "subj".to_string(), b"b".to_vec(), "_INBOX.1".to_string())
        .unwrap();
    assert!(frame.contains("\"reply_to\":\"_INBOX.1\""));
}

#[test]
fn test_task_step_control_frames() {
    match connection_task_step(SocketEvent::Ping(vec![1, 2]), "s") {
        TaskStep::ReplyPong(d) => assert_eq!(d, vec![1, 2]),
        other => panic!("unexpected step: {:?}", other),
    }
    assert!(matches!(
        connection_task_step(SocketEvent::CloseFrame, "s"),
        TaskStep::Exit
    ));
    assert!(matches!(
        connection_task_step(SocketEvent::ReadError, "s"),
        TaskStep::Exit
    ));
    assert!(matches!(
        connection_task_step(SocketEvent::OtherFrame, "s"),
        TaskStep::Ignore
    ));
}

#[test]
fn test_task_step_wraps_every_data_frame() {
    match connection_task_step(SocketEvent::TextFrame("not json".to_string()), "s") {
        TaskStep::Deliver(m) => {
            assert_eq!(m.subject, "message");
            assert_eq!(m.body, b"not json".to_vec());
            assert_eq!(m.reply_to, Some("s".to_string()));
        }
        other => panic!("unexpected step: {:?}", other),
    }
    match connection_task_step(
        SocketEvent::TextFrame(r#"{"subject":"a","body":"6869"}"#.to_string()),
        "s",
    ) {
        TaskStep::Deliver(m) => {
            assert_eq!(m.subject, "a");
            assert_eq!(m.body, b"hi".to_vec());
            assert_eq!(m.reply_to, Some("s".to_string()));
        }
        other => panic!("unexpected step: {:?}", other),
    }
    match connection_task_step(SocketEvent::BinaryFrame(vec![0xff, 0xfe]), "s") {
        TaskStep::Deliver(m) => {
            assert_eq!(m.subject, "binary.message");
            assert_eq!(m.body, vec![0xff, 0xfe]);
            assert_eq!(m.reply_to, Some("s".to_string()));
        }
        other => panic!("unexpected step: {:?}", other),
    }
}

#[test]
fn test_error_descriptions() {
    let config = ConnectionConfig::default();
    assert_eq!(config.mode, Mode::Client);
    assert_eq!(RelayError::ConnectionTimeout.describe(), "connection timeout");
    assert_eq!(RelayError::ConnectionFailed.describe(), "connection failed");
    assert_eq!(RelayError::SendFailed.describe(), "send failed");
    assert_eq!(RelayError::BindError.describe(), "bind error");
    assert_eq!(RelayError::NotInClientMode.describe(), "not in client mode");
}
