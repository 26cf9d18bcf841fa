use group_relay::remote::connection::{ClientType, ConnectionManager};
use group_relay::remote::handler::{
    find_partner_connection, notify_partner_disconnect, Admission, ClientEvent, Payload, WebSocketHandler,
};
use group_relay::remote::heartbeat::HeartbeatManager;
use group_relay::remote::message::{MessageService, WrappedMessage};

const SECOND: u64 = 1_000_000_000;

fn server() -> WebSocketHandler<u32> {
    WebSocketHandler::new(ConnectionManager::new(), HeartbeatManager::new(30))
}

fn envelope(group: &str, sender: &str, receiver: &str, content: &str, kind: Option<&str>) -> WrappedMessage {
    WrappedMessage {
        group_id: group.to_string(),
        sender_type: sender.to_string(),
        receiver_type: receiver.to_string(),
        content: content.to_string(),
        message_type: kind.map(|k| k.to_string()),
    }
}

fn join(h: &mut WebSocketHandler<u32>, t: ClientType, g: &str, tx: u32) -> String {
    match h.admit_client(t, g.to_string(), tx, 0) {
        Admission::Accepted { client_id, confirmation } => {
            assert_eq!(confirmation.content, format!("连接成功，您的ID是: {}", client_id));
            client_id
        }
        Admission::Rejected(_) => panic!("rejected"),
    }
}

fn envelope_of(p: &Payload) -> &WrappedMessage {
    match p {
        Payload::Envelope(m) => m,
        Payload::Pong => panic!("pong"),
    }
}

#[test]
fn the_first_envelope_names_the_kind() {
    let h = server();
    assert_eq!(h.parse_client_info(&envelope("g", "center", "server", "初始化连接", None)), Some((ClientType::Center, "g".to_string())));
    assert_eq!(h.parse_client_info(&envelope("g", "local", "server", "", None)), Some((ClientType::Local, "g".to_string())));
    assert_eq!(h.parse_client_info(&envelope("g", "server", "server", "", None)), None);
}

#[test]
fn a_second_client_of_a_kind_is_rejected() {
    let mut h = server();
    join(&mut h, ClientType::Center, "g", 1);
    match h.admit_client(ClientType::Center, "g".to_string(), 2, 0) {
        Admission::Rejected(m) => {
            assert_eq!(m.message_type, Some("rejection".to_string()));
            assert_eq!(m.receiver_type, "center");
        }
        Admission::Accepted { .. } => panic!("accepted"),
    }
    assert_eq!(h.connection_manager.len(), 1);
}

#[test]
fn the_partner_learns_of_a_new_client() {
    let mut h = server();
    let c = join(&mut h, ClientType::Center, "g", 1);
    assert!(h.partner_join_notice(&c, ClientType::Center, "g".to_string()).is_none());
    let l = join(&mut h, ClientType::Local, "g", 2);
    let (tx, m) = h.partner_join_notice(&l, ClientType::Local, "g".to_string()).unwrap();
    assert_eq!(*tx, 1);
    assert_eq!(m.content, "local已上线连接");
    assert_eq!(m.receiver_type, "center");
}

#[test]
fn a_heartbeat_is_answered() {
    let mut h = server();
    let c = join(&mut h, ClientType::Center, "g", 1);
    let step = h.handle_client_message(&c, ClientType::Center, "g", ClientEvent::Text(envelope("g", "center", "server", "心跳", Some("heartbeat"))), 40 * SECOND);
    assert!(step.keep_open);
    assert_eq!(step.deliveries.len(), 1);
    assert_eq!(step.deliveries[0].to, c);
    assert_eq!(envelope_of(&step.deliveries[0].payload).content, "心跳确认");
    assert!(h.heartbeat_manager.expired_clients(50 * SECOND).is_empty());
}

#[test]
fn a_message_is_relayed_and_acknowledged() {
    let mut h = server();
    let c = join(&mut h, ClientType::Center, "g", 1);
    let l = join(&mut h, ClientType::Local, "g", 2);
    let step = h.handle_client_message(&c, ClientType::Center, "g", ClientEvent::Text(envelope("x", "y", "z", "hello", None)), 1);
    assert!(step.keep_open);
    assert_eq!(step.deliveries.len(), 2);
    assert_eq!(step.deliveries[0].to, l);
    assert_eq!(envelope_of(&step.deliveries[0].payload), &envelope("g", "center", "local", "hello", None));
    assert_eq!(step.deliveries[1].to, c);
    assert_eq!(envelope_of(&step.deliveries[1].payload).content, "消息已发送");
}

#[test]
fn a_message_without_a_target_is_only_acknowledged() {
    let mut h = server();
    let c = join(&mut h, ClientType::Center, "g", 1);
    let step = h.handle_client_message(&c, ClientType::Center, "g", ClientEvent::Text(envelope("g", "center", "local", "hello", None)), 1);
    assert_eq!(step.deliveries.len(), 1);
    assert_eq!(step.deliveries[0].to, c);
}

#[test]
fn a_departure_is_passed_to_the_partner_and_ends_the_session() {
    let mut h = server();
    let c = join(&mut h, ClientType::Center, "g", 1);
    let l = join(&mut h, ClientType::Local, "g", 2);
    let step = h.handle_client_message(&c, ClientType::Center, "g", ClientEvent::Text(envelope("g", "center", "server", "bye", Some("disconnect"))), 1);
    assert!(!step.keep_open);
    assert_eq!(step.deliveries.len(), 1);
    assert_eq!(step.deliveries[0].to, c);
    assert_eq!(envelope_of(&step.deliveries[0].payload).content, "消息已发送");
    let (partner, notice) = h.handle_disconnect(&c).unwrap();
    assert_eq!(partner, l);
    assert_eq!(notice, envelope("g", "server", "local", "center已断开连接", Some("disconnect")));
    assert!(h.handle_disconnect(&c).is_none());
}

#[test]
fn pings_are_answered_with_pongs() {
    let mut h = server();
    let c = join(&mut h, ClientType::Local, "g", 1);
    let step = h.handle_client_message(&c, ClientType::Local, "g", ClientEvent::Ping, 1);
    assert!(step.keep_open);
    assert_eq!(step.deliveries.len(), 1);
    assert!(matches!(step.deliveries[0].payload, Payload::Pong));
    let step = h.handle_client_message(&c, ClientType::Local, "g", ClientEvent::Pong, 2);
    assert!(step.keep_open && step.deliveries.is_empty());
}

#[test]
fn other_frames_are_ignored_and_close_ends_the_session() {
    let mut h = server();
    let c = join(&mut h, ClientType::Local, "g", 1);
    for e in [ClientEvent::Binary, ClientEvent::Frame, ClientEvent::Malformed] {
        let step = h.handle_client_message(&c, ClientType::Local, "g", e, 1);
        assert!(step.keep_open && step.deliveries.is_empty());
    }
    for e in [ClientEvent::Close, ClientEvent::Failed] {
        let step = h.handle_client_message(&c, ClientType::Local, "g", e, 1);
        assert!(!step.keep_open && step.deliveries.is_empty());
    }
    assert_eq!(h.heartbeat_manager.expired_clients(30 * SECOND + 1).len(), 1);
}

#[test]
fn a_finished_session_tells_the_partner_and_leaves_no_trace() {
    let mut h = server();
    let c = join(&mut h, ClientType::Center, "g", 1);
    let l = join(&mut h, ClientType::Local, "g", 2);
    let (partner, notice) = h.handle_disconnect(&c).unwrap();
    assert_eq!(partner, l);
    assert_eq!(notice, envelope("g", "server", "local", "center已断开连接", Some("disconnect")));
    assert_eq!(h.connection_manager.len(), 1);
    assert_eq!(h.connection_manager.sender(&l), Some(&2));
    assert_eq!(h.heartbeat_manager.expired_clients(31 * SECOND).len(), 1);
    assert!(h.handle_disconnect(&c).is_none());
    assert!(h.handle_disconnect(&l).is_none());
    assert_eq!(h.connection_manager.len(), 0);
}

#[test]
fn the_counterpart_is_found_by_group_and_kind() {
    let mut h = server();
    let c = join(&mut h, ClientType::Center, "g", 1);
    let l = join(&mut h, ClientType::Local, "g", 2);
    let cm = &h.connection_manager;
    assert_eq!(find_partner_connection(cm, &c, "g", &ClientType::Center), Some((l.clone(), ClientType::Local)));
    assert_eq!(find_partner_connection(cm, &c, "h", &ClientType::Center), None);
    assert_eq!(find_partner_connection(cm, "nobody", "g", &ClientType::Center), None);
    let (tx, m) = notify_partner_disconnect(cm, &l, ClientType::Center, "g".to_string(), &MessageService::new()).unwrap();
    assert_eq!(*tx, 2);
    assert_eq!(m.content, "center已断开连接");
}
