use group_relay::remote::connection::ClientType;
use group_relay::remote::message::{MessageService, WrappedMessage};

fn envelope(group: &str, sender: &str, receiver: &str, content: &str, kind: Option<&str>) -> WrappedMessage {
    WrappedMessage {
        group_id: group.to_string(),
        sender_type: sender.to_string(),
        receiver_type: receiver.to_string(),
        content: content.to_string(),
        message_type: kind.map(|k| k.to_string()),
    }
}

#[test]
fn confirmation_carries_the_client_id() {
    let s = MessageService::new();
    let m = s.build_confirmation_message("g1".to_string(), ClientType::Local, "abc".to_string());
    assert_eq!(m, envelope("g1", "server", "local", "连接成功，您的ID是: abc", None));
}

#[test]
fn heartbeat_response_is_typed() {
    let s = MessageService::new();
    let m = s.build_heartbeat_response("g1".to_string(), ClientType::Center);
    assert_eq!(m, envelope("g1", "server", "center", "心跳确认", Some("heartbeat")));
}

#[test]
fn rejection_names_the_reason() {
    let s = MessageService::new();
    let m = s.build_rejection_message("g2".to_string(), ClientType::Local);
    assert_eq!(m, envelope("g2", "server", "local", "连接被拒绝：同组内已存在相同类型的客户端", Some("rejection")));
}

#[test]
fn send_confirmation_is_plain() {
    let s = MessageService::new();
    let m = s.build_send_confirmation("g2".to_string(), ClientType::Center);
    assert_eq!(m, envelope("g2", "server", "center", "消息已发送", None));
}

#[test]
fn disconnect_notice_goes_to_the_other_kind() {
    let s = MessageService::new();
    let m = s.build_disconnect_message("g".to_string(), ClientType::Center);
    assert_eq!(m, envelope("g", "server", "local", "center已断开连接", Some("disconnect")));
    let m = s.build_disconnect_message("g".to_string(), ClientType::Local);
    assert_eq!(m, envelope("g", "server", "center", "local已断开连接", Some("disconnect")));
}

#[test]
fn connect_notice_goes_to_the_other_kind() {
    let s = MessageService::new();
    let m = s.build_connect_message("g".to_string(), ClientType::Local);
    assert_eq!(m, envelope("g", "server", "center", "local已上线连接", Some("connect")));
}

#[test]
fn processing_overwrites_group_and_sender() {
    let s = MessageService::new();
    let m = s.process_message(envelope("other", "local", "local", "hi", None), &ClientType::Center, "g9", "id");
    assert_eq!(m, envelope("g9", "center", "local", "hi", None));
}

#[test]
fn processing_fills_in_an_unknown_receiver() {
    let s = MessageService::new();
    let m = s.process_message(envelope("g", "x", "server", "hi", Some("note")), &ClientType::Center, "g", "id");
    assert_eq!(m, envelope("g", "center", "local", "hi", Some("note")));
    let m = s.process_message(envelope("g", "x", "", "hi", None), &ClientType::Local, "g", "id");
    assert_eq!(m, envelope("g", "local", "center", "hi", None));
}

#[test]
fn processing_keeps_a_named_receiver() {
    let s = MessageService::new();
    let m = s.process_message(envelope("g", "x", "center", "hi", None), &ClientType::Center, "g", "id");
    assert_eq!(m.receiver_type, "center");
}

#[test]
fn processing_twice_changes_nothing() {
    let s = MessageService::new();
    let once = s.process_message(envelope("a", "b", "c", "d", None), &ClientType::Local, "g", "id");
    let twice = s.process_message(once.clone(), &ClientType::Local, "g", "id");
    assert_eq!(once, twice);
}

#[test]
fn message_types_are_recognised() {
    let s = MessageService::new();
    assert!(s.is_heartbeat(&envelope("g", "center", "server", "心跳", Some("heartbeat"))));
    assert!(!s.is_heartbeat(&envelope("g", "center", "server", "心跳", None)));
    assert!(!s.is_heartbeat(&envelope("g", "center", "server", "x", Some("disconnect"))));
    assert!(s.is_disconnect(&envelope("g", "center", "server", "x", Some("disconnect"))));
    assert!(!s.is_disconnect(&envelope("g", "center", "server", "x", Some("Disconnect"))));
}

#[test]
fn duplicate_copies_every_field() {
    let m = envelope("g", "s", "r", "c", Some("t"));
    assert_eq!(m.duplicate(), m);
}
