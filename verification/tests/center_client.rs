use group_relay::center::connection::{invalid_url_message, parse_server_url};
use group_relay::center::message::{MessageService, WrappedMessage};
use group_relay::remote::connection::ClientType;
use group_relay::remote::message::MessageService as ServerMessages;

fn envelope(group: &str, sender: &str, receiver: &str, content: &str, kind: Option<&str>) -> WrappedMessage {
    WrappedMessage {
        group_id: group.to_string(),
        sender_type: sender.to_string(),
        receiver_type: receiver.to_string(),
        content: content.to_string(),
        message_type: kind.map(|k| k.to_string()),
    }
}

#[test]
fn client_envelopes() {
    let s = MessageService::new("g7".to_string());
    assert_eq!(s.client_type, "center");
    assert_eq!(s.create_init_message(), envelope("g7", "center", "server", "初始化连接", None));
    assert_eq!(s.create_heartbeat_message(), envelope("g7", "center", "server", "心跳", Some("heartbeat")));
    assert_eq!(s.create_disconnect_message(), envelope("g7", "center", "server", "客户端主动断开连接", Some("disconnect")));
    assert_eq!(s.create_message("你好".to_string()), envelope("g7", "center", "local", "你好", None));
}

#[test]
fn rendering_by_type_then_sender() {
    let s = MessageService::new("g".to_string());
    assert_eq!(s.process_received_message(&envelope("g", "server", "center", "ok", Some("heartbeat"))), "[心跳响应]: ok");
    assert_eq!(s.process_received_message(&envelope("g", "server", "center", "x", Some("disconnect"))), "[断开通知]: x");
    assert_eq!(s.process_received_message(&envelope("g", "server", "center", "y", Some("connect"))), "[上线通知]: y");
    assert_eq!(s.process_received_message(&envelope("g", "server", "center", "z", Some("rejection"))), "[服务器]: z");
    assert_eq!(s.process_received_message(&envelope("g", "server", "center", "z", None)), "[服务器]: z");
    assert_eq!(s.process_received_message(&envelope("g", "local", "center", "hi", None)), "[Local -> Center]: hi");
    assert_eq!(s.process_received_message(&envelope("g", "robot", "center", "hi", None)), "[未知发送方 robot]: hi");
}

#[test]
fn notices_are_recognised() {
    let s = MessageService::new("g".to_string());
    assert!(s.is_heartbeat_response(&envelope("g", "server", "center", "", Some("heartbeat"))));
    assert!(!s.is_heartbeat_response(&envelope("g", "server", "center", "", None)));
    assert!(s.is_disconnect_notification(&envelope("g", "server", "center", "", Some("disconnect"))));
    assert!(!s.is_disconnect_notification(&envelope("g", "server", "center", "", Some("connect"))));
    assert!(s.is_connect_notification(&envelope("g", "server", "center", "", Some("connect"))));
    assert!(!s.is_connect_notification(&envelope("g", "server", "center", "", Some("heartbeat"))));
}

#[test]
fn server_notices_reach_the_client_as_notices() {
    let client = MessageService::new("g".to_string());
    let server = ServerMessages::new();
    let hb = server.build_heartbeat_response("g".to_string(), ClientType::Center);
    assert!(client.is_heartbeat_response(&hb));
    assert_eq!(client.process_received_message(&hb), "[心跳响应]: 心跳确认");
    let gone = server.build_disconnect_message("g".to_string(), ClientType::Local);
    assert!(client.is_disconnect_notification(&gone));
    assert_eq!(client.process_received_message(&gone), "[断开通知]: local已断开连接");
    let joined = server.build_connect_message("g".to_string(), ClientType::Local);
    assert!(client.is_connect_notification(&joined));
    assert!(server.is_heartbeat(&client.create_heartbeat_message()));
    assert!(server.is_disconnect(&client.create_disconnect_message()));
}

#[test]
fn the_server_address_parses() {
    assert_eq!(parse_server_url("ws://127.0.0.1:8080"), Ok("ws://127.0.0.1:8080/".to_string()));
    assert_eq!(parse_server_url("WS://Example.COM:80/a/../b"), Ok("ws://example.com/b".to_string()));
}

#[test]
fn a_bad_address_is_explained() {
    assert_eq!(parse_server_url("127.0.0.1:8080").unwrap_err(), "无效的URL: relative URL without a base");
    assert_eq!(parse_server_url("ws://127.0.0.1:99999").unwrap_err(), "无效的URL: invalid port number");
    assert_eq!(invalid_url_message("empty host"), "无效的URL: empty host");
}
