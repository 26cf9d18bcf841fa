use group_relay::remote::connection::{kind_from_name, other_kind, ClientType, ConnectionManager};
use group_relay::remote::message::{MessageService, WrappedMessage};

fn table() -> ConnectionManager<u32> {
    let mut cm = ConnectionManager::new();
    assert!(cm.add_connection("c1".to_string(), ClientType::Center, "g1".to_string(), 1));
    assert!(cm.add_connection("l1".to_string(), ClientType::Local, "g1".to_string(), 2));
    assert!(cm.add_connection("c2".to_string(), ClientType::Center, "g2".to_string(), 3));
    cm
}

#[test]
fn one_client_of_each_kind_per_group() {
    let mut cm = table();
    assert_eq!(cm.len(), 3);
    assert!(!cm.validate_new_connection(&ClientType::Center, "g1"));
    assert!(!cm.add_connection("c3".to_string(), ClientType::Center, "g1".to_string(), 9));
    assert_eq!(cm.len(), 3);
    assert_eq!(cm.sender("c3"), None);
    assert!(cm.validate_new_connection(&ClientType::Local, "g2"));
    assert!(cm.add_connection("l2".to_string(), ClientType::Local, "g2".to_string(), 4));
    assert_eq!(cm.len(), 4);
}

#[test]
fn removing_gives_back_kind_and_group() {
    let mut cm = table();
    assert_eq!(cm.remove_connection("l1"), Some((ClientType::Local, "g1".to_string())));
    assert_eq!(cm.remove_connection("l1"), None);
    assert_eq!(cm.len(), 2);
    assert!(cm.validate_new_connection(&ClientType::Local, "g1"));
}

#[test]
fn add_then_remove_restores_the_table() {
    let mut cm = table();
    assert!(cm.add_connection("l2".to_string(), ClientType::Local, "g2".to_string(), 4));
    assert_eq!(cm.remove_connection("l2"), Some((ClientType::Local, "g2".to_string())));
    assert_eq!(cm.len(), 3);
    assert_eq!(cm.sender("c2"), Some(&3));
}

#[test]
fn partners_are_mutual_and_in_the_same_group() {
    let cm = table();
    assert_eq!(cm.find_partner("c1"), Some(("l1".to_string(), ClientType::Local)));
    assert_eq!(cm.find_partner("l1"), Some(("c1".to_string(), ClientType::Center)));
    assert_eq!(cm.find_partner("c2"), None);
    assert_eq!(cm.find_partner("nobody"), None);
}

#[test]
fn no_partner_after_removal() {
    let mut cm = table();
    cm.remove_connection("c1");
    assert_eq!(cm.find_partner("c1"), None);
    assert_eq!(cm.find_partner("l1"), None);
}

#[test]
fn senders_are_found_by_id() {
    let cm = table();
    assert_eq!(cm.sender("l1"), Some(&2));
    assert_eq!(cm.sender("zz"), None);
}

#[test]
fn partner_notices_carry_the_channel() {
    let cm = table();
    let (tx, m) = cm.notify_partner_disconnect("l1", ClientType::Center, "g1".to_string()).unwrap();
    assert_eq!(*tx, 2);
    assert_eq!(m.content, "center已断开连接");
    assert_eq!(m.receiver_type, "local");
    let (tx, m) = cm.notify_partner_connect("c1", ClientType::Local, "g1".to_string()).unwrap();
    assert_eq!(*tx, 1);
    assert_eq!(m.content, "local已上线连接");
    assert_eq!(m.message_type, Some("connect".to_string()));
    assert!(cm.notify_partner_connect("zz", ClientType::Local, "g1".to_string()).is_none());
}

#[test]
fn members_of_skips_the_excluded_client() {
    let cm = table();
    assert_eq!(cm.members_of(ClientType::Local, "g1", "c1"), vec!["l1".to_string()]);
    assert!(cm.members_of(ClientType::Local, "g1", "l1").is_empty());
    assert!(cm.members_of(ClientType::Local, "g2", "c2").is_empty());
}

#[test]
fn forwarding_targets_the_named_kind_in_the_group() {
    let cm = table();
    let s = MessageService::new();
    let msg = WrappedMessage {
        group_id: "g1".to_string(),
        sender_type: "center".to_string(),
        receiver_type: "local".to_string(),
        content: "hi".to_string(),
        message_type: None,
    };
    assert_eq!(s.forward_message(&msg, &cm, "c1"), vec!["l1".to_string()]);
    assert!(s.forward_message(&msg, &cm, "l1").is_empty());
    let mut other = msg.clone();
    other.receiver_type = "server".to_string();
    assert!(s.forward_message(&other, &cm, "c1").is_empty());
    let mut lonely = msg.clone();
    lonely.group_id = "g2".to_string();
    assert!(s.forward_message(&lonely, &cm, "c2").is_empty());
}

#[test]
fn client_ids_are_version_4_uuids() {
    let cm = table();
    let id = cm.generate_client_id();
    let chars: Vec<char> = id.chars().collect();
    assert_eq!(chars.len(), 36);
    for (i, c) in chars.iter().enumerate() {
        if i == 8 || i == 13 || i == 18 || i == 23 {
            assert_eq!(*c, '-');
        } else {
            assert!(c.is_ascii_hexdigit() && !c.is_ascii_uppercase());
        }
    }
    assert_eq!(chars[14], '4');
    assert!("89ab".contains(chars[19]));
    assert_ne!(cm.generate_client_id(), id);
}

#[test]
fn kinds_by_name() {
    assert_eq!(kind_from_name("center"), Some(ClientType::Center));
    assert_eq!(kind_from_name("local"), Some(ClientType::Local));
    assert_eq!(kind_from_name("server"), None);
    assert_eq!(other_kind(ClientType::Center), ClientType::Local);
    assert_eq!(ClientType::Local.role_text(), "local");
}
