use group_relay::remote::connection::{ClientType, ConnectionManager};
use group_relay::remote::heartbeat::HeartbeatManager;

const SECOND: u64 = 1_000_000_000;

#[test]
fn silent_clients_expire_after_the_timeout() {
    let mut hb = HeartbeatManager::new(30);
    hb.update_heartbeat("a", ClientType::Center, "g".to_string(), 0);
    hb.update_heartbeat("b", ClientType::Local, "g".to_string(), 10 * SECOND);
    assert!(hb.expired_clients(30 * SECOND).is_empty());
    assert_eq!(hb.expired_clients(30 * SECOND + 1), vec![("a".to_string(), ClientType::Center, "g".to_string())]);
    let both = hb.expired_clients(41 * SECOND);
    assert_eq!(both.len(), 2);
}

#[test]
fn a_fresh_heartbeat_is_never_expired() {
    let mut hb = HeartbeatManager::new(0);
    hb.update_heartbeat("a", ClientType::Center, "g".to_string(), 5);
    assert!(hb.expired_clients(5).is_empty());
    assert_eq!(hb.expired_clients(6).len(), 1);
    hb.update_heartbeat("a", ClientType::Center, "g".to_string(), 6);
    assert!(hb.expired_clients(6).is_empty());
}

#[test]
fn a_clock_reading_before_the_record_counts_as_no_time() {
    let mut hb = HeartbeatManager::new(1);
    hb.update_heartbeat("a", ClientType::Center, "g".to_string(), 100 * SECOND);
    assert!(hb.expired_clients(0).is_empty());
}

#[test]
fn removed_records_do_not_expire() {
    let mut hb = HeartbeatManager::new(1);
    hb.update_heartbeat("a", ClientType::Center, "g".to_string(), 0);
    hb.remove_heartbeat("a");
    assert!(hb.expired_clients(100 * SECOND).is_empty());
}

#[test]
fn a_huge_timeout_does_not_overflow() {
    let mut hb = HeartbeatManager::new(u64::MAX);
    hb.update_heartbeat("a", ClientType::Center, "g".to_string(), 0);
    assert!(hb.expired_clients(u64::MAX).is_empty());
}

#[test]
fn expiring_a_client_tells_its_partner() {
    let mut cm: ConnectionManager<u8> = ConnectionManager::new();
    cm.add_connection("c".to_string(), ClientType::Center, "g".to_string(), 1);
    cm.add_connection("l".to_string(), ClientType::Local, "g".to_string(), 2);
    let mut hb = HeartbeatManager::new(1);
    hb.update_heartbeat("c", ClientType::Center, "g".to_string(), 0);
    hb.update_heartbeat("l", ClientType::Local, "g".to_string(), 0);
    let notice = hb.expire_client(&mut cm, "c", ClientType::Center, "g".to_string());
    let (partner, msg) = notice.unwrap();
    assert_eq!(partner, "l");
    assert_eq!(msg.content, "center已断开连接");
    assert_eq!(msg.receiver_type, "local");
    assert_eq!(cm.sender("c"), None);
    assert_eq!(cm.sender("l"), Some(&2));
    assert_eq!(hb.expired_clients(10 * SECOND), vec![("l".to_string(), ClientType::Local, "g".to_string())]);
    assert!(hb.expire_client(&mut cm, "l", ClientType::Local, "g".to_string()).is_none());
    assert_eq!(cm.len(), 0);
}

#[test]
fn a_check_drops_exactly_the_silent_clients_and_tells_partners() {
    let mut cm: ConnectionManager<u8> = ConnectionManager::new();
    cm.add_connection("c".to_string(), ClientType::Center, "g".to_string(), 1);
    cm.add_connection("l".to_string(), ClientType::Local, "g".to_string(), 2);
    cm.add_connection("c2".to_string(), ClientType::Center, "h".to_string(), 3);
    let mut hb = HeartbeatManager::new(30);
    hb.update_heartbeat("c", ClientType::Center, "g".to_string(), 0);
    hb.update_heartbeat("l", ClientType::Local, "g".to_string(), 20 * SECOND);
    hb.update_heartbeat("c2", ClientType::Center, "h".to_string(), 0);
    let notices = hb.check_heartbeats(&mut cm, 35 * SECOND);
    assert_eq!(notices.len(), 1);
    assert_eq!(notices[0].0, "l");
    assert_eq!(notices[0].1.content, "center已断开连接");
    assert_eq!(notices[0].1.receiver_type, "local");
    assert_eq!(cm.len(), 1);
    assert_eq!(cm.sender("l"), Some(&2));
    assert!(hb.expired_clients(35 * SECOND).is_empty());
    assert!(hb.check_heartbeats(&mut cm, 50 * SECOND).is_empty());
    assert_eq!(cm.len(), 1);
    assert_eq!(hb.check_heartbeats(&mut cm, 51 * SECOND).len(), 0);
    assert_eq!(cm.len(), 0);
}
