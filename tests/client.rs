use collision_monitor::query::{check_device_id, found_record};
use collision_monitor::{QueryError, RobotRpcClient};

#[test]
fn fresh_correlation_ids() {
    let mut c = RobotRpcClient::new("robot1".to_string());
    assert_eq!(c.device_id, "robot1");
    assert_eq!(c.correlation_id.len(), 36);
    assert_eq!(c.correlation_id.matches('-').count(), 4);
    let chars: Vec<char> = c.correlation_id.chars().collect();
    assert_eq!(chars[14], '4');
    assert!(matches!(chars[19], '8' | '9' | 'a' | 'b'));
    for (i, ch) in chars.iter().enumerate() {
        if [8, 13, 18, 23].contains(&i) {
            assert_eq!(*ch, '-');
        } else {
            assert!(ch.is_ascii_hexdigit() && !ch.is_ascii_uppercase());
        }
    }
    let first = c.correlation_id.clone();
    c.next_request();
    assert_eq!(c.correlation_id.len(), 36);
    assert_ne!(c.correlation_id, first);
    assert_eq!(c.device_id, "robot1");
}

#[test]
fn replies_are_matched_by_tag_and_device() {
    let c = RobotRpcClient::new("robot1".to_string());
    let tag = Some(c.correlation_id.clone());
    assert!(c.awaits(&tag));
    assert!(!c.awaits(&None));
    assert!(!c.awaits(&Some("other".to_string())));
    assert!(c.accepts(&tag, &"robot1".to_string()));
    assert!(!c.accepts(&tag, &"robot2".to_string()));
    assert!(!c.accepts(&Some("other".to_string()), &"robot1".to_string()));
}

#[test]
fn query_errors() {
    assert_eq!(check_device_id(&String::new()), Err(QueryError::IncorrectInput));
    assert_eq!(check_device_id(&"robot1".to_string()), Ok(()));
    assert_eq!(found_record(None), Err(QueryError::IncorrectDBRecord));
    assert_eq!(found_record(Some(vec![1, 2])), Ok(vec![1, 2]));
    assert_eq!(QueryError::IncorrectInput.code(), 0x835);
    assert_eq!(QueryError::IncorrectDBRecord.code(), 0x836);
    assert_eq!(QueryError::DeserializationFailure.code(), 0x837);
    assert_eq!(QueryError::DeserializationFailure.status(), 400);
}
