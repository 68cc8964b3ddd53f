use mud_core::message::MessageList;

#[test]
fn broadcast_test() {
    let mut msg_list = MessageList::new();
    let now = msg_list.now();
    let uuid: u128 = 17;
    msg_list.broadcast("test!".to_string(), 0, 0);
    let mut result = msg_list.read(0, 0, uuid, now);
    println!("{}", result);
    assert_eq!(result, "test!\n".to_string());
    result = msg_list.read(1, 0, uuid, now);
    assert!(result.is_empty());
}

#[test]
fn target_test() {
    let mut msg_list = MessageList::new();
    let now = msg_list.now();
    let uuid: u128 = 17;
    msg_list.post_for_target("test!".to_string(), uuid);
    let mut result = msg_list.read(0, 0, uuid, now);
    println!("{}", result);
    assert_eq!(result, "test!\n".to_string());
    result = msg_list.read(0, 0, 18, now);
    assert!(result.is_empty());
}

#[test]
fn no_echo_test() {
    let mut msg_list = MessageList::new();
    let now = msg_list.now();
    let uuid: u128 = 17;
    msg_list.post_no_echo("test!".to_string(), 0, 0, uuid);
    let mut result = msg_list.read(0, 0, uuid, now);
    assert!(result.is_empty());
    result = msg_list.read(0, 0, 18, now);
    assert_eq!(result, "test!\n".to_string());
}

#[test]
fn old_messages_are_purged() {
    let mut msg_list = MessageList::new();
    msg_list.post_for_all("first".to_string(), 0, 0);
    msg_list.set_time(1999);
    msg_list.post_for_all("second".to_string(), 0, 0);
    assert_eq!(msg_list.read(0, 0, 1, 0), "first\nsecond\n");
    msg_list.set_time(2000);
    assert_eq!(msg_list.read(0, 0, 1, 0), "first\nsecond\n");
    assert_eq!(msg_list.read(0, 0, 1, 0), "second\n");
    msg_list.set_time(1000);
    assert_eq!(msg_list.now(), 2000);
    msg_list.set_time(5000);
    msg_list.cleanup_old_messages();
    assert_eq!(msg_list.read(0, 0, 1, 0), "");
}

#[test]
fn only_what_was_posted_since_is_read() {
    let mut msg_list = MessageList::new();
    msg_list.broadcast("early".to_string(), 0, 0);
    msg_list.post_for_target("for you".to_string(), 5);
    msg_list.set_time(10);
    msg_list.broadcast("late".to_string(), 0, 0);
    msg_list.post_for_target("for you too".to_string(), 5);
    assert_eq!(msg_list.read(0, 0, 5, 10), "late\nfor you too\n");
    assert_eq!(msg_list.read(3, 3, 5, 0), "for you\nfor you too\n");
    assert_eq!(msg_list.read_targetted(5, 0), "for you\nfor you too\n");
    assert_eq!(msg_list.read_targetted(5, 11), "");
    assert_eq!(msg_list.read_targetted(6, 0), "");
}
