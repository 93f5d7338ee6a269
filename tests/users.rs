use room_hub::hub::{Hub, Transport};
use room_hub::users::{build_user_list, ConnectionsCount};

#[test]
fn user_list_carries_counts() {
    let mut hub = Hub::new();
    hub.register(Transport::Push, "A".to_string()).unwrap();
    hub.register(Transport::Stream, "B".to_string()).unwrap();
    hub.register(Transport::Stream, "C".to_string()).unwrap();
    let m = build_user_list(&hub, "room_1".to_string());
    assert_eq!(m.room_id, "room_1");
    assert_eq!(m.sender.id, "server");
    assert_eq!(m.sender.role, "server");
    assert_eq!(m.msg_command, "GET_USER_LIST");
    assert!(m.payload.users.is_empty());
    assert_eq!(m.payload.counts, ConnectionsCount { ws: 1, sse: 2, lp: 0 });
}
