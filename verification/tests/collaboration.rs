use gausian_collab::collab::{
    decide_sync_message, join_session, should_forward, PresenceUpdate, Session, SessionManager,
    SyncMessage, TimelineOperation, User, VectorClock,
};
use gausian_collab::json::{JsonNumber, JsonValue};
use gausian_collab::ws::{connection_params, connection_params_with, session_id_of, WsQuery};

fn op(id: u128, user: u128, clock: u64) -> TimelineOperation {
    TimelineOperation { id, user_id: user, clock, kind: JsonValue::Number(JsonNumber::PosInt(clock)) }
}

#[test]
fn session_users_join_and_leave() {
    let mut s = Session::new(1, 1000);
    let joined = s.add_user(5, User::new(5, "Ann".to_string()), 1001);
    assert!(matches!(joined, SyncMessage::Presence { update: PresenceUpdate::UserJoined { .. } }));
    assert_eq!(s.get_active_users().len(), 1);
    assert!(s.users.contains_key(5));
    let left = s.remove_user(5);
    assert!(matches!(left, Some(SyncMessage::Presence { update: PresenceUpdate::UserLeft { user_id: 5 } })));
    assert!(s.remove_user(5).is_none());
    assert_eq!(s.get_active_users().len(), 0);
}

#[test]
fn operations_since_a_clock() {
    let mut s = Session::new(1, 0);
    s.add_operation(op(10, 1, 1));
    s.add_operation(op(11, 2, 1));
    s.add_operation(op(12, 1, 2));
    let mut clock = VectorClock::new();
    clock.increment(1);
    let newer: Vec<u128> = s.get_operations_since(&clock).iter().map(|o| o.id).collect();
    assert_eq!(newer, vec![11, 12]);
    assert_eq!(s.get_initial_state().len(), 3);
    assert_eq!(s.get_operations_since(&VectorClock::new()).len(), 3);
}

#[test]
fn messages_are_answered() {
    let mut s = Session::new(1, 0);
    s.add_user(5, User::new(5, "Ann".to_string()), 0);
    let out = decide_sync_message(&mut s, 5, SyncMessage::Operation { operation: op(10, 5, 1) }, 0);
    assert!(matches!(out.reply, Some(SyncMessage::OperationAck { operation_id: 10 })));
    assert!(matches!(out.broadcast, Some(SyncMessage::Operation { .. })));
    decide_sync_message(&mut s, 5, SyncMessage::Operation { operation: op(11, 5, 2) }, 0);
    let out = decide_sync_message(&mut s, 5, SyncMessage::SyncRequest { since: VectorClock::new() }, 0);
    match out.reply {
        Some(SyncMessage::SyncResponse { operations, vector_clock }) => {
            assert_eq!(operations.len(), 2);
            assert_eq!(vector_clock.get(5), 2);
            assert_eq!(vector_clock.get(6), 0);
        }
        other => panic!("unexpected reply {:?}", other),
    }
    let out = decide_sync_message(&mut s, 5, SyncMessage::Ping, 0);
    assert!(matches!(out.reply, Some(SyncMessage::Pong)));
    assert!(out.broadcast.is_none());
    let out = decide_sync_message(&mut s, 5, SyncMessage::Pong, 0);
    assert!(out.reply.is_none() && out.broadcast.is_none());
    let out = decide_sync_message(
        &mut s,
        5,
        SyncMessage::Presence { update: PresenceUpdate::CursorMoved { user_id: 5, position: JsonValue::Bool(true) } },
        77,
    );
    assert!(out.broadcast.is_some());
    let info = s.users.get(5).expect("user");
    assert_eq!(info.last_activity_ms, 77);
    assert_eq!(info.presence.cursor_position, Some(JsonValue::Bool(true)));
}

#[test]
fn own_operations_are_not_echoed() {
    assert!(!should_forward(&SyncMessage::Operation { operation: op(1, 5, 1) }, 5));
    assert!(should_forward(&SyncMessage::Operation { operation: op(1, 6, 1) }, 5));
    assert!(should_forward(&SyncMessage::Ping, 5));
}

#[test]
fn joining_sends_the_log() {
    let mut s = Session::new(3, 0);
    s.add_operation(op(1, 9, 1));
    let j = join_session(&mut s, 4, "Bo".to_string(), 10);
    match j.reply {
        SyncMessage::Connected { session_id, user_id, initial_state } => {
            assert_eq!((session_id, user_id, initial_state.len()), (3, 4, 1));
        }
        _ => panic!("expected connected"),
    }
}

#[test]
fn manager_creates_lists_and_removes() {
    let mut m = SessionManager::new();
    m.get_or_create_session(1, 100);
    m.get_or_create_session(1, 200);
    m.create_session(2, 300);
    let list = m.list_sessions();
    assert_eq!(list.len(), 2);
    assert_eq!(list[0].created_at_ms, 100);
    let mut s = m.take_session(2).expect("session");
    s.add_user(8, User::new(8, "Cy".to_string()), 301);
    m.put_session(s);
    let info = m.get_session_info(2).expect("info");
    assert_eq!((info.user_count, info.users[0].user.name.as_str()), (1, "Cy"));
    assert!(m.get_session_info(3).is_none());
    m.remove_session(1);
    assert!(m.get_session(1).is_none());
    assert!(m.get_session(2).is_some());
}

#[test]
fn connection_parameters_from_query() {
    let sid = uuid::Uuid::from_u128(0xaabb_ccdd_0000_0000_0000_0000_0000_0001);
    let q = WsQuery { session_id: sid.to_string(), user_id: Some("bad".to_string()), user_name: None };
    let p = connection_params_with(&q, 1, 0x1234_5678_0000_0000_0000_0000_0000_0000);
    assert_eq!(p.session_id, sid.as_u128());
    assert_eq!(p.user_id, 0x1234_5678_0000_0000_0000_0000_0000_0000);
    assert_eq!(p.user_name, "User-12345678");
    let named = WsQuery { session_id: "nope".to_string(), user_id: None, user_name: Some("Dee".to_string()) };
    let p2 = connection_params_with(&named, 77, 88);
    assert_eq!((p2.session_id, p2.user_id, p2.user_name.as_str()), (77, 88, "Dee"));
    let random = connection_params(&named);
    assert_eq!(random.user_name, "Dee");
}

#[test]
fn session_ids_from_paths() {
    assert_eq!(session_id_of("00000000-0000-0000-0000-000000000005"), Some(5));
    assert_eq!(session_id_of("not-a-uuid"), None);
}
