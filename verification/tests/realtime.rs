use std::collections::HashSet;

use backend2::realtime::{DieImportState, RealtimeEvent, Subscriptions, WsMessageRecv, WsMessageSend};

#[test]
fn should_recv_only_subscribed_dies() {
    let mut subs = HashSet::new();
    subs.insert(1u128);
    let e = RealtimeEvent::AnnotationChange { die_id: 1, new_revision: 3 };
    assert!(e.should_recv(&subs));
    let e = RealtimeEvent::MLJobUpdate { die_id: 2, job: () };
    assert!(!e.should_recv(&subs));
    let e = RealtimeEvent::DieImportStateChange { die_id: 1, state: DieImportState::Done };
    assert!(e.should_recv(&subs));
}

#[test]
fn fresh_connection_forwards_nothing_then_subscribes() {
    let mut conn = Subscriptions::new();
    let e = RealtimeEvent::AnnotationChange { die_id: 5, new_revision: 8 };
    assert!(conn.on_event(&e).is_none());
    assert!(conn.on_message(WsMessageRecv::Subscribe { die_id: 5 }).is_none());
    assert!(matches!(conn.on_event(&e), Some(WsMessageSend::Annotations { die_id: 5, rev: 8 })));
    let other = RealtimeEvent::AnnotationChange { die_id: 6, new_revision: 1 };
    assert!(conn.on_event(&other).is_none());
}

#[test]
fn unsubscribe_stops_events() {
    let mut conn = Subscriptions::new();
    conn.on_message(WsMessageRecv::Subscribe { die_id: 5 });
    conn.on_message(WsMessageRecv::Subscribe { die_id: 6 });
    conn.on_message(WsMessageRecv::Unsubscribe { die_id: 5 });
    let e5 = RealtimeEvent::DieImportStateChange {
        die_id: 5,
        state: DieImportState::TileWritten { current: 1, total: 2 },
    };
    let e6 = RealtimeEvent::DieImportStateChange {
        die_id: 6,
        state: DieImportState::TileWritten { current: 1, total: 2 },
    };
    assert!(conn.on_event(&e5).is_none());
    assert!(matches!(
        conn.on_event(&e6),
        Some(WsMessageSend::ImportState { die_id: 6, state: DieImportState::TileWritten { current: 1, total: 2 } })
    ));
    assert_eq!(conn.dies.len(), 1);
}

#[test]
fn ping_is_answered_with_pong() {
    let mut conn = Subscriptions::new();
    assert!(matches!(conn.on_message(WsMessageRecv::Ping), Some(WsMessageSend::Pong)));
    assert!(conn.dies.is_empty());
}

#[test]
fn ml_job_events_are_forwarded() {
    let mut conn = Subscriptions::new();
    conn.on_message(WsMessageRecv::Subscribe { die_id: 9 });
    let e = RealtimeEvent::MLJobUpdate { die_id: 9, job: () };
    assert!(matches!(conn.on_event(&e), Some(WsMessageSend::MLJob { die_id: 9, .. })));
    assert!(matches!(e.to_message(), WsMessageSend::MLJob { die_id: 9, .. }));
}

#[test]
fn subscribing_twice_then_unsubscribing_once() {
    let mut conn = Subscriptions::new();
    conn.on_message(WsMessageRecv::Subscribe { die_id: 3 });
    conn.on_message(WsMessageRecv::Subscribe { die_id: 3 });
    assert_eq!(conn.dies.len(), 1);
    conn.on_message(WsMessageRecv::Unsubscribe { die_id: 3 });
    assert!(conn.dies.is_empty());
}

#[test]
fn events_follow_the_last_subscription_message() {
    let mut subs = Subscriptions::new();
    for m in [
        WsMessageRecv::Subscribe { die_id: 1 },
        WsMessageRecv::Subscribe { die_id: 2 },
        WsMessageRecv::Ping,
        WsMessageRecv::Unsubscribe { die_id: 1 },
        WsMessageRecv::Unsubscribe { die_id: 3 },
        WsMessageRecv::Subscribe { die_id: 1 },
        WsMessageRecv::Unsubscribe { die_id: 2 },
    ] {
        subs.on_message(m);
    }
    let ev = |d| RealtimeEvent::AnnotationChange { die_id: d, new_revision: 4 };
    assert!(matches!(subs.on_event(&ev(1)), Some(WsMessageSend::Annotations { die_id: 1, rev: 4 })));
    assert!(subs.on_event(&ev(2)).is_none());
    assert!(subs.on_event(&ev(3)).is_none());
}
