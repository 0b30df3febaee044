use chat_auth::hub::Hub;

#[test]
fn broadcast_reaches_every_other_client_once() {
    let mut hub = Hub::new();
    let a = hub.connect();
    let b = hub.connect();
    let c = hub.connect();
    hub.broadcast(a, "M");
    assert_eq!(hub.take_messages(b), vec!["M".to_string()]);
    assert_eq!(hub.take_messages(c), vec!["M".to_string()]);
    // The sender gets nothing back.
    assert_eq!(hub.take_messages(a), Vec::<String>::new());
}

#[test]
fn per_sender_order_is_preserved() {
    let mut hub = Hub::new();
    let a = hub.connect();
    let b = hub.connect();
    hub.broadcast(a, "first");
    hub.broadcast(a, "second");
    assert_eq!(
        hub.take_messages(b),
        vec!["first".to_string(), "second".to_string()]
    );
}

#[test]
fn disconnect_mid_broadcast_does_not_fail_others() {
    let mut hub = Hub::new();
    let a = hub.connect();
    let b = hub.connect();
    let c = hub.connect();
    hub.broadcast(a, "one");
    hub.disconnect(b);
    // Delivery to the remaining client proceeds undisturbed.
    hub.broadcast(a, "two");
    assert_eq!(
        hub.take_messages(c),
        vec!["one".to_string(), "two".to_string()]
    );
    // The disconnected identifier is gone from the registry.
    assert_eq!(hub.take_messages(b), Vec::<String>::new());
    assert_eq!(hub.clients.len(), 2);
}

#[test]
fn identifiers_are_never_reused() {
    let mut hub = Hub::new();
    let a = hub.connect();
    let b = hub.connect();
    hub.disconnect(b);
    let d = hub.connect();
    assert_ne!(d, b);
    assert!(d > b);
    hub.broadcast(a, "hello");
    assert_eq!(hub.take_messages(d), vec!["hello".to_string()]);
}

#[test]
fn full_queue_drops_new_messages_for_that_receiver_only() {
    let mut hub = Hub::with_capacity(2);
    let a = hub.connect();
    let b = hub.connect();
    let c = hub.connect();
    hub.broadcast(a, "one");
    hub.broadcast(a, "two");
    // B's queue is full; C drains in time and misses nothing.
    assert_eq!(
        hub.take_messages(c),
        vec!["one".to_string(), "two".to_string()]
    );
    hub.broadcast(a, "three");
    // The overflowing message was dropped for B alone, never blocking
    // the sender or another receiver.
    assert_eq!(
        hub.take_messages(b),
        vec!["one".to_string(), "two".to_string()]
    );
    assert_eq!(hub.take_messages(c), vec!["three".to_string()]);
}

#[test]
fn disconnect_unknown_identifier_is_a_no_op() {
    let mut hub = Hub::new();
    let a = hub.connect();
    hub.disconnect(999);
    assert_eq!(hub.clients.len(), 1);
    assert_eq!(hub.clients[0].id, a);
}
