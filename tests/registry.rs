use spin_cache::ingest::IngestError;
use spin_cache::registry::{notify_on_success, send_update, Message, Registry, UPDATE_NOTICE};

fn expect_ready(rx: &mut tokio::sync::mpsc::UnboundedReceiver<Message>, id: usize) {
    match rx.try_recv() {
        Ok(Message::UserId(got)) => assert_eq!(got, id),
        other => panic!("expected the ready event, got {:?}", other),
    }
}

fn expect_reply(rx: &mut tokio::sync::mpsc::UnboundedReceiver<Message>, text: &str) {
    match rx.try_recv() {
        Ok(Message::Reply(got)) => assert_eq!(got, text),
        other => panic!("expected a reply, got {:?}", other),
    }
}

#[test]
fn ids_are_fresh_and_ready_event_comes_first() {
    let mut users = Registry::new();
    let (a, mut rx_a) = users.register();
    let (b, mut rx_b) = users.register();
    assert_eq!((a, b), (1, 2));
    assert_eq!(users.ids(), vec![1, 2]);
    expect_ready(&mut rx_a, 1);
    expect_ready(&mut rx_b, 2);
    assert!(rx_a.try_recv().is_err());
}

#[test]
fn three_subscribers_each_get_one_change() {
    let mut users = Registry::new();
    let mut rxs: Vec<_> = (0..3).map(|_| users.register()).collect();
    let ok = send_update(&mut users);
    assert_eq!(ok, vec![true, true, true]);
    for (id, rx) in rxs.iter_mut() {
        expect_ready(rx, *id);
        expect_reply(rx, UPDATE_NOTICE);
        assert!(rx.try_recv().is_err());
    }
    assert_eq!(users.len(), 3);
}

#[test]
fn broadcast_drops_closed_channels_in_the_same_pass() {
    let mut users = Registry::new();
    let (_a, mut rx_a) = users.register();
    let (b, rx_b) = users.register();
    let (_c, mut rx_c) = users.register();
    let (d, rx_d) = users.register();
    drop(rx_b);
    drop(rx_d);
    let ok = users.broadcast(&"changed".to_string());
    assert_eq!(ok, vec![true, false, true, false]);
    assert_eq!(ok.iter().filter(|x| **x).count(), 2);
    assert_eq!(users.ids(), vec![1, 3]);
    assert!(!users.ids().contains(&b) && !users.ids().contains(&d));
    expect_ready(&mut rx_a, 1);
    expect_reply(&mut rx_a, "changed");
    expect_ready(&mut rx_c, 3);
    expect_reply(&mut rx_c, "changed");
}

#[test]
fn unregister_twice_is_a_no_op_for_others() {
    let mut users = Registry::new();
    let (a, _rx_a) = users.register();
    let (b, mut rx_b) = users.register();
    users.unregister(a);
    assert_eq!(users.ids(), vec![b]);
    users.unregister(a);
    users.unregister(99);
    assert_eq!(users.ids(), vec![b]);
    assert_eq!(users.broadcast(&"x".to_string()), vec![true]);
    expect_ready(&mut rx_b, b);
    expect_reply(&mut rx_b, "x");
}

#[test]
fn ids_are_never_reused() {
    let mut users = Registry::new();
    let (a, _ra) = users.register();
    users.unregister(a);
    let (b, _rb) = users.register();
    assert!(b > a);
    assert_eq!(users.ids(), vec![b]);
}

#[test]
fn only_a_committed_ingestion_notifies() {
    let mut users = Registry::new();
    let (id, mut rx) = users.register();
    assert_eq!(notify_on_success(&mut users, &Err(IngestError::EmptyResponse)), None);
    expect_ready(&mut rx, id);
    assert!(rx.try_recv().is_err());
    assert_eq!(notify_on_success(&mut users, &Ok(())), Some(vec![true]));
    expect_reply(&mut rx, UPDATE_NOTICE);
    assert!(rx.try_recv().is_err());
}
