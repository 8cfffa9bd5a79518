use cpu_dashboard::hub::Hub;
use cpu_dashboard::snapshot::Snapshot;

fn snap(tenths: &[u32]) -> Snapshot {
    Snapshot::from_tenths(tenths.to_vec()).expect("readings in range")
}

fn readings(s: &Snapshot) -> Vec<u32> {
    let mut v = Vec::new();
    for i in 0..s.core_count() {
        v.push(s.reading(i));
    }
    v
}

#[test]
fn publish_reaches_every_subscriber() {
    let mut hub = Hub::new();
    let a = hub.subscribe();
    let b = hub.subscribe();
    let c = hub.subscribe();
    hub.publish(&snap(&[125, 80]));
    for id in [a, b, c] {
        let got = hub.recv(id).expect("each subscriber sees the publish");
        assert_eq!(readings(&got), vec![125, 80]);
    }
}

#[test]
fn receive_empties_the_slot() {
    let mut hub = Hub::new();
    let id = hub.subscribe();
    hub.publish(&snap(&[500]));
    assert!(hub.recv(id).is_some());
    assert!(hub.recv(id).is_none());
}

#[test]
fn late_subscriber_gets_no_replay() {
    let mut hub = Hub::new();
    hub.publish(&snap(&[125]));
    let id = hub.subscribe();
    assert!(hub.recv(id).is_none());
}

#[test]
fn slow_subscriber_sees_only_the_newest() {
    let mut hub = Hub::new();
    let id = hub.subscribe();
    hub.publish(&snap(&[100]));
    hub.publish(&snap(&[200]));
    hub.publish(&snap(&[300]));
    let got = hub.recv(id).expect("latest snapshot pending");
    assert_eq!(readings(&got), vec![300]);
    assert!(hub.recv(id).is_none());
}

#[test]
fn publish_without_subscribers_is_discarded() {
    let mut hub = Hub::new();
    hub.publish(&snap(&[125, 80]));
    assert_eq!(hub.subscriber_count(), 0);
}

#[test]
fn unsubscribe_leaves_others_untouched() {
    let mut hub = Hub::new();
    let a = hub.subscribe();
    let b = hub.subscribe();
    hub.publish(&snap(&[111]));
    hub.unsubscribe(a);
    let got = hub.recv(b).expect("the other subscription still delivers");
    assert_eq!(readings(&got), vec![111]);
    hub.publish(&snap(&[222]));
    let got = hub.recv(b).expect("delivery continues after the release");
    assert_eq!(readings(&got), vec![222]);
    assert_eq!(hub.subscriber_count(), 1);
}

#[test]
fn subscriber_count_returns_to_baseline() {
    let mut hub = Hub::new();
    let keep = hub.subscribe();
    let baseline = hub.subscriber_count();
    for _ in 0..10 {
        let id = hub.subscribe();
        hub.publish(&snap(&[42]));
        hub.unsubscribe(id);
        assert_eq!(hub.subscriber_count(), baseline);
    }
    assert_eq!(hub.subscriber_count(), 1);
    hub.unsubscribe(keep);
    assert_eq!(hub.subscriber_count(), 0);
}

#[test]
fn freed_slots_are_reused() {
    let mut hub = Hub::new();
    let a = hub.subscribe();
    let _b = hub.subscribe();
    hub.unsubscribe(a);
    let c = hub.subscribe();
    assert_eq!(c, a);
    assert_eq!(hub.subscriber_count(), 2);
}
