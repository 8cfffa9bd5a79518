use cpu_dashboard::codec::{parse_snapshot, serialize_snapshot};
use cpu_dashboard::snapshot::Snapshot;

fn snap(tenths: &[u32]) -> Snapshot {
    Snapshot::from_tenths(tenths.to_vec()).expect("readings in range")
}

fn wire(tenths: &[u32]) -> String {
    String::from_utf8(serialize_snapshot(&snap(tenths))).expect("wire messages are UTF-8")
}

fn parsed(text: &str) -> Option<Vec<u32>> {
    parse_snapshot(&text.as_bytes().to_vec()).map(|s| {
        let mut v = Vec::new();
        for i in 0..s.core_count() {
            v.push(s.reading(i));
        }
        v
    })
}

#[test]
fn serializes_two_cores() {
    assert_eq!(wire(&[125, 80]), "[12.5, 8.0]");
}

#[test]
fn serializes_empty_and_extremes() {
    assert_eq!(wire(&[]), "[]");
    assert_eq!(wire(&[0]), "[0.0]");
    assert_eq!(wire(&[7]), "[0.7]");
    assert_eq!(wire(&[105]), "[10.5]");
    assert_eq!(wire(&[1000]), "[100.0]");
    assert_eq!(wire(&[125, 80, 453, 31]), "[12.5, 8.0, 45.3, 3.1]");
}

#[test]
fn round_trips_a_snapshot() {
    let msg = wire(&[125, 80]);
    assert_eq!(parsed(&msg), Some(vec![125, 80]));
}

#[test]
fn round_trips_every_shape() {
    for tenths in [
        vec![],
        vec![0],
        vec![1000],
        vec![999],
        vec![5, 55, 555],
        vec![100, 200, 300, 400, 500, 600, 700, 800, 900, 1000],
    ] {
        let msg = String::from_utf8(serialize_snapshot(&snap(&tenths))).unwrap();
        assert_eq!(parsed(&msg), Some(tenths));
    }
}

#[test]
fn rejects_malformed_messages() {
    for bad in [
        "",
        "[",
        "]",
        "[]]",
        "[12.5",
        "12.5]",
        "[12.5,8.0]",
        "[12.5 , 8.0]",
        "[12.50]",
        "[12]",
        "[.5]",
        "[012.5]",
        "[00.5]",
        "[100.1]",
        "[1000.0]",
        "[-1.0]",
        "[12.5, ]",
        "[, 12.5]",
        "[ ]",
        "abc",
    ] {
        assert_eq!(parsed(bad), None, "accepted {:?}", bad);
    }
}

#[test]
fn wire_message_is_valid_json() {
    let msg = wire(&[125, 80, 453, 31]);
    let values: Vec<f64> = serde_json::from_str(&msg).expect("wire message parses as JSON");
    assert_eq!(values, vec![12.5, 8.0, 45.3, 3.1]);
}

#[test]
fn wire_message_json_round_trip_matches_core_count() {
    let msg = wire(&[0, 1000, 45]);
    let values: Vec<f64> = serde_json::from_str(&msg).unwrap();
    assert_eq!(values.len(), 3);
    assert_eq!(values, vec![0.0, 100.0, 4.5]);
}

#[test]
fn from_tenths_checks_the_range() {
    assert!(Snapshot::from_tenths(vec![0, 1000]).is_some());
    assert!(Snapshot::from_tenths(vec![1001]).is_none());
}

#[test]
fn from_readings_clamps_and_keeps_order() {
    let s = Snapshot::from_readings(&vec![125, 1001, 80]);
    assert_eq!(s.core_count(), 3);
    assert_eq!(s.reading(0), 125);
    assert_eq!(s.reading(1), 1000);
    assert_eq!(s.reading(2), 80);
}
