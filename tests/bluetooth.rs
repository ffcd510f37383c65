use corvus::{BluetoothTracker, RollingVec, RollingVecEntry, RssiReport};

fn report(loc: &str, mac: &str, rssi: i8) -> RssiReport {
    RssiReport { location: loc.to_string(), mac_address: mac.to_string(), rssi }
}

#[test]
fn rolling_vec_drops_old_samples_on_read() {
    let mut r: RollingVec<i32> = RollingVec::new(1_000);
    assert_eq!(r.get_latest(0), None);
    r.add(1, 0);
    r.add(2, 500);
    r.add(3, 900);
    assert_eq!(r.fresh_values(1_200), vec![2, 3]);
    assert_eq!(r.values_now(), vec![1, 2, 3]);
    assert_eq!(r.get_all(1_200), vec![2, 3]);
    assert_eq!(r.values_now(), vec![2, 3]);
    assert_eq!(r.get_latest(1_899), Some(3));
    assert_eq!(r.get_latest(1_900), None);
    let _ = RollingVecEntry::new(5u8, 3);
}

#[test]
fn tag_placed_where_recent_readings_are_strongest() {
    let mut t = BluetoothTracker::new();
    t.record(&report("kitchen", "AA", -80), 0);
    t.record(&report("kitchen", "AA", -60), 1_000);
    t.record(&report("office", "AA", -70), 1_000);
    t.record(&report("office", "BB", -50), 1_000);
    t.record(&report("kitchen", "AA", -40), 2_000);
    t.record(&report("kitchen", "AA", -90), 3_000);
    // kitchen: last three -60, -40, -90 -> -63; office: -70
    assert_eq!(
        t.locate(3_000),
        vec![("AA".to_string(), "kitchen".to_string()), ("BB".to_string(), "office".to_string())]
    );
    // after the window only the newest kitchen reading counts for AA
    assert_eq!(t.locate(92_500)[0], ("AA".to_string(), "kitchen".to_string()));
    assert_eq!(
        t.locate(200_000),
        vec![("AA".to_string(), "Unknown".to_string()), ("BB".to_string(), "Unknown".to_string())]
    );
}

#[test]
fn ties_keep_the_first_location() {
    let mut t = BluetoothTracker::new();
    t.record(&report("a", "M", -50), 0);
    t.record(&report("b", "M", -50), 0);
    t.record(&report("c", "M", -128), 0);
    assert_eq!(t.locate(0), vec![("M".to_string(), "a".to_string())]);
}

#[test]
fn readings_are_lost_after_sixty_whole_seconds() {
    assert!(!corvus::reading_lost(1_000, 61_000));
    assert!(!corvus::reading_lost(1_000, 61_999));
    assert!(corvus::reading_lost(1_000, 62_000));
    assert!(!corvus::reading_lost(5_000, 1_000));
}
