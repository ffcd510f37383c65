use corvus::{location_device, rssi_device, DeviceRegistry, DeviceType, SensorDeviceClass};

fn registry() -> DeviceRegistry {
    DeviceRegistry::new("Living Room".to_string(), "corvus".to_string())
}

#[test]
fn same_key_twice_publishes_once() {
    let mut r = registry();
    let d = r.new_device("Temp Sensor".to_string(), DeviceType::Sensor(SensorDeviceClass::Temperature), "dht".to_string()).build();
    assert!(r.register(d.clone()));
    assert!(!r.register(d));
    assert_eq!(r.list_devices().len(), 1);
}

#[test]
fn distinct_keys_publish_twice() {
    let mut r = registry();
    let d = r.new_device("A".to_string(), DeviceType::Switch, "p".to_string()).build();
    let e = r.new_device("B".to_string(), DeviceType::Light, "p".to_string()).build();
    assert!(r.register(d));
    assert!(r.register(e));
    assert_eq!(r.list_devices().len(), 2);
}

#[test]
fn lookups_by_name_and_by_id() {
    let mut r = registry();
    let d = r.new_device("Temp Sensor".to_string(), DeviceType::Thermostat, "p".to_string()).build();
    r.register(d);
    assert_eq!(r.get_by_name("Temp Sensor").unwrap().id(), "temp_sensor");
    assert_eq!(r.get_by_id("temp_sensor").unwrap().display_name(), "Temp Sensor");
    assert!(r.get_by_id("Temp Sensor").is_none());
    assert!(r.get_by_name("temp_sensor").is_none());
}

#[test]
fn bluetooth_devices_are_registered_once() {
    let mut r = registry();
    let (d, publish) = rssi_device(&mut r, "bt", "AA:BB");
    assert!(publish);
    assert_eq!(d.display_name(), "Living Room bt AA:BB");
    assert_eq!(d.unit_of_measurement(), Some("dBm".to_string()));
    let (d2, publish2) = rssi_device(&mut r, "bt", "AA:BB");
    assert!(!publish2);
    assert_eq!(d2.id(), d.id());
    let (l, lp) = location_device(&mut r, "bt", "AA:BB");
    assert!(lp);
    assert!(l.cluster_wide());
    assert_eq!(l.display_name(), "bt AA:BB Location");
    assert_eq!(l.uniq_id(), "bt_aabb_location");
    assert!(!location_device(&mut r, "bt", "AA:BB").1);
}
