use corvus::{register_climate_devices, register_command_device, DeviceRegistry};

#[test]
fn command_device_registered_once() {
    let mut r = DeviceRegistry::new("Home".to_string(), "corvus".to_string());
    assert!(register_command_device(&mut r, "uptime"));
    assert!(!register_command_device(&mut r, "uptime"));
    let d = r.get_by_name("uptime").unwrap();
    assert_eq!(d.stat_topic(), "corvus/nodes/home/home_uptime/stat");
}

#[test]
fn climate_devices_have_units() {
    let mut r = DeviceRegistry::new("Home".to_string(), "corvus".to_string());
    assert_eq!(register_climate_devices(&mut r, "Porch"), (true, true));
    assert_eq!(register_climate_devices(&mut r, "Porch"), (false, false));
    let t = r.get_by_id("porch_temperature").unwrap();
    assert_eq!(t.unit_of_measurement(), Some("°C".to_string()));
    assert_eq!(t.device_class(), Some("temperature".to_string()));
    let h = r.get_by_name("Porch Humidity").unwrap();
    assert_eq!(h.unit_of_measurement(), Some("%".to_string()));
    assert_eq!(r.list_devices().len(), 2);
}
