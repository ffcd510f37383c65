use corvus::{BinarySensorDeviceClass, DeviceData, DeviceType, SensorDeviceClass};

fn sensor() -> corvus::Device {
    DeviceData::new(
        "Temp Sensor".to_string(),
        DeviceType::Sensor(SensorDeviceClass::Temperature),
        "Living Room".to_string(),
        "corvus".to_string(),
        "dht".to_string(),
    )
    .with_unit_of_measurement("°C".to_string())
    .build()
}

#[test]
fn node_device_topics() {
    let d = sensor();
    assert_eq!(d.id(), "temp_sensor");
    assert_eq!(d.uniq_id(), "living_room_temp_sensor");
    assert_eq!(d.node_base(), "corvus/nodes/living_room/");
    assert_eq!(d.device_base(), "corvus/nodes/living_room/living_room_temp_sensor/");
    assert_eq!(d.avty_topic(), "corvus/nodes/living_room/avty");
    assert_eq!(d.stat_topic(), "corvus/nodes/living_room/living_room_temp_sensor/stat");
    assert_eq!(d.attr_topic(), "corvus/nodes/living_room/living_room_temp_sensor/attr");
    assert_eq!(d.device_type(), "sensor");
    assert_eq!(d.device_class(), Some("temperature".to_string()));
    assert_eq!(d.icon(), "hass:thermometer");
    assert_eq!(d.plugin(), "dht");
}

#[test]
fn cluster_device_topics() {
    let d = DeviceData::new("Tag X".to_string(), DeviceType::Sensor(SensorDeviceClass::Unclassified), "Home".to_string(), "base".to_string(), "bt".to_string())
        .into_cluster_device()
        .build();
    assert!(d.cluster_wide());
    assert_eq!(d.uniq_id(), "tag_x");
    assert_eq!(d.stat_topic(), "base/cluster/tag_x/stat");
    assert_eq!(d.device_class(), None);
    let p = d.to_discovery();
    assert_eq!(p.availability_topic, None);
}

#[test]
fn discovery_payload_fields() {
    let p = sensor().to_discovery();
    assert_eq!(p.name.as_deref(), Some("Temp Sensor"));
    assert_eq!(p.icon.as_deref(), Some("hass:thermometer"));
    assert_eq!(p.unique_id.as_deref(), Some("living_room_temp_sensor"));
    assert_eq!(p.base_topic.as_deref(), Some("corvus/nodes/living_room/living_room_temp_sensor/"));
    assert_eq!(p.state_topic.as_deref(), Some("~stat"));
    assert_eq!(p.json_attributes_topic.as_deref(), Some("~attr"));
    assert_eq!(p.availability_topic.as_deref(), Some("corvus/nodes/living_room/avty"));
    assert_eq!(p.payload_available.as_deref(), Some("online"));
    assert_eq!(p.payload_not_available.as_deref(), Some("offline"));
    assert_eq!(p.unit_of_measurement.as_deref(), Some("°C"));
    assert_eq!(p.device_class.as_deref(), Some("temperature"));
    let info = p.device.unwrap();
    assert_eq!(info.name.as_deref(), Some("Living Room"));
    assert_eq!(info.identifiers.as_deref(), Some("living_room_temp_sensor"));
    assert_eq!(info.model.as_deref(), Some(corvus::APP_NAME));
}

#[test]
fn type_names_classes_and_icons() {
    assert_eq!(DeviceType::BinarySensor(BinarySensorDeviceClass::GarageDoor).to_string(), "binary_sensor");
    assert_eq!(DeviceType::MediaPlayer.to_string(), "media_player");
    assert_eq!(DeviceType::BinarySensor(BinarySensorDeviceClass::GarageDoor).icon(), "mdi:garage");
    assert_eq!(DeviceType::BinarySensor(BinarySensorDeviceClass::Unclassified).icon(), "mdi:power");
    assert_eq!(DeviceType::MediaPlayer.icon(), "mdi:television");
    assert_eq!(DeviceType::Sensor(SensorDeviceClass::SignalStrength).icon(), "mdi:bluetooth-audio");
    assert_eq!(DeviceType::Sensor(SensorDeviceClass::Unclassified).device_class(), Some("none".to_string()));
    assert_eq!(DeviceType::Switch.device_class(), None);
    assert_eq!(SensorDeviceClass::PowerFactor.to_string(), "power_factor");
    assert_eq!(BinarySensorDeviceClass::BatteryCharging.to_string(), "battery_charging");
    assert_eq!(BinarySensorDeviceClass::Moisture.icon(), "hass:water-percent");
}
