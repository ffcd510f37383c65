use corvus::{ClusterNodes, ClusterState, DeviceData, DeviceType, Inbound, RouteError, SensorDeviceClass, Topics};

fn topics() -> Topics {
    Topics::new("Living Room", "corvus", "homeassistant")
}

#[test]
fn topic_layout() {
    let t = topics();
    assert_eq!(t.cluster_topic, "corvus/cluster/");
    assert_eq!(t.leader_topic, "corvus/cluster/leader");
    assert_eq!(t.nodes_topic, "corvus/nodes/");
    assert_eq!(t.availability_topic, "corvus/nodes/living_room/avty");
    let d = DeviceData::new("Temp".to_string(), DeviceType::Sensor(SensorDeviceClass::Temperature), "Living Room".to_string(), "corvus".to_string(), "p".to_string()).build();
    assert_eq!(t.discovery_config_topic(&d), "homeassistant/sensor/corvus/living_room_temp/config");
}

#[test]
fn routes_leader_stat_attr_and_ignores_others() {
    let t = topics();
    match t.route("corvus/cluster/leader", "sid".to_string()) {
        Ok(Inbound::Leader(s)) => assert_eq!(s, "sid"),
        other => panic!("{:?}", other),
    }
    match t.route("corvus/nodes/Kitchen/kitchen_abc_1/stat", "10".to_string()) {
        Ok(Inbound::Stat { node, entity, value }) => {
            assert_eq!((node.as_str(), entity.as_str(), value.as_str()), ("Kitchen", "abc_1", "10"))
        }
        other => panic!("{:?}", other),
    }
    match t.route("corvus/nodes/k/other_x/attr", "{\"a\": [1, 2]}".to_string()) {
        Ok(Inbound::Attr { node, entity, .. }) => assert_eq!((node.as_str(), entity.as_str()), ("k", "other_x")),
        other => panic!("{:?}", other),
    }
    assert!(matches!(t.route("corvus/nodes/k/x/avty", String::new()), Ok(Inbound::Ignored)));
    assert!(matches!(t.route("corvus/nodes/k/avty", String::new()), Ok(Inbound::Ignored)));
    assert!(matches!(t.route("corvus/nodes/a/b/c/stat", String::new()), Ok(Inbound::Ignored)));
    assert!(matches!(t.route("corvus/cluster/x/stat", String::new()), Ok(Inbound::Ignored)));
    assert!(matches!(t.route("other", String::new()), Ok(Inbound::Ignored)));
}

#[test]
fn malformed_attributes_are_rejected() {
    let t = topics();
    assert_eq!(t.route("corvus/nodes/k/x/attr", "{not json".to_string()).unwrap_err(), RouteError::MalformedAttributes);
    assert!(t.route_checked("corvus/nodes/k/x/attr", "{}".to_string(), false).is_err());
    assert!(t.route_checked("corvus/nodes/k/x/attr", "anything".to_string(), true).is_ok());
}

#[test]
fn handle_message_updates_state_and_store() {
    let t = topics();
    let mut s = ClusterState::with_sid("home".to_string(), "me".to_string(), 0);
    let mut c = ClusterNodes::new();
    t.handle_message(&mut s, &mut c, "corvus/cluster/leader", "me".to_string(), 5).unwrap();
    assert!(s.is_leader());
    t.handle_message(&mut s, &mut c, "corvus/nodes/node1/node1_abc_1/stat", "10".to_string(), 6).unwrap();
    t.handle_message(&mut s, &mut c, "corvus/nodes/node2/node2_abc_1/stat", "20".to_string(), 7).unwrap();
    t.handle_message(&mut s, &mut c, "corvus/nodes/node2/node2_abc_1/attr", "{\"k\":1}".to_string(), 8).unwrap();
    assert!(t.handle_message(&mut s, &mut c, "corvus/nodes/node2/node2_abc_1/attr", "oops".to_string(), 9).is_err());
    let got: Vec<(String, String, String, String)> =
        c.get_dev_id_prefix("abc").into_iter().map(|(n, e, d)| (n, e, d.stat, d.attr)).collect();
    assert_eq!(
        got,
        vec![
            ("node1".to_string(), "abc_1".to_string(), "10".to_string(), String::new()),
            ("node2".to_string(), "abc_1".to_string(), "20".to_string(), "{\"k\":1}".to_string()),
        ]
    );
    assert_eq!(corvus::max_stat(&c.get_dev_id_prefix("abc")), Some(("20".to_string(), "node2".to_string())));
}
