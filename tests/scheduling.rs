use corvus::{
    Configuration, ConfigError, IntervalTrigger, OnStartTrigger, PluginOptions, ServiceData, TriggerConfiguration,
    Triggers,
};

#[test]
fn delays_with_and_without_jitter() {
    let s = ServiceData::new("x".to_string(), 10_000, false, true);
    assert_eq!(s.initial_delay_ms(), 10_000);
    assert_eq!(s.delay_with_draw(0), 9_000);
    assert_eq!(s.delay_with_draw(1_999), 10_999);
    for _ in 0..100 {
        let d = s.next_delay_ms();
        assert!((9_000..11_000).contains(&d));
    }
    let short = ServiceData::new("y".to_string(), 500, true, true);
    assert_eq!(short.initial_delay_ms(), 0);
    assert_eq!(short.delay_with_draw(100), 0);
    let plain = ServiceData::new("z".to_string(), 7, false, false);
    assert_eq!(plain.delay_with_draw(1_500), 7);
    assert_eq!(plain.next_delay_ms(), 7);
}

#[test]
fn standard_services() {
    let h = ServiceData::heartbeat_service();
    assert_eq!((h.name.as_str(), h.duration_ms, h.start_immediately, h.add_jitter), ("MQTT Heartbeat", 10_000, false, true));
    let p = ServiceData::plugin_heartbeat_service("bt");
    assert_eq!((p.name.as_str(), p.duration_ms, p.add_jitter), ("bt Plugin Heartbeat", 10_000, true));
    assert!(!p.run_once && !h.run_once);
    assert!(ServiceData::transport_service().start_immediately);
    assert_eq!(ServiceData::registry_service().duration_ms, 120_000);
}

#[test]
fn triggers_from_configuration() {
    let t = Triggers::new(&TriggerConfiguration::Interval { interval: 30 }).unwrap();
    let s = t.init("cmd");
    assert_eq!((s.name.as_str(), s.duration_ms, s.start_immediately, s.add_jitter), ("cmd", 30_000, false, false));
    assert!(!s.run_once);
    let o = Triggers::new(&TriggerConfiguration::Start { on_start: true }).unwrap();
    let s = o.init("cmd");
    assert_eq!((s.name.as_str(), s.duration_ms, s.start_immediately, s.add_jitter), ("Startup trigger for cmd", 2_000, true, false));
    assert!(s.run_once);
    assert_eq!(s.initial_delay_ms(), 0);
    assert_eq!(
        Triggers::new(&TriggerConfiguration::MQTT { mqtt_topic: "t".to_string() }).unwrap_err(),
        ConfigError::UnsupportedTrigger
    );
    assert_eq!(IntervalTrigger::new(u64::MAX).init("x").duration_ms, u64::MAX);
    assert_eq!(OnStartTrigger::new().init("p").name, "Startup trigger for p");
}

#[test]
fn default_configuration() {
    let c = Configuration::default();
    assert_eq!(c.node.location, "home");
    assert_eq!(c.mqtt.port, 1883);
    assert_eq!(c.mqtt.base_topic, "corvus");
    assert_eq!(c.mqtt.discovery_topic, "homeassistant");
    assert_eq!(c.mqtt.client_id, "corvus");
    assert_eq!(c.mqtt.host, "localhost");
    assert_eq!(c.plugins.len(), 1);
    assert!(matches!(c.plugins[0].plugin, PluginOptions::Bluetooth {}));
    assert!(matches!(c.plugins[0].trigger, TriggerConfiguration::Start { on_start: true }));
}
