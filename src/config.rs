//! Configuration of a node: where it is, how it reaches the bus, and which
//! plugins it runs with which triggers.
use vstd::prelude::*;
use vstd::string::*;

verus! {

fn string_of(s: &str) -> (r: String)
    ensures
        r@ == s@,
{
    String::from_str(s)
}

#[derive(Clone, Debug)]
pub struct Configuration {
    pub node: NodeConfiguration,
    pub mqtt: MQTTConfiguration,
    pub plugins: Vec<PluginConfiguration>,
}

#[derive(Clone, Debug)]
pub struct NodeConfiguration {
    pub location: String,
}

#[derive(Clone, Debug)]
pub struct MQTTConfiguration {
    pub client_id: String,
    pub host: String,
    pub port: u16,
    pub base_topic: String,
    pub discovery_topic: String,
}

#[derive(Clone, Debug)]
pub struct PluginConfiguration {
    pub name: String,
    pub plugin: PluginOptions,
    pub trigger: TriggerConfiguration,
}

/// The kind of a plugin and its own settings.
#[derive(Clone, Debug)]
pub enum PluginOptions {
    Command { command: String, args: Vec<String> },
    Bluetooth {},
    DHT { device: String, channel: u32 },
}

/// When a plugin runs.
#[derive(Clone, Debug)]
pub enum TriggerConfiguration {
    Start { on_start: bool },
    Interval { interval: u64 },
    MQTT { mqtt_topic: String },
}

impl Default for NodeConfiguration {
    fn default() -> (r: Self)
        ensures
            r.location@ == "home"@,
    {
        NodeConfiguration { location: string_of("home") }
    }
}

impl Default for MQTTConfiguration {
    fn default() -> (r: Self)
        ensures
            r.client_id@ == "corvus"@,
            r.host@ == "localhost"@,
            r.port == 1883,
            r.base_topic@ == "corvus"@,
            r.discovery_topic@ == "homeassistant"@,
    {
        MQTTConfiguration {
            client_id: string_of("corvus"),
            host: string_of("localhost"),
            port: 1883,
            base_topic: string_of("corvus"),
            discovery_topic: string_of("homeassistant"),
        }
    }
}

impl Default for PluginOptions {
    fn default() -> (r: Self)
        ensures
            r is Bluetooth,
    {
        PluginOptions::Bluetooth {  }
    }
}

impl Default for TriggerConfiguration {
    fn default() -> (r: Self)
        ensures
            r == (TriggerConfiguration::Start { on_start: true }),
    {
        TriggerConfiguration::Start { on_start: true }
    }
}

impl Default for PluginConfiguration {
    fn default() -> (r: Self)
        ensures
            r.name@.len() == 0,
            r.plugin is Bluetooth,
            r.trigger == (TriggerConfiguration::Start { on_start: true }),
    {
        PluginConfiguration {
            name: String::new(),
            plugin: PluginOptions::default(),
            trigger: TriggerConfiguration::default(),
        }
    }
}

impl Default for Configuration {
    /// One default plugin, at `home`, on a local broker.
    fn default() -> (r: Self)
        ensures
            r.node.location@ == "home"@,
            r.mqtt.client_id@ == "corvus"@,
            r.mqtt.host@ == "localhost"@,
            r.mqtt.port == 1883,
            r.mqtt.base_topic@ == "corvus"@,
            r.mqtt.discovery_topic@ == "homeassistant"@,
            r.plugins@.len() == 1,
            r.plugins@[0].name@.len() == 0,
            r.plugins@[0].plugin is Bluetooth,
            r.plugins@[0].trigger == (TriggerConfiguration::Start { on_start: true }),
    {
        let mut plugins: Vec<PluginConfiguration> = Vec::new();
        plugins.push(PluginConfiguration::default());
        Configuration { plugins, node: NodeConfiguration::default(), mqtt: MQTTConfiguration::default() }
    }
}

} // verus!
