//! Coordination layer of a fleet of home-automation agent nodes: device naming
//! and topics, the device registry, leader election, the shared cluster store,
//! inbound routing and the scheduling rules of supervised services.

mod bluetooth;
mod cluster_nodes;
mod cluster_state;
mod config;
mod device;
mod dht;
mod names;
mod plugins;
mod registry;
mod ring_buffer;
mod rolling_vec;
mod router;
mod supervisor;
mod text;
mod triggers;

pub use bluetooth::{
    location_device, reading_lost, rssi_device, BluetoothTracker, RssiReport, READING_WINDOW_MS,
};
pub use cluster_nodes::{max_stat, ClusterNodes, EntityData};
pub use cluster_state::{ClusterState, ClusterStateData, LeaderAction, SID_LEN, STALENESS_MS};
pub use config::{
    Configuration, MQTTConfiguration, NodeConfiguration, PluginConfiguration, PluginOptions,
    TriggerConfiguration,
};
pub use device::{
    BinarySensorDeviceClass, Device, DeviceData, DeviceType, HassDeviceInformation,
    HassDiscoveryPayload, HassIcons, SensorDeviceClass, APP_NAME, APP_VERSION,
};
pub use dht::{Errors, Reading, PULSE_BOUND};
pub use names::{clean_lowered, clean_name, normalize};
pub use plugins::{register_climate_devices, register_command_device};
pub use registry::DeviceRegistry;
pub use ring_buffer::RingBuffer;
pub use rolling_vec::{RollingVec, RollingVecEntry};
pub use router::{Inbound, RouteError, Topics};
pub use supervisor::{ServiceData, HEARTBEAT_MS, JITTER_OFFSET_MS, JITTER_SPAN_MS};
pub use text::parse_integer;
pub use triggers::{ConfigError, IntervalTrigger, OnStartTrigger, Triggers};
