//! Devices: immutable descriptions of the entities a node exposes, with the
//! topic names and unique ids derived from them on demand.
use crate::names::{clean_name, normalized};
use vstd::prelude::*;
use vstd::string::*;

verus! {

/// Name of the application, used in discovery topics and metadata.
pub const APP_NAME: &'static str = "corvus";

/// Version reported in discovery metadata.
pub const APP_VERSION: &'static str = "0.1.0";

/// Icon names understood by the discovery consumer.
pub struct HassIcons;

impl HassIcons {
    pub const THERMOMETER: &'static str = "hass:thermometer";
    pub const LIGHT: &'static str = "hass:lightbulb";
    pub const EYE: &'static str = "hass:eye";
    pub const POWER: &'static str = "mdi:power";
    pub const TELEVISION: &'static str = "mdi:television";
    pub const SQUARE: &'static str = "hass:square";
    pub const WATER_PERCENT: &'static str = "hass:water-percent";
    pub const BLUETOOTH_WAVE: &'static str = "mdi:bluetooth-audio";
    pub const GARAGE: &'static str = "mdi:garage";
    pub const FLASH: &'static str = "mdi:flash";
}

/// The characters of an optional string.
pub open spec fn opt_chars(o: Option<String>) -> Option<Seq<char>> {
    match o {
        Some(s) => Some(s@),
        None => None,
    }
}

fn string_of(s: &str) -> (r: String)
    ensures
        r@ == s@,
{
    String::from_str(s)
}

#[derive(Clone, Copy, Debug, PartialEq, Eq, Structural)]
pub enum SensorDeviceClass {
    Unclassified,
    Battery,
    Humidity,
    Illuminance,
    SignalStrength,
    Temperature,
    Power,
    Pressure,
    Timestamp,
    Current,
    Energy,
    PowerFactor,
    Voltage,
}

impl SensorDeviceClass {
    /// The class name used in discovery metadata.
    pub open spec fn spec_label(self) -> Seq<char> {
        match self {
            SensorDeviceClass::Unclassified => "none"@,
            SensorDeviceClass::Battery => "battery"@,
            SensorDeviceClass::Humidity => "humidity"@,
            SensorDeviceClass::Illuminance => "illuminance"@,
            SensorDeviceClass::SignalStrength => "signal_strength"@,
            SensorDeviceClass::Temperature => "temperature"@,
            SensorDeviceClass::Power => "power"@,
            SensorDeviceClass::Pressure => "pressure"@,
            SensorDeviceClass::Timestamp => "timestamp"@,
            SensorDeviceClass::Current => "current"@,
            SensorDeviceClass::Energy => "energy"@,
            SensorDeviceClass::PowerFactor => "power_factor"@,
            SensorDeviceClass::Voltage => "voltage"@,
        }
    }

    pub fn label(&self) -> (r: &'static str)
        ensures
            r@ == self.spec_label(),
    {
        match self {
            SensorDeviceClass::Unclassified => "none",
            SensorDeviceClass::Battery => "battery",
            SensorDeviceClass::Humidity => "humidity",
            SensorDeviceClass::Illuminance => "illuminance",
            SensorDeviceClass::SignalStrength => "signal_strength",
            SensorDeviceClass::Temperature => "temperature",
            SensorDeviceClass::Power => "power",
            SensorDeviceClass::Pressure => "pressure",
            SensorDeviceClass::Timestamp => "timestamp",
            SensorDeviceClass::Current => "current",
            SensorDeviceClass::Energy => "energy",
            SensorDeviceClass::PowerFactor => "power_factor",
            SensorDeviceClass::Voltage => "voltage",
        }
    }

    /// The class name as an owned string.
    pub fn to_string(&self) -> (r: String)
        ensures
            r@ == self.spec_label(),
    {
        string_of(self.label())
    }

    pub open spec fn spec_icon(self) -> Seq<char> {
        match self {
            SensorDeviceClass::Battery => HassIcons::EYE@,
            SensorDeviceClass::Humidity => HassIcons::WATER_PERCENT@,
            SensorDeviceClass::Illuminance => HassIcons::EYE@,
            SensorDeviceClass::SignalStrength => HassIcons::BLUETOOTH_WAVE@,
            SensorDeviceClass::Temperature => HassIcons::THERMOMETER@,
            SensorDeviceClass::Power => HassIcons::POWER@,
            SensorDeviceClass::Pressure => HassIcons::EYE@,
            SensorDeviceClass::Timestamp => HassIcons::EYE@,
            SensorDeviceClass::Current => HassIcons::FLASH@,
            SensorDeviceClass::Energy => HassIcons::FLASH@,
            SensorDeviceClass::PowerFactor => HassIcons::FLASH@,
            SensorDeviceClass::Voltage => HassIcons::FLASH@,
            SensorDeviceClass::Unclassified => HassIcons::EYE@,
        }
    }

    pub fn icon(&self) -> (r: &'static str)
        ensures
            r@ == self.spec_icon(),
    {
        match self {
            SensorDeviceClass::Battery => HassIcons::EYE,
            SensorDeviceClass::Humidity => HassIcons::WATER_PERCENT,
            SensorDeviceClass::Illuminance => HassIcons::EYE,
            SensorDeviceClass::SignalStrength => HassIcons::BLUETOOTH_WAVE,
            SensorDeviceClass::Temperature => HassIcons::THERMOMETER,
            SensorDeviceClass::Power => HassIcons::POWER,
            SensorDeviceClass::Pressure => HassIcons::EYE,
            SensorDeviceClass::Timestamp => HassIcons::EYE,
            SensorDeviceClass::Current => HassIcons::FLASH,
            SensorDeviceClass::Energy => HassIcons::FLASH,
            SensorDeviceClass::PowerFactor => HassIcons::FLASH,
            SensorDeviceClass::Voltage => HassIcons::FLASH,
            SensorDeviceClass::Unclassified => HassIcons::EYE,
        }
    }
}

#[derive(Clone, Copy, Debug, PartialEq, Eq, Structural)]
pub enum BinarySensorDeviceClass {
    Unclassified,
    /// on means low, off means normal
    Battery,
    /// on means charging, off means not charging
    BatteryCharging,
    /// on means cold, off means normal
    Cold,
    /// on means connected, off means disconnected
    Connectivity,
    /// on means open, off means closed
    Door,
    /// on means open, off means closed
    GarageDoor,
    /// on means gas detected, off means no gas
    Gas,
    /// on means hot, off means normal
    Heat,
    /// on means light detected, off means no light
    Light,
    /// on means unlocked, off means locked
    Lock,
    /// on means wet, off means dry
    Moisture,
    /// on means motion detected, off means clear
    Motion,
    /// on means moving, off means stopped
    Moving,
    /// on means occupied, off means clear
    Occupancy,
    /// on means open, off means closed
    Opening,
    /// on means plugged in, off means unplugged
    Plug,
    /// on means power detected, off means no power
    Power,
    /// on means home, off means away
    Presence,
    /// on means problem detected, off means OK
    Problem,
    /// on means unsafe, off means safe
    Safety,
    /// on means smoke detected, off means clear
    Smoke,
    /// on means sound detected, off means clear
    Sound,
    /// on means vibration detected, off means clear
    Vibration,
    /// on means open, off means closed
    Window,
}

impl BinarySensorDeviceClass {
    pub open spec fn spec_label(self) -> Seq<char> {
        match self {
            BinarySensorDeviceClass::Unclassified => "none"@,
            BinarySensorDeviceClass::Battery => "battery"@,
            BinarySensorDeviceClass::BatteryCharging => "battery_charging"@,
            BinarySensorDeviceClass::Cold => "cold"@,
            BinarySensorDeviceClass::Connectivity => "connectivity"@,
            BinarySensorDeviceClass::Door => "door"@,
            BinarySensorDeviceClass::GarageDoor => "garage_door"@,
            BinarySensorDeviceClass::Gas => "gas"@,
            BinarySensorDeviceClass::Heat => "heat"@,
            BinarySensorDeviceClass::Light => "light"@,
            BinarySensorDeviceClass::Lock => "lock"@,
            BinarySensorDeviceClass::Moisture => "moisture"@,
            BinarySensorDeviceClass::Motion => "motion"@,
            BinarySensorDeviceClass::Moving => "moving"@,
            BinarySensorDeviceClass::Occupancy => "occupancy"@,
            BinarySensorDeviceClass::Opening => "opening"@,
            BinarySensorDeviceClass::Plug => "plug"@,
            BinarySensorDeviceClass::Power => "power"@,
            BinarySensorDeviceClass::Presence => "presence"@,
            BinarySensorDeviceClass::Problem => "problem"@,
            BinarySensorDeviceClass::Safety => "safety"@,
            BinarySensorDeviceClass::Smoke => "smoke"@,
            BinarySensorDeviceClass::Sound => "sound"@,
            BinarySensorDeviceClass::Vibration => "vibration"@,
            BinarySensorDeviceClass::Window => "window"@,
        }
    }

    pub fn label(&self) -> (r: &'static str)
        ensures
            r@ == self.spec_label(),
    {
        match self {
            BinarySensorDeviceClass::Unclassified => "none",
            BinarySensorDeviceClass::Battery => "battery",
            BinarySensorDeviceClass::BatteryCharging => "battery_charging",
            BinarySensorDeviceClass::Cold => "cold",
            BinarySensorDeviceClass::Connectivity => "connectivity",
            BinarySensorDeviceClass::Door => "door",
            BinarySensorDeviceClass::GarageDoor => "garage_door",
            BinarySensorDeviceClass::Gas => "gas",
            BinarySensorDeviceClass::Heat => "heat",
            BinarySensorDeviceClass::Light => "light",
            BinarySensorDeviceClass::Lock => "lock",
            BinarySensorDeviceClass::Moisture => "moisture",
            BinarySensorDeviceClass::Motion => "motion",
            BinarySensorDeviceClass::Moving => "moving",
            BinarySensorDeviceClass::Occupancy => "occupancy",
            BinarySensorDeviceClass::Opening => "opening",
            BinarySensorDeviceClass::Plug => "plug",
            BinarySensorDeviceClass::Power => "power",
            BinarySensorDeviceClass::Presence => "presence",
            BinarySensorDeviceClass::Problem => "problem",
            BinarySensorDeviceClass::Safety => "safety",
            BinarySensorDeviceClass::Smoke => "smoke",
            BinarySensorDeviceClass::Sound => "sound",
            BinarySensorDeviceClass::Vibration => "vibration",
            BinarySensorDeviceClass::Window => "window",
        }
    }

    /// The class name as an owned string.
    pub fn to_string(&self) -> (r: String)
        ensures
            r@ == self.spec_label(),
    {
        string_of(self.label())
    }

    pub open spec fn spec_icon(self) -> Seq<char> {
        match self {
            BinarySensorDeviceClass::Unclassified => HassIcons::POWER@,
            BinarySensorDeviceClass::Door => HassIcons::SQUARE@,
            BinarySensorDeviceClass::GarageDoor => HassIcons::GARAGE@,
            BinarySensorDeviceClass::Moisture => HassIcons::WATER_PERCENT@,
            BinarySensorDeviceClass::Opening => HassIcons::SQUARE@,
            BinarySensorDeviceClass::Power => HassIcons::FLASH@,
            _ => HassIcons::EYE@,
        }
    }

    pub fn icon(&self) -> (r: &'static str)
        ensures
            r@ == self.spec_icon(),
    {
        match self {
            BinarySensorDeviceClass::Unclassified => HassIcons::POWER,
            BinarySensorDeviceClass::Battery => HassIcons::EYE,
            BinarySensorDeviceClass::BatteryCharging => HassIcons::EYE,
            BinarySensorDeviceClass::Cold => HassIcons::EYE,
            BinarySensorDeviceClass::Connectivity => HassIcons::EYE,
            BinarySensorDeviceClass::Door => HassIcons::SQUARE,
            BinarySensorDeviceClass::GarageDoor => HassIcons::GARAGE,
            BinarySensorDeviceClass::Gas => HassIcons::EYE,
            BinarySensorDeviceClass::Heat => HassIcons::EYE,
            BinarySensorDeviceClass::Light => HassIcons::EYE,
            BinarySensorDeviceClass::Lock => HassIcons::EYE,
            BinarySensorDeviceClass::Moisture => HassIcons::WATER_PERCENT,
            BinarySensorDeviceClass::Motion => HassIcons::EYE,
            BinarySensorDeviceClass::Moving => HassIcons::EYE,
            BinarySensorDeviceClass::Occupancy => HassIcons::EYE,
            BinarySensorDeviceClass::Opening => HassIcons::SQUARE,
            BinarySensorDeviceClass::Plug => HassIcons::EYE,
            BinarySensorDeviceClass::Power => HassIcons::FLASH,
            BinarySensorDeviceClass::Presence => HassIcons::EYE,
            BinarySensorDeviceClass::Problem => HassIcons::EYE,
            BinarySensorDeviceClass::Safety => HassIcons::EYE,
            BinarySensorDeviceClass::Smoke => HassIcons::EYE,
            BinarySensorDeviceClass::Sound => HassIcons::EYE,
            BinarySensorDeviceClass::Vibration => HassIcons::EYE,
            BinarySensorDeviceClass::Window => HassIcons::EYE,
        }
    }
}

/// The kind of a device, as the discovery consumer classifies it.
#[derive(Clone, Copy, Debug, PartialEq, Eq, Structural)]
pub enum DeviceType {
    Sensor(SensorDeviceClass),
    BinarySensor(BinarySensorDeviceClass),
    MediaPlayer,
    Switch,
    Light,
    Thermostat,
}

impl DeviceType {
    pub open spec fn spec_label(self) -> Seq<char> {
        match self {
            DeviceType::Sensor(_) => "sensor"@,
            DeviceType::BinarySensor(_) => "binary_sensor"@,
            DeviceType::MediaPlayer => "media_player"@,
            DeviceType::Switch => "switch"@,
            DeviceType::Light => "light"@,
            DeviceType::Thermostat => "thermostat"@,
        }
    }

    pub fn label(&self) -> (r: &'static str)
        ensures
            r@ == self.spec_label(),
    {
        match self {
            DeviceType::Sensor(_) => "sensor",
            DeviceType::BinarySensor(_) => "binary_sensor",
            DeviceType::MediaPlayer => "media_player",
            DeviceType::Switch => "switch",
            DeviceType::Light => "light",
            DeviceType::Thermostat => "thermostat",
        }
    }

    /// The type name as an owned string.
    pub fn to_string(&self) -> (r: String)
        ensures
            r@ == self.spec_label(),
    {
        string_of(self.label())
    }

    pub open spec fn spec_icon(self) -> Seq<char> {
        match self {
            DeviceType::Thermostat => HassIcons::THERMOMETER@,
            DeviceType::Light => HassIcons::LIGHT@,
            DeviceType::Switch => HassIcons::POWER@,
            DeviceType::MediaPlayer => HassIcons::TELEVISION@,
            DeviceType::Sensor(c) => c.spec_icon(),
            DeviceType::BinarySensor(c) => c.spec_icon(),
        }
    }

    pub fn icon(&self) -> (r: &'static str)
        ensures
            r@ == self.spec_icon(),
    {
        match self {
            DeviceType::Thermostat => HassIcons::THERMOMETER,
            DeviceType::Light => HassIcons::LIGHT,
            DeviceType::Switch => HassIcons::POWER,
            DeviceType::MediaPlayer => HassIcons::TELEVISION,
            DeviceType::Sensor(c) => c.icon(),
            DeviceType::BinarySensor(c) => c.icon(),
        }
    }

    /// The class of a sensor or binary sensor, `none` included.
    pub open spec fn spec_device_class(self) -> Option<Seq<char>> {
        match self {
            DeviceType::Sensor(c) => Some(c.spec_label()),
            DeviceType::BinarySensor(c) => Some(c.spec_label()),
            _ => None,
        }
    }

    pub fn device_class(&self) -> (r: Option<String>)
        ensures
            opt_chars(r) == self.spec_device_class(),
    {
        match self {
            DeviceType::Sensor(c) => Some(c.to_string()),
            DeviceType::BinarySensor(c) => Some(c.to_string()),
            _ => None,
        }
    }
}


/// What a device is, as a mathematical value.
pub ghost struct DeviceModel {
    pub id: Seq<char>,
    pub display_name: Seq<char>,
    pub typ: DeviceType,
    pub cluster_wide: bool,
    pub location: Seq<char>,
    pub plugin: Seq<char>,
    pub base_topic: Seq<char>,
    pub unit_of_measurement: Option<Seq<char>>,
}

impl DeviceModel {
    /// The id is the normalised display name.
    pub open spec fn wf(self) -> bool {
        self.id == normalized(self.display_name)
    }

    /// `{location}_{id}`, or the bare id for a cluster-wide device.
    pub open spec fn uniq_id(self) -> Seq<char> {
        if self.cluster_wide {
            self.id
        } else {
            normalized(self.location) + "_"@ + self.id
        }
    }

    /// `{base}/cluster/` or `{base}/nodes/{location}/`.
    pub open spec fn node_base(self) -> Seq<char> {
        if self.cluster_wide {
            self.base_topic + "/cluster/"@
        } else {
            self.base_topic + "/nodes/"@ + normalized(self.location) + "/"@
        }
    }

    pub open spec fn device_base(self) -> Seq<char> {
        self.node_base() + self.uniq_id() + "/"@
    }

    pub open spec fn avty_topic(self) -> Seq<char> {
        self.node_base() + "avty"@
    }

    pub open spec fn stat_topic(self) -> Seq<char> {
        self.device_base() + "stat"@
    }

    pub open spec fn attr_topic(self) -> Seq<char> {
        self.device_base() + "attr"@
    }

    /// The class announced for discovery: none for the unclassified ones.
    pub open spec fn device_class(self) -> Option<Seq<char>> {
        match self.typ {
            DeviceType::Sensor(SensorDeviceClass::Unclassified) => None,
            DeviceType::BinarySensor(BinarySensorDeviceClass::Unclassified) => None,
            DeviceType::Sensor(c) => Some(c.spec_label()),
            DeviceType::BinarySensor(c) => Some(c.spec_label()),
            _ => None,
        }
    }
}

/// A device under construction.
#[derive(Debug)]
pub struct DeviceData {
    id: String,
    display_name: String,
    typ: DeviceType,
    cluster_wide: bool,
    location: String,
    plugin: String,
    base_topic: String,
    unit_of_measurement: Option<String>,
}

impl View for DeviceData {
    type V = DeviceModel;

    closed spec fn view(&self) -> DeviceModel {
        DeviceModel {
            id: self.id@,
            display_name: self.display_name@,
            typ: self.typ,
            cluster_wide: self.cluster_wide,
            location: self.location@,
            plugin: self.plugin@,
            base_topic: self.base_topic@,
            unit_of_measurement: opt_chars(self.unit_of_measurement),
        }
    }
}

fn clone_opt(o: &Option<String>) -> (r: Option<String>)
    ensures
        opt_chars(r) == opt_chars(*o),
{
    match o {
        Some(s) => Some(s.clone()),
        None => None,
    }
}

impl Clone for DeviceData {
    fn clone(&self) -> (r: Self)
        ensures
            r@ == self@,
    {
        DeviceData {
            id: self.id.clone(),
            display_name: self.display_name.clone(),
            typ: self.typ,
            cluster_wide: self.cluster_wide,
            location: self.location.clone(),
            plugin: self.plugin.clone(),
            base_topic: self.base_topic.clone(),
            unit_of_measurement: clone_opt(&self.unit_of_measurement),
        }
    }
}

impl DeviceData {
    /// A node-local device with no unit; its id is the normalised display name.
    pub fn new(
        display_name: String,
        typ: DeviceType,
        location: String,
        base_topic: String,
        plugin: String,
    ) -> (r: Self)
        ensures
            r@ == (DeviceModel {
                id: normalized(display_name@),
                display_name: display_name@,
                typ,
                cluster_wide: false,
                location: location@,
                plugin: plugin@,
                base_topic: base_topic@,
                unit_of_measurement: None,
            }),
            r@.wf(),
    {
        let id = clean_name(display_name.as_str());
        DeviceData {
            id,
            unit_of_measurement: None,
            cluster_wide: false,
            plugin,
            display_name,
            typ,
            location,
            base_topic,
        }
    }

    pub fn with_unit_of_measurement(self, unit: String) -> (r: Self)
        ensures
            r@ == (DeviceModel { unit_of_measurement: Some(unit@), ..self@ }),
    {
        let mut d = self;
        d.unit_of_measurement = Some(unit);
        d
    }

    /// Makes the device cluster-wide: keyed without a per-node prefix.
    pub fn into_cluster_device(self) -> (r: Self)
        ensures
            r@ == (DeviceModel { cluster_wide: true, ..self@ }),
    {
        let mut d = self;
        d.cluster_wide = true;
        d
    }

    pub fn build(self) -> (r: Device)
        ensures
            r@ == self@,
    {
        Device { data: self }
    }
}

/// An immutable device description.
#[derive(Debug)]
pub struct Device {
    data: DeviceData,
}

impl View for Device {
    type V = DeviceModel;

    closed spec fn view(&self) -> DeviceModel {
        self.data@
    }
}

impl Clone for Device {
    fn clone(&self) -> (r: Self)
        ensures
            r@ == self@,
    {
        Device { data: self.data.clone() }
    }
}

/// Identification block of the discovery metadata.
#[derive(Debug, Clone, Default)]
pub struct HassDeviceInformation {
    pub name: Option<String>,
    pub model: Option<String>,
    pub manufacturer: Option<String>,
    pub sw_version: Option<String>,
    pub identifiers: Option<String>,
}

/// Discovery metadata of one device. `base_topic` abbreviates the topics
/// that start with `~`.
#[derive(Debug, Clone, Default)]
pub struct HassDiscoveryPayload {
    pub name: Option<String>,
    pub icon: Option<String>,
    pub unique_id: Option<String>,
    pub base_topic: Option<String>,
    pub device_class: Option<String>,
    pub state_topic: Option<String>,
    pub json_attributes_topic: Option<String>,
    pub availability_topic: Option<String>,
    pub payload_available: Option<String>,
    pub payload_not_available: Option<String>,
    pub unit_of_measurement: Option<String>,
    pub device: Option<HassDeviceInformation>,
}

impl Device {
    pub fn id(&self) -> (r: &str)
        ensures
            r@ == self@.id,
    {
        self.data.id.as_str()
    }

    pub fn display_name(&self) -> (r: &str)
        ensures
            r@ == self@.display_name,
    {
        self.data.display_name.as_str()
    }

    pub fn plugin(&self) -> (r: &str)
        ensures
            r@ == self@.plugin,
    {
        self.data.plugin.as_str()
    }

    pub fn location(&self) -> (r: &str)
        ensures
            r@ == self@.location,
    {
        self.data.location.as_str()
    }

    pub fn typ(&self) -> (r: DeviceType)
        ensures
            r == self@.typ,
    {
        self.data.typ
    }

    pub fn unit_of_measurement(&self) -> (r: Option<String>)
        ensures
            opt_chars(r) == self@.unit_of_measurement,
    {
        clone_opt(&self.data.unit_of_measurement)
    }

    /// The type name, as used in discovery topics.
    pub fn device_type(&self) -> (r: String)
        ensures
            r@ == self@.typ.spec_label(),
    {
        self.data.typ.to_string()
    }

    pub fn cluster_wide(&self) -> (r: bool)
        ensures
            r == self@.cluster_wide,
    {
        self.data.cluster_wide
    }

    pub fn icon(&self) -> (r: &'static str)
        ensures
            r@ == self@.typ.spec_icon(),
    {
        self.data.typ.icon()
    }

    pub fn device_class(&self) -> (r: Option<String>)
        ensures
            opt_chars(r) == self@.device_class(),
    {
        match &self.data.typ {
            DeviceType::Sensor(SensorDeviceClass::Unclassified) => None,
            DeviceType::BinarySensor(BinarySensorDeviceClass::Unclassified) => None,
            DeviceType::Sensor(dc) => Some(dc.to_string()),
            DeviceType::BinarySensor(dc) => Some(dc.to_string()),
            _ => None,
        }
    }

    /// Unique id of the device across the fleet.
    pub fn uniq_id(&self) -> (r: String)
        ensures
            r@ == self@.uniq_id(),
    {
        if self.cluster_wide() {
            self.data.id.clone()
        } else {
            let mut s = clean_name(self.data.location.as_str());
            s.append("_");
            s.append(self.data.id.as_str());
            s
        }
    }

    /// Root of the topics of this device's node, or of the cluster.
    pub fn node_base(&self) -> (r: String)
        ensures
            r@ == self@.node_base(),
    {
        let mut s = self.data.base_topic.clone();
        if self.cluster_wide() {
            s.append("/cluster/");
        } else {
            s.append("/nodes/");
            let loc = clean_name(self.data.location.as_str());
            s.append(loc.as_str());
            s.append("/");
        }
        s
    }

    /// Root of this device's own topics.
    pub fn device_base(&self) -> (r: String)
        ensures
            r@ == self@.device_base(),
    {
        let mut s = self.node_base();
        let u = self.uniq_id();
        s.append(u.as_str());
        s.append("/");
        s
    }

    /// Availability topic of the node.
    pub fn avty_topic(&self) -> (r: String)
        ensures
            r@ == self@.avty_topic(),
    {
        let mut s = self.node_base();
        s.append("avty");
        s
    }

    pub fn stat_topic(&self) -> (r: String)
        ensures
            r@ == self@.stat_topic(),
    {
        let mut s = self.device_base();
        s.append("stat");
        s
    }

    pub fn attr_topic(&self) -> (r: String)
        ensures
            r@ == self@.attr_topic(),
    {
        let mut s = self.device_base();
        s.append("attr");
        s
    }

    /// The discovery metadata announced for this device; cluster-wide
    /// devices have no availability topic.
    pub fn to_discovery(&self) -> (r: HassDiscoveryPayload)
        ensures
            opt_chars(r.name) == Some(self@.display_name),
            opt_chars(r.icon) == Some(self@.typ.spec_icon()),
            opt_chars(r.unique_id) == Some(self@.uniq_id()),
            opt_chars(r.base_topic) == Some(self@.device_base()),
            opt_chars(r.device_class) == self@.device_class(),
            opt_chars(r.state_topic) == Some("~stat"@),
            opt_chars(r.json_attributes_topic) == Some("~attr"@),
            opt_chars(r.payload_available) == Some("online"@),
            opt_chars(r.payload_not_available) == Some("offline"@),
            opt_chars(r.unit_of_measurement) == self@.unit_of_measurement,
            opt_chars(r.availability_topic) == (if self@.cluster_wide {
                None
            } else {
                Some(self@.avty_topic())
            }),
            r.device is Some,
            opt_chars(r.device->0.name) == Some(self@.location),
            opt_chars(r.device->0.model) == Some(APP_NAME@),
            opt_chars(r.device->0.manufacturer) == Some(APP_NAME@),
            opt_chars(r.device->0.sw_version) == Some(APP_VERSION@),
            opt_chars(r.device->0.identifiers) == Some(self@.uniq_id()),
    {
        let mfr = HassDeviceInformation {
            name: Some(self.data.location.clone()),
            model: Some(string_of(APP_NAME)),
            manufacturer: Some(string_of(APP_NAME)),
            sw_version: Some(string_of(APP_VERSION)),
            identifiers: Some(self.uniq_id()),
        };
        let availability_topic = if self.cluster_wide() {
            None
        } else {
            Some(self.avty_topic())
        };
        HassDiscoveryPayload {
            device: Some(mfr),
            name: Some(self.data.display_name.clone()),
            icon: Some(string_of(self.icon())),
            unique_id: Some(self.uniq_id()),
            base_topic: Some(self.device_base()),
            device_class: self.device_class(),
            state_topic: Some(string_of("~stat")),
            json_attributes_topic: Some(string_of("~attr")),
            payload_available: Some(string_of("online")),
            payload_not_available: Some(string_of("offline")),
            unit_of_measurement: clone_opt(&self.data.unit_of_measurement),
            availability_topic,
        }
    }
}

} // verus!
