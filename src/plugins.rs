//! The device registrations that plugin heartbeats refresh.
use crate::device::{DeviceModel, DeviceType, SensorDeviceClass};
use crate::names::normalized;
use crate::registry::DeviceRegistry;
use vstd::prelude::*;
use vstd::string::*;

verus! {

/// A node-local device of the registry's node, without unit.
pub open spec fn local_device(
    registry_location: Seq<char>,
    base_topic: Seq<char>,
    name: Seq<char>,
    typ: DeviceType,
    plugin: Seq<char>,
) -> DeviceModel {
    DeviceModel {
        id: normalized(name),
        display_name: name,
        typ,
        cluster_wide: false,
        location: registry_location,
        plugin,
        base_topic,
        unit_of_measurement: None,
    }
}

/// Registers the device that carries a command plugin's output: a plain
/// sensor named after the plugin. Returns whether it must be published.
pub fn register_command_device(registry: &mut DeviceRegistry, name: &str) -> (publish: bool)
    requires
        old(registry).wf(),
    ensures
        final(registry).wf(),
        ({
            let d = local_device(
                old(registry)@.location,
                old(registry)@.base_topic,
                name@,
                DeviceType::Sensor(SensorDeviceClass::Unclassified),
                name@,
            );
            &&& final(registry)@ == old(registry)@.register(d)
            &&& publish == old(registry)@.publishes(d)
        }),
{
    let d = registry.new_device(
        String::from_str(name),
        DeviceType::Sensor(SensorDeviceClass::Unclassified),
        String::from_str(name),
    ).build();
    registry.register(d)
}

/// `{plugin} Temperature`
pub open spec fn temperature_device_name(plugin: Seq<char>) -> Seq<char> {
    plugin + " Temperature"@
}

/// `{plugin} Humidity`
pub open spec fn humidity_device_name(plugin: Seq<char>) -> Seq<char> {
    plugin + " Humidity"@
}

/// Registers the two devices of a temperature and humidity sensor plugin:
/// a temperature sensor in °C and a humidity sensor in %. Returns whether
/// each must be published.
pub fn register_climate_devices(registry: &mut DeviceRegistry, plugin: &str) -> (r: (bool, bool))
    requires
        old(registry).wf(),
    ensures
        final(registry).wf(),
        ({
            let t = DeviceModel {
                unit_of_measurement: Some("°C"@),
                ..local_device(
                    old(registry)@.location,
                    old(registry)@.base_topic,
                    temperature_device_name(plugin@),
                    DeviceType::Sensor(SensorDeviceClass::Temperature),
                    plugin@,
                )
            };
            let h = DeviceModel {
                unit_of_measurement: Some("%"@),
                ..local_device(
                    old(registry)@.location,
                    old(registry)@.base_topic,
                    humidity_device_name(plugin@),
                    DeviceType::Sensor(SensorDeviceClass::Humidity),
                    plugin@,
                )
            };
            &&& final(registry)@ == old(registry)@.register(t).register(h)
            &&& r.0 == old(registry)@.publishes(t)
            &&& r.1 == old(registry)@.register(t).publishes(h)
        }),
{
    let mut tname = String::from_str(plugin);
    tname.append(" Temperature");
    let mut hname = String::from_str(plugin);
    hname.append(" Humidity");
    let t = registry.new_device(
        tname,
        DeviceType::Sensor(SensorDeviceClass::Temperature),
        String::from_str(plugin),
    ).with_unit_of_measurement(String::from_str("°C")).build();
    let first = registry.register(t);
    let h = registry.new_device(
        hname,
        DeviceType::Sensor(SensorDeviceClass::Humidity),
        String::from_str(plugin),
    ).with_unit_of_measurement(String::from_str("%")).build();
    let second = registry.register(h);
    (first, second)
}

} // verus!
