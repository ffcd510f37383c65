//! The device registry: this node's devices by display name and by id. The
//! first registration of an id asks for a discovery publish; later ones only
//! replace the stored device.
use crate::device::{Device, DeviceData, DeviceModel, DeviceType};
use crate::names::normalized;
use vstd::prelude::*;

verus! {

/// The key of a device in one of the two indexes.
pub open spec fn key_of(d: DeviceModel, by_id: bool) -> Seq<char> {
    if by_id {
        d.id
    } else {
        d.display_name
    }
}

/// The devices of a sequence, keyed; a later entry overrides an earlier one.
pub open spec fn keyed(s: Seq<DeviceModel>, by_id: bool) -> Map<Seq<char>, DeviceModel>
    decreases s.len(),
{
    if s.len() == 0 {
        Map::empty()
    } else {
        keyed(s.drop_last(), by_id).insert(key_of(s.last(), by_id), s.last())
    }
}

pub open spec fn unique_keys(s: Seq<DeviceModel>, by_id: bool) -> bool {
    forall|i: int, j: int|
        0 <= i < s.len() && 0 <= j < s.len() && i != j ==> key_of(s[i], by_id) != key_of(s[j], by_id)
}

proof fn lemma_unique_prefix(s: Seq<DeviceModel>, by_id: bool)
    requires
        unique_keys(s, by_id),
        s.len() > 0,
    ensures
        unique_keys(s.drop_last(), by_id),
{
    let p = s.drop_last();
    assert forall|i: int, j: int|
        0 <= i < p.len() && 0 <= j < p.len() && i != j implies key_of(p[i], by_id) != key_of(
        p[j],
        by_id,
    ) by {
        assert(p[i] == s[i] && p[j] == s[j]);
    }
}

proof fn lemma_keyed_index(s: Seq<DeviceModel>, by_id: bool, i: int)
    requires
        unique_keys(s, by_id),
        0 <= i < s.len(),
    ensures
        keyed(s, by_id).contains_key(key_of(s[i], by_id)),
        keyed(s, by_id)[key_of(s[i], by_id)] == s[i],
    decreases s.len(),
{
    if i < s.len() - 1 {
        let p = s.drop_last();
        lemma_unique_prefix(s, by_id);
        assert(p[i] == s[i]);
        lemma_keyed_index(p, by_id, i);
    }
}

proof fn lemma_keyed_absent(s: Seq<DeviceModel>, by_id: bool, k: Seq<char>)
    requires
        forall|i: int| 0 <= i < s.len() ==> key_of(#[trigger] s[i], by_id) != k,
    ensures
        !keyed(s, by_id).contains_key(k),
    decreases s.len(),
{
    if s.len() > 0 {
        let p = s.drop_last();
        assert forall|i: int| 0 <= i < p.len() implies key_of(#[trigger] p[i], by_id) != k by {
            assert(p[i] == s[i]);
        }
        assert(key_of(s[s.len() - 1], by_id) != k);
        lemma_keyed_absent(p, by_id, k);
    }
}

proof fn lemma_keyed_update(s: Seq<DeviceModel>, by_id: bool, i: int, x: DeviceModel)
    requires
        unique_keys(s, by_id),
        0 <= i < s.len(),
        key_of(x, by_id) == key_of(s[i], by_id),
    ensures
        keyed(s.update(i, x), by_id) == keyed(s, by_id).insert(key_of(x, by_id), x),
    decreases s.len(),
{
    let u = s.update(i, x);
    let p = s.drop_last();
    if i == s.len() - 1 {
        assert(u.drop_last() =~= p);
        assert(keyed(u, by_id) =~= keyed(s, by_id).insert(key_of(x, by_id), x));
    } else {
        assert(u.drop_last() =~= p.update(i, x));
        assert(p[i] == s[i]);
        lemma_unique_prefix(s, by_id);
        lemma_keyed_update(p, by_id, i, x);
        assert(key_of(s.last(), by_id) != key_of(s[i], by_id));
        assert(keyed(u, by_id) =~= keyed(s, by_id).insert(key_of(x, by_id), x));
    }
}

/// The registry as a mathematical value.
pub ghost struct RegistryModel {
    pub by_name: Map<Seq<char>, DeviceModel>,
    pub by_id: Map<Seq<char>, DeviceModel>,
    pub location: Seq<char>,
    pub base_topic: Seq<char>,
}

impl RegistryModel {
    /// What registering `d` leaves behind.
    pub open spec fn register(self, d: DeviceModel) -> RegistryModel {
        RegistryModel {
            by_name: self.by_name.insert(d.display_name, d),
            by_id: self.by_id.insert(d.id, d),
            ..self
        }
    }

    /// Registering `d` asks for a discovery publish: its id was not known.
    pub open spec fn publishes(self, d: DeviceModel) -> bool {
        !self.by_id.contains_key(d.id)
    }
}

/// Devices of this node, by display name and by id.
#[derive(Debug)]
pub struct DeviceRegistry {
    devices_names: Vec<Device>,
    devices_ids: Vec<Device>,
    location: String,
    base_topic: String,
}

pub open spec fn models(v: Seq<Device>) -> Seq<DeviceModel> {
    Seq::new(v.len(), |i: int| v[i]@)
}

fn key_string(d: &Device, by_id: bool) -> (r: String)
    ensures
        r@ == key_of(d@, by_id),
{
    if by_id {
        d.id().to_owned()
    } else {
        d.display_name().to_owned()
    }
}

/// Position of the device stored under `key`.
fn position(v: &Vec<Device>, key: &str, by_id: bool) -> (r: Option<usize>)
    ensures
        r matches Some(i) ==> i < v@.len() && key_of(models(v@)[i as int], by_id) == key@,
        r is None ==> forall|i: int| 0 <= i < v@.len() ==> key_of(#[trigger] models(v@)[i], by_id) != key@,
{
    let k = key.to_owned();
    let mut i: usize = 0;
    while i < v.len()
        invariant
            i <= v@.len(),
            k@ == key@,
            forall|j: int| 0 <= j < i ==> key_of(#[trigger] models(v@)[j], by_id) != key@,
        decreases v@.len() - i,
    {
        if key_string(&v[i], by_id) == k {
            return Some(i);
        }
        i = i + 1;
    }
    None
}

/// Stores `d` under its key, replacing the device there; tells whether the
/// key was already present.
fn upsert(v: &mut Vec<Device>, d: Device, by_id: bool) -> (existed: bool)
    requires
        unique_keys(models(old(v)@), by_id),
    ensures
        unique_keys(models(final(v)@), by_id),
        keyed(models(final(v)@), by_id) == keyed(models(old(v)@), by_id).insert(key_of(d@, by_id), d@),
        existed == keyed(models(old(v)@), by_id).contains_key(key_of(d@, by_id)),
{
    let ghost before = models(v@);
    let ghost x = d@;
    let k = key_string(&d, by_id);
    match position(v, k.as_str(), by_id) {
        Some(i) => {
            v.set(i, d);
            proof {
                assert(models(v@) =~= before.update(i as int, x));
                lemma_keyed_update(before, by_id, i as int, x);
                lemma_keyed_index(before, by_id, i as int);
                assert forall|a: int, b: int|
                    0 <= a < models(v@).len() && 0 <= b < models(v@).len() && a != b implies key_of(
                    models(v@)[a],
                    by_id,
                ) != key_of(models(v@)[b], by_id) by {
                    if a != i && b != i {
                        assert(models(v@)[a] == before[a] && models(v@)[b] == before[b]);
                    } else if a == i {
                        assert(models(v@)[b] == before[b]);
                    } else {
                        assert(models(v@)[a] == before[a]);
                    }
                }
            }
            true
        },
        None => {
            v.push(d);
            proof {
                assert(models(v@) =~= before.push(x));
                assert(models(v@).drop_last() =~= before);
                lemma_keyed_absent(before, by_id, key_of(x, by_id));
                assert forall|a: int, b: int|
                    0 <= a < models(v@).len() && 0 <= b < models(v@).len() && a != b implies key_of(
                    models(v@)[a],
                    by_id,
                ) != key_of(models(v@)[b], by_id) by {
                    if a < before.len() && b < before.len() {
                        assert(models(v@)[a] == before[a] && models(v@)[b] == before[b]);
                    } else if a < before.len() {
                        assert(models(v@)[a] == before[a]);
                    } else {
                        assert(models(v@)[b] == before[b]);
                    }
                }
            }
            false
        },
    }
}

/// The device stored under `key`.
fn fetch(v: &Vec<Device>, key: &str, by_id: bool) -> (r: Option<Device>)
    requires
        unique_keys(models(v@), by_id),
    ensures
        match r {
            Some(d) => keyed(models(v@), by_id).contains_key(key@) && keyed(models(v@), by_id)[key@]
                == d@,
            None => !keyed(models(v@), by_id).contains_key(key@),
        },
{
    match position(v, key, by_id) {
        Some(i) => {
            proof {
                lemma_keyed_index(models(v@), by_id, i as int);
            }
            Some(v[i].clone())
        },
        None => {
            proof {
                lemma_keyed_absent(models(v@), by_id, key@);
            }
            None
        },
    }
}

impl View for DeviceRegistry {
    type V = RegistryModel;

    closed spec fn view(&self) -> RegistryModel {
        RegistryModel {
            by_name: keyed(models(self.devices_names@), false),
            by_id: keyed(models(self.devices_ids@), true),
            location: self.location@,
            base_topic: self.base_topic@,
        }
    }
}

impl DeviceRegistry {
    pub closed spec fn wf(&self) -> bool {
        &&& unique_keys(models(self.devices_names@), false)
        &&& unique_keys(models(self.devices_ids@), true)
    }

    /// An empty registry for the devices of the node at `location`.
    pub fn new(location: String, base_topic: String) -> (r: Self)
        ensures
            r.wf(),
            r@.by_name == Map::<Seq<char>, DeviceModel>::empty(),
            r@.by_id == Map::<Seq<char>, DeviceModel>::empty(),
            r@.location == location@,
            r@.base_topic == base_topic@,
    {
        let r = DeviceRegistry { devices_names: Vec::new(), devices_ids: Vec::new(), location, base_topic };
        proof {
            assert(models(r.devices_names@) =~= Seq::<DeviceModel>::empty());
            assert(models(r.devices_ids@) =~= Seq::<DeviceModel>::empty());
        }
        r
    }

    /// The location of this node.
    pub fn location(&self) -> (r: String)
        ensures
            r@ == self@.location,
    {
        self.location.clone()
    }

    /// A device of this node, at its location and under its base topic.
    pub fn new_device(&self, display_name: String, typ: DeviceType, plugin: String) -> (r: DeviceData)
        ensures
            r@ == (DeviceModel {
                id: normalized(display_name@),
                display_name: display_name@,
                typ,
                cluster_wide: false,
                location: self@.location,
                plugin: plugin@,
                base_topic: self@.base_topic,
                unit_of_measurement: None,
            }),
            r@.wf(),
    {
        DeviceData::new(display_name, typ, self.location.clone(), self.base_topic.clone(), plugin)
    }

    pub fn get_by_name(&self, key: &str) -> (r: Option<Device>)
        requires
            self.wf(),
        ensures
            match r {
                Some(d) => self@.by_name.contains_key(key@) && self@.by_name[key@] == d@,
                None => !self@.by_name.contains_key(key@),
            },
    {
        fetch(&self.devices_names, key, false)
    }

    pub fn get_by_id(&self, key: &str) -> (r: Option<Device>)
        requires
            self.wf(),
        ensures
            match r {
                Some(d) => self@.by_id.contains_key(key@) && self@.by_id[key@] == d@,
                None => !self@.by_id.contains_key(key@),
            },
    {
        fetch(&self.devices_ids, key, true)
    }

    /// Stores `device` under its display name and its id. Returns true when
    /// its id was new, that is when its discovery metadata must be published.
    pub fn register(&mut self, device: Device) -> (publish: bool)
        requires
            old(self).wf(),
        ensures
            final(self).wf(),
            final(self)@ == old(self)@.register(device@),
            publish == old(self)@.publishes(device@),
    {
        let copy = device.clone();
        upsert(&mut self.devices_names, copy, false);
        let existed = upsert(&mut self.devices_ids, device, true);
        proof {
            assert(self@ =~= old(self)@.register(device@));
        }
        !existed
    }

    /// Every registered device, by display name.
    pub fn list_devices(&self) -> (r: Vec<Device>)
        requires
            self.wf(),
        ensures
            forall|i: int|
                0 <= i < r@.len() ==> self@.by_name.contains_key(#[trigger] r@[i]@.display_name)
                    && self@.by_name[r@[i]@.display_name] == r@[i]@,
            forall|k: Seq<char>| #[trigger]
                self@.by_name.contains_key(k) ==> exists|i: int|
                    0 <= i < r@.len() && r@[i]@.display_name == k,
            forall|i: int, j: int|
                0 <= i < r@.len() && 0 <= j < r@.len() && i != j ==> (#[trigger] r@[i])@.display_name
                    != (#[trigger] r@[j])@.display_name,
    {
        let mut out: Vec<Device> = Vec::new();
        let mut i: usize = 0;
        while i < self.devices_names.len()
            invariant
                i <= self.devices_names@.len(),
                out@.len() == i,
                models(out@) == models(self.devices_names@).subrange(0, i as int),
            decreases self.devices_names@.len() - i,
        {
            let d = self.devices_names[i].clone();
            let ghost prev = out@;
            out.push(d);
            proof {
                assert forall|k: int| 0 <= k < i + 1 implies models(out@)[k] == models(
                    self.devices_names@,
                )[k] by {
                    if k < i {
                        assert(out@[k] == prev[k]);
                        assert(models(out@)[k] == out@[k]@);
                        assert(models(prev)[k] == prev[k]@);
                        assert(models(prev)[k] == models(self.devices_names@).subrange(0, i as int)[k]);
                    }
                }
                assert(models(out@) =~= models(self.devices_names@).subrange(0, i + 1));
            }
            i = i + 1;
        }
        proof {
            let s = models(self.devices_names@);
            assert(models(out@) =~= s);
            assert forall|i: int, j: int|
                0 <= i < out@.len() && 0 <= j < out@.len() && i != j implies (#[trigger] out@[i])@.display_name
                != (#[trigger] out@[j])@.display_name by {
                assert(models(out@)[i] == s[i] && models(out@)[j] == s[j]);
            }
            assert forall|i: int| 0 <= i < out@.len() implies self@.by_name.contains_key(
                #[trigger] out@[i]@.display_name,
            ) && self@.by_name[out@[i]@.display_name] == out@[i]@ by {
                assert(models(out@)[i] == s[i]);
                lemma_keyed_index(s, false, i);
            }
            assert forall|k: Seq<char>| #[trigger]
                self@.by_name.contains_key(k) implies exists|i: int|
                0 <= i < out@.len() && out@[i]@.display_name == k by {
                if !(exists|i: int| 0 <= i < out@.len() && out@[i]@.display_name == k) {
                    assert forall|i: int| 0 <= i < s.len() implies key_of(#[trigger] s[i], false) != k by {
                        assert(models(out@)[i] == s[i]);
                    }
                    lemma_keyed_absent(s, false, k);
                }
            }
        }
        out
    }
}

/// Registering the same device twice asks for exactly one discovery publish;
/// registering two devices with distinct ids asks for two.
pub proof fn lemma_register_publishes_once(m: RegistryModel, d: DeviceModel, e: DeviceModel)
    requires
        !m.by_id.contains_key(d.id),
        !m.by_id.contains_key(e.id),
        d.id != e.id,
    ensures
        m.publishes(d),
        !m.register(d).publishes(d),
        m.register(d).publishes(e),
{
}

} // verus!
