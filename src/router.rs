//! The topic layout of the bus and the routing of inbound messages to the
//! election state and the cluster store.
use crate::cluster_nodes::{attr_written, lookup, stat_written, written, ClusterNodes};
use crate::cluster_state::ClusterState;
use crate::device::{Device, APP_NAME};
use crate::names::{clean_name, normalized};
use crate::text::{split_chars, split_on, starts_with, strs_view, suffix_from};
use vstd::prelude::*;
use vstd::string::*;

verus! {

/// Whether `serde_json` accepts the text as a JSON document.
pub uninterp spec fn is_json(s: Seq<char>) -> bool;

/// Relies on `serde_json::from_str` into a `serde_json::Value`: it succeeds
/// exactly on well-formed JSON, which depends on the text alone.
#[verifier::external_body]
fn json_well_formed(s: &str) -> (r: bool)
    ensures
        r == is_json(s@),
{
    serde_json::from_str::<serde_json::Value>(s).is_ok()
}

/// The topics this node uses.
#[derive(Debug, Clone)]
pub struct Topics {
    /// `{base}/cluster/`
    pub cluster_topic: String,
    /// `{base}/cluster/leader`: retained leadership announcements.
    pub leader_topic: String,
    /// `{base}/nodes/`: root of all per-node topics.
    pub nodes_topic: String,
    /// `{base}/nodes/{location}/avty`: this node's availability.
    pub availability_topic: String,
    /// Root of the discovery metadata topics.
    pub discovery_topic: String,
}

pub ghost struct TopicsModel {
    pub cluster_topic: Seq<char>,
    pub leader_topic: Seq<char>,
    pub nodes_topic: Seq<char>,
    pub availability_topic: Seq<char>,
    pub discovery_topic: Seq<char>,
}

impl View for Topics {
    type V = TopicsModel;

    open spec fn view(&self) -> TopicsModel {
        TopicsModel {
            cluster_topic: self.cluster_topic@,
            leader_topic: self.leader_topic@,
            nodes_topic: self.nodes_topic@,
            availability_topic: self.availability_topic@,
            discovery_topic: self.discovery_topic@,
        }
    }
}

/// An inbound message, classified.
#[derive(Debug)]
pub enum Inbound {
    /// A leadership announcement carrying the announced session identity.
    Leader(String),
    /// A node's state for one of its entities.
    Stat { node: String, entity: String, value: String },
    /// A node's attributes for one of its entities, as JSON text.
    Attr { node: String, entity: String, value: String },
    /// Any other topic or shape; dropped.
    Ignored,
}

/// Why an inbound message could not be applied.
#[derive(Debug, Clone, Copy, PartialEq, Eq, Structural)]
pub enum RouteError {
    /// An attribute payload that is not JSON.
    MalformedAttributes,
}

/// How an inbound message is classified, as mathematical values.
pub ghost enum InboundModel {
    Leader(Seq<char>),
    Stat(Seq<char>, Seq<char>, Seq<char>),
    Attr(Seq<char>, Seq<char>, Seq<char>),
    Ignored,
}

impl Inbound {
    pub open spec fn model(&self) -> InboundModel {
        match self {
            Inbound::Leader(s) => InboundModel::Leader(s@),
            Inbound::Stat { node, entity, value } => InboundModel::Stat(node@, entity@, value@),
            Inbound::Attr { node, entity, value } => InboundModel::Attr(node@, entity@, value@),
            Inbound::Ignored => InboundModel::Ignored,
        }
    }
}

/// A unique id with the `{node}_` prefix taken off, when it has it.
pub open spec fn entity_of(node: Seq<char>, uniq_id: Seq<char>) -> Seq<char> {
    let p = normalized(node) + "_"@;
    if p.is_prefix_of(uniq_id) {
        uniq_id.subrange(p.len() as int, uniq_id.len() as int)
    } else {
        uniq_id
    }
}

/// Classification of a message on `topic` with `payload`; `json_ok` tells
/// whether the payload is JSON.
pub open spec fn classify(t: TopicsModel, topic: Seq<char>, payload: Seq<char>, json_ok: bool) -> Result<
    InboundModel,
    RouteError,
> {
    if topic == t.leader_topic {
        Ok(InboundModel::Leader(payload))
    } else if t.nodes_topic.is_prefix_of(topic) {
        let parts = split_on(topic.subrange(t.nodes_topic.len() as int, topic.len() as int), '/');
        if parts.len() == 3 {
            let node = parts[0];
            let entity = entity_of(node, parts[1]);
            if parts[2] == "stat"@ {
                Ok(InboundModel::Stat(node, entity, payload))
            } else if parts[2] == "attr"@ {
                if json_ok {
                    Ok(InboundModel::Attr(node, entity, payload))
                } else {
                    Err(RouteError::MalformedAttributes)
                }
            } else {
                Ok(InboundModel::Ignored)
            }
        } else {
            Ok(InboundModel::Ignored)
        }
    } else {
        Ok(InboundModel::Ignored)
    }
}

fn string_of(s: &str) -> (r: String)
    ensures
        r@ == s@,
{
    String::from_str(s)
}

impl Topics {
    /// The topics of the node at `location` under `base_topic`.
    pub fn new(location: &str, base_topic: &str, discovery_topic: &str) -> (r: Self)
        ensures
            r@.cluster_topic == base_topic@ + "/cluster/"@,
            r@.leader_topic == base_topic@ + "/cluster/"@ + "leader"@,
            r@.nodes_topic == base_topic@ + "/nodes/"@,
            r@.availability_topic == base_topic@ + "/nodes/"@ + normalized(location@) + "/avty"@,
            r@.discovery_topic == discovery_topic@,
    {
        let mut cluster_topic = string_of(base_topic);
        cluster_topic.append("/cluster/");
        let mut leader_topic = cluster_topic.clone();
        leader_topic.append("leader");
        let mut nodes_topic = string_of(base_topic);
        nodes_topic.append("/nodes/");
        let mut availability_topic = nodes_topic.clone();
        let loc = clean_name(location);
        availability_topic.append(loc.as_str());
        availability_topic.append("/avty");
        Topics {
            cluster_topic,
            leader_topic,
            nodes_topic,
            availability_topic,
            discovery_topic: string_of(discovery_topic),
        }
    }

    /// `{discovery}/{device type}/{app}/{unique id}/config`: where the
    /// discovery metadata of `device` is published.
    pub fn discovery_config_topic(&self, device: &Device) -> (r: String)
        ensures
            r@ == self@.discovery_topic + "/"@ + device@.typ.spec_label() + "/"@ + APP_NAME@ + "/"@
                + device@.uniq_id() + "/config"@,
    {
        let mut t = self.discovery_topic.clone();
        t.append("/");
        let ty = device.device_type();
        t.append(ty.as_str());
        t.append("/");
        t.append(APP_NAME);
        t.append("/");
        let u = device.uniq_id();
        t.append(u.as_str());
        t.append("/config");
        t
    }

    /// Classifies a message, given whether its payload is JSON.
    pub fn route_checked(&self, topic: &str, payload: String, json_ok: bool) -> (r: Result<
        Inbound,
        RouteError,
    >)
        ensures
            match r {
                Ok(i) => classify(self@, topic@, payload@, json_ok) == Ok::<
                    InboundModel,
                    RouteError,
                >(i.model()),
                Err(e) => classify(self@, topic@, payload@, json_ok) == Err::<InboundModel, RouteError>(
                    e,
                ),
            },
    {
        let owned_topic = topic.to_owned();
        if owned_topic == self.leader_topic {
            return Ok(Inbound::Leader(payload));
        }
        if !starts_with(topic, self.nodes_topic.as_str()) {
            return Ok(Inbound::Ignored);
        }
        let suffix = suffix_from(topic, self.nodes_topic.unicode_len());
        let parts = split_chars(suffix.as_str(), '/');
        if parts.len() != 3 {
            return Ok(Inbound::Ignored);
        }
        proof {
            assert(strs_view(parts@)[0] == parts@[0]@);
            assert(strs_view(parts@)[1] == parts@[1]@);
            assert(strs_view(parts@)[2] == parts@[2]@);
        }
        let node = parts[0].clone();
        let mut prefix = clean_name(node.as_str());
        prefix.append("_");
        let uid = parts[1].as_str();
        let entity = if starts_with(uid, prefix.as_str()) {
            suffix_from(uid, prefix.unicode_len())
        } else {
            uid.to_owned()
        };
        let kind = parts[2].as_str();
        let stat = string_of("stat");
        let attr = string_of("attr");
        let k = kind.to_owned();
        if k == stat {
            Ok(Inbound::Stat { node, entity, value: payload })
        } else if k == attr {
            if json_ok {
                Ok(Inbound::Attr { node, entity, value: payload })
            } else {
                Err(RouteError::MalformedAttributes)
            }
        } else {
            Ok(Inbound::Ignored)
        }
    }

    /// Classifies a message: the leader topic exactly, or a per-node topic
    /// `{node}/{unique id}/{stat|attr}` under the nodes root.
    pub fn route(&self, topic: &str, payload: String) -> (r: Result<Inbound, RouteError>)
        ensures
            match r {
                Ok(i) => classify(self@, topic@, payload@, is_json(payload@)) == Ok::<
                    InboundModel,
                    RouteError,
                >(i.model()),
                Err(e) => classify(self@, topic@, payload@, is_json(payload@)) == Err::<
                    InboundModel,
                    RouteError,
                >(e),
            },
    {
        let ok = json_well_formed(payload.as_str());
        self.route_checked(topic, payload, ok)
    }

    /// Routes a message and applies it: an announcement updates the election
    /// state, a stat or attribute update the cluster store.
    pub fn handle_message(
        &self,
        state: &mut ClusterState,
        nodes: &mut ClusterNodes,
        topic: &str,
        payload: String,
        now: u64,
    ) -> (r: Result<(), RouteError>)
        requires
            old(nodes).wf(),
        ensures
            final(nodes).wf(),
            match classify(self@, topic@, payload@, is_json(payload@)) {
                Ok(InboundModel::Leader(id)) => r is Ok && final(state)@ == old(state)@.observe(
                    id,
                    now as int,
                ) && final(nodes)@ == old(nodes)@,
                Ok(InboundModel::Stat(n, e, v)) => r is Ok && final(state)@ == old(state)@
                    && written(
                    old(nodes)@,
                    final(nodes)@,
                    n,
                    e,
                    stat_written(lookup(old(nodes)@, n, e), v),
                ),
                Ok(InboundModel::Attr(n, e, v)) => r is Ok && final(state)@ == old(state)@
                    && written(
                    old(nodes)@,
                    final(nodes)@,
                    n,
                    e,
                    attr_written(lookup(old(nodes)@, n, e), v),
                ),
                Ok(InboundModel::Ignored) => r is Ok && final(state)@ == old(state)@ && final(nodes)@ == old(nodes)@,
                Err(e) => r == Err::<(), RouteError>(e) && final(state)@ == old(state)@ && final(nodes)@ == old(nodes)@,
            },
    {
        match self.route(topic, payload) {
            Ok(Inbound::Leader(id)) => {
                state.set_leader(id, now);
                Ok(())
            },
            Ok(Inbound::Stat { node, entity, value }) => {
                nodes.update_stat(node.as_str(), entity.as_str(), value);
                Ok(())
            },
            Ok(Inbound::Attr { node, entity, value }) => {
                nodes.update_attr(node.as_str(), entity.as_str(), value);
                Ok(())
            },
            Ok(Inbound::Ignored) => Ok(()),
            Err(e) => Err(e),
        }
    }
}

} // verus!
