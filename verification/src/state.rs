//! The cluster state snapshot: an immutable, point-in-time view of every
//! node's health and telemetry, and the queries the scheduler makes of it —
//! where does a resource currently live, and how loaded is each node.

use vstd::prelude::*;
use crate::skatelet::system::{
    spec_pod_deployment, spec_pod_namespace, PodView, PodmanPodInfo, SystemInfo, SystemInfoView,
};

verus! {

/// Health of a node at snapshot time. A node is marked [`NodeStatus::Unhealthy`]
/// (with absent telemetry) when it was unreachable at the last refresh.
#[derive(Clone, Copy, Debug, PartialEq, Eq, Structural)]
pub enum NodeStatus {
    Healthy,
    Unhealthy,
}

/// One node's entry in the snapshot: identifier, health, and the telemetry
/// gathered at the last refresh, if the node was reachable.
pub struct NodeState {
    pub node_name: String,
    pub status: NodeStatus,
    pub host_info: Option<SystemInfo>,
}

/// Mathematical image of a [`NodeState`].
#[verifier::ext_equal]
pub ghost struct NodeView {
    pub node_name: Seq<char>,
    pub status: NodeStatus,
    pub host_info: Option<SystemInfoView>,
}

impl View for NodeState {
    type V = NodeView;

    open spec fn view(&self) -> NodeView {
        NodeView {
            node_name: self.node_name@,
            status: self.status,
            host_info: match self.host_info {
                Some(si) => Some(si@),
                None => None,
            },
        }
    }
}

impl Clone for NodeState {
    fn clone(&self) -> (r: Self)
        ensures
            r@ == self@,
    {
        NodeState {
            node_name: self.node_name.clone(),
            status: self.status,
            host_info: match &self.host_info {
                Some(si) => Some(si.clone()),
                None => None,
            },
        }
    }
}

/// The pod instances a node reported in its last telemetry; empty when the
/// telemetry, or its pod list, is absent.
pub open spec fn spec_node_pods(n: NodeView) -> Seq<PodView> {
    match n.host_info {
        Some(si) => match si.pods {
            Some(ps) => ps,
            None => Seq::empty(),
        },
        None => Seq::empty(),
    }
}

/// The load of a node: how many pod instances its last telemetry reported,
/// or zero when telemetry is absent.
pub open spec fn spec_node_load(n: NodeView) -> nat {
    spec_node_pods(n).len()
}

/// Whether a pod instance is the given Pod resource: same name, same
/// namespace (the namespace read from the instance's labels).
pub open spec fn spec_pod_matches(p: PodView, name: Seq<char>, ns: Seq<char>) -> bool {
    p.name == name && spec_pod_namespace(p) == ns
}

/// Whether a pod instance is a member of the given Deployment resource:
/// its deployment-group label equals the resource name and its namespace
/// label equals the resource namespace.
pub open spec fn spec_dep_matches(p: PodView, name: Seq<char>, ns: Seq<char>) -> bool {
    spec_pod_deployment(p) == name && spec_pod_namespace(p) == ns
}

/// Whether any node of the snapshot carries a pod instance matching the
/// given Pod resource identity.
pub open spec fn spec_has_pod_match(s: Seq<NodeView>, name: Seq<char>, ns: Seq<char>) -> bool {
    exists|i: int, j: int|
        0 <= i < s.len() && 0 <= j < spec_node_pods(s[i]).len() && spec_pod_matches(
            #[trigger] spec_node_pods(s[i])[j],
            name,
            ns,
        )
}

/// Whether any node of the snapshot carries a member of the given
/// Deployment resource.
pub open spec fn spec_has_dep_match(s: Seq<NodeView>, name: Seq<char>, ns: Seq<char>) -> bool {
    exists|i: int, j: int|
        0 <= i < s.len() && 0 <= j < spec_node_pods(s[i]).len() && spec_dep_matches(
            #[trigger] spec_node_pods(s[i])[j],
            name,
            ns,
        )
}

/// Whether the pod instance is the given Pod resource (executable form).
pub fn pod_matches(p: &PodmanPodInfo, name: &String, ns: &String) -> (r: bool)
    ensures
        r == spec_pod_matches(p@, name@, ns@),
{
    if !(p.name == *name) {
        return false;
    }
    let pns = p.namespace();
    pns == *ns
}

/// Whether the pod instance is a member of the given Deployment resource
/// (executable form).
pub fn dep_matches(p: &PodmanPodInfo, name: &String, ns: &String) -> (r: bool)
    ensures
        r == spec_dep_matches(p@, name@, ns@),
{
    let dep = p.deployment();
    if !(dep == *name) {
        return false;
    }
    let pns = p.namespace();
    pns == *ns
}

/// What a successful or empty Pod location means: a `Some` holds the
/// first matching position in snapshot order; a `None` means no pod
/// instance anywhere matches.
pub open spec fn spec_pod_located_ok(
    s: Seq<NodeView>,
    name: Seq<char>,
    ns: Seq<char>,
    r: Option<(usize, usize)>,
) -> bool {
    match r {
        Some((i, j)) => 0 <= i < s.len() && 0 <= j < spec_node_pods(s[i as int]).len()
            && spec_pod_matches(spec_node_pods(s[i as int])[j as int], name, ns) && forall|
            k: int,
            l: int,
        |
            0 <= k < s.len() && 0 <= l < spec_node_pods(s[k]).len() && (k < i || (k == i && l < j))
                ==> !spec_pod_matches(#[trigger] spec_node_pods(s[k])[l], name, ns),
        None => !spec_has_pod_match(s, name, ns),
    }
}

/// What a located Deployment means: `refs` lists, in strictly increasing
/// snapshot order, the positions of every member pod instance across all
/// nodes, and `node` is the node of the first member.
pub open spec fn spec_dep_refs_ok(
    s: Seq<NodeView>,
    name: Seq<char>,
    ns: Seq<char>,
    refs: Seq<(usize, usize)>,
    node: usize,
) -> bool {
    &&& refs.len() > 0
    &&& node == refs[0].0
    &&& forall|m: int|
        0 <= m < refs.len() ==> 0 <= #[trigger] refs[m].0 < s.len() && 0 <= refs[m].1
            < spec_node_pods(s[refs[m].0 as int]).len() && spec_dep_matches(
            spec_node_pods(s[refs[m].0 as int])[refs[m].1 as int],
            name,
            ns,
        )
    &&& forall|m: int|
        0 < m < refs.len() ==> (#[trigger] refs[m - 1].0 < refs[m].0 || (refs[m - 1].0 == refs[m].0
            && refs[m - 1].1 < refs[m].1))
    &&& forall|k: int, l: int|
        0 <= k < s.len() && 0 <= l < spec_node_pods(s[k]).len() && spec_dep_matches(
            #[trigger] spec_node_pods(s[k])[l],
            name,
            ns,
        ) ==> refs.contains((k as usize, l as usize))
}

/// Immutable, point-in-time view of the whole fleet, in a fixed node order.
/// Produced by an external refresher; read-only for the scheduler.
pub struct ClusterState {
    pub nodes: Vec<NodeState>,
}

impl View for ClusterState {
    type V = Seq<NodeView>;

    open spec fn view(&self) -> Seq<NodeView> {
        self.nodes@.map_values(|n: NodeState| n@)
    }
}

impl ClusterState {
    /// The load of the node at position `i`: pod instances reported in its
    /// last telemetry, or zero when telemetry is absent.
    pub fn node_load(&self, i: usize) -> (r: usize)
        requires
            i < self@.len(),
        ensures
            r == spec_node_load(self@[i as int]),
    {
        match &self.nodes[i].host_info {
            Some(si) => match &si.pods {
                Some(ps) => ps.len(),
                None => 0,
            },
            None => 0,
        }
    }

    /// Scans every node's pod instances for the given Pod resource identity
    /// and returns the position of the first match in snapshot order:
    /// `(node index, pod index)`. Returns `None` exactly when no pod
    /// instance anywhere matches.
    pub fn locate_pod(&self, name: &String, ns: &String) -> (r: Option<(usize, usize)>)
        ensures
            spec_pod_located_ok(self@, name@, ns@, r),
    {
        let ghost s = self@;
        let mut i: usize = 0;
        while i < self.nodes.len()
            invariant
                i <= s.len(),
                s == self@,
                s.len() == self.nodes.len(),
                forall|k: int, l: int|
                    0 <= k < i && 0 <= l < spec_node_pods(s[k]).len() ==> !spec_pod_matches(
                        #[trigger] spec_node_pods(s[k])[l],
                        name@,
                        ns@,
                    ),
            decreases self.nodes.len() - i,
        {
            let node = &self.nodes[i];
            if let Some(si) = &node.host_info {
                if let Some(ps) = &si.pods {
                    let mut j: usize = 0;
                    while j < ps.len()
                        invariant
                            i < s.len(),
                            s == self@,
                            j <= ps.len(),
                            ps@.map_values(|p: PodmanPodInfo| p@) == spec_node_pods(s[i as int]),
                            forall|k: int, l: int|
                                0 <= k < i && 0 <= l < spec_node_pods(s[k]).len()
                                    ==> !spec_pod_matches(
                                    #[trigger] spec_node_pods(s[k])[l],
                                    name@,
                                    ns@,
                                ),
                            forall|l: int|
                                0 <= l < j ==> !spec_pod_matches(
                                    #[trigger] spec_node_pods(s[i as int])[l],
                                    name@,
                                    ns@,
                                ),
                        decreases ps.len() - j,
                    {
                        if pod_matches(&ps[j], name, ns) {
                            return Some((i, j));
                        }
                        j = j + 1;
                    }
                }
            }
            i = i + 1;
        }
        None
    }

    /// Scans every node for members of the given Deployment resource and
    /// returns all of them, in snapshot order, as `(node index, pod index)`
    /// positions, together with the node index of the first member found.
    /// Members are collected across all nodes, regardless of which node
    /// each one is on. Returns `None` exactly when no member exists.
    pub fn locate_deployment(&self, name: &String, ns: &String) -> (r: Option<
        (Vec<(usize, usize)>, usize),
    >)
        ensures
            match r {
                Some((refs, node)) => spec_dep_refs_ok(self@, name@, ns@, refs@, node),
                None => !spec_has_dep_match(self@, name@, ns@),
            },
    {
        let ghost s = self@;
        let mut refs: Vec<(usize, usize)> = Vec::new();
        let mut i: usize = 0;
        while i < self.nodes.len()
            invariant
                i <= s.len(),
                s == self@,
                s.len() == self.nodes.len(),
                forall|m: int|
                    0 <= m < refs@.len() ==> 0 <= #[trigger] refs@[m].0 < i && 0 <= refs@[m].1
                        < spec_node_pods(s[refs@[m].0 as int]).len() && spec_dep_matches(
                        spec_node_pods(s[refs@[m].0 as int])[refs@[m].1 as int],
                        name@,
                        ns@,
                    ),
                forall|m: int|
                    0 < m < refs@.len() ==> (#[trigger] refs@[m - 1].0 < refs@[m].0 || (refs@[m
                        - 1].0 == refs@[m].0 && refs@[m - 1].1 < refs@[m].1)),
                forall|k: int, l: int|
                    0 <= k < i && 0 <= l < spec_node_pods(s[k]).len() && spec_dep_matches(
                        #[trigger] spec_node_pods(s[k])[l],
                        name@,
                        ns@,
                    ) ==> refs@.contains((k as usize, l as usize)),
            decreases self.nodes.len() - i,
        {
            let node = &self.nodes[i];
            if let Some(si) = &node.host_info {
                if let Some(ps) = &si.pods {
                    let mut j: usize = 0;
                    while j < ps.len()
                        invariant
                            i < s.len(),
                            s == self@,
                            s.len() == self.nodes.len(),
                            j <= ps.len(),
                            ps@.map_values(|p: PodmanPodInfo| p@) == spec_node_pods(s[i as int]),
                            forall|m: int|
                                0 <= m < refs@.len() ==> (0 <= #[trigger] refs@[m].0 < i || (refs@[
                                    m
                                ].0 == i && refs@[m].1 < j)) && 0 <= refs@[m].1 < spec_node_pods(
                                    s[refs@[m].0 as int],
                                ).len() && spec_dep_matches(
                                    spec_node_pods(s[refs@[m].0 as int])[refs@[m].1 as int],
                                    name@,
                                    ns@,
                                ),
                            forall|m: int|
                                0 < m < refs@.len() ==> (#[trigger] refs@[m - 1].0 < refs@[m].0 || (
                                refs@[m - 1].0 == refs@[m].0 && refs@[m - 1].1 < refs@[m].1)),
                            forall|k: int, l: int|
                                0 <= k < i && 0 <= l < spec_node_pods(s[k]).len()
                                    && spec_dep_matches(
                                    #[trigger] spec_node_pods(s[k])[l],
                                    name@,
                                    ns@,
                                ) ==> refs@.contains((k as usize, l as usize)),
                            forall|l: int|
                                0 <= l < j && spec_dep_matches(
                                    #[trigger] spec_node_pods(s[i as int])[l],
                                    name@,
                                    ns@,
                                ) ==> refs@.contains((i, l as usize)),
                        decreases ps.len() - j,
                    {
                        if dep_matches(&ps[j], name, ns) {
                            let ghost old_refs = refs@;
                            refs.push((i, j));
                            proof {
                                assert(refs@[refs@.len() - 1] == (i, j));
                                assert(refs@.contains((i, j)));
                                assert forall|e: (usize, usize)| #[trigger]
                                    old_refs.contains(e) implies refs@.contains(e) by {
                                    let m = choose|m: int|
                                        0 <= m < old_refs.len() && old_refs[m] == e;
                                    assert(refs@[m] == e);
                                }
                            }
                        }
                        j = j + 1;
                    }
                }
            }
            i = i + 1;
        }
        if refs.len() > 0 {
            let node = refs[0].0;
            Some((refs, node))
        } else {
            proof {
                assert(!spec_has_dep_match(s, name@, ns@)) by {
                    if spec_has_dep_match(s, name@, ns@) {
                        let (i0, j0) = choose|i0: int, j0: int|
                            0 <= i0 < s.len() && 0 <= j0 < spec_node_pods(s[i0]).len()
                                && spec_dep_matches(
                                #[trigger] spec_node_pods(s[i0])[j0],
                                name@,
                                ns@,
                            );
                        assert(refs@.contains((i0 as usize, j0 as usize)));
                    }
                }
            }
            None
        }
    }
}

} // verus!
