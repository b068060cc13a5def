//! Listing queries over a snapshot: select pods, deployment members or
//! nodes by namespace or identifier filters. Selection is pure; printing
//! what was selected is the caller's business.

pub mod deployment;

use vstd::prelude::*;
use crate::skatelet::system::{spec_pod_deployment, spec_pod_namespace, PodView, PodmanPodInfo};
use crate::state::{spec_node_pods, ClusterState, NodeState, NodeView};

verus! {

/// Arguments of the `get` command family.
pub struct GetArgs {
    pub commands: GetCommands,
}

/// A trailing free-form identifier argument.
pub enum IdCommand {
    Id(Vec<String>),
}

/// The filters a listing accepts: an optional namespace and an
/// optional identifier.
pub struct GetObjectArgs {
    pub namespace: Option<String>,
    pub id: Option<IdCommand>,
}

/// The object kinds that can be listed.
pub enum GetCommands {
    Pod(GetObjectArgs),
    Deployment(GetObjectArgs),
    Node(GetObjectArgs),
}

/// A listing over the snapshot producing rows of type `T`.
pub trait Lister<T> {
    /// Selects the rows that pass `filters`, in snapshot order.
    fn list(&self, filters: &GetObjectArgs, state: &ClusterState) -> Vec<T>;
}

/// The namespace filter text: empty when no namespace filter was given.
pub open spec fn spec_filter_ns(args: GetObjectArgs) -> Seq<char> {
    match args.namespace {
        Some(ns) => ns@,
        None => Seq::empty(),
    }
}

/// The identifier filter text: the first identifier given, or empty.
pub open spec fn spec_filter_id(args: GetObjectArgs) -> Seq<char> {
    match args.id {
        Some(IdCommand::Id(ids)) => if ids@.len() > 0 {
            ids@[0]@
        } else {
            Seq::empty()
        },
        None => Seq::empty(),
    }
}

/// The namespace filter as the exec text.
pub fn filter_ns_string(args: &GetObjectArgs) -> (r: String)
    ensures
        r@ == spec_filter_ns(*args),
{
    match &args.namespace {
        Some(ns) => ns.clone(),
        None => String::new(),
    }
}

/// The identifier filter as the exec text.
pub fn filter_id_string(args: &GetObjectArgs) -> (r: String)
    ensures
        r@ == spec_filter_id(*args),
{
    match &args.id {
        Some(IdCommand::Id(ids)) => if ids.len() > 0 {
            ids[0].clone()
        } else {
            String::new()
        },
        None => String::new(),
    }
}

/// Whether a pod instance passes the pod listing filter: a non-empty
/// namespace filter matches its namespace label, or a non-empty
/// identifier filter matches its id or its name.
pub open spec fn spec_pod_passes(p: PodView, ns: Seq<char>, id: Seq<char>) -> bool {
    (ns.len() > 0 && spec_pod_namespace(p) == ns) || (id.len() > 0 && (p.id == id || p.name == id))
}

/// The first pod of a list that passes the pod listing filter.
pub open spec fn spec_first_passing(pods: Seq<PodView>, ns: Seq<char>, id: Seq<char>) -> Option<
    PodView,
>
    decreases pods.len(),
{
    if pods.len() == 0 {
        None
    } else if spec_pod_passes(pods[0], ns, id) {
        Some(pods[0])
    } else {
        spec_first_passing(pods.drop_first(), ns, id)
    }
}

/// The pod listing over the first `n` nodes: at most one pod per node,
/// the first one on that node that passes the filter.
pub open spec fn spec_pod_list(s: Seq<NodeView>, n: int, ns: Seq<char>, id: Seq<char>) -> Seq<
    PodView,
>
    decreases n,
{
    if n <= 0 {
        Seq::empty()
    } else {
        spec_pod_list(s, n - 1, ns, id) + match spec_first_passing(spec_node_pods(s[n - 1]), ns, id) {
            Some(p) => seq![p],
            None => Seq::empty(),
        }
    }
}

/// Whether the pod instance passes the pod listing filter (executable
/// form).
pub fn pod_passes(p: &PodmanPodInfo, ns: &String, id: &String) -> (r: bool)
    ensures
        r == spec_pod_passes(p@, ns@, id@),
{
    if ns.as_str().unicode_len() > 0 {
        let pns = p.namespace();
        if pns == *ns {
            return true;
        }
    }
    if id.as_str().unicode_len() > 0 {
        if p.id == *id || p.name == *id {
            return true;
        }
    }
    false
}

/// Lists pod instances: per node, the first pod that passes the filter.
pub struct PodLister {}

impl PodLister {
    /// The pod listing rows, in snapshot order: for each node in turn,
    /// the first pod on it that passes the filters, if any.
    pub fn select(filters: &GetObjectArgs, state: &ClusterState) -> (r: Vec<PodmanPodInfo>)
        ensures
            r@.map_values(|p: PodmanPodInfo| p@) == spec_pod_list(
                state@,
                state@.len() as int,
                spec_filter_ns(*filters),
                spec_filter_id(*filters),
            ),
    {
        let ns = filter_ns_string(filters);
        let id = filter_id_string(filters);
        let ghost s = state@;
        let mut out: Vec<PodmanPodInfo> = Vec::new();
        let mut i: usize = 0;
        proof {
            assert(out@.map_values(|p: PodmanPodInfo| p@) =~= spec_pod_list(s, 0, ns@, id@));
        }
        while i < state.nodes.len()
            invariant
                i <= s.len(),
                s == state@,
                s.len() == state.nodes.len(),
                out@.map_values(|p: PodmanPodInfo| p@) == spec_pod_list(s, i as int, ns@, id@),
                ns@ == spec_filter_ns(*filters),
                id@ == spec_filter_id(*filters),
            decreases state.nodes.len() - i,
        {
            let ghost before = out@;
            let node = &state.nodes[i];
            let mut found: bool = false;
            if let Some(si) = &node.host_info {
                if let Some(ps) = &si.pods {
                    let mut j: usize = 0;
                    proof {
                        assert(ps@.map_values(|p: PodmanPodInfo| p@).skip(0) =~= ps@.map_values(
                            |p: PodmanPodInfo| p@,
                        ));
                    }
                    while j < ps.len() && !found
                        invariant
                            j <= ps.len(),
                            s == state@,
                            i < s.len(),
                            ps@.map_values(|p: PodmanPodInfo| p@) == spec_node_pods(s[i as int]),
                            before.map_values(|p: PodmanPodInfo| p@) == spec_pod_list(
                                s,
                                i as int,
                                ns@,
                                id@,
                            ),
                            !found ==> before == out@ && spec_first_passing(
                                spec_node_pods(s[i as int]),
                                ns@,
                                id@,
                            ) == spec_first_passing(
                                spec_node_pods(s[i as int]).skip(j as int),
                                ns@,
                                id@,
                            ),
                            found ==> (spec_first_passing(spec_node_pods(s[i as int]), ns@, id@)
                                matches Some(p) && out@.map_values(|q: PodmanPodInfo| q@)
                                == before.map_values(|q: PodmanPodInfo| q@) + seq![p]),
                            ns@ == spec_filter_ns(*filters),
                            id@ == spec_filter_id(*filters),
                        decreases ps.len() - j + (if found {
                            0int
                        } else {
                            1int
                        }),
                    {
                        if pod_passes(&ps[j], &ns, &id) {
                            proof {
                                let mapped = spec_node_pods(s[i as int]);
                                assert(mapped.skip(j as int)[0] == mapped[j as int]);
                            }
                            out.push(ps[j].clone());
                            found = true;
                            proof {
                                let mapped = spec_node_pods(s[i as int]);
                                assert(out@.map_values(|q: PodmanPodInfo| q@) =~= before.map_values(
                                    |q: PodmanPodInfo| q@,
                                ) + seq![mapped[j as int]]);
                            }
                        } else {
                            proof {
                                let mapped = spec_node_pods(s[i as int]);
                                assert(mapped.skip(j as int)[0] == mapped[j as int]);
                                assert(mapped.skip(j as int).drop_first() =~= mapped.skip(
                                    j as int + 1,
                                ));
                            }
                            j = j + 1;
                        }
                    }
                    proof {
                        if !found {
                            assert(spec_node_pods(s[i as int]).skip(ps@.len() as int)
                                =~= Seq::<PodView>::empty());
                        }
                    }
                }
            }
            proof {
                if !found {
                    if s[i as int].host_info is None || s[i as int].host_info->0.pods is None {
                        assert(spec_node_pods(s[i as int]) =~= Seq::<PodView>::empty());
                    }
                    assert(spec_first_passing(spec_node_pods(s[i as int]), ns@, id@) is None);
                    assert(out@.map_values(|p: PodmanPodInfo| p@) =~= spec_pod_list(
                        s,
                        i as int + 1,
                        ns@,
                        id@,
                    ));
                } else {
                    assert(out@.map_values(|p: PodmanPodInfo| p@) =~= spec_pod_list(
                        s,
                        i as int + 1,
                        ns@,
                        id@,
                    ));
                }
            }
            i = i + 1;
        }
        out
    }
}

impl Lister<PodmanPodInfo> for PodLister {
    fn list(&self, filters: &GetObjectArgs, state: &ClusterState) -> Vec<PodmanPodInfo> {
        PodLister::select(filters, state)
    }
}

/// The namespace filter as the deployment pair listing reads it:
/// absent when none was given.
pub open spec fn spec_pair_filter_ns(args: GetObjectArgs) -> Option<Seq<char>> {
    match args.namespace {
        Some(ns) => Some(ns@),
        None => None,
    }
}

/// The identifier filter as the deployment pair listing reads it:
/// absent when no identifier argument was given at all, else the first
/// identifier or the empty string.
pub open spec fn spec_pair_filter_id(args: GetObjectArgs) -> Option<Seq<char>> {
    match args.id {
        Some(IdCommand::Id(ids)) => Some(
            if ids@.len() > 0 {
                ids@[0]@
            } else {
                Seq::empty()
            },
        ),
        None => None,
    }
}

/// Whether a pod instance belongs in the deployment pair listing: it
/// carries the deployment-group label, and either the namespace filter
/// was given and matches its namespace, or the identifier filter was
/// given and matches its deployment group.
pub open spec fn spec_pair_passes(
    p: PodView,
    ns: Option<Seq<char>>,
    id: Option<Seq<char>>,
) -> bool {
    &&& crate::skatelet::system::spec_has_label(p.labels, "skate.io/deployment"@)
    &&& ((ns matches Some(n) && spec_pod_namespace(p) == n) || (id matches Some(t)
        && spec_pod_deployment(p) == t))
}

/// The deployment pairs of one node's pods, in pod order: each passing
/// pod tagged with its deployment group.
pub open spec fn spec_pair_rows(
    pods: Seq<PodView>,
    ns: Option<Seq<char>>,
    id: Option<Seq<char>>,
) -> Seq<(Seq<char>, PodView)>
    decreases pods.len(),
{
    if pods.len() == 0 {
        Seq::empty()
    } else {
        spec_pair_rows(pods.drop_last(), ns, id) + if spec_pair_passes(pods.last(), ns, id) {
            seq![(spec_pod_deployment(pods.last()), pods.last())]
        } else {
            Seq::empty()
        }
    }
}

/// The deployment pair listing over the first `n` nodes.
pub open spec fn spec_pair_list(
    s: Seq<NodeView>,
    n: int,
    ns: Option<Seq<char>>,
    id: Option<Seq<char>>,
) -> Seq<(Seq<char>, PodView)>
    decreases n,
{
    if n <= 0 {
        Seq::empty()
    } else {
        spec_pair_list(s, n - 1, ns, id) + spec_pair_rows(spec_node_pods(s[n - 1]), ns, id)
    }
}

/// Lists every deployment-labelled pod instance across all nodes,
/// tagged with its deployment group.
pub struct DeploymentLister {}

impl DeploymentLister {
    /// The deployment pair rows, in snapshot order: every pod instance
    /// that carries the deployment-group label and passes the filters,
    /// paired with its deployment group.
    pub fn select(filters: &GetObjectArgs, state: &ClusterState) -> (r: Vec<
        (String, PodmanPodInfo),
    >)
        ensures
            r@.map_values(|e: (String, PodmanPodInfo)| (e.0@, e.1@)) == spec_pair_list(
                state@,
                state@.len() as int,
                spec_pair_filter_ns(*filters),
                spec_pair_filter_id(*filters),
            ),
    {
        let ns: Option<String> = match &filters.namespace {
            Some(n) => Some(n.clone()),
            None => None,
        };
        let id: Option<String> = match &filters.id {
            Some(IdCommand::Id(ids)) => Some(
                if ids.len() > 0 {
                    ids[0].clone()
                } else {
                    String::new()
                },
            ),
            None => None,
        };
        let ghost gns = spec_pair_filter_ns(*filters);
        let ghost gid = spec_pair_filter_id(*filters);
        proof {
            match &ns {
                Some(t) => assert(gns matches Some(g) && g == t@),
                None => assert(gns is None),
            }
            match &id {
                Some(t) => assert(gid matches Some(g) && g == t@),
                None => assert(gid is None),
            }
        }
        let dep_key = String::from_str("skate.io/deployment");
        let ghost s = state@;
        let mut out: Vec<(String, PodmanPodInfo)> = Vec::new();
        let mut i: usize = 0;
        proof {
            assert(out@.map_values(|e: (String, PodmanPodInfo)| (e.0@, e.1@)) =~= spec_pair_list(
                s,
                0,
                gns,
                gid,
            ));
        }
        while i < state.nodes.len()
            invariant
                i <= s.len(),
                s == state@,
                s.len() == state.nodes.len(),
                dep_key@ == "skate.io/deployment"@,
                out@.map_values(|e: (String, PodmanPodInfo)| (e.0@, e.1@)) == spec_pair_list(
                    s,
                    i as int,
                    gns,
                    gid,
                ),
                match &ns {
                    Some(t) => gns matches Some(g) && g == t@,
                    None => gns is None,
                },
                match &id {
                    Some(t) => gid matches Some(g) && g == t@,
                    None => gid is None,
                },
            decreases state.nodes.len() - i,
        {
            let node = &state.nodes[i];
            if let Some(si) = &node.host_info {
                if let Some(ps) = &si.pods {
                    let mut j: usize = 0;
                    proof {
                        assert(spec_node_pods(s[i as int]).take(0)
                            =~= Seq::<PodView>::empty());
                        assert(spec_pair_rows(spec_node_pods(s[i as int]).take(0), gns, gid)
                            =~= Seq::<(Seq<char>, PodView)>::empty());
                        assert(out@.map_values(|e: (String, PodmanPodInfo)| (e.0@, e.1@))
                            =~= spec_pair_list(s, i as int, gns, gid) + spec_pair_rows(
                            spec_node_pods(s[i as int]).take(0),
                            gns,
                            gid,
                        ));
                    }
                    while j < ps.len()
                        invariant
                            j <= ps.len(),
                            s == state@,
                            i < s.len(),
                            dep_key@ == "skate.io/deployment"@,
                            ps@.map_values(|p: PodmanPodInfo| p@) == spec_node_pods(s[i as int]),
                            out@.map_values(|e: (String, PodmanPodInfo)| (e.0@, e.1@))
                                == spec_pair_list(s, i as int, gns, gid) + spec_pair_rows(
                                spec_node_pods(s[i as int]).take(j as int),
                                gns,
                                gid,
                            ),
                            match &ns {
                                Some(t) => gns matches Some(g) && g == t@,
                                None => gns is None,
                            },
                            match &id {
                                Some(t) => gid matches Some(g) && g == t@,
                                None => gid is None,
                            },
                        decreases ps.len() - j,
                    {
                        let ghost mapped = spec_node_pods(s[i as int]);
                        let ghost before = out@;
                        let p = &ps[j];
                        let mut keep: bool = false;
                        if p.has_label(&dep_key) {
                            let passes_ns: bool = match &ns {
                                Some(t) => {
                                    let pns = p.namespace();
                                    pns == *t
                                },
                                None => false,
                            };
                            let passes_id: bool = match &id {
                                Some(t) => {
                                    let pdep = p.deployment();
                                    pdep == *t
                                },
                                None => false,
                            };
                            keep = passes_ns || passes_id;
                        }
                        proof {
                            assert(mapped[j as int] == ps@[j as int]@);
                            assert(keep == spec_pair_passes(mapped[j as int], gns, gid));
                        }
                        if keep {
                            let dep = p.deployment();
                            out.push((dep, p.clone()));
                            proof {
                                assert(out@.map_values(|e: (String, PodmanPodInfo)| (e.0@, e.1@))
                                    =~= before.map_values(|e: (String, PodmanPodInfo)| (e.0@, e.1@))
                                    + seq![(spec_pod_deployment(mapped[j as int]), mapped[j as int])]);
                            }
                        }
                        proof {
                            assert(mapped.take(j as int + 1).drop_last() =~= mapped.take(j as int));
                            assert(mapped.take(j as int + 1).last() == mapped[j as int]);
                            assert(out@.map_values(|e: (String, PodmanPodInfo)| (e.0@, e.1@))
                                =~= spec_pair_list(s, i as int, gns, gid) + spec_pair_rows(
                                mapped.take(j as int + 1),
                                gns,
                                gid,
                            ));
                        }
                        j = j + 1;
                    }
                    proof {
                        assert(spec_node_pods(s[i as int]).take(ps@.len() as int)
                            =~= spec_node_pods(s[i as int]));
                    }
                }
            }
            proof {
                if s[i as int].host_info is None || s[i as int].host_info->0.pods is None {
                    assert(spec_node_pods(s[i as int]) =~= Seq::<PodView>::empty());
                    assert(spec_pair_rows(spec_node_pods(s[i as int]), gns, gid)
                        =~= Seq::<(Seq<char>, PodView)>::empty());
                }
                assert(out@.map_values(|e: (String, PodmanPodInfo)| (e.0@, e.1@))
                    =~= spec_pair_list(s, i as int + 1, gns, gid));
            }
            i = i + 1;
        }
        out
    }
}

impl Lister<(String, PodmanPodInfo)> for DeploymentLister {
    fn list(&self, filters: &GetObjectArgs, state: &ClusterState) -> Vec<(String, PodmanPodInfo)> {
        DeploymentLister::select(filters, state)
    }
}

/// Whether a node passes the node listing filter: no identifier filter
/// was given, or the first identifier equals the node's name.
pub open spec fn spec_node_passes(n: NodeView, id: Option<Seq<char>>) -> bool {
    match id {
        Some(t) => n.node_name == t,
        None => true,
    }
}

/// The node listing over the first `n` nodes.
pub open spec fn spec_node_list(s: Seq<NodeView>, n: int, id: Option<Seq<char>>) -> Seq<NodeView>
    decreases n,
{
    if n <= 0 {
        Seq::empty()
    } else {
        spec_node_list(s, n - 1, id) + if spec_node_passes(s[n - 1], id) {
            seq![s[n - 1]]
        } else {
            Seq::empty()
        }
    }
}

/// The identifier filter as the node listing reads it: absent when no
/// identifier argument was given at all, else the first identifier or
/// the empty string.
pub open spec fn spec_node_filter_id(args: GetObjectArgs) -> Option<Seq<char>> {
    match args.id {
        Some(IdCommand::Id(ids)) => Some(
            if ids@.len() > 0 {
                ids@[0]@
            } else {
                Seq::empty()
            },
        ),
        None => None,
    }
}

/// Lists the nodes of the snapshot, optionally narrowed to one name.
pub struct NodeLister {}

impl NodeLister {
    /// The node listing rows, in snapshot order: every node whose name
    /// passes the identifier filter.
    pub fn select(filters: &GetObjectArgs, state: &ClusterState) -> (r: Vec<NodeState>)
        ensures
            r@.map_values(|n: NodeState| n@) == spec_node_list(
                state@,
                state@.len() as int,
                spec_node_filter_id(*filters),
            ),
    {
        let id: Option<String> = match &filters.id {
            Some(IdCommand::Id(ids)) => Some(
                if ids.len() > 0 {
                    ids[0].clone()
                } else {
                    String::new()
                },
            ),
            None => None,
        };
        let ghost gid = spec_node_filter_id(*filters);
        proof {
            match &id {
                Some(t) => assert(gid matches Some(g) && g == t@),
                None => assert(gid is None),
            }
        }
        let ghost s = state@;
        let mut out: Vec<NodeState> = Vec::new();
        let mut i: usize = 0;
        proof {
            assert(out@.map_values(|n: NodeState| n@) =~= spec_node_list(s, 0, gid));
        }
        while i < state.nodes.len()
            invariant
                i <= s.len(),
                s == state@,
                s.len() == state.nodes.len(),
                out@.map_values(|n: NodeState| n@) == spec_node_list(s, i as int, gid),
                match id {
                    Some(t) => gid matches Some(g) && g == t@,
                    None => gid is None,
                },
            decreases state.nodes.len() - i,
        {
            let ghost before = out@;
            let keep: bool = match &id {
                Some(t) => state.nodes[i].node_name == *t,
                None => true,
            };
            if keep {
                out.push(state.nodes[i].clone());
                proof {
                    assert(out@.map_values(|n: NodeState| n@) =~= before.map_values(
                        |n: NodeState| n@,
                    ) + seq![s[i as int]]);
                }
            }
            proof {
                assert(out@.map_values(|n: NodeState| n@) =~= spec_node_list(s, i as int + 1, gid));
            }
            i = i + 1;
        }
        out
    }
}

impl Lister<NodeState> for NodeLister {
    fn list(&self, filters: &GetObjectArgs, state: &ClusterState) -> Vec<NodeState> {
        NodeLister::select(filters, state)
    }
}

} // verus!
