//! The deployment listing: group the deployment-labelled pod instances
//! of the snapshot by deployment and namespace, and summarize each
//! group's readiness and age.
//!
//! A pod instance is a member when its deployment-group label is
//! non-empty and it passes the filters: an empty namespace filter or
//! one equal to its namespace label, and an empty identifier filter or
//! one equal to its deployment group. Group namespaces default to
//! `default` when the namespace label is missing.

use vstd::prelude::*;
use crate::get::{spec_filter_id, spec_filter_ns, filter_id_string, filter_ns_string, GetObjectArgs, Lister};
use crate::skatelet::system::{spec_pod_deployment, spec_pod_namespace, PodView, PodmanPodInfo};
use crate::state::{spec_node_pods, ClusterState, NodeView};
use crate::util::{spec_age_text, spec_digits, age, u64_to_string, NamespacedName, NamespacedNameView};

verus! {

/// One row of the deployment listing.
pub struct DeploymentListItem {
    pub namespace: String,
    pub name: String,
    pub ready: String,
    pub up_to_date: String,
    pub available: String,
    pub age: String,
}

/// The group identity an item reports.
pub open spec fn spec_item_key(it: DeploymentListItem) -> NamespacedNameView {
    NamespacedNameView { name: it.name@, namespace: it.namespace@ }
}

/// The group a member pod instance belongs to: its deployment group,
/// in its namespace label's namespace or `default` when that label is
/// missing.
#[verifier::opaque]
pub open spec fn spec_group_key(p: PodView) -> NamespacedNameView {
    NamespacedNameView {
        name: spec_pod_deployment(p),
        namespace: if spec_pod_namespace(p).len() == 0 {
            "default"@
        } else {
            spec_pod_namespace(p)
        },
    }
}

/// Whether a pod instance is a member of the deployment listing under
/// the given filters.
pub open spec fn spec_member_passes(p: PodView, ns: Seq<char>, id: Seq<char>) -> bool {
    &&& spec_pod_deployment(p).len() > 0
    &&& (ns.len() == 0 || spec_pod_namespace(p) == ns)
    &&& (id.len() == 0 || spec_pod_deployment(p) == id)
}

/// The members of one node's pod list, in pod order.
pub open spec fn spec_members_of(pods: Seq<PodView>, ns: Seq<char>, id: Seq<char>) -> Seq<PodView>
    decreases pods.len(),
{
    if pods.len() == 0 {
        Seq::empty()
    } else {
        spec_members_of(pods.drop_last(), ns, id) + if spec_member_passes(pods.last(), ns, id) {
            seq![pods.last()]
        } else {
            Seq::empty()
        }
    }
}

/// All members across the first `n` nodes, in snapshot order.
pub open spec fn spec_members(s: Seq<NodeView>, n: int, ns: Seq<char>, id: Seq<char>) -> Seq<
    PodView,
>
    decreases n,
{
    if n <= 0 {
        Seq::empty()
    } else {
        spec_members(s, n - 1, ns, id) + spec_members_of(spec_node_pods(s[n - 1]), ns, id)
    }
}

/// How many members belong to the given group.
pub open spec fn spec_count_all(ms: Seq<PodView>, key: NamespacedNameView) -> nat
    decreases ms.len(),
{
    if ms.len() == 0 {
        0
    } else {
        spec_count_all(ms.drop_last(), key) + if spec_group_key(ms.last()) == key {
            1nat
        } else {
            0nat
        }
    }
}

/// How many members of the given group report the running status.
pub open spec fn spec_count_running(ms: Seq<PodView>, key: NamespacedNameView) -> nat
    decreases ms.len(),
{
    if ms.len() == 0 {
        0
    } else {
        spec_count_running(ms.drop_last(), key) + if spec_group_key(ms.last()) == key
            && ms.last().status == "Running"@ {
            1nat
        } else {
            0nat
        }
    }
}

/// The earliest creation time among the group's members, starting from
/// `init` (the time of the listing).
pub open spec fn spec_min_created(ms: Seq<PodView>, key: NamespacedNameView, init: u64) -> u64
    decreases ms.len(),
{
    if ms.len() == 0 {
        init
    } else {
        if spec_group_key(ms.last()) == key && ms.last().created < spec_min_created(
            ms.drop_last(),
            key,
            init,
        ) {
            ms.last().created
        } else {
            spec_min_created(ms.drop_last(), key, init)
        }
    }
}

/// Everything one listing row promises about its group: identity,
/// ready / up-to-date / available counters, and age derived from the
/// earliest member.
#[verifier::opaque]
pub open spec fn spec_item_ok(
    ms: Seq<PodView>,
    now: u64,
    it: DeploymentListItem,
) -> bool {
    let key = spec_item_key(it);
    let all = spec_count_all(ms, key);
    let running = spec_count_running(ms, key);
    let created = spec_min_created(ms, key, now);
    &&& it.ready@ == spec_digits(running) + "/"@ + spec_digits(all)
    &&& it.up_to_date@ == spec_digits(all)
    &&& it.available@ == spec_digits(running)
    &&& it.age@ == spec_age_text(
        if created <= now {
            (now - created) as u64
        } else {
            0u64
        },
    )
}

/// Lists deployments: one row per deployment group observed on the
/// snapshot, summarizing its members. The listing is taken at a fixed
/// time `now` (seconds since the Unix epoch), which ages are measured
/// against.
pub struct DeploymentLister {
    pub now: u64,
}

/// How many members belong to the given group (executable form).
fn count_all(ms: &Vec<PodmanPodInfo>, key: &NamespacedName) -> (c: usize)
    ensures
        c == spec_count_all(ms@.map_values(|p: PodmanPodInfo| p@), key@),
{
    let ghost mapped = ms@.map_values(|p: PodmanPodInfo| p@);
    let mut c: usize = 0;
    let mut j: usize = 0;
    proof {
        assert(mapped.take(0) =~= Seq::<PodView>::empty());
    }
    while j < ms.len()
        invariant
            j <= ms@.len(),
            mapped == ms@.map_values(|p: PodmanPodInfo| p@),
            c <= j,
            c == spec_count_all(mapped.take(j as int), key@),
        decreases ms@.len() - j,
    {
        let gk = group_key_of(&ms[j]);
        proof {
            assert(mapped.take(j as int + 1).drop_last() =~= mapped.take(j as int));
            assert(mapped.take(j as int + 1).last() == mapped[j as int]);
        }
        if gk.name == key.name && gk.namespace == key.namespace {
            c = c + 1;
        }
        j = j + 1;
    }
    proof {
        assert(mapped.take(ms@.len() as int) =~= mapped);
    }
    c
}

/// How many members of the given group report the running status
/// (executable form).
fn count_running(ms: &Vec<PodmanPodInfo>, key: &NamespacedName) -> (c: usize)
    ensures
        c == spec_count_running(ms@.map_values(|p: PodmanPodInfo| p@), key@),
{
    let running_text = String::from_str("Running");
    let ghost mapped = ms@.map_values(|p: PodmanPodInfo| p@);
    let mut c: usize = 0;
    let mut j: usize = 0;
    proof {
        assert(mapped.take(0) =~= Seq::<PodView>::empty());
    }
    while j < ms.len()
        invariant
            j <= ms@.len(),
            mapped == ms@.map_values(|p: PodmanPodInfo| p@),
            running_text@ == "Running"@,
            c <= j,
            c == spec_count_running(mapped.take(j as int), key@),
        decreases ms@.len() - j,
    {
        let gk = group_key_of(&ms[j]);
        proof {
            assert(mapped.take(j as int + 1).drop_last() =~= mapped.take(j as int));
            assert(mapped.take(j as int + 1).last() == mapped[j as int]);
        }
        if gk.name == key.name && gk.namespace == key.namespace && ms[j].status == running_text {
            c = c + 1;
        }
        j = j + 1;
    }
    proof {
        assert(mapped.take(ms@.len() as int) =~= mapped);
    }
    c
}

/// The earliest creation time among the group's members, starting from
/// `init` (executable form).
fn min_created(ms: &Vec<PodmanPodInfo>, key: &NamespacedName, init: u64) -> (r: u64)
    ensures
        r == spec_min_created(ms@.map_values(|p: PodmanPodInfo| p@), key@, init),
{
    let ghost mapped = ms@.map_values(|p: PodmanPodInfo| p@);
    let mut r: u64 = init;
    let mut j: usize = 0;
    proof {
        assert(mapped.take(0) =~= Seq::<PodView>::empty());
    }
    while j < ms.len()
        invariant
            j <= ms@.len(),
            mapped == ms@.map_values(|p: PodmanPodInfo| p@),
            r == spec_min_created(mapped.take(j as int), key@, init),
        decreases ms@.len() - j,
    {
        let gk = group_key_of(&ms[j]);
        proof {
            assert(mapped.take(j as int + 1).drop_last() =~= mapped.take(j as int));
            assert(mapped.take(j as int + 1).last() == mapped[j as int]);
        }
        if gk.name == key.name && gk.namespace == key.namespace && ms[j].created < r {
            r = ms[j].created;
        }
        j = j + 1;
    }
    proof {
        assert(mapped.take(ms@.len() as int) =~= mapped);
    }
    r
}

/// Builds the listing row for one group: its counters and age are
/// computed over every member of that group.
fn build_item(members: &Vec<PodmanPodInfo>, key: NamespacedName, now: u64) -> (item:
    DeploymentListItem)
    ensures
        spec_item_key(item) == key@,
        spec_item_ok(members@.map_values(|p: PodmanPodInfo| p@), now, item),
{
    proof {
        reveal(spec_item_ok);
    }
    let all = count_all(members, &key);
    let running = count_running(members, &key);
    let created = min_created(members, &key, now);
    let mut ready = u64_to_string(running as u64);
    ready.append("/");
    let all_text = u64_to_string(all as u64);
    ready.append(all_text.as_str());
    DeploymentListItem {
        namespace: key.namespace,
        name: key.name,
        ready,
        up_to_date: all_text.clone(),
        available: u64_to_string(running as u64),
        age: age(now, created),
    }
}

/// The group of a member pod instance (executable form).
fn group_key_of(p: &PodmanPodInfo) -> (r: NamespacedName)
    ensures
        r@ == spec_group_key(p@),
{
    proof {
        reveal(spec_group_key);
    }
    let name = p.deployment();
    let pns = p.namespace();
    let namespace = if pns.as_str().is_empty() {
        String::from_str("default")
    } else {
        pns
    };
    NamespacedName { name, namespace }
}

/// Whether the member at `k` passes the listing filters (executable
/// form).
fn member_passes(p: &PodmanPodInfo, ns: &String, id: &String) -> (r: bool)
    ensures
        r == spec_member_passes(p@, ns@, id@),
{
    let dep = p.deployment();
    if dep.as_str().is_empty() {
        return false;
    }
    if !ns.as_str().is_empty() {
        let pns = p.namespace();
        if !(pns == *ns) {
            return false;
        }
    }
    if !id.as_str().is_empty() {
        if !(dep == *id) {
            return false;
        }
    }
    true
}

/// Collects every member across all nodes, in snapshot order.
fn collect_members(filters: &GetObjectArgs, state: &ClusterState) -> (r: Vec<PodmanPodInfo>)
    ensures
        r@.map_values(|p: PodmanPodInfo| p@) == spec_members(
            state@,
            state@.len() as int,
            spec_filter_ns(*filters),
            spec_filter_id(*filters),
        ),
{
    let ns = filter_ns_string(filters);
    let id = filter_id_string(filters);
    let ghost s = state@;
    let mut out: Vec<PodmanPodInfo> = Vec::new();
    let mut i: usize = 0;
    proof {
        assert(out@.map_values(|p: PodmanPodInfo| p@) =~= spec_members(s, 0, ns@, id@));
    }
    while i < state.nodes.len()
        invariant
            i <= s.len(),
            s == state@,
            s.len() == state.nodes.len(),
            ns@ == spec_filter_ns(*filters),
            id@ == spec_filter_id(*filters),
            out@.map_values(|p: PodmanPodInfo| p@) == spec_members(s, i as int, ns@, id@),
        decreases state.nodes.len() - i,
    {
        let node = &state.nodes[i];
        if let Some(si) = &node.host_info {
            if let Some(ps) = &si.pods {
                let mut j: usize = 0;
                proof {
                    assert(spec_node_pods(s[i as int]).take(0) =~= Seq::<PodView>::empty());
                    assert(spec_members_of(spec_node_pods(s[i as int]).take(0), ns@, id@)
                        =~= Seq::<PodView>::empty());
                    assert(out@.map_values(|p: PodmanPodInfo| p@) =~= spec_members(
                        s,
                        i as int,
                        ns@,
                        id@,
                    ) + spec_members_of(spec_node_pods(s[i as int]).take(0), ns@, id@));
                }
                while j < ps.len()
                    invariant
                        j <= ps.len(),
                        s == state@,
                        i < s.len(),
                        ns@ == spec_filter_ns(*filters),
                        id@ == spec_filter_id(*filters),
                        ps@.map_values(|p: PodmanPodInfo| p@) == spec_node_pods(s[i as int]),
                        out@.map_values(|p: PodmanPodInfo| p@) == spec_members(s, i as int, ns@, id@)
                            + spec_members_of(
                            spec_node_pods(s[i as int]).take(j as int),
                            ns@,
                            id@,
                        ),
                    decreases ps.len() - j,
                {
                    let ghost mapped = spec_node_pods(s[i as int]);
                    let ghost before = out@;
                    if member_passes(&ps[j], &ns, &id) {
                        out.push(ps[j].clone());
                        proof {
                            assert(out@.map_values(|p: PodmanPodInfo| p@) =~= before.map_values(
                                |p: PodmanPodInfo| p@,
                            ) + seq![mapped[j as int]]);
                        }
                    }
                    proof {
                        assert(mapped.take(j as int + 1).drop_last() =~= mapped.take(j as int));
                        assert(mapped.take(j as int + 1).last() == mapped[j as int]);
                        assert(out@.map_values(|p: PodmanPodInfo| p@) =~= spec_members(
                            s,
                            i as int,
                            ns@,
                            id@,
                        ) + spec_members_of(mapped.take(j as int + 1), ns@, id@));
                    }
                    j = j + 1;
                }
                proof {
                    assert(spec_node_pods(s[i as int]).take(ps@.len() as int) =~= spec_node_pods(
                        s[i as int],
                    ));
                }
            }
        }
        proof {
            if s[i as int].host_info is None || s[i as int].host_info->0.pods is None {
                assert(spec_node_pods(s[i as int]) =~= Seq::<PodView>::empty());
                assert(spec_members_of(spec_node_pods(s[i as int]), ns@, id@)
                    =~= Seq::<PodView>::empty());
            }
            assert(out@.map_values(|p: PodmanPodInfo| p@) =~= spec_members(
                s,
                i as int + 1,
                ns@,
                id@,
            ));
        }
        i = i + 1;
    }
    out
}

/// Everything the deployment listing promises about its rows, after
/// the first `k` members have been taken into account: each row
/// summarizes its group exactly ([`spec_item_ok`]) and is the group of
/// one of those members; each of those members' groups has a row; and
/// no two rows report the same group.
#[verifier::opaque]
pub open spec fn spec_listing_ok(
    ms: Seq<PodView>,
    now: u64,
    items: Seq<DeploymentListItem>,
    k: int,
) -> bool {
    &&& forall|g: int| #![trigger items[g]]
        0 <= g < items.len() ==> spec_item_ok(ms, now, items[g])
    &&& forall|g: int| #![trigger items[g]]
        0 <= g < items.len() ==> (exists|k2: int| #![trigger ms[k2]]
            0 <= k2 < k && spec_group_key(ms[k2]) == spec_item_key(items[g]))
    &&& forall|k2: int| #![trigger ms[k2]]
        0 <= k2 < k ==> (exists|g: int| #![trigger items[g]]
            0 <= g < items.len() && spec_item_key(items[g]) == spec_group_key(ms[k2]))
    &&& forall|g1: int, g2: int| #![trigger items[g1], items[g2]]
        0 <= g1 < g2 < items.len() ==> spec_item_key(items[g1]) != spec_item_key(items[g2])
}

/// An empty listing is right before any member has been considered.
proof fn lemma_listing_empty(ms: Seq<PodView>, now: u64)
    ensures
        spec_listing_ok(ms, now, Seq::empty(), 0),
{
    reveal(spec_listing_ok);
}

/// Taking one more member into account whose group already has a row
/// changes nothing.
proof fn lemma_listing_step_seen(
    ms: Seq<PodView>,
    now: u64,
    items: Seq<DeploymentListItem>,
    k: int,
)
    requires
        spec_listing_ok(ms, now, items, k),
        0 <= k < ms.len(),
        exists|k3: int| #![trigger ms[k3]]
            0 <= k3 < k && spec_group_key(ms[k3]) == spec_group_key(ms[k]),
    ensures
        spec_listing_ok(ms, now, items, k + 1),
{
    reveal(spec_listing_ok);
    let k3 = choose|k3: int| #![trigger ms[k3]]
        0 <= k3 < k && spec_group_key(ms[k3]) == spec_group_key(ms[k]);
    let g0 = choose|g0: int| #![trigger items[g0]]
        0 <= g0 < items.len() && spec_item_key(items[g0]) == spec_group_key(ms[k3]);
    assert forall|k2: int| #![trigger ms[k2]] 0 <= k2 < k + 1 implies (exists|g: int|
        #![trigger items[g]]
        0 <= g < items.len() && spec_item_key(items[g]) == spec_group_key(ms[k2])) by {
        if k2 == k {
            assert(spec_item_key(items[g0]) == spec_group_key(ms[k2]));
        }
    }
}

/// Taking one more member into account whose group has no row yet is
/// right exactly when that group's row is appended.
proof fn lemma_listing_step_unseen(
    ms: Seq<PodView>,
    now: u64,
    items: Seq<DeploymentListItem>,
    k: int,
    it: DeploymentListItem,
)
    requires
        spec_listing_ok(ms, now, items, k),
        0 <= k < ms.len(),
        forall|k3: int| #![trigger ms[k3]]
            0 <= k3 < k ==> spec_group_key(ms[k3]) != spec_group_key(ms[k]),
        spec_item_ok(ms, now, it),
        spec_item_key(it) == spec_group_key(ms[k]),
    ensures
        spec_listing_ok(ms, now, items.push(it), k + 1),
{
    reveal(spec_listing_ok);
    let items2 = items.push(it);
    assert(items2[items2.len() - 1] == it);
    assert(forall|g: int| #![trigger items[g]] 0 <= g < items.len() ==> items2[g] == items[g]);
    assert forall|g: int| #![trigger items2[g]] 0 <= g < items2.len() implies spec_item_ok(
        ms,
        now,
        items2[g],
    ) by {
        if g < items.len() {
            assert(items2[g] == items[g]);
        }
    }
    assert forall|g: int| #![trigger items2[g]] 0 <= g < items2.len() implies (exists|k2: int|
        #![trigger ms[k2]]
        0 <= k2 < k + 1 && spec_group_key(ms[k2]) == spec_item_key(items2[g])) by {
        if g < items.len() {
            assert(items2[g] == items[g]);
            let k2 = choose|k2: int| #![trigger ms[k2]]
                0 <= k2 < k && spec_group_key(ms[k2]) == spec_item_key(items[g]);
            assert(0 <= k2 < k + 1 && spec_group_key(ms[k2]) == spec_item_key(items2[g]));
        } else {
            assert(spec_group_key(ms[k]) == spec_item_key(items2[g]));
        }
    }
    assert forall|k2: int| #![trigger ms[k2]] 0 <= k2 < k + 1 implies (exists|g: int|
        #![trigger items2[g]]
        0 <= g < items2.len() && spec_item_key(items2[g]) == spec_group_key(ms[k2])) by {
        if k2 < k {
            let g0 = choose|g0: int| #![trigger items[g0]]
                0 <= g0 < items.len() && spec_item_key(items[g0]) == spec_group_key(ms[k2]);
            assert(items2[g0] == items[g0]);
            assert(spec_item_key(items2[g0]) == spec_group_key(ms[k2]));
        } else {
            assert(spec_item_key(items2[items2.len() - 1]) == spec_group_key(ms[k2]));
        }
    }
    assert forall|g1: int, g2: int| #![trigger items2[g1], items2[g2]]
        0 <= g1 < g2 < items2.len() implies spec_item_key(items2[g1]) != spec_item_key(
        items2[g2],
    ) by {
        if g2 == items2.len() - 1 {
            assert(items2[g1] == items[g1]);
            if spec_item_key(items[g1]) == spec_group_key(ms[k]) {
                let k3 = choose|k3: int| #![trigger ms[k3]]
                    0 <= k3 < k && spec_group_key(ms[k3]) == spec_item_key(items[g1]);
                assert(spec_group_key(ms[k3]) != spec_group_key(ms[k]));
            }
        }
    }
}

impl DeploymentLister {
    /// The deployment listing rows: one per distinct group among the
    /// members, each summarizing exactly that group's members — its
    /// counters and age are the group's, every member's group appears,
    /// and no group appears twice ([`spec_listing_ok`]).
    pub fn select(&self, filters: &GetObjectArgs, state: &ClusterState) -> (r: Vec<
        DeploymentListItem,
    >)
        ensures
            ({
                let ms = spec_members(
                    state@,
                    state@.len() as int,
                    spec_filter_ns(*filters),
                    spec_filter_id(*filters),
                );
                spec_listing_ok(ms, self.now, r@, ms.len() as int)
            }),
    {
        let members = collect_members(filters, state);
        let ghost ms = members@.map_values(|p: PodmanPodInfo| p@);
        let mut items: Vec<DeploymentListItem> = Vec::new();
        let mut k: usize = 0;
        proof {
            lemma_listing_empty(ms, self.now);
            assert(items@ =~= Seq::<DeploymentListItem>::empty());
        }
        while k < members.len()
            invariant
                k <= members@.len(),
                ms == members@.map_values(|p: PodmanPodInfo| p@),
                spec_listing_ok(ms, self.now, items@, k as int),
            decreases members@.len() - k,
        {
            let key = group_key_of(&members[k]);
            let mut seen: bool = false;
            let mut k2: usize = 0;
            while k2 < k
                invariant
                    k2 <= k,
                    k < members@.len(),
                    ms == members@.map_values(|p: PodmanPodInfo| p@),
                    key@ == spec_group_key(ms[k as int]),
                    seen ==> (exists|k3: int| #![trigger ms[k3]]
                        0 <= k3 < k && spec_group_key(ms[k3]) == key@),
                    !seen ==> (forall|k3: int| #![trigger ms[k3]]
                        0 <= k3 < k2 ==> spec_group_key(ms[k3]) != key@),
                decreases k - k2 + (if seen {
                    0int
                } else {
                    1int
                }),
            {
                if !seen {
                    let other = group_key_of(&members[k2]);
                    if other.name == key.name && other.namespace == key.namespace {
                        proof {
                            assert(spec_group_key(ms[k2 as int]) == key@);
                        }
                        seen = true;
                    }
                }
                k2 = k2 + 1;
            }
            if !seen {
                let ghost prior = items@;
                let item = build_item(&members, key, self.now);
                items.push(item);
                proof {
                    lemma_listing_step_unseen(ms, self.now, prior, k as int, item);
                    assert(items@ =~= prior.push(item));
                }
            } else {
                proof {
                    lemma_listing_step_seen(ms, self.now, items@, k as int);
                }
            }
            k = k + 1;
        }
        proof {
            let gms = spec_members(
                state@,
                state@.len() as int,
                spec_filter_ns(*filters),
                spec_filter_id(*filters),
            );
            assert(gms == ms);
        }
        items
    }
}

impl Lister<DeploymentListItem> for DeploymentLister {
    fn list(&self, filters: &GetObjectArgs, state: &ClusterState) -> Vec<DeploymentListItem> {
        self.select(filters, state)
    }
}

} // verus!
