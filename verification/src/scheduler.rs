//! The scheduling engine: placement decisions over a snapshot, and the
//! dispatch of one resource after another to the chosen node.
//!
//! Placement picks the node with the fewest pod instances; when several
//! nodes tie at the minimum, the one encountered last in snapshot order
//! wins. A batch is scheduled strictly in input order, and one resource's
//! failure never stops the resources after it.

use vstd::prelude::*;
use crate::skate::{
    spec_serializable, spec_resource_name, spec_resource_namespace,
    SupportedResources, ResourceView,
};
use crate::state::{
    spec_dep_refs_ok, spec_has_dep_match, spec_has_pod_match, spec_node_load, spec_pod_located_ok,
    ClusterState, NodeView,
};

verus! {

/// Terminal outcome of scheduling one resource.
pub enum Status {
    /// The manifest was applied on the target node; the text is the
    /// remote output, flattened onto one line.
    Scheduled(String),
    /// This one resource could not be scheduled; the text says why.
    Error(String),
}

/// One resource's scheduling outcome: the resource itself, the node it
/// was dispatched to (empty when dispatch was never reached), and the
/// terminal status.
pub struct ScheduleResult {
    pub object: SupportedResources,
    pub node_name: String,
    pub status: Status,
}

/// Where a resource currently lives, as positions into the snapshot:
/// a single pod instance, or every member of a deployment group.
pub enum ExistingResource {
    Pod { node: usize, pod: usize },
    Deployment { node: usize, pods: Vec<(usize, usize)> },
}

/// The decision for one resource: where it runs now (if anywhere), and
/// the snapshot position of the node it should run on next. Ephemeral:
/// created and consumed inside a single dispatch.
pub struct ApplyPlan {
    pub current: Option<ExistingResource>,
    pub next: Option<usize>,
}

/// The per-node remote execution capability the dispatcher drives.
/// Callers implement it; one independent channel per node is expected,
/// and every node of the snapshot must have one.
pub trait Fleet {
    /// Whether this fleet holds a channel for the named node.
    fn find(&mut self, node_name: &String) -> bool;

    /// Applies the serialized manifest on the named node, returning the
    /// remote `(stdout, stderr)` on success or a failure message.
    fn apply_resource(&mut self, node_name: &String, manifest: &String) -> Result<
        (String, String),
        String,
    >;

    /// Removes the named resource from the named node; required to be
    /// idempotent (removing what is absent must not fail).
    fn remove_resource(&mut self, node_name: &String, name: &String, namespace: &String) -> Result<
        (),
        String,
    >;
}

/// An index option widened to mathematical integers.
pub open spec fn opt_int(o: Option<usize>) -> Option<int> {
    match o {
        Some(u) => Some(u as int),
        None => None,
    }
}

/// The placement scan after the first `n` nodes: starting from `cur`
/// (the node currently hosting the resource, if any), each node in turn
/// replaces the running best unless the best is strictly less loaded.
pub open spec fn spec_select(nodes: Seq<NodeView>, n: int, cur: Option<int>) -> Option<int>
    decreases n,
{
    if n <= 0 {
        cur
    } else {
        match spec_select(nodes, n - 1, cur) {
            None => Some(n - 1),
            Some(b) => if spec_node_load(nodes[b]) < spec_node_load(nodes[n - 1]) {
                Some(b)
            } else {
                Some(n - 1)
            },
        }
    }
}

/// Position `t` holds a node of globally minimum load, and is the last
/// such position in snapshot order.
pub open spec fn spec_is_last_min(nodes: Seq<NodeView>, t: int) -> bool {
    &&& 0 <= t < nodes.len()
    &&& forall|k: int|
        0 <= k < nodes.len() ==> spec_node_load(nodes[t]) <= spec_node_load(#[trigger] nodes[k])
    &&& forall|k: int|
        t < k < nodes.len() ==> spec_node_load(#[trigger] nodes[k]) > spec_node_load(nodes[t])
}

/// How the placement scan behaves on every prefix: its running best is
/// a minimum of the nodes scanned so far, and is either the last of the
/// scanned minima or the starting node while that is strictly better
/// than everything scanned.
proof fn lemma_select_props(nodes: Seq<NodeView>, n: int, cur: Option<int>)
    requires
        0 <= n <= nodes.len(),
        cur matches Some(c) ==> 0 <= c < nodes.len(),
    ensures
        cur is None && n == 0 ==> spec_select(nodes, n, cur) is None,
        cur is Some || n > 0 ==> ({
            &&& spec_select(nodes, n, cur) matches Some(a)
            &&& 0 <= a < nodes.len()
            &&& forall|k: int|
                0 <= k < n ==> spec_node_load(nodes[a]) <= spec_node_load(#[trigger] nodes[k])
            &&& ({
                ||| 0 <= a < n && (forall|k: int|
                    a < k < n ==> spec_node_load(#[trigger] nodes[k]) > spec_node_load(nodes[a]))
                ||| (cur matches Some(c) && a == c && (forall|k: int|
                    0 <= k < n ==> spec_node_load(#[trigger] nodes[k]) > spec_node_load(nodes[c])))
            })
        }),
    decreases n,
{
    if n > 0 {
        lemma_select_props(nodes, n - 1, cur);
    }
}

/// The placement law: on a non-empty snapshot the scan lands on the
/// minimum-load node, and among equal minima on the last one in
/// snapshot order — whatever node the resource started on.
pub proof fn lemma_select_last_min(nodes: Seq<NodeView>, cur: Option<int>)
    requires
        nodes.len() > 0,
        cur matches Some(c) ==> 0 <= c < nodes.len(),
    ensures
        spec_select(nodes, nodes.len() as int, cur) matches Some(t) && spec_is_last_min(nodes, t),
{
    let n = nodes.len() as int;
    lemma_select_props(nodes, n, cur);
    let a = spec_select(nodes, n, cur)->0;
    if cur is Some {
        let c = cur->0;
        if a == c && (forall|k: int|
            0 <= k < n ==> spec_node_load(#[trigger] nodes[k]) > spec_node_load(nodes[c])) {
            assert(spec_node_load(nodes[c]) > spec_node_load(nodes[c]));
        }
    }
}

/// No two distinct positions can both be the last minimum.
pub proof fn lemma_last_min_unique(nodes: Seq<NodeView>, t1: int, t2: int)
    requires
        spec_is_last_min(nodes, t1),
        spec_is_last_min(nodes, t2),
    ensures
        t1 == t2,
{
    if t1 < t2 {
        assert(spec_node_load(nodes[t2]) > spec_node_load(nodes[t1]));
        assert(spec_node_load(nodes[t1]) <= spec_node_load(nodes[t2]));
    } else if t2 < t1 {
        assert(spec_node_load(nodes[t1]) > spec_node_load(nodes[t2]));
        assert(spec_node_load(nodes[t2]) <= spec_node_load(nodes[t1]));
    }
}

/// The snapshot position of the node currently hosting a located
/// resource, if one was located.
pub open spec fn spec_current_node(c: Option<ExistingResource>) -> Option<int> {
    match c {
        None => None,
        Some(ExistingResource::Pod { node, pod }) => Some(node as int),
        Some(ExistingResource::Deployment { node, pods }) => Some(node as int),
    }
}

/// What a correct plan says: `current` is the exact location answer for
/// the resource's kind and identity, and `next` is the placement scan's
/// result started from the current node.
pub open spec fn spec_plan_ok(s: Seq<NodeView>, o: ResourceView, r: ApplyPlan) -> bool {
    &&& match o {
        ResourceView::Pod(_) => match r.current {
            None => !spec_has_pod_match(s, spec_resource_name(o), spec_resource_namespace(o)),
            Some(ExistingResource::Pod { node, pod }) => spec_pod_located_ok(
                s,
                spec_resource_name(o),
                spec_resource_namespace(o),
                Some((node, pod)),
            ),
            Some(ExistingResource::Deployment { node, pods }) => false,
        },
        ResourceView::Deployment(_) => match r.current {
            None => !spec_has_dep_match(s, spec_resource_name(o), spec_resource_namespace(o)),
            Some(ExistingResource::Deployment { node, pods }) => spec_dep_refs_ok(
                s,
                spec_resource_name(o),
                spec_resource_namespace(o),
                pods@,
                node,
            ),
            Some(ExistingResource::Pod { node, pod }) => false,
        },
    }
    &&& spec_current_node(r.current) matches Some(c) ==> 0 <= c < s.len()
    &&& opt_int(r.next) == spec_select(s, s.len() as int, spec_current_node(r.current))
    &&& r.next matches Some(t) ==> t < s.len()
    &&& r.next is None <==> s.len() == 0
}

/// Selects the target node for a resource currently hosted on the node
/// at position `current` (or nowhere): every node of the snapshot is
/// scanned in order, and the running best is kept only while it is
/// strictly less loaded than the candidate. Returns `None` only on an
/// empty snapshot.
pub fn select_target_node(state: &ClusterState, current: Option<usize>) -> (r: Option<usize>)
    requires
        current matches Some(c) ==> c < state@.len(),
    ensures
        opt_int(r) == spec_select(state@, state@.len() as int, opt_int(current)),
        r matches Some(t) ==> t < state@.len(),
        r is None <==> (state@.len() == 0 && current is None),
{
    let n = state.nodes.len();
    let mut best: Option<usize> = current;
    let mut i: usize = 0;
    while i < n
        invariant
            n == state@.len(),
            i <= n,
            opt_int(best) == spec_select(state@, i as int, opt_int(current)),
            best matches Some(b) ==> b < n,
            current matches Some(c) ==> c < n,
        decreases n - i,
    {
        best = match best {
            None => Some(i),
            Some(b) => {
                let lb = state.node_load(b);
                let li = state.node_load(i);
                if lb < li {
                    Some(b)
                } else {
                    Some(i)
                }
            },
        };
        i = i + 1;
    }
    best
}

/// The batch scheduler interface: schedule each resource of a list, in
/// order, against one snapshot and one fleet.
pub trait Scheduler<F: Fleet> {
    /// Schedules every resource of `objects` in input order, one result
    /// per resource; a failing resource never stops the ones after it.
    fn schedule(&self, conns: &mut F, state: &ClusterState, objects: Vec<SupportedResources>) -> (r:
        Result<Vec<ScheduleResult>, String>)
        ensures
            r matches Ok(results) && results@.len() == objects@.len() && (forall|i: int|
                0 <= i < objects@.len() ==> spec_schedule_one_ok(
                    state@,
                    objects@[i],
                    #[trigger] results@[i],
                )),
    ;
}

/// The load-based scheduler: least-loaded node wins, last among ties.
pub struct DefaultScheduler {}

/// Everything `schedule_one` promises about a result, whatever the
/// fleet did: the result carries the resource itself; a resource that
/// cannot be serialized is an error with an empty node name and no
/// dispatch; an empty snapshot is an error with an empty node name;
/// otherwise the result names exactly the last minimum-load node.
pub open spec fn spec_schedule_one_ok(
    s: Seq<NodeView>,
    object: SupportedResources,
    r: ScheduleResult,
) -> bool {
    &&& r.object == object
    &&& !spec_serializable(object@) ==> r.node_name@ == Seq::<char>::empty() && (r.status matches
    Status::Error(m) && m@ == "failed to serialize resource: metadata contains a line break"@)
    &&& spec_serializable(object@) && s.len() == 0 ==> r.node_name@ == Seq::<char>::empty() && (
    r.status matches Status::Error(m) && m@ == "failed to find schedulable node"@)
    &&& spec_serializable(object@) && s.len() > 0 ==> (forall|t: int|
        #[trigger] spec_is_last_min(s, t) ==> r.node_name@ == s[t].node_name)
}

impl DefaultScheduler {
    /// Builds the plan for one resource: locate where it currently
    /// lives (by kind), then select the target node starting from there.
    pub fn plan(state: &ClusterState, object: &SupportedResources) -> (r: ApplyPlan)
        ensures
            spec_plan_ok(state@, object@, r),
    {
        let name = object.name_string();
        let ns = object.namespace_string();
        let current = match object {
            SupportedResources::Pod(_) => match state.locate_pod(&name, &ns) {
                Some((node, pod)) => Some(ExistingResource::Pod { node, pod }),
                None => None,
            },
            SupportedResources::Deployment(_) => match state.locate_deployment(&name, &ns) {
                Some((pods, node)) => Some(ExistingResource::Deployment { node, pods }),
                None => None,
            },
        };
        let current_node: Option<usize> = match &current {
            Some(ExistingResource::Pod { node, pod }) => Some(*node),
            Some(ExistingResource::Deployment { node, pods }) => Some(*node),
            None => None,
        };
        let next = select_target_node(state, current_node);
        ApplyPlan { current, next }
    }

    /// Best-effort removal of a located resource from the node it
    /// currently runs on. The outcome is the fleet's to decide; a
    /// failure here is never fatal for the resource being scheduled.
    fn remove_existing<F: Fleet>(
        conns: &mut F,
        state: &ClusterState,
        object: &SupportedResources,
        existing: &ExistingResource,
    ) -> (r: Result<(), String>)
        requires
            spec_current_node(Some(*existing)) matches Some(c) ==> 0 <= c < state@.len(),
    {
        let node_idx: usize = match existing {
            ExistingResource::Pod { node, pod } => *node,
            ExistingResource::Deployment { node, pods } => *node,
        };
        let name = object.name_string();
        let ns = object.namespace_string();
        conns.remove_resource(&state.nodes[node_idx].node_name, &name, &ns)
    }

    /// Schedules one resource end to end: serialize, plan, best-effort
    /// cleanup of the previous location, dispatch to the target node,
    /// report. Every pre-dispatch short-circuit leaves the node name
    /// empty; from channel resolution on, the result names the target.
    pub fn schedule_one<F: Fleet>(
        conns: &mut F,
        state: &ClusterState,
        object: SupportedResources,
    ) -> (r: ScheduleResult)
        ensures
            spec_schedule_one_ok(state@, object, r),
    {
        let serialized = match object.serialize() {
            Ok(s) => s,
            Err(e) => {
                return ScheduleResult {
                    object,
                    node_name: String::new(),
                    status: Status::Error(e),
                };
            },
        };
        let plan = Self::plan(state, &object);
        let next = match plan.next {
            Some(n) => n,
            None => {
                return ScheduleResult {
                    object,
                    node_name: String::new(),
                    status: Status::Error(String::from_str("failed to find schedulable node")),
                };
            },
        };
        proof {
            lemma_select_last_min(state@, spec_current_node(plan.current));
            assert(spec_is_last_min(state@, next as int));
            assert forall|t: int| #[trigger]
                spec_is_last_min(state@, t) implies t == next as int by {
                lemma_last_min_unique(state@, t, next as int);
            }
        }
        if let Some(existing) = &plan.current {
            let cleanup = Self::remove_existing(conns, state, &object, existing);
            // A cleanup failure is recorded by the fleet if it cares;
            // it must not abort scheduling of this resource.
            match cleanup {
                Ok(_) => (),
                Err(_) => (),
            }
        }
        let node_name = state.nodes[next].node_name.clone();
        if !conns.find(&node_name) {
            // Every snapshot node is owed a channel; a missing one is a
            // fleet contract violation, fatal for this resource only.
            let msg = String::from_str("no channel for node ").concat(node_name.as_str());
            return ScheduleResult { object, node_name, status: Status::Error(msg) };
        }
        let outcome = conns.apply_resource(&node_name, &serialized);
        let status = dispatch_status(outcome);
        ScheduleResult { object, node_name, status }
    }
}

impl<F: Fleet> Scheduler<F> for DefaultScheduler {
    fn schedule(&self, conns: &mut F, state: &ClusterState, objects: Vec<SupportedResources>) -> (r:
        Result<Vec<ScheduleResult>, String>) {
        let ghost orig = objects@;
        let mut objects = objects;
        let mut results: Vec<ScheduleResult> = Vec::new();
        while objects.len() > 0
            invariant
                orig.len() == results@.len() + objects@.len(),
                objects@ == orig.skip(results@.len() as int),
                forall|i: int|
                    0 <= i < results@.len() ==> spec_schedule_one_ok(
                        state@,
                        orig[i],
                        #[trigger] results@[i],
                    ),
            decreases objects@.len(),
        {
            let ghost done = results@.len() as int;
            let object = objects.remove(0);
            proof {
                assert(object == orig[done]);
                assert(objects@ =~= orig.skip(done + 1));
            }
            // The union over resource kinds is closed: a new kind must
            // extend this match and the planner's location logic.
            match &object {
                SupportedResources::Pod(_) | SupportedResources::Deployment(_) => {
                    let result = Self::schedule_one(conns, state, object);
                    results.push(result);
                },
            }
        }
        Ok(results)
    }
}

/// The detail text reported for a successful dispatch, before
/// flattening: the remote stdout, with the remote stderr appended in a
/// parenthetical suffix when it is non-empty.
pub open spec fn spec_detail(out: Seq<char>, err: Seq<char>) -> Seq<char> {
    if err.len() > 0 {
        out + " ( stderr: "@ + err + " )"@
    } else {
        out
    }
}

/// A text with every line break replaced by the two-character escape
/// `\n`, so it renders on one line.
pub open spec fn spec_flatten(s: Seq<char>) -> Seq<char>
    decreases s.len(),
{
    if s.len() == 0 {
        Seq::empty()
    } else if s[0] == '\n' {
        seq!['\\', 'n'] + spec_flatten(s.drop_first())
    } else {
        seq![s[0]] + spec_flatten(s.drop_first())
    }
}

/// Flattening a text without line breaks changes nothing.
proof fn lemma_flatten_clean(s: Seq<char>)
    requires
        crate::skate::spec_clean(s),
    ensures
        spec_flatten(s) == s,
    decreases s.len(),
{
    if s.len() == 0 {
        assert(spec_flatten(s) =~= s);
    } else {
        assert(s[0] != '\n');
        assert(crate::skate::spec_clean(s.drop_first()));
        lemma_flatten_clean(s.drop_first());
        assert(seq![s[0]] + s.drop_first() =~= s);
    }
}

/// Flattening distributes over concatenation.
proof fn lemma_flatten_append(a: Seq<char>, b: Seq<char>)
    ensures
        spec_flatten(a + b) == spec_flatten(a) + spec_flatten(b),
    decreases a.len(),
{
    if a.len() == 0 {
        assert(a + b =~= b);
        assert(spec_flatten(a) =~= Seq::<char>::empty());
        assert(spec_flatten(a) + spec_flatten(b) =~= spec_flatten(b));
    } else {
        assert((a + b).len() > 0);
        assert((a + b)[0] == a[0]);
        assert((a + b).drop_first() =~= a.drop_first() + b);
        lemma_flatten_append(a.drop_first(), b);
        if a[0] == '\n' {
            assert(seq!['\\', 'n'] + (spec_flatten(a.drop_first()) + spec_flatten(b)) =~= (
            seq!['\\', 'n'] + spec_flatten(a.drop_first())) + spec_flatten(b));
        } else {
            assert(seq![a[0]] + (spec_flatten(a.drop_first()) + spec_flatten(b)) =~= (seq![a[0]]
                + spec_flatten(a.drop_first())) + spec_flatten(b));
        }
    }
}

/// Replaces every line break of `s` with the two-character escape
/// `\n`, leaving everything else unchanged.
pub fn flatten_newlines(s: &String) -> (r: String)
    ensures
        r@ == spec_flatten(s@),
{
    let st = s.as_str();
    let n = st.unicode_len();
    let mut out = String::new();
    let mut start: usize = 0;
    let mut i: usize = 0;
    proof {
        assert(s@.take(0) =~= Seq::<char>::empty());
        assert(spec_flatten(s@.take(0)) =~= Seq::<char>::empty());
        assert(s@.subrange(0, 0) =~= Seq::<char>::empty());
    }
    while i < n
        invariant
            i <= n,
            start <= i,
            n == s@.len(),
            st@ == s@,
            out@ == spec_flatten(s@.take(start as int)),
            crate::skate::spec_clean(s@.subrange(start as int, i as int)),
        decreases n - i,
    {
        let c = st.get_char(i);
        if c == '\n' {
            let seg = st.substring_char(start, i);
            out.append(seg);
            out.append("\\n");
            proof {
                reveal_strlit("\\n");
                assert("\\n"@ =~= seq!['\\', 'n']);
                let pre = s@.take(start as int);
                let mid = s@.subrange(start as int, i as int);
                let one = s@.subrange(i as int, i as int + 1);
                assert(one =~= seq![s@[i as int]]);
                assert(one[0] == '\n');
                assert(spec_flatten(one) =~= seq!['\\', 'n']) by {
                    assert(one.drop_first() =~= Seq::<char>::empty());
                    assert(spec_flatten(one.drop_first()) =~= Seq::<char>::empty());
                    assert(seq!['\\', 'n'] + Seq::<char>::empty() =~= seq!['\\', 'n']);
                }
                lemma_flatten_clean(mid);
                lemma_flatten_append(pre + mid, one);
                lemma_flatten_append(pre, mid);
                assert(s@.take(i as int + 1) =~= (pre + mid) + one);
                assert(out@ == spec_flatten(s@.take(i as int + 1)));
                assert(s@.subrange(i as int + 1, i as int + 1) =~= Seq::<char>::empty());
            }
            start = i + 1;
        } else {
            proof {
                assert(s@.subrange(start as int, i as int + 1) =~= s@.subrange(
                    start as int,
                    i as int,
                ).push(s@[i as int]));
                let ext = s@.subrange(start as int, i as int + 1);
                assert forall|k: int| 0 <= k < ext.len() implies ext[k] != '\n' by {
                    if k < ext.len() - 1 {
                        assert(ext[k] == s@.subrange(start as int, i as int)[k]);
                    } else {
                        assert(ext[k] == s@[i as int]);
                    }
                }
            }
        }
        i = i + 1;
    }
    let seg = st.substring_char(start, n);
    out.append(seg);
    proof {
        let pre = s@.take(start as int);
        let mid = s@.subrange(start as int, n as int);
        lemma_flatten_clean(mid);
        lemma_flatten_append(pre, mid);
        assert(s@.take(n as int) =~= pre + mid);
        assert(s@.take(n as int) =~= s@);
    }
    out
}

/// Turns a fleet dispatch outcome into the resource's terminal status:
/// success carries the remote output flattened onto one line, failure
/// carries the failure message unchanged.
pub fn dispatch_status(outcome: Result<(String, String), String>) -> (r: Status)
    ensures
        match outcome {
            Ok((out, err)) => r matches Status::Scheduled(m) && m@ == spec_flatten(
                spec_detail(out@, err@),
            ),
            Err(e) => r matches Status::Error(m) && m@ == e@,
        },
{
    match outcome {
        Ok((out, err)) => {
            let mut builder = out;
            if !err.as_str().is_empty() {
                builder.append(" ( stderr: ");
                builder.append(err.as_str());
                builder.append(" )");
            }
            let flat = flatten_newlines(&builder);
            Status::Scheduled(flat)
        },
        Err(e) => Status::Error(e),
    }
}

} // verus!
