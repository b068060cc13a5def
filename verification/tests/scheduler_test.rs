use skate::get::deployment::DeploymentLister as DeploymentSummaryLister;
use skate::get::{DeploymentLister, GetObjectArgs, IdCommand, Lister, NodeLister, PodLister};
use skate::scheduler::{
    dispatch_status, flatten_newlines, select_target_node, DefaultScheduler, Fleet, Scheduler,
    Status,
};
use skate::skate::{ResourceMeta, SupportedResources};
use skate::skatelet::system::{Platform, PodmanContainerInfo, PodmanPodInfo, SystemInfo};
use skate::state::{ClusterState, NodeState, NodeStatus};
use skate::test_helpers::ssh_mocks::MockSshManager;

fn labels(pairs: &[(&str, &str)]) -> Vec<(String, String)> {
    pairs.iter().map(|(k, v)| (k.to_string(), v.to_string())).collect()
}

fn pod(name: &str, ns: &str, dep: &str, status: &str, created: u64) -> PodmanPodInfo {
    let mut lbl = vec![("skate.io/namespace".to_string(), ns.to_string())];
    if !dep.is_empty() {
        lbl.push(("skate.io/deployment".to_string(), dep.to_string()));
    }
    PodmanPodInfo {
        id: format!("id-{}", name),
        name: name.to_string(),
        status: status.to_string(),
        created,
        labels: lbl,
        containers: vec![PodmanContainerInfo {
            id: "c0".to_string(),
            names: "c0".to_string(),
            status: "running".to_string(),
            restart_count: Some(0),
        }],
    }
}

fn node(name: &str, pods: Option<Vec<PodmanPodInfo>>) -> NodeState {
    NodeState {
        node_name: name.to_string(),
        status: NodeStatus::Healthy,
        host_info: pods.map(|p| SystemInfo {
            platform: Platform {
                arch: "x86_64".to_string(),
                os: "linux".to_string(),
                distribution: "debian".to_string(),
            },
            total_memory_mib: 1024,
            used_memory_mib: 512,
            total_swap_mib: 0,
            used_swap_mib: 0,
            num_cpus: 4,
            pods: Some(p),
        }),
    }
}

fn pod_resource(name: &str, ns: &str) -> SupportedResources {
    SupportedResources::Pod(ResourceMeta {
        name: Some(name.to_string()),
        namespace: Some(ns.to_string()),
        labels: Vec::new(),
    })
}

fn deployment_resource(name: &str, ns: &str) -> SupportedResources {
    SupportedResources::Deployment(ResourceMeta {
        name: Some(name.to_string()),
        namespace: Some(ns.to_string()),
        labels: Vec::new(),
    })
}

fn mock(nodes: &[&str]) -> MockSshManager {
    MockSshManager::new(nodes.iter().map(|n| n.to_string()).collect())
}

#[test]
fn select_picks_minimum_load() {
    let state = ClusterState {
        nodes: vec![
            node("n1", Some(vec![pod("a", "default", "", "Running", 1), pod("b", "default", "", "Running", 2)])),
            node("n2", Some(vec![pod("c", "default", "", "Running", 3)])),
            node("n3", Some(vec![pod("d", "default", "", "Running", 4), pod("e", "default", "", "Running", 5)])),
        ],
    };
    assert_eq!(select_target_node(&state, None), Some(1));
}

#[test]
fn select_ties_go_to_last_node() {
    let state = ClusterState {
        nodes: vec![
            node("n1", Some(vec![pod("a", "default", "", "Running", 1)])),
            node("n2", Some(vec![pod("b", "default", "", "Running", 2)])),
            node("n3", Some(vec![pod("c", "default", "", "Running", 3)])),
        ],
    };
    // All loads equal: the last node in snapshot order wins.
    assert_eq!(select_target_node(&state, None), Some(2));
}

#[test]
fn select_missing_telemetry_counts_as_zero() {
    let state = ClusterState {
        nodes: vec![
            node("n1", Some(vec![pod("a", "default", "", "Running", 1)])),
            node("n2", None),
        ],
    };
    assert_eq!(select_target_node(&state, Some(0)), Some(1));
}

#[test]
fn select_empty_snapshot_is_none() {
    let state = ClusterState { nodes: vec![] };
    assert_eq!(select_target_node(&state, None), None);
}

#[test]
fn locate_pod_absent_when_nothing_matches() {
    let state = ClusterState {
        nodes: vec![
            node("n1", Some(vec![pod("other", "default", "", "Running", 1)])),
            node("n2", None),
        ],
    };
    let name = "missing".to_string();
    let ns = "default".to_string();
    assert_eq!(state.locate_pod(&name, &ns), None);
}

#[test]
fn locate_pod_finds_first_position() {
    let state = ClusterState {
        nodes: vec![
            node("n1", Some(vec![pod("other", "default", "", "Running", 1)])),
            node("n2", Some(vec![pod("x", "prod", "", "Running", 2), pod("web", "prod", "", "Running", 3)])),
        ],
    };
    let name = "web".to_string();
    let ns = "prod".to_string();
    assert_eq!(state.locate_pod(&name, &ns), Some((1, 1)));
}

#[test]
fn locate_deployment_groups_across_nodes() {
    // Three members of one deployment split 2-and-1 across two nodes.
    let state = ClusterState {
        nodes: vec![
            node("n1", Some(vec![
                pod("web-1", "prod", "web", "Running", 1),
                pod("web-2", "prod", "web", "Running", 2),
            ])),
            node("n2", Some(vec![pod("web-3", "prod", "web", "Running", 3)])),
        ],
    };
    let name = "web".to_string();
    let ns = "prod".to_string();
    let (refs, first_node) = state.locate_deployment(&name, &ns).expect("members exist");
    assert_eq!(refs, vec![(0, 0), (0, 1), (1, 0)]);
    assert_eq!(first_node, 0);
}

#[test]
fn schedule_picks_least_loaded_node() {
    // Loads [3, 1] and a Pod with no existing instance: node with load 1 wins.
    let state = ClusterState {
        nodes: vec![
            node("n1", Some(vec![
                pod("a", "default", "", "Running", 1),
                pod("b", "default", "", "Running", 2),
                pod("c", "default", "", "Running", 3),
            ])),
            node("n2", Some(vec![pod("d", "default", "", "Running", 4)])),
        ],
    };
    let mut fleet = mock(&["n1", "n2"]);
    let result = DefaultScheduler::schedule_one(&mut fleet, &state, pod_resource("new", "default"));
    assert_eq!(result.node_name, "n2");
    assert!(matches!(result.status, Status::Scheduled(_)));
    assert_eq!(fleet.apply_calls.len(), 1);
    assert_eq!(fleet.apply_calls[0].0, "n2");
}

#[test]
fn serialization_failure_reaches_no_fleet_call() {
    let state = ClusterState {
        nodes: vec![node("n1", Some(vec![]))],
    };
    let mut fleet = mock(&["n1"]);
    let result = DefaultScheduler::schedule_one(&mut fleet, &state, pod_resource("bad\nname", "default"));
    assert_eq!(result.node_name, "");
    match result.status {
        Status::Error(m) => {
            assert_eq!(m, "failed to serialize resource: metadata contains a line break")
        }
        Status::Scheduled(_) => panic!("must not schedule"),
    }
    assert!(fleet.find_calls.is_empty());
    assert!(fleet.apply_calls.is_empty());
    assert!(fleet.remove_calls.is_empty());
}

#[test]
fn empty_snapshot_fails_placement() {
    let state = ClusterState { nodes: vec![] };
    let mut fleet = mock(&[]);
    let result = DefaultScheduler::schedule_one(&mut fleet, &state, pod_resource("web", "default"));
    assert_eq!(result.node_name, "");
    match result.status {
        Status::Error(m) => assert_eq!(m, "failed to find schedulable node"),
        Status::Scheduled(_) => panic!("must not schedule"),
    }
}

#[test]
fn missing_channel_is_fatal_for_the_resource() {
    let state = ClusterState {
        nodes: vec![node("n1", Some(vec![]))],
    };
    let mut fleet = mock(&[]);
    let result = DefaultScheduler::schedule_one(&mut fleet, &state, pod_resource("web", "default"));
    assert_eq!(result.node_name, "n1");
    match result.status {
        Status::Error(m) => assert_eq!(m, "no channel for node n1"),
        Status::Scheduled(_) => panic!("must not schedule"),
    }
    assert!(fleet.apply_calls.is_empty());
}

#[test]
fn batch_keeps_order_and_isolates_failures() {
    let state = ClusterState {
        nodes: vec![node("n1", Some(vec![]))],
    };
    let mut fleet = mock(&["n1"]);
    fleet.apply_outcomes = vec![
        Ok(("one".to_string(), String::new())),
        Err("dispatch blew up".to_string()),
        Ok(("three".to_string(), String::new())),
    ];
    let objects = vec![
        pod_resource("first", "default"),
        pod_resource("second", "default"),
        pod_resource("third", "default"),
    ];
    let scheduler = DefaultScheduler {};
    let results = scheduler.schedule(&mut fleet, &state, objects).expect("batch never fails");
    assert_eq!(results.len(), 3);
    match (&results[0].status, &results[1].status, &results[2].status) {
        (Status::Scheduled(a), Status::Error(b), Status::Scheduled(c)) => {
            assert_eq!(a, "one");
            assert_eq!(b, "dispatch blew up");
            assert_eq!(c, "three");
        }
        _ => panic!("statuses out of order"),
    }
    match &results[0].object {
        SupportedResources::Pod(m) => assert_eq!(m.name.as_deref(), Some("first")),
        _ => panic!("wrong kind"),
    }
    match &results[1].object {
        SupportedResources::Pod(m) => assert_eq!(m.name.as_deref(), Some("second")),
        _ => panic!("wrong kind"),
    }
}

#[test]
fn cleanup_failure_does_not_stop_dispatch() {
    // The resource already runs on n1; removing it there fails, yet the
    // apply still happens and the result stays Scheduled.
    let state = ClusterState {
        nodes: vec![
            node("n1", Some(vec![pod("web", "default", "", "Running", 1)])),
            node("n2", Some(vec![])),
        ],
    };
    let mut fleet = mock(&["n1", "n2"]);
    fleet.remove_outcomes = vec![Err("removal failed".to_string())];
    let result = DefaultScheduler::schedule_one(&mut fleet, &state, pod_resource("web", "default"));
    assert_eq!(fleet.remove_calls.len(), 1);
    assert_eq!(fleet.remove_calls[0].0, "n1");
    assert_eq!(fleet.apply_calls.len(), 1);
    assert!(matches!(result.status, Status::Scheduled(_)));
    assert_eq!(result.node_name, "n2");
}

#[test]
fn manifest_rendering_is_canonical() {
    let object = SupportedResources::Pod(ResourceMeta {
        name: Some("web".to_string()),
        namespace: Some("prod".to_string()),
        labels: labels(&[("app", "web"), ("tier", "front")]),
    });
    let text = object.serialize().expect("serializable");
    assert_eq!(
        text,
        "apiVersion: v1\nkind: Pod\nmetadata:\n  name: web\n  namespace: prod\n  labels:\n    app: web\n    tier: front\n"
    );
    let dep = deployment_resource("api", "prod");
    let text = dep.serialize().expect("serializable");
    assert_eq!(
        text,
        "apiVersion: apps/v1\nkind: Deployment\nmetadata:\n  name: api\n  namespace: prod\n  labels:\n"
    );
}

#[test]
fn manifest_rejects_line_breaks() {
    let object = SupportedResources::Pod(ResourceMeta {
        name: Some("web".to_string()),
        namespace: Some("prod".to_string()),
        labels: labels(&[("app", "two\nlines")]),
    });
    assert_eq!(
        object.serialize(),
        Err("failed to serialize resource: metadata contains a line break".to_string())
    );
}

#[test]
fn dispatch_status_flattens_output() {
    let status = dispatch_status(Ok(("line one\nline two".to_string(), "warn".to_string())));
    match status {
        Status::Scheduled(m) => assert_eq!(m, "line one\\nline two ( stderr: warn )"),
        Status::Error(_) => panic!("dispatch succeeded"),
    }
    let status = dispatch_status(Ok(("clean".to_string(), String::new())));
    match status {
        Status::Scheduled(m) => assert_eq!(m, "clean"),
        Status::Error(_) => panic!("dispatch succeeded"),
    }
    let status = dispatch_status(Err("boom".to_string()));
    match status {
        Status::Error(m) => assert_eq!(m, "boom"),
        Status::Scheduled(_) => panic!("dispatch failed"),
    }
}

#[test]
fn flatten_handles_edges() {
    assert_eq!(flatten_newlines(&"a\nb\n".to_string()), "a\\nb\\n");
    assert_eq!(flatten_newlines(&"\n".to_string()), "\\n");
    assert_eq!(flatten_newlines(&"plain".to_string()), "plain");
    assert_eq!(flatten_newlines(&String::new()), "");
}

#[test]
fn pod_lister_takes_first_match_per_node() {
    let state = ClusterState {
        nodes: vec![
            node("n1", Some(vec![
                pod("a", "prod", "", "Running", 1),
                pod("b", "prod", "", "Running", 2),
            ])),
            node("n2", Some(vec![pod("c", "dev", "", "Running", 3)])),
        ],
    };
    let args = GetObjectArgs { namespace: Some("prod".to_string()), id: None };
    let lister = PodLister {};
    let pods = lister.list(&args, &state);
    assert_eq!(pods.len(), 1);
    assert_eq!(pods[0].name, "a");
}

#[test]
fn pod_lister_matches_by_id_or_name() {
    let state = ClusterState {
        nodes: vec![node("n1", Some(vec![pod("a", "prod", "", "Running", 1)]))],
    };
    let args = GetObjectArgs {
        namespace: None,
        id: Some(IdCommand::Id(vec!["a".to_string()])),
    };
    let pods = PodLister::select(&args, &state);
    assert_eq!(pods.len(), 1);
    assert_eq!(pods[0].name, "a");
}

#[test]
fn deployment_pairs_collect_all_members() {
    let state = ClusterState {
        nodes: vec![
            node("n1", Some(vec![
                pod("web-1", "prod", "web", "Running", 1),
                pod("solo", "prod", "", "Running", 2),
            ])),
            node("n2", Some(vec![pod("web-2", "prod", "web", "Running", 3)])),
        ],
    };
    let args = GetObjectArgs { namespace: Some("prod".to_string()), id: None };
    let lister = DeploymentLister {};
    let pairs = lister.list(&args, &state);
    assert_eq!(pairs.len(), 2);
    assert_eq!(pairs[0].0, "web");
    assert_eq!(pairs[0].1.name, "web-1");
    assert_eq!(pairs[1].1.name, "web-2");
}

#[test]
fn node_lister_filters_by_name() {
    let state = ClusterState {
        nodes: vec![node("n1", None), node("n2", None)],
    };
    let args = GetObjectArgs {
        namespace: None,
        id: Some(IdCommand::Id(vec!["n2".to_string()])),
    };
    let nodes = NodeLister::select(&args, &state);
    assert_eq!(nodes.len(), 1);
    assert_eq!(nodes[0].node_name, "n2");
    let all = NodeLister::select(&GetObjectArgs { namespace: None, id: None }, &state);
    assert_eq!(all.len(), 2);
}

#[test]
fn deployment_summary_counts_and_age() {
    let state = ClusterState {
        nodes: vec![
            node("n1", Some(vec![
                pod("web-1", "prod", "web", "Running", 1000),
                pod("web-2", "prod", "web", "Created", 4000),
            ])),
            node("n2", Some(vec![pod("web-3", "prod", "web", "Running", 2000)])),
        ],
    };
    let args = GetObjectArgs { namespace: None, id: None };
    let lister = DeploymentSummaryLister { now: 1000 + 90 };
    let items = lister.list(&args, &state);
    assert_eq!(items.len(), 1);
    assert_eq!(items[0].namespace, "prod");
    assert_eq!(items[0].name, "web");
    assert_eq!(items[0].ready, "2/3");
    assert_eq!(items[0].up_to_date, "3");
    assert_eq!(items[0].available, "2");
    // The earliest member was created 90 seconds before the listing.
    assert_eq!(items[0].age, "1m");
}

#[test]
fn namespaced_name_parsing() {
    let nn = skate::util::NamespacedName::parse("web.prod");
    assert_eq!(nn.name, "web");
    assert_eq!(nn.namespace, "prod");
    let nn = skate::util::NamespacedName::parse("plain");
    assert_eq!(nn.name, "plain");
    assert_eq!(nn.namespace, "");
    let nn = skate::util::NamespacedName::parse("a.b.c");
    assert_eq!(nn.name, "a");
    assert_eq!(nn.namespace, "b.c");
    assert_eq!(skate::util::NamespacedName::parse("web.prod").to_text(), "web.prod");
}

#[test]
fn decimal_and_age_rendering() {
    assert_eq!(skate::util::u64_to_string(0), "0");
    assert_eq!(skate::util::u64_to_string(7), "7");
    assert_eq!(skate::util::u64_to_string(1234567890), "1234567890");
    assert_eq!(skate::util::age(100, 41), "59s");
    assert_eq!(skate::util::age(161, 100), "1m");
    assert_eq!(skate::util::age(3700, 0), "1h");
    assert_eq!(skate::util::age(200000, 0), "2d");
    // A creation time in the future counts as zero elapsed seconds.
    assert_eq!(skate::util::age(10, 20), "0s");
}

#[test]
fn file_store_paths() {
    let store = skate::filestore::FileStore::new();
    let parts = vec!["ingress", "my-ingress.prod", "443.conf"];
    assert_eq!(store.get_path(&parts), "/var/lib/skate/store/ingress/my-ingress.prod/443.conf");
    // Nothing is ever written under the base in these tests, so the
    // file cannot exist.
    assert!(!store.exists_file("ingress", "my-ingress.prod", "443.conf"));
}

#[test]
fn object_list_item_identity() {
    let item = skate::filestore::ObjectListItem::from_dir(
        "/var/lib/skate/store/ingress/my-ingress.prod",
        "abc123".to_string(),
        None,
        777,
    );
    assert_eq!(item.name.name, "my-ingress");
    assert_eq!(item.name.namespace, "prod");
    assert_eq!(item.manifest_hash, "abc123");
    assert_eq!(item.created_at, 777);
    assert_eq!(item.path, "/var/lib/skate/store/ingress/my-ingress.prod");
    assert_eq!(skate::filestore::file_name_of("no-slash"), "no-slash");
}

#[test]
fn pod_labels_drive_identity() {
    let p = pod("web-1", "prod", "web", "Running", 1);
    assert_eq!(p.namespace(), "prod");
    assert_eq!(p.deployment(), "web");
    let bare = PodmanPodInfo {
        id: "x".to_string(),
        name: "x".to_string(),
        status: "Running".to_string(),
        created: 0,
        labels: Vec::new(),
        containers: Vec::new(),
    };
    assert_eq!(bare.namespace(), "");
    assert_eq!(bare.deployment(), "");
    let key = "skate.io/deployment".to_string();
    assert!(p.has_label(&key));
    assert!(!bare.has_label(&key));
}

#[test]
fn mock_fleet_scripts_and_records() {
    let mut fleet = mock(&["n1"]);
    let n1 = "n1".to_string();
    let n2 = "n2".to_string();
    assert!(fleet.find(&n1));
    assert!(!fleet.find(&n2));
    assert_eq!(fleet.find_calls, vec!["n1".to_string(), "n2".to_string()]);
    let manifest = "kind: Pod".to_string();
    let out = fleet.apply_resource(&n1, &manifest);
    assert_eq!(out, Ok((String::new(), String::new())));
    assert_eq!(fleet.apply_calls, vec![("n1".to_string(), "kind: Pod".to_string())]);
}

#[test]
fn pod_instance_becomes_a_resource() {
    let p = pod("web-1", "prod", "web", "Running", 1);
    match p.to_resource() {
        SupportedResources::Pod(m) => {
            assert_eq!(m.name.as_deref(), Some("web-1"));
            assert_eq!(m.namespace.as_deref(), Some("prod"));
            assert!(m.labels.is_empty());
        }
        SupportedResources::Deployment(_) => panic!("a pod instance is a Pod resource"),
    }
}
