//! What a node's local agent reports: system facts and the pod instances
//! observed on that node, together with the label conventions that tie a
//! pod instance to its namespace and to its deployment group.

use vstd::prelude::*;

verus! {

/// Sub-commands of the node agent's `system` command surface.
pub enum SystemCommands {
    /// Report system information.
    Info,
}

/// Arguments of the node agent's `system` command.
pub struct SystemArgs {
    pub command: SystemCommands,
}

/// Hardware/OS identity of a node.
pub struct Platform {
    pub arch: String,
    pub os: String,
    pub distribution: String,
}

/// Mathematical image of a [`Platform`].
#[verifier::ext_equal]
pub ghost struct PlatformView {
    pub arch: Seq<char>,
    pub os: Seq<char>,
    pub distribution: Seq<char>,
}

impl View for Platform {
    type V = PlatformView;

    open spec fn view(&self) -> PlatformView {
        PlatformView { arch: self.arch@, os: self.os@, distribution: self.distribution@ }
    }
}

impl Clone for Platform {
    fn clone(&self) -> (r: Self)
        ensures
            r@ == self@,
    {
        Platform {
            arch: self.arch.clone(),
            os: self.os.clone(),
            distribution: self.distribution.clone(),
        }
    }
}

/// One container of a pod instance, as observed by the node agent.
pub struct PodmanContainerInfo {
    pub id: String,
    pub names: String,
    pub status: String,
    pub restart_count: Option<usize>,
}

/// Mathematical image of a [`PodmanContainerInfo`].
#[verifier::ext_equal]
pub ghost struct ContainerView {
    pub id: Seq<char>,
    pub names: Seq<char>,
    pub status: Seq<char>,
    pub restart_count: Option<usize>,
}

impl View for PodmanContainerInfo {
    type V = ContainerView;

    open spec fn view(&self) -> ContainerView {
        ContainerView {
            id: self.id@,
            names: self.names@,
            status: self.status@,
            restart_count: self.restart_count,
        }
    }
}

impl Clone for PodmanContainerInfo {
    fn clone(&self) -> (r: Self)
        ensures
            r@ == self@,
    {
        PodmanContainerInfo {
            id: self.id.clone(),
            names: self.names.clone(),
            status: self.status.clone(),
            restart_count: self.restart_count,
        }
    }
}

/// One pod instance running on a node, as observed by the node agent.
///
/// Two reserved label keys drive scheduler semantics: the namespace label
/// and the deployment-group label (see [`PodmanPodInfo::namespace`] and
/// [`PodmanPodInfo::deployment`]).
pub struct PodmanPodInfo {
    pub id: String,
    pub name: String,
    pub status: String,
    /// Creation time as seconds since the Unix epoch.
    pub created: u64,
    pub labels: Vec<(String, String)>,
    pub containers: Vec<PodmanContainerInfo>,
}

/// Mathematical image of a [`PodmanPodInfo`].
#[verifier::ext_equal]
pub ghost struct PodView {
    pub id: Seq<char>,
    pub name: Seq<char>,
    pub status: Seq<char>,
    pub created: u64,
    pub labels: Seq<(Seq<char>, Seq<char>)>,
    pub containers: Seq<ContainerView>,
}

impl View for PodmanPodInfo {
    type V = PodView;

    open spec fn view(&self) -> PodView {
        PodView {
            id: self.id@,
            name: self.name@,
            status: self.status@,
            created: self.created,
            labels: self.labels@.map_values(|kv: (String, String)| (kv.0@, kv.1@)),
            containers: self.containers@.map_values(|c: PodmanContainerInfo| c@),
        }
    }
}

/// The value bound to the first occurrence of `key` in `labels`, or the
/// empty string when no pair carries that key.
pub open spec fn spec_label_value(labels: Seq<(Seq<char>, Seq<char>)>, key: Seq<char>) -> Seq<char>
    decreases labels.len(),
{
    if labels.len() == 0 {
        Seq::empty()
    } else if labels[0].0 == key {
        labels[0].1
    } else {
        spec_label_value(labels.drop_first(), key)
    }
}

/// Whether some pair of `labels` carries the given key.
pub open spec fn spec_has_label(labels: Seq<(Seq<char>, Seq<char>)>, key: Seq<char>) -> bool {
    exists|i: int| #![trigger labels[i]] 0 <= i < labels.len() && labels[i].0 == key
}

/// The namespace a pod instance belongs to: its namespace label, or the
/// empty string when the label is missing.
pub open spec fn spec_pod_namespace(p: PodView) -> Seq<char> {
    spec_label_value(p.labels, "skate.io/namespace"@)
}

/// The deployment group a pod instance belongs to: its deployment-group
/// label, or the empty string when the label is missing.
pub open spec fn spec_pod_deployment(p: PodView) -> Seq<char> {
    spec_label_value(p.labels, "skate.io/deployment"@)
}

impl PodmanPodInfo {
    /// The value of the label `key`, or the empty string when absent.
    pub fn label_value(&self, key: &String) -> (r: String)
        ensures
            r@ == spec_label_value(self@.labels, key@),
    {
        let mut i: usize = 0;
        proof {
            assert(self@.labels.skip(0) =~= self@.labels);
        }
        while i < self.labels.len()
            invariant
                i <= self.labels.len(),
                spec_label_value(self@.labels, key@) == spec_label_value(
                    self@.labels.skip(i as int),
                    key@,
                ),
            decreases self.labels.len() - i,
        {
            if self.labels[i].0 == *key {
                return self.labels[i].1.clone();
            }
            proof {
                assert(self@.labels.skip(i as int).drop_first() =~= self@.labels.skip(
                    i as int + 1,
                ));
            }
            i = i + 1;
        }
        proof {
            assert(self@.labels.skip(i as int) =~= Seq::<(Seq<char>, Seq<char>)>::empty());
        }
        String::new()
    }

    /// Whether this pod instance carries the given label key at all.
    pub fn has_label(&self, key: &String) -> (r: bool)
        ensures
            r == spec_has_label(self@.labels, key@),
    {
        let mut i: usize = 0;
        while i < self.labels.len()
            invariant
                i <= self.labels.len(),
                forall|k: int| #![trigger self@.labels[k]]
                    0 <= k < i ==> self@.labels[k].0 != key@,
            decreases self.labels.len() - i,
        {
            if self.labels[i].0 == *key {
                proof {
                    assert(self@.labels[i as int] == (
                        self.labels@[i as int].0@,
                        self.labels@[i as int].1@,
                    ));
                }
                return true;
            }
            i = i + 1;
        }
        false
    }

    /// The namespace of this pod instance, read from its namespace label.
    pub fn namespace(&self) -> (r: String)
        ensures
            r@ == spec_pod_namespace(self@),
    {
        self.label_value(&String::from_str("skate.io/namespace"))
    }

    /// The deployment group of this pod instance, read from its
    /// deployment-group label.
    pub fn deployment(&self) -> (r: String)
        ensures
            r@ == spec_pod_deployment(self@),
    {
        self.label_value(&String::from_str("skate.io/deployment"))
    }
}

impl Clone for PodmanPodInfo {
    fn clone(&self) -> (r: Self)
        ensures
            r@ == self@,
    {
        let mut labels: Vec<(String, String)> = Vec::new();
        let mut i: usize = 0;
        while i < self.labels.len()
            invariant
                i <= self.labels.len(),
                labels@.len() == i,
                forall|k: int|
                    0 <= k < i ==> #[trigger] labels@[k].0@ == self.labels@[k].0@
                        && labels@[k].1@ == self.labels@[k].1@,
            decreases self.labels.len() - i,
        {
            labels.push((self.labels[i].0.clone(), self.labels[i].1.clone()));
            i = i + 1;
        }
        let mut containers: Vec<PodmanContainerInfo> = Vec::new();
        let mut j: usize = 0;
        while j < self.containers.len()
            invariant
                j <= self.containers.len(),
                containers@.len() == j,
                forall|k: int| 0 <= k < j ==> #[trigger] containers@[k]@ == self.containers@[k]@,
            decreases self.containers.len() - j,
        {
            containers.push(self.containers[j].clone());
            j = j + 1;
        }
        let r = PodmanPodInfo {
            id: self.id.clone(),
            name: self.name.clone(),
            status: self.status.clone(),
            created: self.created,
            labels,
            containers,
        };
        proof {
            assert(r@.labels =~= self@.labels);
            assert(r@.containers =~= self@.containers);
        }
        r
    }
}

/// Node-level telemetry: platform facts, memory figures, and the list of
/// pod instances observed on the node.
pub struct SystemInfo {
    pub platform: Platform,
    pub total_memory_mib: u64,
    pub used_memory_mib: u64,
    pub total_swap_mib: u64,
    pub used_swap_mib: u64,
    pub num_cpus: usize,
    pub pods: Option<Vec<PodmanPodInfo>>,
}

/// Mathematical image of a [`SystemInfo`].
#[verifier::ext_equal]
pub ghost struct SystemInfoView {
    pub platform: PlatformView,
    pub total_memory_mib: u64,
    pub used_memory_mib: u64,
    pub total_swap_mib: u64,
    pub used_swap_mib: u64,
    pub num_cpus: usize,
    pub pods: Option<Seq<PodView>>,
}

impl View for SystemInfo {
    type V = SystemInfoView;

    open spec fn view(&self) -> SystemInfoView {
        SystemInfoView {
            platform: self.platform@,
            total_memory_mib: self.total_memory_mib,
            used_memory_mib: self.used_memory_mib,
            total_swap_mib: self.total_swap_mib,
            used_swap_mib: self.used_swap_mib,
            num_cpus: self.num_cpus,
            pods: match self.pods {
                Some(v) => Some(v@.map_values(|p: PodmanPodInfo| p@)),
                None => None,
            },
        }
    }
}

impl Clone for SystemInfo {
    fn clone(&self) -> (r: Self)
        ensures
            r@ == self@,
    {
        let pods = match &self.pods {
            Some(v) => Some(clone_pods(v)),
            None => None,
        };
        let r = SystemInfo {
            platform: self.platform.clone(),
            total_memory_mib: self.total_memory_mib,
            used_memory_mib: self.used_memory_mib,
            total_swap_mib: self.total_swap_mib,
            used_swap_mib: self.used_swap_mib,
            num_cpus: self.num_cpus,
            pods,
        };
        proof {
            if self.pods is Some {
                assert(r@.pods->0 =~= self@.pods->0);
            }
        }
        r
    }
}

/// An element-wise copy of a list of pod instances.
pub fn clone_pods(v: &Vec<PodmanPodInfo>) -> (r: Vec<PodmanPodInfo>)
    ensures
        r@.len() == v@.len(),
        forall|k: int| 0 <= k < v@.len() ==> #[trigger] r@[k]@ == v@[k]@,
{
    let mut out: Vec<PodmanPodInfo> = Vec::new();
    let mut i: usize = 0;
    while i < v.len()
        invariant
            i <= v.len(),
            out@.len() == i,
            forall|k: int| 0 <= k < i ==> #[trigger] out@[k]@ == v@[k]@,
        decreases v.len() - i,
    {
        out.push(v[i].clone());
        i = i + 1;
    }
    out
}

} // verus!
