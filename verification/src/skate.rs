//! The schedulable resource model: a closed union over the supported
//! workload kinds, each carrying identity metadata, and the canonical
//! manifest text a resource is serialized to before dispatch.
//!
//! The manifest is a line-oriented document; a resource whose metadata
//! contains a line break cannot be embedded in it and fails serialization.

use vstd::prelude::*;

verus! {

/// Identity metadata of a resource: name, namespace and label map.
/// `(name, namespace)` identifies a logical workload within its kind.
pub struct ResourceMeta {
    pub name: Option<String>,
    pub namespace: Option<String>,
    pub labels: Vec<(String, String)>,
}

/// Mathematical image of a [`ResourceMeta`].
#[verifier::ext_equal]
pub ghost struct MetaView {
    pub name: Option<Seq<char>>,
    pub namespace: Option<Seq<char>>,
    pub labels: Seq<(Seq<char>, Seq<char>)>,
}

impl View for ResourceMeta {
    type V = MetaView;

    open spec fn view(&self) -> MetaView {
        MetaView {
            name: match self.name {
                Some(n) => Some(n@),
                None => None,
            },
            namespace: match self.namespace {
                Some(n) => Some(n@),
                None => None,
            },
            labels: self.labels@.map_values(|kv: (String, String)| (kv.0@, kv.1@)),
        }
    }
}

/// The closed union of workload kinds this orchestrator can place.
/// A new kind is added by extending this union and the planner's
/// matching logic; there is no open-ended dispatch.
pub enum SupportedResources {
    Pod(ResourceMeta),
    Deployment(ResourceMeta),
}

/// Mathematical image of a [`SupportedResources`].
pub ghost enum ResourceView {
    Pod(MetaView),
    Deployment(MetaView),
}

impl View for SupportedResources {
    type V = ResourceView;

    open spec fn view(&self) -> ResourceView {
        match self {
            SupportedResources::Pod(m) => ResourceView::Pod(m@),
            SupportedResources::Deployment(m) => ResourceView::Deployment(m@),
        }
    }
}

/// The metadata of a resource, whatever its kind.
pub open spec fn spec_meta_of(o: ResourceView) -> MetaView {
    match o {
        ResourceView::Pod(m) => m,
        ResourceView::Deployment(m) => m,
    }
}

/// A resource's name; the empty string when the metadata gives none.
pub open spec fn spec_resource_name(o: ResourceView) -> Seq<char> {
    match spec_meta_of(o).name {
        Some(n) => n,
        None => Seq::empty(),
    }
}

/// A resource's namespace; the empty string when the metadata gives none.
pub open spec fn spec_resource_namespace(o: ResourceView) -> Seq<char> {
    match spec_meta_of(o).namespace {
        Some(n) => n,
        None => Seq::empty(),
    }
}

/// A string that can stand on one line of the manifest: it holds no
/// line break.
pub open spec fn spec_clean(s: Seq<char>) -> bool {
    forall|i: int| 0 <= i < s.len() ==> s[i] != '\n'
}

/// Whether a resource can be serialized: every metadata string fits on
/// one manifest line.
pub open spec fn spec_serializable(o: ResourceView) -> bool {
    let m = spec_meta_of(o);
    &&& spec_clean(spec_resource_name(o))
    &&& spec_clean(spec_resource_namespace(o))
    &&& forall|i: int| #![trigger m.labels[i]]
        0 <= i < m.labels.len() ==> spec_clean(m.labels[i].0) && spec_clean(m.labels[i].1)
}

/// The label block of the manifest: one indented `key: value` line per
/// label, in label order.
pub open spec fn spec_label_lines(labels: Seq<(Seq<char>, Seq<char>)>) -> Seq<char>
    decreases labels.len(),
{
    if labels.len() == 0 {
        Seq::empty()
    } else {
        spec_label_lines(labels.drop_last()) + "    "@ + labels.last().0 + ": "@ + labels.last().1
            + "\n"@
    }
}

/// The manifest's kind header line(s) for a resource.
pub open spec fn spec_render_header(o: ResourceView) -> Seq<char> {
    match o {
        ResourceView::Pod(_) => "apiVersion: v1\nkind: Pod\n"@,
        ResourceView::Deployment(_) => "apiVersion: apps/v1\nkind: Deployment\n"@,
    }
}

/// Everything of the manifest that precedes the label lines.
pub open spec fn spec_render_prefix(o: ResourceView) -> Seq<char> {
    spec_render_header(o) + "metadata:\n  name: "@ + spec_resource_name(o) + "\n  namespace: "@
        + spec_resource_namespace(o) + "\n  labels:\n"@
}

/// The canonical manifest text of a resource.
pub open spec fn spec_render(o: ResourceView) -> Seq<char> {
    spec_render_prefix(o) + spec_label_lines(spec_meta_of(o).labels)
}

/// Whether the string holds no line break (executable form).
pub fn str_clean(s: &String) -> (b: bool)
    ensures
        b == spec_clean(s@),
{
    let st = s.as_str();
    let n = st.unicode_len();
    let mut i: usize = 0;
    while i < n
        invariant
            i <= n,
            n == s@.len(),
            st@ == s@,
            forall|k: int| 0 <= k < i ==> s@[k] != '\n',
        decreases n - i,
    {
        if st.get_char(i) == '\n' {
            return false;
        }
        i = i + 1;
    }
    true
}

impl SupportedResources {
    /// The resource's name, or the empty string when the metadata gives
    /// none.
    pub fn name_string(&self) -> (r: String)
        ensures
            r@ == spec_resource_name(self@),
    {
        let m = self.meta();
        match &m.name {
            Some(n) => n.clone(),
            None => String::new(),
        }
    }

    /// The resource's namespace, or the empty string when the metadata
    /// gives none.
    pub fn namespace_string(&self) -> (r: String)
        ensures
            r@ == spec_resource_namespace(self@),
    {
        let m = self.meta();
        match &m.namespace {
            Some(n) => n.clone(),
            None => String::new(),
        }
    }

    /// The identity metadata, whatever the resource kind.
    pub fn meta(&self) -> (r: &ResourceMeta)
        ensures
            r@ == spec_meta_of(self@),
    {
        match self {
            SupportedResources::Pod(m) => m,
            SupportedResources::Deployment(m) => m,
        }
    }

    /// Serializes the resource to its canonical manifest text.
    ///
    /// Returns the exact rendering [`spec_render`] whenever every
    /// metadata string is free of line breaks, and an error otherwise.
    pub fn serialize(&self) -> (r: Result<String, String>)
        ensures
            spec_serializable(self@) ==> (r matches Ok(s) && s@ == spec_render(self@)),
            !spec_serializable(self@) ==> (r matches Err(m) && m@
                == "failed to serialize resource: metadata contains a line break"@),
    {
        let m = self.meta();
        let name = self.name_string();
        let ns = self.namespace_string();
        let name_ok = str_clean(&name);
        let ns_ok = str_clean(&ns);
        let lab_ok = labels_clean(&m.labels);
        proof {
            let raw = m.labels@;
            let mapped = m@.labels;
            if lab_ok {
                assert forall|i: int| #![trigger mapped[i]]
                    0 <= i < mapped.len() implies spec_clean(mapped[i].0) && spec_clean(
                    mapped[i].1,
                ) by {
                    assert(spec_clean(raw[i].0@) && spec_clean(raw[i].1@));
                    assert(mapped[i] == (raw[i].0@, raw[i].1@));
                }
            } else {
                let i = choose|i: int| #![trigger raw[i]]
                    0 <= i < raw.len() && !(spec_clean(raw[i].0@) && spec_clean(raw[i].1@));
                assert(mapped[i] == (raw[i].0@, raw[i].1@));
                assert(!(spec_clean(mapped[i].0) && spec_clean(mapped[i].1)));
            }
        }
        if !(name_ok && ns_ok && lab_ok) {
            return Err(
                String::from_str("failed to serialize resource: metadata contains a line break"),
            );
        }
        let mut out = match self {
            SupportedResources::Pod(_) => String::from_str("apiVersion: v1\nkind: Pod\n"),
            SupportedResources::Deployment(_) => String::from_str(
                "apiVersion: apps/v1\nkind: Deployment\n",
            ),
        };
        out.append("metadata:\n  name: ");
        out.append(name.as_str());
        out.append("\n  namespace: ");
        out.append(ns.as_str());
        out.append("\n  labels:\n");
        let mut i: usize = 0;
        proof {
            assert(m@.labels.take(0) =~= Seq::<(Seq<char>, Seq<char>)>::empty());
        }
        while i < m.labels.len()
            invariant
                i <= m.labels.len(),
                m@ == spec_meta_of(self@),
                out@ == spec_render_prefix(self@) + spec_label_lines(m@.labels.take(i as int)),
            decreases m.labels.len() - i,
        {
            out.append("    ");
            out.append(m.labels[i].0.as_str());
            out.append(": ");
            out.append(m.labels[i].1.as_str());
            out.append("\n");
            proof {
                assert(m@.labels.take(i + 1).drop_last() =~= m@.labels.take(i as int));
                assert(m@.labels.take(i + 1).last() == m@.labels[i as int]);
            }
            i = i + 1;
        }
        proof {
            assert(m@.labels.take(m@.labels.len() as int) =~= m@.labels);
        }
        Ok(out)
    }
}

impl crate::skatelet::system::PodmanPodInfo {
    /// The Pod resource a running instance stands for: its own name,
    /// in the namespace its labels place it in, with no labels of its
    /// own in the definition.
    pub fn to_resource(&self) -> (r: SupportedResources)
        ensures
            ({
                &&& r@ matches ResourceView::Pod(m)
                &&& m.name matches Some(n) && n == self@.name
                &&& m.namespace matches Some(ns) && ns
                    == crate::skatelet::system::spec_pod_namespace(self@)
                &&& m.labels == Seq::<(Seq<char>, Seq<char>)>::empty()
            }),
    {
        let r = SupportedResources::Pod(
            ResourceMeta {
                name: Some(self.name.clone()),
                namespace: Some(self.namespace()),
                labels: Vec::new(),
            },
        );
        proof {
            assert(spec_meta_of(r@).labels =~= Seq::<(Seq<char>, Seq<char>)>::empty());
        }
        r
    }
}

/// Whether every label key and value is free of line breaks.
pub fn labels_clean(labels: &Vec<(String, String)>) -> (b: bool)
    ensures
        b ==> (forall|i: int| #![trigger labels@[i]]
            0 <= i < labels@.len() ==> spec_clean(labels@[i].0@) && spec_clean(labels@[i].1@)),
        !b ==> (exists|i: int| #![trigger labels@[i]]
            0 <= i < labels@.len() && !(spec_clean(labels@[i].0@) && spec_clean(labels@[i].1@))),
{
    let mut i: usize = 0;
    while i < labels.len()
        invariant
            i <= labels@.len(),
            forall|k: int| #![trigger labels@[k]]
                0 <= k < i ==> spec_clean(labels@[k].0@) && spec_clean(labels@[k].1@),
        decreases labels.len() - i,
    {
        if !str_clean(&labels[i].0) || !str_clean(&labels[i].1) {
            return false;
        }
        proof {
            assert(spec_clean(labels@[i as int].0@));
            assert(spec_clean(labels@[i as int].1@));
        }
        i = i + 1;
    }
    true
}

} // verus!
