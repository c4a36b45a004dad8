//! Workload identity: metadata records and the address table.
//!
//! The watcher task observes workload lifecycle events and maintains a
//! concurrent map from peer address to workload metadata; the admission
//! pipeline reads it.  The map itself is crossbeam_skiplist's `SkipMap`,
//! held behind trusted wrappers whose contracts speak of the table's
//! contents as a mathematical map.

use vstd::prelude::*;

verus! {

use crate::kv::Pairs;
use crate::strutil::{lemma_take_succ, lemma_take_full};

/// Metadata of an identified workload.
#[derive(Clone)]
pub struct PodMeta {
    pub name: String,
    pub namespace: String,
    pub labels: Vec<(String, String)>,
    pub annotations: Vec<(String, String)>,
}

/// Mathematical shape of a `PodMeta`.
pub struct PodMetaView {
    pub name: Seq<char>,
    pub namespace: Seq<char>,
    pub labels: Pairs,
    pub annotations: Pairs,
}

impl View for PodMeta {
    type V = PodMetaView;

    open spec fn view(&self) -> PodMetaView {
        PodMetaView {
            name: self.name@,
            namespace: self.namespace@,
            labels: self.labels.deep_view(),
            annotations: self.annotations.deep_view(),
        }
    }
}

/// What the watcher sees of one workload object: its metadata and the
/// address assigned to it, if any.
pub struct PodRecord {
    pub name: String,
    pub namespace: String,
    pub labels: Vec<(String, String)>,
    pub annotations: Vec<(String, String)>,
    pub pod_ip: Option<String>,
}

/// Metadata carried by a workload record.
pub open spec fn spec_meta_of(pod: PodRecord) -> PodMetaView {
    PodMetaView {
        name: pod.name@,
        namespace: pod.namespace@,
        labels: pod.labels.deep_view(),
        annotations: pod.annotations.deep_view(),
    }
}

impl PodMeta {
    /// Copy the metadata out of a workload record.
    pub fn from(pod: &PodRecord) -> (r: PodMeta)
        ensures
            r@ == spec_meta_of(*pod),
    {
        let r = PodMeta {
            name: pod.name.clone(),
            namespace: pod.namespace.clone(),
            labels: crate::kv::clone_pairs(&pod.labels),
            annotations: crate::kv::clone_pairs(&pod.annotations),
        };
        r
    }
}

/// The address assigned to a workload, if the cluster has reported one.
pub fn get_pod_ip(pod: &PodRecord) -> (r: Option<String>)
    ensures
        match r {
            Some(ip) => pod.pod_ip is Some && ip@ == pod.pod_ip.unwrap()@,
            None => pod.pod_ip is None,
        },
{
    match &pod.pod_ip {
        Some(ip) => Some(ip.clone()),
        None => None,
    }
}

/// Concurrent map from peer address to workload metadata.  One watcher task
/// writes it; request tasks read it.
#[verifier::external_body]
pub struct IdentityTable {
    inner: crossbeam_skiplist::SkipMap<String, PodMeta>,
}

/// The entries currently held by the table, as a map over views.
pub uninterp spec fn table_contents(t: IdentityTable) -> Map<Seq<char>, PodMetaView>;

impl IdentityTable {
    /// Relies on crossbeam_skiplist::SkipMap::new: a fresh map holds nothing.
    #[verifier::external_body]
    pub fn new() -> (t: IdentityTable)
        ensures
            forall|ip: Seq<char>| !table_contents(t).contains_key(ip),
    {
        IdentityTable { inner: crossbeam_skiplist::SkipMap::new() }
    }

    /// Relies on crossbeam_skiplist::SkipMap::insert: binds `ip` to `meta`,
    /// replacing any previous entry of that key.
    #[verifier::external_body]
    pub fn insert(&mut self, ip: String, meta: PodMeta)
        ensures
            table_contents(*final(self)) == table_contents(*old(self)).insert(ip@, meta@),
    {
        self.inner.insert(ip, meta);
    }

    /// Relies on crossbeam_skiplist::SkipMap::remove: drops the entry keyed
    /// `ip`, if any.
    #[verifier::external_body]
    pub fn remove(&mut self, ip: &String)
        ensures
            table_contents(*final(self)) == table_contents(*old(self)).remove(ip@),
    {
        self.inner.remove(ip);
    }

    /// Relies on crossbeam_skiplist::SkipMap::clear: afterwards the map holds
    /// nothing.
    #[verifier::external_body]
    pub fn clear(&mut self)
        ensures
            forall|ip: Seq<char>| !table_contents(*final(self)).contains_key(ip),
    {
        self.inner.clear();
    }

    /// Relies on crossbeam_skiplist::SkipMap::get; the stored metadata is
    /// cloned out of the entry.
    #[verifier::external_body]
    pub fn get(&self, ip: &String) -> (r: Option<PodMeta>)
        ensures
            match r {
                Some(m) => table_contents(*self).contains_key(ip@) && m@ == table_contents(
                    *self,
                )[ip@],
                None => !table_contents(*self).contains_key(ip@),
            },
    {
        self.inner.get(ip).map(|e| e.value().clone())
    }
}

/// What a lookup of `ip` observes in contents `t`.
pub open spec fn spec_find(t: IdentityTable, ip: Seq<char>) -> Option<PodMetaView> {
    if table_contents(t).contains_key(ip) {
        Some(table_contents(t)[ip])
    } else {
        None
    }
}

/// Look up the workload bound to a peer address.  Against a stable table the
/// result is a function of the contents alone, so repeated calls agree.
pub fn find(table: &IdentityTable, ip: &String) -> (r: Option<PodMeta>)
    ensures
        match r {
            Some(m) => spec_find(*table, ip@) == Some(m@),
            None => spec_find(*table, ip@) is None,
        },
{
    table.get(ip)
}

/// Effect of binding one workload record.
pub open spec fn spec_bind(m: Map<Seq<char>, PodMetaView>, pod: PodRecord) -> Map<
    Seq<char>,
    PodMetaView,
> {
    match pod.pod_ip {
        Some(ip) => m.insert(ip@, spec_meta_of(pod)),
        None => m,
    }
}

/// Bind a workload to its address; a workload without an address is ignored.
pub fn bind(table: &mut IdentityTable, pod: &PodRecord)
    ensures
        table_contents(*final(table)) == spec_bind(table_contents(*old(table)), *pod),
{
    let meta = PodMeta::from(pod);
    match get_pod_ip(pod) {
        Some(ip) => {
            table.insert(ip, meta);
        }
        None => (),
    }
}

/// Effect of unbinding one workload record.
pub open spec fn spec_unbind(m: Map<Seq<char>, PodMetaView>, pod: PodRecord) -> Map<
    Seq<char>,
    PodMetaView,
> {
    match pod.pod_ip {
        Some(ip) => m.remove(ip@),
        None => m,
    }
}

/// Remove the entry of a deleted workload's address.
pub fn unbind(table: &mut IdentityTable, pod: &PodRecord)
    ensures
        table_contents(*final(table)) == spec_unbind(table_contents(*old(table)), *pod),
{
    match get_pod_ip(pod) {
        Some(ip) => {
            table.remove(&ip);
        }
        None => (),
    }
}

/// The table a snapshot denotes: every addressed workload bound, later
/// entries overriding earlier ones of the same address.
pub open spec fn snapshot_map(pods: Seq<PodRecord>) -> Map<Seq<char>, PodMetaView>
    decreases pods.len(),
{
    if pods.len() == 0 {
        Map::empty()
    } else {
        spec_bind(snapshot_map(pods.drop_last()), pods.last())
    }
}

/// Replace the whole table by a snapshot.
pub fn bind_all(table: &mut IdentityTable, pods: &Vec<PodRecord>)
    ensures
        table_contents(*final(table)) == snapshot_map(pods@),
{
    table.clear();
    proof {
        assert(table_contents(*table) =~= Map::<Seq<char>, PodMetaView>::empty());
    }
    let mut i: usize = 0;
    while i < pods.len()
        invariant
            i <= pods.len(),
            table_contents(*table) == snapshot_map(pods@.take(i as int)),
        decreases pods.len() - i,
    {
        bind(table, &pods[i]);
        proof {
            lemma_take_succ(pods@, i as int);
        }
        i += 1;
    }
    proof {
        lemma_take_full(pods@);
    }
}

/// One observation from the workload lifecycle stream.
pub enum PodEvent {
    Applied(PodRecord),
    Deleted(PodRecord),
    Restarted(Vec<PodRecord>),
}

/// Effect of one stream event on the table contents.
pub open spec fn spec_apply_event(m: Map<Seq<char>, PodMetaView>, e: PodEvent) -> Map<
    Seq<char>,
    PodMetaView,
> {
    match e {
        PodEvent::Applied(pod) => spec_bind(m, pod),
        PodEvent::Deleted(pod) => spec_unbind(m, pod),
        PodEvent::Restarted(pods) => snapshot_map(pods@),
    }
}

/// Apply one watcher event to the table.
pub fn apply_event(table: &mut IdentityTable, event: &PodEvent)
    ensures
        table_contents(*final(table)) == spec_apply_event(table_contents(*old(table)), *event),
{
    match event {
        PodEvent::Applied(pod) => bind(table, pod),
        PodEvent::Deleted(pod) => unbind(table, pod),
        PodEvent::Restarted(pods) => bind_all(table, pods),
    }
}

/// What a lookup finds in a snapshot: the metadata of the last workload in
/// the snapshot that holds the address.
pub open spec fn spec_snapshot_find(pods: Seq<PodRecord>, ip: Seq<char>) -> Option<PodMetaView>
    decreases pods.len(),
{
    if pods.len() == 0 {
        None
    } else if pods.last().pod_ip is Some && pods.last().pod_ip.unwrap()@ == ip {
        Some(spec_meta_of(pods.last()))
    } else {
        spec_snapshot_find(pods.drop_last(), ip)
    }
}

/// Identity lookup agrees with a snapshot: once the table has been replaced
/// by snapshot `pods`, looking up any address observes exactly what the
/// snapshot binds to it.
pub proof fn lemma_snapshot_find(pods: Seq<PodRecord>, ip: Seq<char>)
    ensures
        match spec_snapshot_find(pods, ip) {
            Some(m) => snapshot_map(pods).contains_key(ip) && snapshot_map(pods)[ip] == m,
            None => !snapshot_map(pods).contains_key(ip),
        },
    decreases pods.len(),
{
    if pods.len() > 0 {
        lemma_snapshot_find(pods.drop_last(), ip);
    }
}

/// Identity lookup after a snapshot replacement, stated on the table itself:
/// `find` observes exactly the snapshot's binding for every address.
pub proof fn lemma_replace_all_find(t: IdentityTable, pods: Seq<PodRecord>, ip: Seq<char>)
    requires
        table_contents(t) == snapshot_map(pods),
    ensures
        spec_find(t, ip) == spec_snapshot_find(pods, ip),
{
    lemma_snapshot_find(pods, ip);
}

} // verus!
