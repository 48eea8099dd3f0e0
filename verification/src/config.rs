use vstd::prelude::*;

verus! {

/// Identifier of a node within a dataflow; an opaque string.
#[derive(Clone, Debug)]
pub struct NodeId(pub String);

/// Identifier of a declared output; an opaque string.
#[derive(Clone, Debug)]
pub struct DataId(pub String);

/// Identifier of a dataflow deployment; an opaque string.
#[derive(Clone, Debug)]
pub struct DataflowId(pub String);

impl View for NodeId {
    type V = Seq<char>;

    open spec fn view(&self) -> Seq<char> {
        self.0@
    }
}

impl View for DataId {
    type V = Seq<char>;

    open spec fn view(&self) -> Seq<char> {
        self.0@
    }
}

impl View for DataflowId {
    type V = Seq<char>;

    open spec fn view(&self) -> Seq<char> {
        self.0@
    }
}

impl DataId {
    pub fn eq_id(&self, other: &DataId) -> (r: bool)
        ensures
            r == (self@ == other@),
    {
        self.0 == other.0
    }
}

/// An IPv4 address, stored octet by octet.
#[derive(Clone, Copy, Debug, PartialEq, Eq, Structural)]
pub struct Ipv4Address {
    pub o0: u8,
    pub o1: u8,
    pub o2: u8,
    pub o3: u8,
}

/// An IPv4 socket address.
#[derive(Clone, Copy, Debug, PartialEq, Eq, Structural)]
pub struct SocketAddress {
    pub ip: Ipv4Address,
    pub port: u16,
}

/// How the node reaches its daemon: over a TCP socket or over a
/// shared-memory control region.
#[derive(Clone, Debug)]
pub enum DaemonCommunication {
    Tcp { socket_addr: SocketAddress },
    Shmem { region_id: String },
}

/// The set of outputs a node has declared. Ids are unique.
#[derive(Clone, Debug)]
pub struct NodeRunConfig {
    pub outputs: Vec<DataId>,
}

impl NodeRunConfig {
    /// The declared output ids, in declaration order.
    pub open spec fn ids(self) -> Seq<Seq<char>> {
        self.outputs@.map_values(|d: DataId| d@)
    }

    /// Whether `id` is in the declared output set.
    pub open spec fn declares(self, id: Seq<char>) -> bool {
        self.ids().contains(id)
    }

    /// Declared ids are pairwise distinct.
    pub open spec fn wf(self) -> bool {
        forall|i: int, j: int|
            0 <= i < j < self.ids().len() ==> self.ids()[i] != self.ids()[j]
    }

    pub fn new(outputs: Vec<DataId>) -> (r: NodeRunConfig)
        ensures
            r.outputs@ == outputs@,
    {
        NodeRunConfig { outputs }
    }

    pub fn len(&self) -> (r: usize)
        ensures
            r == self.ids().len(),
    {
        let r = self.outputs.len();
        assert(self.ids().len() == self.outputs@.len());
        r
    }

    pub fn contains_id(&self, id: &DataId) -> (r: bool)
        ensures
            r == self.declares(id@),
    {
        let n = self.outputs.len();
        assert(self.ids().len() == n);
        for i in 0..n
            invariant
                n == self.outputs@.len(),
                forall|k: int| 0 <= k < i ==> self.ids()[k] != id@,
        {
            assert(self.ids()[i as int] == self.outputs@[i as int]@);
            if self.outputs[i].eq_id(id) {
                assert(self.declares(id@));
                return true;
            }
        }
        assert(forall|k: int| 0 <= k < self.ids().len() ==> self.ids()[k] != id@);
        false
    }

    /// Remove `id` from the declared set. Returns whether it was declared.
    pub fn remove_id(&mut self, id: &DataId) -> (r: bool)
        ensures
            r == old(self).declares(id@),
            !r ==> final(self).outputs@ == old(self).outputs@,
            r ==> exists|k: int|
                0 <= k < old(self).outputs@.len() && old(self).ids()[k] == id@
                    && final(self).outputs@ == old(self).outputs@.remove(k),
            old(self).wf() ==> final(self).wf(),
            old(self).wf() ==> forall|x: Seq<char>|
                final(self).declares(x) <==> (old(self).declares(x) && x != id@),
    {
        let n = self.outputs.len();
        let ghost orig = self.outputs@;
        let ghost oids = old(self).ids();
        for i in 0..n
            invariant
                n == self.outputs@.len(),
                self.outputs@ == orig,
                orig == old(self).outputs@,
                oids == old(self).ids(),
                forall|k: int| 0 <= k < i ==> oids[k] != id@,
        {
            assert(oids[i as int] == orig[i as int]@);
            if self.outputs[i].eq_id(id) {
                self.outputs.remove(i);
                proof {
                    assert(self.outputs@ == orig.remove(i as int));
                    assert(self.ids() =~= oids.remove(i as int));
                    if old(self).wf() {
                        lemma_remove_keeps_distinct(oids, i as int);
                        lemma_declares_after_remove(oids, i as int);
                    }
                }
                return true;
            }
        }
        assert(forall|k: int| 0 <= k < old(self).ids().len() ==> old(self).ids()[k] != id@);
        false
    }
}

/// Removing an element of a pairwise-distinct sequence keeps it
/// pairwise distinct.
proof fn lemma_remove_keeps_distinct(s: Seq<Seq<char>>, i: int)
    requires
        0 <= i < s.len(),
        forall|p: int, q: int| 0 <= p < q < s.len() ==> s[p] != s[q],
    ensures
        forall|p: int, q: int|
            0 <= p < q < s.remove(i).len() ==> s.remove(i)[p] != s.remove(i)[q],
{
    let t = s.remove(i);
    assert forall|p: int, q: int| 0 <= p < q < t.len() implies t[p] != t[q] by {
        let p0 = if p < i { p } else { p + 1 };
        let q0 = if q < i { q } else { q + 1 };
        assert(t[p] == s[p0]);
        assert(t[q] == s[q0]);
    }
}

/// After removing the only occurrence of an id, exactly the other ids
/// remain.
proof fn lemma_declares_after_remove(s: Seq<Seq<char>>, i: int)
    requires
        0 <= i < s.len(),
        forall|p: int, q: int| 0 <= p < q < s.len() ==> s[p] != s[q],
    ensures
        forall|x: Seq<char>|
            s.remove(i).contains(x) <==> (s.contains(x) && x != s[i]),
{
    let t = s.remove(i);
    assert forall|x: Seq<char>| t.contains(x) implies (s.contains(x) && x != s[i]) by {
        let p = choose|p: int| 0 <= p < t.len() && t[p] == x;
        let p0 = if p < i { p } else { p + 1 };
        assert(s[p0] == x);
        if p0 != i {
            assert(x != s[i]);
        }
    }
    assert forall|x: Seq<char>| (s.contains(x) && x != s[i]) implies t.contains(x) by {
        let p = choose|p: int| 0 <= p < s.len() && s[p] == x;
        if p < i {
            assert(t[p] == x);
        } else {
            assert(t[p - 1] == x);
        }
    }
}

/// Everything a node needs to join its dataflow.
#[derive(Clone, Debug)]
pub struct NodeConfig {
    pub dataflow_id: DataflowId,
    pub node_id: NodeId,
    pub run_config: NodeRunConfig,
    pub daemon_communication: DaemonCommunication,
    /// The raw text of the dataflow description this node is part of.
    pub dataflow_descriptor: String,
    pub dynamic: bool,
}

impl NodeConfig {
    /// When the daemon is reached over TCP, replace the address it reported
    /// with the address the node used to reach it, keeping the reported
    /// port. A shared-memory channel is left unchanged.
    pub fn rewrite_daemon_addr(&mut self, remote_ip: Ipv4Address)
        ensures
            match old(self).daemon_communication {
                DaemonCommunication::Tcp { socket_addr } => final(self).daemon_communication
                    matches DaemonCommunication::Tcp { socket_addr: s }
                    && s.ip == remote_ip && s.port == socket_addr.port,
                DaemonCommunication::Shmem { .. } => match (
                    &final(self).daemon_communication,
                    &old(self).daemon_communication,
                ) {
                    (
                        DaemonCommunication::Shmem { region_id: a },
                        DaemonCommunication::Shmem { region_id: b },
                    ) => a@ == b@,
                    _ => false,
                },
            },
            final(self).dataflow_id@ == old(self).dataflow_id@,
            final(self).node_id@ == old(self).node_id@,
            final(self).run_config == old(self).run_config,
            final(self).dataflow_descriptor@ == old(self).dataflow_descriptor@,
            final(self).dynamic == old(self).dynamic,
    {
        match &self.daemon_communication {
            DaemonCommunication::Tcp { socket_addr } => {
                let port = socket_addr.port;
                self.daemon_communication = DaemonCommunication::Tcp {
                    socket_addr: SocketAddress { ip: remote_ip, port },
                };
            },
            DaemonCommunication::Shmem { .. } => {},
        }
    }
}

} // verus!
