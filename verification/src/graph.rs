//! The node registry and the render graph that recipes are compiled into.

use vstd::prelude::*;

use crate::node::name_salt;
use crate::node::ports;
use crate::node::salt_of_name;
use crate::node::KernelSalt;
use crate::node::Port;
use crate::node::PortDecl;
use crate::params::same_text;
use crate::params::Named;
use crate::params::ParamBlock;
use crate::types::NodeId;
use crate::types::ProcessVersion;

verus! {

/// A range of process versions, open-ended where `last` is `None`.
#[derive(Clone, Copy, Debug, PartialEq, Eq, Structural)]
pub struct PvRange {
    /// The first version.
    pub first: ProcessVersion,
    /// The last version, if there is one.
    pub last: Option<ProcessVersion>,
}

impl PvRange {
    /// Whether the range holds a version.
    pub open spec fn holds(self, pv: ProcessVersion) -> bool {
        &&& self.first.0 <= pv.0
        &&& self.last matches Some(l) ==> pv.0 <= l.0
    }

    /// Whether some version lies in both ranges.
    pub open spec fn meets(self, other: PvRange) -> bool {
        exists|v: u16| #[trigger]
            self.holds(ProcessVersion(v)) && other.holds(ProcessVersion(v))
    }

    /// `pv` and every later version.
    pub fn from_open(pv: ProcessVersion) -> (r: PvRange)
        ensures
            r == (PvRange { first: pv, last: None }),
    {
        PvRange { first: pv, last: None }
    }

    /// Whether the range holds a version.
    pub fn contains(&self, pv: ProcessVersion) -> (r: bool)
        ensures
            r == self.holds(pv),
    {
        if pv.0 < self.first.0 {
            return false;
        }
        match self.last {
            Some(l) => pv.0 <= l.0,
            None => true,
        }
    }

    /// Whether some version lies in both ranges.
    pub fn overlaps(&self, other: &PvRange) -> (r: bool)
        ensures
            r == self.meets(*other),
    {
        let start: ProcessVersion = if self.first.0 > other.first.0 {
            self.first
        } else {
            other.first
        };
        let r: bool = self.contains(start) && other.contains(start);
        proof {
            if r {
                assert(self.holds(ProcessVersion(start.0)) && other.holds(ProcessVersion(start.0)));
            }
        }
        r
    }
}

/// Why a node cannot be registered.
#[derive(Clone, Copy, Debug, PartialEq, Eq, Structural)]
pub enum RegistryError {
    /// The node is already registered for one of the versions.
    Overlap,
}

/// Why a graph edge cannot be made.
#[derive(Clone, Copy, Debug, PartialEq, Eq, Structural)]
pub enum GraphError {
    /// There is no such node.
    UnknownNode,
    /// The node has no such input port.
    UnknownPort,
    /// The ports carry different things.
    TypeMismatch,
}

/// Why a recipe cannot be compiled.
#[derive(Clone, Debug, PartialEq, Eq)]
pub enum CompileError {
    /// A stage's node is not registered for the process version.
    NodeNotRegistered {
        /// The node.
        id: NodeId,
        /// The version.
        pv: ProcessVersion,
    },
    /// A stage cannot be spliced.
    UnknownStage(String),
    /// An edge cannot be made.
    Graph(GraphError),
}

/// A compile error, mathematically.
pub enum Fault {
    /// A stage's node is not registered for the process version.
    NotRegistered(Seq<char>, ProcessVersion),
    /// A stage cannot be spliced.
    UnknownStage(Seq<char>),
    /// An edge cannot be made.
    Graph(GraphError),
}

impl View for CompileError {
    type V = Fault;

    open spec fn view(&self) -> Fault {
        match self {
            CompileError::NodeNotRegistered { id, pv } => Fault::NotRegistered(id@, *pv),
            CompileError::UnknownStage(m) => Fault::UnknownStage(m@),
            CompileError::Graph(e) => Fault::Graph(*e),
        }
    }
}

/// A compilation's result, mathematically.
pub open spec fn outcome(r: Result<usize, CompileError>) -> Result<int, Fault> {
    match r {
        Ok(i) => Ok(i as int),
        Err(e) => Err(e@),
    }
}

/// A registered node.
#[derive(Clone, Debug, PartialEq, Eq)]
pub struct RegistryEntry {
    /// Its identity.
    pub id: NodeId,
    /// The process versions it serves.
    pub range: PvRange,
    /// Its kernel's salt, if it has a kernel.
    pub salt: Option<KernelSalt>,
    /// Its input ports.
    pub inputs: Vec<PortDecl>,
    /// Its output port.
    pub output: PortDecl,
}

/// A registered node, mathematically.
pub struct Entry {
    /// Its identity.
    pub id: Seq<char>,
    /// The process versions it serves.
    pub range: PvRange,
    /// Its kernel's salt, if it has a kernel.
    pub salt: Option<Seq<u8>>,
    /// Its input ports.
    pub inputs: Seq<Port>,
    /// Its output port.
    pub output: Port,
}

impl View for RegistryEntry {
    type V = Entry;

    open spec fn view(&self) -> Entry {
        Entry {
            id: self.id@,
            range: self.range,
            salt: match self.salt {
                Some(s) => Some(s@),
                None => None,
            },
            inputs: ports(self.inputs@),
            output: self.output@,
        }
    }
}

/// Whether an entry's node is already registered for one of its versions.
pub open spec fn clashes(entries: Seq<Entry>, e: Entry) -> bool {
    exists|i: int|
        0 <= i < entries.len() && (#[trigger] entries[i]).id == e.id && entries[i].range.meets(
            e.range,
        )
}

/// The first entry for a node at a version.
pub open spec fn resolved(entries: Seq<Entry>, id: Seq<char>, pv: ProcessVersion) -> Option<Entry>
    decreases entries.len(),
{
    if entries.len() == 0 {
        None
    } else if entries[0].id == id && entries[0].range.holds(pv) {
        Some(entries[0])
    } else {
        resolved(entries.skip(1), id, pv)
    }
}

/// Which nodes exist, for which process versions.
pub struct NodeRegistry {
    entries: Vec<RegistryEntry>,
}

impl View for NodeRegistry {
    type V = Seq<Entry>;

    closed spec fn view(&self) -> Seq<Entry> {
        Seq::new(self.entries@.len(), |i: int| self.entries@[i]@)
    }
}

impl NodeRegistry {
    /// A registry without nodes.
    pub fn new() -> (r: NodeRegistry)
        ensures
            r@ == Seq::<Entry>::empty(),
    {
        let r = NodeRegistry { entries: Vec::new() };
        assert(r@ =~= Seq::<Entry>::empty());
        r
    }

    /// Registers a node, unless it is already registered for one of the
    /// versions.
    pub fn register(&mut self, entry: RegistryEntry) -> (r: Result<(), RegistryError>)
        ensures
            r is Err <==> clashes(old(self)@, entry@),
            final(self)@ == if clashes(old(self)@, entry@) {
                old(self)@
            } else {
                old(self)@.push(entry@)
            },
    {
        let mut i: usize = 0;
        while i < self.entries.len()
            invariant
                i <= self.entries.len(),
                *self == *old(self),
                forall|k: int|
                    0 <= k < i ==> !((#[trigger] self@[k]).id == entry@.id && self@[k].range.meets(
                        entry@.range,
                    )),
            decreases self.entries.len() - i,
        {
            if same_text(self.entries[i].id.0, entry.id.0) && self.entries[i].range.overlaps(
                &entry.range,
            ) {
                assert(self@[i as int].id == entry@.id);
                return Err(RegistryError::Overlap);
            }
            assert(self@[i as int] == self.entries@[i as int]@);
            i = i + 1;
        }
        let ghost e = entry@;
        self.entries.push(entry);
        assert(self@ =~= old(self)@.push(e));
        Ok(())
    }

    /// The first entry for a node at a version.
    pub fn resolve(&self, id: NodeId, pv: ProcessVersion) -> (r: Option<&RegistryEntry>)
        ensures
            match r {
                Some(e) => resolved(self@, id@, pv) == Some(e@),
                None => resolved(self@, id@, pv) is None,
            },
    {
        let mut i: usize = 0;
        assert(self@.skip(0) =~= self@);
        while i < self.entries.len()
            invariant
                i <= self.entries.len(),
                resolved(self@, id@, pv) == resolved(self@.skip(i as int), id@, pv),
            decreases self.entries.len() - i,
        {
            assert(self@.skip(i as int)[0] == self.entries@[i as int]@);
            if same_text(self.entries[i].id.0, id.0) && self.entries[i].range.contains(pv) {
                return Some(&self.entries[i]);
            }
            assert(self@.skip(i as int).skip(1) =~= self@.skip(i as int + 1));
            i = i + 1;
        }
        None
    }
}

/// A node of a graph.
#[derive(Clone, Debug, PartialEq, Eq)]
pub struct GraphNode {
    /// Its identity.
    pub id: NodeId,
    /// Its parameters.
    pub params: ParamBlock,
    /// Its kernel's salt.
    pub salt: KernelSalt,
    /// Its input ports.
    pub inputs: Vec<PortDecl>,
    /// Its output port.
    pub output: PortDecl,
}

/// A node of a graph, mathematically.
pub struct Vertex {
    /// Its identity.
    pub id: Seq<char>,
    /// Its parameters.
    pub params: Seq<Named>,
    /// Its kernel's salt.
    pub salt: Seq<u8>,
    /// Its input ports.
    pub inputs: Seq<Port>,
    /// Its output port.
    pub output: Port,
}

impl View for GraphNode {
    type V = Vertex;

    open spec fn view(&self) -> Vertex {
        Vertex {
            id: self.id@,
            params: self.params@,
            salt: self.salt@,
            inputs: ports(self.inputs@),
            output: self.output@,
        }
    }
}

/// An edge: the output of node `from` feeds input `port` of node `to`.
#[derive(Clone, Copy, Debug, PartialEq, Eq)]
pub struct Edge {
    /// The producer.
    pub from: usize,
    /// The consumer.
    pub to: usize,
    /// The consumer's port.
    pub port: &'static str,
}

/// An edge, mathematically.
pub struct Link {
    /// The producer.
    pub from: int,
    /// The consumer.
    pub to: int,
    /// The consumer's port.
    pub port: Seq<char>,
}

impl View for Edge {
    type V = Link;

    open spec fn view(&self) -> Link {
        Link { from: self.from as int, to: self.to as int, port: self.port@ }
    }
}

/// A graph, mathematically.
pub struct Dag {
    /// The nodes, by index.
    pub nodes: Seq<Vertex>,
    /// The edges, in the order they were made.
    pub edges: Seq<Link>,
}

/// The first port called `name`.
pub open spec fn port_named(inputs: Seq<Port>, name: Seq<char>) -> Option<Port>
    decreases inputs.len(),
{
    if inputs.len() == 0 {
        None
    } else if inputs[0].name == name {
        Some(inputs[0])
    } else {
        port_named(inputs.skip(1), name)
    }
}

impl Dag {
    /// Why an edge cannot be made, if it cannot.
    pub open spec fn refuses(self, from: int, to: int, port: Seq<char>) -> Option<GraphError> {
        if !(0 <= from < self.nodes.len() && 0 <= to < self.nodes.len()) {
            Some(GraphError::UnknownNode)
        } else {
            match port_named(self.nodes[to].inputs, port) {
                None => Some(GraphError::UnknownPort),
                Some(p) => if p.ty != self.nodes[from].output.ty {
                    Some(GraphError::TypeMismatch)
                } else {
                    None
                },
            }
        }
    }

    /// The graph with one more node.
    pub open spec fn with_node(self, v: Vertex) -> Dag {
        Dag { nodes: self.nodes.push(v), edges: self.edges }
    }

    /// The graph with one more edge.
    pub open spec fn with_edge(self, from: int, to: int, port: Seq<char>) -> Dag {
        Dag { nodes: self.nodes, edges: self.edges.push(Link { from, to, port }) }
    }
}

/// A render graph under construction.
pub struct RenderGraph {
    nodes: Vec<GraphNode>,
    edges: Vec<Edge>,
}

impl View for RenderGraph {
    type V = Dag;

    closed spec fn view(&self) -> Dag {
        Dag {
            nodes: Seq::new(self.nodes@.len(), |i: int| self.nodes@[i]@),
            edges: Seq::new(self.edges@.len(), |i: int| self.edges@[i]@),
        }
    }
}

impl RenderGraph {
    /// An empty graph.
    pub fn new() -> (r: RenderGraph)
        ensures
            r@ == (Dag { nodes: Seq::empty(), edges: Seq::empty() }),
    {
        let r = RenderGraph { nodes: Vec::new(), edges: Vec::new() };
        assert(r@.nodes =~= Seq::<Vertex>::empty());
        assert(r@.edges =~= Seq::<Link>::empty());
        r
    }

    /// How many nodes there are.
    pub fn len(&self) -> (r: usize)
        ensures
            r == self@.nodes.len(),
    {
        self.nodes.len()
    }

    /// A node by its index.
    pub fn node(&self, index: usize) -> (r: &GraphNode)
        requires
            index < self@.nodes.len(),
        ensures
            r@ == self@.nodes[index as int],
    {
        &self.nodes[index]
    }

    /// The edges, in the order they were made.
    pub fn edges(&self) -> (r: &Vec<Edge>)
        ensures
            Seq::new(r@.len(), |i: int| r@[i]@) == self@.edges,
    {
        &self.edges
    }

    /// Adds a node; returns its index.
    pub fn add_node(&mut self, node: GraphNode) -> (r: usize)
        ensures
            r == old(self)@.nodes.len(),
            final(self)@ == old(self)@.with_node(node@),
    {
        let ghost v = node@;
        self.nodes.push(node);
        assert(self@.nodes =~= old(self)@.nodes.push(v));
        assert(self@.edges =~= old(self)@.edges);
        self.nodes.len() - 1
    }

    /// Connects the output of `from` to an input port of `to`, if both exist
    /// and carry the same thing.
    pub fn connect(&mut self, from: usize, to: usize, port: &'static str) -> (r: Result<
        (),
        GraphError,
    >)
        ensures
            match old(self)@.refuses(from as int, to as int, port@) {
                None => {
                    &&& r is Ok
                    &&& final(self)@ == old(self)@.with_edge(from as int, to as int, port@)
                },
                Some(e) => {
                    &&& r == Err::<(), GraphError>(e)
                    &&& final(self)@ == old(self)@
                },
            },
    {
        if from >= self.nodes.len() || to >= self.nodes.len() {
            return Err(GraphError::UnknownNode);
        }
        let target: &GraphNode = &self.nodes[to];
        let ghost inputs = ports(target.inputs@);
        let mut i: usize = 0;
        assert(inputs.skip(0) =~= inputs);
        while i < target.inputs.len()
            invariant
                i <= target.inputs.len(),
                inputs == ports(target.inputs@),
                port_named(inputs, port@) == port_named(inputs.skip(i as int), port@),
                self@ == old(self)@,
                from < self.nodes.len(),
                to < self.nodes.len(),
                *target == self.nodes@[to as int],
            decreases target.inputs.len() - i,
        {
            assert(inputs.skip(i as int)[0] == target.inputs@[i as int]@);
            if same_text(target.inputs[i].name, port) {
                if target.inputs[i].ty != self.nodes[from].output.ty {
                    return Err(GraphError::TypeMismatch);
                }
                self.edges.push(Edge { from, to, port });
                assert(self@.edges =~= old(self)@.edges.push(
                    Link { from: from as int, to: to as int, port: port@ },
                ));
                assert(self@.nodes =~= old(self)@.nodes);
                return Ok(());
            }
            assert(inputs.skip(i as int).skip(1) =~= inputs.skip(i as int + 1));
            i = i + 1;
        }
        Err(GraphError::UnknownPort)
    }
}

/// A copy of a list of ports.
fn copy_ports(v: &Vec<PortDecl>) -> (r: Vec<PortDecl>)
    ensures
        r@ == v@,
{
    let mut r: Vec<PortDecl> = Vec::new();
    let mut i: usize = 0;
    while i < v.len()
        invariant
            i <= v.len(),
            r@ == v@.take(i as int),
        decreases v.len() - i,
    {
        r.push(v[i]);
        i = i + 1;
        assert(r@ =~= v@.take(i as int));
    }
    assert(r@ =~= v@);
    r
}

/// The vertex that stands for a registered node with the given parameters.
/// Without a kernel salt its name's digest takes the place.
pub open spec fn vertex_of(e: Entry, id: Seq<char>, params: Seq<Named>) -> Vertex {
    Vertex {
        id,
        params,
        salt: match e.salt {
            Some(s) => s,
            None => name_salt(id),
        },
        inputs: e.inputs,
        output: e.output,
    }
}

/// Splicing a node after `src`: the graph then, and the new tail or what went
/// wrong. A node that was added stays even if its edge is refused.
pub open spec fn spliced(
    g: Dag,
    entries: Seq<Entry>,
    pv: ProcessVersion,
    id: Seq<char>,
    params: Seq<Named>,
    src: int,
) -> (Dag, Result<int, Fault>) {
    match resolved(entries, id, pv) {
        None => (g, Err(Fault::NotRegistered(id, pv))),
        Some(e) => {
            let index = g.nodes.len() as int;
            let added = g.with_node(vertex_of(e, id, params));
            if e.inputs.len() == 0 {
                (added, Err(Fault::UnknownStage(id + " has no input port to splice into"@)))
            } else {
                match added.refuses(src, index, e.inputs[0].name) {
                    Some(err) => (added, Err(Fault::Graph(err))),
                    None => (added.with_edge(src, index, e.inputs[0].name), Ok(index)),
                }
            }
        },
    }
}

/// Adds the registered node `id` with the given parameters and feeds it from
/// `src` through its first input port; returns its index.
pub fn splice(
    g: &mut RenderGraph,
    reg: &NodeRegistry,
    pv: ProcessVersion,
    id: NodeId,
    params: ParamBlock,
    src: usize,
) -> (r: Result<usize, CompileError>)
    ensures
        (final(g)@, outcome(r)) == spliced(old(g)@, reg@, pv, id@, params@, src as int),
{
    let entry: &RegistryEntry = match reg.resolve(id, pv) {
        Some(e) => e,
        None => {
            return Err(CompileError::NodeNotRegistered { id, pv });
        },
    };
    let salt: KernelSalt = match entry.salt {
        Some(s) => s,
        None => salt_of_name(id),
    };
    let node = GraphNode {
        id,
        params,
        salt,
        inputs: copy_ports(&entry.inputs),
        output: entry.output,
    };
    let index: usize = g.add_node(node);
    if entry.inputs.len() == 0 {
        let mut message: String = id.0.to_owned();
        message.append(" has no input port to splice into");
        return Err(CompileError::UnknownStage(message));
    }
    let port: &'static str = entry.inputs[0].name;
    match g.connect(src, index, port) {
        Ok(()) => Ok(index),
        Err(e) => Err(CompileError::Graph(e)),
    }
}

/// A range holds the versions from its first to its last, and every later one
/// where it has no last. Whether two ranges meet does not depend on their order.
pub proof fn law_a_range_holds_its_versions(a: PvRange, b: PvRange, pv: ProcessVersion)
    ensures
        a.holds(pv) <==> a.first.0 <= pv.0 && (a.last is None || pv.0 <= a.last->Some_0.0),
        a.meets(b) <==> b.meets(a),
        a.holds(pv) && b.holds(pv) ==> a.meets(b),
{
    if a.meets(b) {
        let v = choose|v: u16| #[trigger]
            a.holds(ProcessVersion(v)) && b.holds(ProcessVersion(v));
        assert(b.holds(ProcessVersion(v)) && a.holds(ProcessVersion(v)));
    }
    if b.meets(a) {
        let v = choose|v: u16| #[trigger]
            b.holds(ProcessVersion(v)) && a.holds(ProcessVersion(v));
        assert(a.holds(ProcessVersion(v)) && b.holds(ProcessVersion(v)));
    }
    if a.holds(pv) && b.holds(pv) {
        assert(a.holds(ProcessVersion(pv.0)) && b.holds(ProcessVersion(pv.0)));
    }
}

/// What is found is the first entry with the name whose range holds the version;
/// nothing is found only where there is none.
pub proof fn law_the_first_entry_for_the_version_is_found(
    entries: Seq<Entry>,
    id: Seq<char>,
    pv: ProcessVersion,
    i: int,
)
    requires
        0 <= i < entries.len(),
        entries[i].id == id,
        entries[i].range.first.0 <= pv.0,
        entries[i].range.last is None || pv.0 <= entries[i].range.last->Some_0.0,
        forall|k: int|
            0 <= k < i ==> (#[trigger] entries[k]).id != id || !entries[k].range.holds(pv),
    ensures
        resolved(entries, id, pv) == Some(entries[i]),
    decreases i,
{
    if i > 0 {
        assert(entries[0].id != id || !entries[0].range.holds(pv));
        let rest = entries.skip(1);
        assert forall|k: int| 0 <= k < i - 1 implies (#[trigger] rest[k]).id != id
            || !rest[k].range.holds(pv) by {
            assert(entries[k + 1].id != id || !entries[k + 1].range.holds(pv));
        }
        law_the_first_entry_for_the_version_is_found(rest, id, pv, i - 1);
    }
}

/// Only an entry with the name whose range holds the version is ever found.
pub proof fn law_only_entries_for_the_version_are_found(
    entries: Seq<Entry>,
    id: Seq<char>,
    pv: ProcessVersion,
)
    ensures
        resolved(entries, id, pv) matches Some(e) ==> entries.contains(e) && e.id == id
            && e.range.first.0 <= pv.0 && (e.range.last is None || pv.0
            <= e.range.last->Some_0.0),
    decreases entries.len(),
{
    if entries.len() > 0 {
        if entries[0].id == id && entries[0].range.holds(pv) {
            assert(entries.contains(entries[0]));
        } else {
            let rest = entries.skip(1);
            law_only_entries_for_the_version_are_found(rest, id, pv);
            if let Some(e) = resolved(rest, id, pv) {
                let k = choose|k: int| 0 <= k < rest.len() && rest[k] == e;
                assert(entries[k + 1] == e);
            }
        }
    }
}

/// A name is registered at most once for a version: two entries of one name whose
/// ranges share a version clash, and any others do not.
pub proof fn law_entries_clash_over_a_shared_version(
    entries: Seq<Entry>,
    e: Entry,
    i: int,
    pv: ProcessVersion,
)
    ensures
        0 <= i < entries.len() && entries[i].id == e.id && entries[i].range.holds(pv)
            && e.range.holds(pv) ==> clashes(entries, e),
        clashes(entries, e) ==> exists|k: int, v: u16|
            0 <= k < entries.len() && (#[trigger] entries[k]).id == e.id
                && #[trigger] entries[k].range.holds(ProcessVersion(v)) && e.range.holds(
                ProcessVersion(v),
            ),
{
    if 0 <= i < entries.len() && entries[i].id == e.id && entries[i].range.holds(pv)
        && e.range.holds(pv) {
        law_a_range_holds_its_versions(entries[i].range, e.range, pv);
    }
    if clashes(entries, e) {
        let k = choose|k: int|
            0 <= k < entries.len() && (#[trigger] entries[k]).id == e.id && entries[k].range.meets(
                e.range,
            );
        let v = choose|v: u16| #[trigger]
            entries[k].range.holds(ProcessVersion(v)) && e.range.holds(ProcessVersion(v));
        assert(entries[k].id == e.id && entries[k].range.holds(ProcessVersion(v)));
    }
}

/// An edge is made exactly where both nodes exist and the consumer has the port
/// for what the producer gives; what is wrong first is reported.
pub proof fn law_edges_join_matching_ports(g: Dag, from: int, to: int, port: Seq<char>, i: int)
    ensures
        from < 0 || from >= g.nodes.len() || to < 0 || to >= g.nodes.len() ==> g.refuses(
            from,
            to,
            port,
        ) == Some(GraphError::UnknownNode),
        0 <= from < g.nodes.len() && 0 <= to < g.nodes.len() && 0 <= i < g.nodes[to].inputs.len()
            && g.nodes[to].inputs[i].name == port && (forall|k: int|
            0 <= k < i ==> (#[trigger] g.nodes[to].inputs[k]).name != port) ==> (g.refuses(
            from,
            to,
            port,
        ) == if g.nodes[to].inputs[i].ty == g.nodes[from].output.ty {
            None::<GraphError>
        } else {
            Some(GraphError::TypeMismatch)
        }),
        0 <= from < g.nodes.len() && 0 <= to < g.nodes.len() && (forall|k: int|
            0 <= k < g.nodes[to].inputs.len() ==> (#[trigger] g.nodes[to].inputs[k]).name != port)
            ==> g.refuses(from, to, port) == Some(GraphError::UnknownPort),
{
    if 0 <= from < g.nodes.len() && 0 <= to < g.nodes.len() {
        let inputs = g.nodes[to].inputs;
        if 0 <= i < inputs.len() && inputs[i].name == port && (forall|k: int|
            0 <= k < i ==> (#[trigger] g.nodes[to].inputs[k]).name != port) {
            assert forall|k: int| 0 <= k < i implies (#[trigger] inputs[k]).name != port by {
                assert(g.nodes[to].inputs[k].name != port);
            }
            lemma_port_found(inputs, port, i);
        }
        if forall|k: int|
            0 <= k < g.nodes[to].inputs.len() ==> (#[trigger] g.nodes[to].inputs[k]).name
                != port {
            assert forall|k: int| 0 <= k < inputs.len() implies (#[trigger] inputs[k]).name
                != port by {
                assert(g.nodes[to].inputs[k].name != port);
            }
            lemma_port_missing(inputs, port);
        }
    }
}

proof fn lemma_port_found(inputs: Seq<Port>, name: Seq<char>, i: int)
    requires
        0 <= i < inputs.len(),
        inputs[i].name == name,
        forall|k: int| 0 <= k < i ==> (#[trigger] inputs[k]).name != name,
    ensures
        port_named(inputs, name) == Some(inputs[i]),
    decreases i,
{
    if i > 0 {
        assert(inputs[0].name != name);
        let rest = inputs.skip(1);
        assert forall|k: int| 0 <= k < i - 1 implies (#[trigger] rest[k]).name != name by {
            assert(inputs[k + 1].name != name);
        }
        lemma_port_found(rest, name, i - 1);
    }
}

proof fn lemma_port_missing(inputs: Seq<Port>, name: Seq<char>)
    requires
        forall|k: int| 0 <= k < inputs.len() ==> (#[trigger] inputs[k]).name != name,
    ensures
        port_named(inputs, name) is None,
    decreases inputs.len(),
{
    if inputs.len() > 0 {
        assert(inputs[0].name != name);
        let rest = inputs.skip(1);
        assert forall|k: int| 0 <= k < rest.len() implies (#[trigger] rest[k]).name != name by {
            assert(inputs[k + 1].name != name);
        }
        lemma_port_missing(rest, name);
    }
}

/// Splicing adds the registered node, with its own ports and its kernel's salt
/// (its name's digest where it has no kernel), and feeds its first port from
/// `src`. A node that is not registered leaves the graph alone.
pub proof fn law_a_spliced_node_is_the_registered_one(
    g: Dag,
    entries: Seq<Entry>,
    pv: ProcessVersion,
    id: Seq<char>,
    params: Seq<Named>,
    src: int,
)
    ensures
        ({
            let (h, r) = spliced(g, entries, pv, id, params, src);
            &&& resolved(entries, id, pv) is None ==> h == g && r == Err::<int, Fault>(
                Fault::NotRegistered(id, pv),
            )
            &&& r is Ok ==> {
                let e = resolved(entries, id, pv)->Some_0;
                let n = g.nodes.len() as int;
                &&& resolved(entries, id, pv) is Some
                &&& r->Ok_0 == n
                &&& h.nodes.len() == n + 1
                &&& h.nodes[n].id == id
                &&& h.nodes[n].params == params
                &&& h.nodes[n].inputs == e.inputs
                &&& h.nodes[n].output == e.output
                &&& e.salt matches Some(s) ==> h.nodes[n].salt == s
                &&& e.salt is None ==> h.nodes[n].salt == crate::node::blake3_digest(
                    vstd::utf8::encode_utf8(id),
                )
                &&& h.edges.len() == g.edges.len() + 1
                &&& h.edges.last().from == src
                &&& h.edges.last().to == n
                &&& h.edges.last().port == e.inputs[0].name
            }
        }),
{
}

} // verus!
