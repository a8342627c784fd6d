//! A written definition drawn as a graph: its metadata as nodes, linked to the nodes of the
//! definitions their edges lead to.
use vstd::prelude::*;
use vstd::string::StringExecFns;
use crate::model::Model;
use crate::json::{JsonMap, JsonModel, members_equal};
use crate::strmap::Entries;
use crate::dto::{DefinitionDto, MetadataDto, MetadataEdge, ReferenceOrObjectDto};

verus! {

/// A node: a metadata's name and JSON.
#[derive(Debug)]
pub struct Node {
    pub id: String,
    pub data: JsonMap,
}

/// A link from one node to another, named by both.
#[derive(Debug)]
pub struct Edge {
    pub id: String,
    pub source: String,
    pub target: String,
}

/// Nodes and links, each once.
#[derive(Debug)]
pub struct Graph {
    pub nodes: Vec<Node>,
    pub edges: Vec<Edge>,
}

pub type NodeModel = (Seq<char>, Entries<JsonModel>);

pub type EdgeModel = (Seq<char>, Seq<char>, Seq<char>);

pub struct GraphModel {
    pub nodes: Seq<NodeModel>,
    pub edges: Seq<EdgeModel>,
}

pub open spec fn node_model(n: Node) -> NodeModel {
    (n.id@, n.data.model())
}

pub open spec fn edge_model(e: Edge) -> EdgeModel {
    (e.id@, e.source@, e.target@)
}

impl Graph {
    pub open spec fn graph_model(&self) -> GraphModel {
        GraphModel {
            nodes: self.nodes@.map_values(|n: Node| node_model(n)),
            edges: self.edges@.map_values(|e: Edge| edge_model(e)),
        }
    }
}

/// The nodes with `n` added, unless the same node, by identifier and data, is there.
pub open spec fn with_node(nodes: Seq<NodeModel>, n: NodeModel) -> Seq<NodeModel> {
    if exists|i: int| 0 <= i < nodes.len() && nodes[i] == n {
        nodes
    } else {
        nodes.push(n)
    }
}

/// The nodes with each of `more` added in turn.
pub open spec fn with_nodes(nodes: Seq<NodeModel>, more: Seq<NodeModel>) -> Seq<NodeModel>
    decreases more.len(),
{
    if more.len() == 0 {
        nodes
    } else {
        with_node(with_nodes(nodes, more.drop_last()), more.last())
    }
}

/// The links with `e` added, unless the same link, by identifier, source and target, is there.
pub open spec fn with_edge(edges: Seq<EdgeModel>, e: EdgeModel) -> Seq<EdgeModel> {
    if exists|i: int| 0 <= i < edges.len() && edges[i] == e {
        edges
    } else {
        edges.push(e)
    }
}

/// The identifier of the link from `source` to `target`: `[source]-[target]`.
pub open spec fn link_id(source: Seq<char>, target: Seq<char>) -> Seq<char> {
    seq!['['] + source + seq![']', '-', '['] + target + seq![']']
}

/// The links with one from `source` to each of `targets` added in turn.
pub open spec fn with_links(edges: Seq<EdgeModel>, source: Seq<char>, targets: Seq<NodeModel>) -> Seq<EdgeModel>
    decreases targets.len(),
{
    if targets.len() == 0 {
        edges
    } else {
        let t = targets.last().0;
        with_edge(with_links(edges, source, targets.drop_last()), (link_id(source, t), source, t))
    }
}

/// The graph of a written definition: for each metadata in turn, its node, and for each of
/// its edges written in place with a definition, the nodes of that definition's graph and a
/// link from the metadata to every node so far.
pub open spec fn graph_of(d: DefinitionDto) -> GraphModel
    decreases d, 2int, 0int,
{
    graph_of_metadata(d.metadata@, d.metadata@.len() as int)
}

/// The graph of the first `n` written metadata.
pub open spec fn graph_of_metadata(metas: Seq<(String, MetadataDto)>, n: int) -> GraphModel
    decreases metas, 1int, n,
{
    if n <= 0 || n > metas.len() {
        GraphModel { nodes: Seq::empty(), edges: Seq::empty() }
    } else {
        let before = graph_of_metadata(metas, n - 1);
        let name = metas[n - 1].0@;
        let m = metas[n - 1].1;
        let start = GraphModel { nodes: with_node(before.nodes, (name, m.other.model())), edges: before.edges };
        graph_of_edges(start, name, m.edges@, m.edges@.len() as int)
    }
}

/// `start` with the first `k` written edges of the metadata named `name` added.
pub open spec fn graph_of_edges(start: GraphModel, name: Seq<char>, edges: Seq<ReferenceOrObjectDto<MetadataEdge>>, k: int) -> GraphModel
    decreases edges, 0int, k,
{
    if k <= 0 || k > edges.len() {
        start
    } else {
        let before = graph_of_edges(start, name, edges, k - 1);
        match edges[k - 1] {
            ReferenceOrObjectDto::Object(edge) => match edge.definition {
                Some(inner) => {
                    let nodes = with_nodes(before.nodes, graph_of(inner).nodes);
                    GraphModel { nodes, edges: with_links(before.edges, name, nodes) }
                },
                None => before,
            },
            ReferenceOrObjectDto::Reference(_) => before,
        }
    }
}

/// Adds `node` unless the same node is there.
fn add_node(nodes: &mut Vec<Node>, node: Node)
    ensures
        final(nodes)@.map_values(|n: Node| node_model(n)) == with_node(old(nodes)@.map_values(|n: Node| node_model(n)), node_model(node)),
{
    let ghost before = nodes@.map_values(|n: Node| node_model(n));
    let mut i: usize = 0;
    while i < nodes.len()
        invariant
            i <= nodes@.len(),
            before == nodes@.map_values(|n: Node| node_model(n)),
            forall|j: int| 0 <= j < i ==> before[j] != node_model(node),
        decreases nodes.len() - i,
    {
        if nodes[i].id == node.id && members_equal(&nodes[i].data, &node.data) {
            assert(before[i as int] == node_model(node));
            return;
        }
        assert(before[i as int] == node_model(nodes@[i as int]));
        i = i + 1;
    }
    nodes.push(node);
    assert(nodes@.map_values(|n: Node| node_model(n)) =~= before.push(node_model(node)));
}

/// Adds `edge` unless the same link is there.
fn add_edge(edges: &mut Vec<Edge>, edge: Edge)
    ensures
        final(edges)@.map_values(|e: Edge| edge_model(e)) == with_edge(old(edges)@.map_values(|e: Edge| edge_model(e)), edge_model(edge)),
{
    let ghost before = edges@.map_values(|e: Edge| edge_model(e));
    let mut i: usize = 0;
    while i < edges.len()
        invariant
            i <= edges@.len(),
            before == edges@.map_values(|e: Edge| edge_model(e)),
            forall|j: int| 0 <= j < i ==> before[j] != edge_model(edge),
        decreases edges.len() - i,
    {
        if edges[i].id == edge.id && edges[i].source == edge.source && edges[i].target == edge.target {
            assert(before[i as int] == edge_model(edge));
            return;
        }
        assert(before[i as int] == edge_model(edges@[i as int]));
        i = i + 1;
    }
    edges.push(edge);
    assert(edges@.map_values(|e: Edge| edge_model(e)) =~= before.push(edge_model(edge)));
}

/// `[source]-[target]`.
fn link_name(source: &String, target: &String) -> (r: String)
    ensures
        r@ == link_id(source@, target@),
{
    proof {
        reveal_strlit("[");
        reveal_strlit("]-[");
        reveal_strlit("]");
    }
    let r = "[".to_owned().concat(source.as_str()).concat("]-[").concat(target.as_str()).concat("]");
    assert(r@ =~= link_id(source@, target@));
    r
}

impl Graph {
    /// The graph of a written definition.
    pub fn from_definition(definition: DefinitionDto) -> (r: Graph)
        ensures
            r.graph_model() == graph_of(definition),
    {
        Self::from_written(&definition)
    }

    fn from_written(definition: &DefinitionDto) -> (r: Graph)
        ensures
            r.graph_model() == graph_of(*definition),
        decreases *definition, 2int, 0int,
    {
        let mut graph = Graph { nodes: Vec::new(), edges: Vec::new() };
        let metas = &definition.metadata;
        let mut n: usize = 0;
        assert(graph.graph_model().nodes =~= Seq::<NodeModel>::empty());
        assert(graph.graph_model().edges =~= Seq::<EdgeModel>::empty());
        while n < metas.len()
            invariant
                n <= metas@.len(),
                *metas == definition.metadata,
                graph.graph_model() == graph_of_metadata(metas@, n as int),
            decreases metas.len() - n,
        {
            let name = &metas[n].0;
            let m = &metas[n].1;
            add_node(&mut graph.nodes, Node { id: name.clone(), data: m.other.duplicate() });
            let ghost start = graph.graph_model();
            let mut k: usize = 0;
            while k < m.edges.len()
                invariant
                    k <= m.edges@.len(),
                    *m == metas@[n as int].1,
                    *metas == definition.metadata,
                    n < metas@.len(),
                    graph.graph_model() == graph_of_edges(start, name@, m.edges@, k as int),
                decreases m.edges.len() - k,
            {
                match &m.edges[k] {
                    ReferenceOrObjectDto::Object(edge) => match &edge.definition {
                        Some(inner) => {
                            proof {
                                assert(decreases_to!(*definition => definition.metadata));
                                assert(decreases_to!(definition.metadata => metas@[n as int]));
                                assert(decreases_to!(metas@[n as int] => metas@[n as int].1));
                                assert(decreases_to!(metas@[n as int].1 => m.edges));
                                assert(decreases_to!(m.edges => m.edges@[k as int]));
                            }
                            let sub = Self::from_written(inner);
                            let mut j: usize = 0;
                            let ghost before_nodes = graph.graph_model().nodes;
                            assert(sub.graph_model().nodes.take(0) =~= Seq::<NodeModel>::empty());
                            while j < sub.nodes.len()
                                invariant
                                    j <= sub.nodes@.len(),
                                    graph.graph_model().nodes == with_nodes(before_nodes, sub.graph_model().nodes.take(j as int)),
                                    graph.graph_model().edges == graph_of_edges(start, name@, m.edges@, k as int).edges,
                                decreases sub.nodes.len() - j,
                            {
                                add_node(&mut graph.nodes, Node { id: sub.nodes[j].id.clone(), data: sub.nodes[j].data.duplicate() });
                                assert(sub.graph_model().nodes.take(j + 1).drop_last() =~= sub.graph_model().nodes.take(j as int));
                                j = j + 1;
                            }
                            assert(sub.graph_model().nodes.take(sub.nodes@.len() as int) =~= sub.graph_model().nodes);
                            let ghost all_nodes = graph.graph_model().nodes;
                            let ghost before_edges = graph.graph_model().edges;
                            let mut t: usize = 0;
                            assert(all_nodes.take(0) =~= Seq::<NodeModel>::empty());
                            while t < graph.nodes.len()
                                invariant
                                    t <= graph.nodes@.len(),
                                    all_nodes == graph.graph_model().nodes,
                                    graph.graph_model().edges == with_links(before_edges, name@, all_nodes.take(t as int)),
                                decreases graph.nodes.len() - t,
                            {
                                let id = link_name(name, &graph.nodes[t].id);
                                let target = graph.nodes[t].id.clone();
                                add_edge(&mut graph.edges, Edge { id, source: name.clone(), target });
                                assert(all_nodes.take(t + 1).drop_last() =~= all_nodes.take(t as int));
                                assert(all_nodes.take(t + 1).last().0 == graph.nodes@[t as int].id@);
                                t = t + 1;
                            }
                            assert(all_nodes.take(graph.nodes@.len() as int) =~= all_nodes);
                        },
                        None => {},
                    },
                    ReferenceOrObjectDto::Reference(_) => {},
                }
                k = k + 1;
            }
            n = n + 1;
        }
        graph
    }
}

} // verus!
