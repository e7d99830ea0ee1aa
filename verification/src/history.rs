//! Whole histories: a database file created by the library and then worked
//! on through any sequence of added vertices, added (or refused) edges and
//! reopenings.
//!
//! `replay` gives the file, the database and the session after such a
//! sequence, performing each operation as the store's functions and their
//! callers do (an edge's source record is the one the session reads, which is
//! the database's, see `durability::lemma_session_reads`). `lemma_replay`
//! shows that after every history the file holds the database, the session
//! agrees with it, the vertex count is the number of vertices added, and the
//! edges are exactly the accepted edges, in the order they were added; with
//! `graph::lemma_graph_neighbors` and `durability::lemma_reopen`, every list
//! is the targets of all edges added from its vertex, newest first, in any
//! session and after any reopening.
use vstd::prelude::*;
use crate::id::VertexId;
use crate::record::{Header, EdgeRecord};
use crate::file::{layout_ok, HEADER_SIZE};
use crate::store::{RivetView, spec_add_vertex, spec_add_edge};
use crate::graph::{
    graph_ok, empty_graph, session_of, targets_from, graph_neighbors, lemma_graph_neighbors,
    lemma_empty_graph, lemma_graph_add_vertex,
    lemma_graph_add_edge, lemma_session_open, lemma_session_add_vertex, lemma_session_add_edge,
};
use crate::durability::{
    stored, file_after_add_vertex, file_after_add_edge, lemma_new_file_stored,
    lemma_add_vertex_stored, lemma_add_edge_stored, lemma_reopen, lemma_session_reads,
    file_neighbors, read_vertex_record, session_vertex,
};
use crate::file::header_bytes;

verus! {

/// One operation of a history.
pub enum Operation {
    /// `add_vertex`.
    AddVertex,
    /// `add_edge(source, target)`; refused when either vertex does not exist.
    AddEdge(VertexId, VertexId),
    /// Closing the database and opening the file again.
    Reopen,
}

/// The number of vertices a history adds.
pub open spec fn vertices_added(ops: Seq<Operation>) -> nat
    decreases ops.len(),
{
    if ops.len() == 0 {
        0
    } else {
        vertices_added(ops.drop_last()) + (if ops.last() is AddVertex {
            1nat
        } else {
            0nat
        })
    }
}

/// The edges a history adds, as (source, target) pairs in the order they
/// were added; an edge between vertices that do not exist yet is refused and
/// adds nothing.
pub open spec fn edges_added(ops: Seq<Operation>) -> Seq<(u64, u64)>
    decreases ops.len(),
{
    if ops.len() == 0 {
        Seq::empty()
    } else {
        let before = edges_added(ops.drop_last());
        let n = vertices_added(ops.drop_last());
        match ops.last() {
            Operation::AddEdge(s, t) => if s.0 < n && t.0 < n {
                before.push((s.0, t.0))
            } else {
                before
            },
            _ => before,
        }
    }
}

/// The file, the database and the session after a history that starts from
/// a new file whose header is `start`.
pub open spec fn replay(start: Header, ops: Seq<Operation>) -> (Seq<u8>, RivetView, RivetView)
    decreases ops.len(),
{
    if ops.len() == 0 {
        (header_bytes(start), empty_graph(start), empty_graph(start))
    } else {
        let (file, g, db) = replay(start, ops.drop_last());
        match ops.last() {
            Operation::AddVertex => (
                file_after_add_vertex(file, g),
                spec_add_vertex(g),
                spec_add_vertex(db),
            ),
            Operation::AddEdge(s, t) => if s.0 < g.header.vertex_count && t.0
                < g.header.vertex_count {
                (
                    file_after_add_edge(file, g, s, t, g.vertices[s.0]),
                    spec_add_edge(g, s, t, g.vertices[s.0]),
                    spec_add_edge(db, s, t, g.vertices[s.0]),
                )
            } else {
                (file, g, db)
            },
            Operation::Reopen => (file, g, empty_graph(g.header)),
        }
    }
}

/// After any history (of at most 2^32 operations, which keeps every count
/// and position within `u64`) that starts from the header of a new file:
/// the file holds the database and the session agrees with it; the header
/// keeps its magic, version and layout; the vertex count is the number of
/// vertices added, the edge count the number of edges accepted, and edge `e`
/// joins the `e`-th accepted pair.
pub proof fn lemma_replay(start: Header, ops: Seq<Operation>)
    requires
        start.valid(),
        layout_ok(start),
        start.vertex_region_offset == HEADER_SIZE,
        start.vertex_count == 0,
        start.edge_count == 0,
        ops.len() <= 0x1_0000_0000,
    ensures
        ({
            let (file, g, db) = replay(start, ops);
            &&& stored(file, g)
            &&& graph_ok(g)
            &&& session_of(db, g)
            &&& g.header == Header {
                vertex_count: g.header.vertex_count,
                edge_count: g.header.edge_count,
                ..start
            }
            &&& g.header.vertex_count == vertices_added(ops)
            &&& g.header.edge_count == edges_added(ops).len()
            &&& g.header.vertex_count <= ops.len()
            &&& g.header.edge_count <= ops.len()
            &&& forall|e: u64| #[trigger]
                g.edges.contains_key(e) ==> g.edges[e].source == edges_added(ops)[e as int].0
                    && g.edges[e].target == edges_added(ops)[e as int].1
        }),
    decreases ops.len(),
{
    if ops.len() == 0 {
        lemma_new_file_stored(start);
        lemma_empty_graph(start);
        lemma_session_open(empty_graph(start));
    } else {
        let prev = ops.drop_last();
        lemma_replay(start, prev);
        let (file, g, db) = replay(start, prev);
        match ops.last() {
            Operation::AddVertex => {
                lemma_add_vertex_stored(file, g);
                lemma_graph_add_vertex(g);
                lemma_session_add_vertex(db, g);
            },
            Operation::AddEdge(s, t) => {
                if s.0 < g.header.vertex_count && t.0 < g.header.vertex_count {
                    lemma_add_edge_stored(file, g, s, t);
                    lemma_graph_add_edge(g, s, t);
                    lemma_session_add_edge(db, g, s, t);
                    let after = spec_add_edge(g, s, t, g.vertices[s.0]);
                    assert forall|e: u64| #[trigger] after.edges.contains_key(e) implies after.edges[e].source
                        == edges_added(ops)[e as int].0 && after.edges[e].target == edges_added(
                        ops,
                    )[e as int].1 by {
                        if e != g.header.edge_count {
                            assert(g.edges.contains_key(e));
                        }
                    }
                }
            },
            Operation::Reopen => {
                lemma_session_open(g);
            },
        }
    }
}

/// The targets of the pairs among the first `k` whose source is `vertex`,
/// newest first.
pub open spec fn pair_targets(pairs: Seq<(u64, u64)>, vertex: u64, k: nat) -> Seq<VertexId>
    decreases k,
{
    if k == 0 {
        Seq::empty()
    } else {
        let rest = pair_targets(pairs, vertex, (k - 1) as nat);
        if pairs[k - 1].0 == vertex {
            seq![VertexId(pairs[k - 1].1)] + rest
        } else {
            rest
        }
    }
}

proof fn lemma_targets_are_pair_targets(
    edges: Map<u64, EdgeRecord>,
    pairs: Seq<(u64, u64)>,
    vertex: u64,
    k: nat,
)
    requires
        k <= pairs.len(),
        k <= u64::MAX,
        forall|e: u64| #[trigger] edges.contains_key(e) <==> e < pairs.len(),
        forall|e: u64| #[trigger]
            edges.contains_key(e) ==> edges[e].source == pairs[e as int].0 && edges[e].target
                == pairs[e as int].1,
    ensures
        targets_from(edges, vertex, k) == pair_targets(pairs, vertex, k),
    decreases k,
{
    if k > 0 {
        lemma_targets_are_pair_targets(edges, pairs, vertex, (k - 1) as nat);
        let e = (k - 1) as u64;
        assert(edges.contains_key(e));
    }
}

/// What every history gives the out-neighbors of a vertex it added: the
/// targets of all edges accepted from that vertex, newest first, each as
/// often as it was added, and no more of them than there are edges. The
/// session lists them (every record it uses, cached or read, is the
/// database's), and so does a database reopened on the file, which also
/// loads the same counts, so that the next vertex and edge IDs go on from
/// where the history left them.
pub proof fn lemma_history_neighbors(start: Header, ops: Seq<Operation>, vertex: u64, loaded: Header)
    requires
        start.valid(),
        layout_ok(start),
        start.vertex_region_offset == HEADER_SIZE,
        start.vertex_count == 0,
        start.edge_count == 0,
        ops.len() <= 0x1_0000_0000,
        vertex < vertices_added(ops),
        header_bytes(loaded) == replay(start, ops).0.subrange(0, HEADER_SIZE as int),
    ensures
        ({
            let (file, g, db) = replay(start, ops);
            let listed = pair_targets(edges_added(ops), vertex, edges_added(ops).len());
            &&& graph_neighbors(g, vertex) == Some(listed)
            &&& listed.len() <= g.header.edge_count
            &&& loaded == g.header
            &&& loaded.vertex_count == vertices_added(ops)
            &&& loaded.edge_count == edges_added(ops).len()
            &&& file_neighbors(file, loaded, vertex, g.header.edge_count as nat) == Some(listed)
            &&& read_vertex_record(file, loaded, vertex) == session_vertex(file, db, vertex)
        }),
{
    lemma_replay(start, ops);
    let (file, g, db) = replay(start, ops);
    lemma_graph_neighbors(g, vertex);
    lemma_targets_are_pair_targets(
        g.edges,
        edges_added(ops),
        vertex,
        edges_added(ops).len(),
    );
    lemma_reopen(file, g, loaded);
    lemma_session_reads(file, db, g);
}

} // verus!
