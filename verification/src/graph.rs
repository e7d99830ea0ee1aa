//! The database as a whole graph: every vertex and edge allocated so far,
//! with the adjacency lists that the store's operations build.
//!
//! A `RivetView` whose maps hold every record (rather than this session's
//! cache) is the database; `graph_ok` says that its lists are exactly what
//! prepending each new edge makes of them: the list of a vertex holds the
//! targets of all edges added from it, newest first. The operations keep
//! this, and a session's cache always agrees with the database.
use vstd::prelude::*;
use crate::id::{VertexId, SENTINEL_EDGE_ID};
use crate::record::{VertexRecord, EdgeRecord, Header};
use crate::store::{
    RivetView, list_targets, cached_neighbors, new_vertex_record, spec_add_vertex, spec_add_edge,
};

verus! {

/// The newest edge from `source` among the edges with an ID below `below`,
/// or the sentinel when there is none.
pub open spec fn last_edge_from(edges: Map<u64, EdgeRecord>, source: u64, below: nat) -> u64
    decreases below,
{
    if below == 0 {
        SENTINEL_EDGE_ID
    } else {
        let e = (below - 1) as u64;
        if edges.contains_key(e) && edges[e].source == source {
            e
        } else {
            last_edge_from(edges, source, (below - 1) as nat)
        }
    }
}

/// The targets of the edges from `source` with an ID below `below`, newest
/// first (each edge counts once, self-loops and parallel edges included).
pub open spec fn targets_from(edges: Map<u64, EdgeRecord>, source: u64, below: nat) -> Seq<
    VertexId,
>
    decreases below,
{
    if below == 0 {
        Seq::empty()
    } else {
        let e = (below - 1) as u64;
        let rest = targets_from(edges, source, (below - 1) as nat);
        if edges.contains_key(e) && edges[e].source == source {
            seq![VertexId(edges[e].target)] + rest
        } else {
            rest
        }
    }
}

/// The database holds exactly the allocated vertices and edges, every edge
/// joins two allocated vertices, each vertex's record points to its newest
/// edge, and each edge's record points to the next older edge from the same
/// source.
pub open spec fn graph_ok(g: RivetView) -> bool {
    &&& forall|v: u64| #[trigger] g.vertices.contains_key(v) <==> v < g.header.vertex_count
    &&& forall|e: u64| #[trigger] g.edges.contains_key(e) <==> e < g.header.edge_count
    &&& forall|e: u64| #[trigger]
        g.edges.contains_key(e) ==> {
            &&& g.edges[e].source < g.header.vertex_count
            &&& g.edges[e].target < g.header.vertex_count
            &&& g.edges[e].next_edge_id == last_edge_from(g.edges, g.edges[e].source, e as nat)
        }
    &&& forall|v: u64| #[trigger]
        g.vertices.contains_key(v) ==> g.vertices[v].first_edge_id == last_edge_from(
            g.edges,
            v,
            g.header.edge_count as nat,
        )
}

/// The out-neighbors of `vertex` in the database, following its list for at
/// most as many edges as the database holds.
pub open spec fn graph_neighbors(g: RivetView, vertex: u64) -> Option<Seq<VertexId>> {
    cached_neighbors(g, vertex, g.header.edge_count as nat)
}

/// The database with no vertex and no edge.
pub open spec fn empty_graph(header: Header) -> RivetView {
    RivetView {
        header,
        vertices: Map::<u64, VertexRecord>::empty(),
        edges: Map::<u64, EdgeRecord>::empty(),
    }
}

/// The session's cache agrees with the database: same header, and every
/// cached record is the database's record.
pub open spec fn session_of(db: RivetView, g: RivetView) -> bool {
    &&& db.header == g.header
    &&& forall|v: u64| #[trigger]
        db.vertices.contains_key(v) ==> g.vertices.contains_key(v) && db.vertices[v]
            == g.vertices[v]
    &&& forall|e: u64| #[trigger]
        db.edges.contains_key(e) ==> g.edges.contains_key(e) && db.edges[e] == g.edges[e]
}

/// Following a list for more steps than it needs changes nothing.
proof fn lemma_list_more_steps(edges: Map<u64, EdgeRecord>, first: u64, steps: nat)
    requires
        list_targets(edges, first, steps) is Some,
    ensures
        list_targets(edges, first, steps + 1) == list_targets(edges, first, steps),
    decreases steps,
{
    if first != SENTINEL_EDGE_ID && steps > 0 && edges.contains_key(first) {
        lemma_list_more_steps(edges, edges[first].next_edge_id, (steps - 1) as nat);
    }
}

/// The list that starts at the newest edge from `source` below `below` holds
/// the targets of all edges from `source` below `below`, and is no longer
/// than `below`.
proof fn lemma_list_is_edges_from(edges: Map<u64, EdgeRecord>, source: u64, below: nat)
    requires
        below <= u64::MAX,
        forall|e: u64| #[trigger]
            edges.contains_key(e) && e < below ==> edges[e].next_edge_id == last_edge_from(
                edges,
                edges[e].source,
                e as nat,
            ),
    ensures
        list_targets(edges, last_edge_from(edges, source, below), below) == Some(
            targets_from(edges, source, below),
        ),
        targets_from(edges, source, below).len() <= below,
    decreases below,
{
    if below > 0 {
        let k = (below - 1) as nat;
        let e = k as u64;
        lemma_list_is_edges_from(edges, source, k);
        if edges.contains_key(e) && edges[e].source == source {
            assert(edges[e].next_edge_id == last_edge_from(edges, source, k));
        } else {
            lemma_list_more_steps(edges, last_edge_from(edges, source, k), k);
        }
    }
}

/// With no edge from `source` below `below`, its list is empty.
proof fn lemma_no_edges_from(edges: Map<u64, EdgeRecord>, source: u64, below: nat)
    requires
        forall|e: u64| #[trigger] edges.contains_key(e) && e < below ==> edges[e].source != source,
    ensures
        last_edge_from(edges, source, below) == SENTINEL_EDGE_ID,
        targets_from(edges, source, below) == Seq::<VertexId>::empty(),
    decreases below,
{
    if below > 0 {
        lemma_no_edges_from(edges, source, (below - 1) as nat);
    }
}

/// An edge added at or above `below` changes nothing below it.
proof fn lemma_insert_above(
    edges: Map<u64, EdgeRecord>,
    source: u64,
    below: nat,
    id: u64,
    record: EdgeRecord,
)
    requires
        id >= below,
    ensures
        last_edge_from(edges.insert(id, record), source, below) == last_edge_from(
            edges,
            source,
            below,
        ),
        targets_from(edges.insert(id, record), source, below) == targets_from(edges, source, below),
    decreases below,
{
    if below > 0 {
        lemma_insert_above(edges, source, (below - 1) as nat, id, record);
    }
}

/// Adding edge `n` (above every other) from `edge.source`: the newest edge
/// from that source becomes `n` and its target comes first; other sources
/// keep theirs.
proof fn lemma_one_more_edge(edges: Map<u64, EdgeRecord>, n: u64, edge: EdgeRecord, source: u64)
    ensures
        last_edge_from(edges.insert(n, edge), source, (n + 1) as nat) == (if source == edge.source {
            n
        } else {
            last_edge_from(edges, source, n as nat)
        }),
        targets_from(edges.insert(n, edge), source, (n + 1) as nat) == (if source == edge.source {
            seq![VertexId(edge.target)] + targets_from(edges, source, n as nat)
        } else {
            targets_from(edges, source, n as nat)
        }),
{
    lemma_insert_above(edges, source, n as nat, n, edge);
    assert((((n + 1) as nat - 1) as u64) == n);
}

/// The out-neighbors of a vertex are the targets of all edges added from it,
/// newest first; the list ends within as many edges as the database holds.
pub proof fn lemma_graph_neighbors(g: RivetView, vertex: u64)
    requires
        graph_ok(g),
        vertex < g.header.vertex_count,
    ensures
        graph_neighbors(g, vertex) == Some(
            targets_from(g.edges, vertex, g.header.edge_count as nat),
        ),
        targets_from(g.edges, vertex, g.header.edge_count as nat).len() <= g.header.edge_count,
{
    assert(g.vertices.contains_key(vertex));
    lemma_list_is_edges_from(g.edges, vertex, g.header.edge_count as nat);
}

/// An empty database is well formed.
pub proof fn lemma_empty_graph(header: Header)
    requires
        header.vertex_count == 0,
        header.edge_count == 0,
    ensures
        graph_ok(empty_graph(header)),
{
}

/// Adding a vertex keeps the database well formed, gives the new vertex no
/// out-neighbor, and leaves every other list as it was.
pub proof fn lemma_graph_add_vertex(g: RivetView)
    requires
        graph_ok(g),
        g.header.vertex_count < u64::MAX,
    ensures
        graph_ok(spec_add_vertex(g)),
        targets_from(spec_add_vertex(g).edges, g.header.vertex_count, g.header.edge_count as nat)
            == Seq::<VertexId>::empty(),
        forall|v: u64|
            #![trigger targets_from(spec_add_vertex(g).edges, v, g.header.edge_count as nat)]
            targets_from(spec_add_vertex(g).edges, v, g.header.edge_count as nat) == targets_from(
                g.edges,
                v,
                g.header.edge_count as nat,
            ),
{
    let n = g.header.vertex_count;
    let after = spec_add_vertex(g);
    lemma_no_edges_from(g.edges, n, g.header.edge_count as nat);
    assert forall|v: u64| #[trigger] after.vertices.contains_key(v) implies after.vertices[v].first_edge_id
        == last_edge_from(after.edges, v, after.header.edge_count as nat) by {
        if v != n {
            assert(g.vertices.contains_key(v));
        }
    }
    assert(after.vertices[n] == new_vertex_record());
}

/// Adding an edge from `source` to `target` (both allocated) keeps the
/// database well formed, puts `target` in front of the source's list, and
/// leaves every other list as it was.
pub proof fn lemma_graph_add_edge(g: RivetView, source: VertexId, target: VertexId)
    requires
        graph_ok(g),
        source.0 < g.header.vertex_count,
        target.0 < g.header.vertex_count,
        g.header.edge_count < u64::MAX,
    ensures
        graph_ok(spec_add_edge(g, source, target, g.vertices[source.0])),
        targets_from(
            spec_add_edge(g, source, target, g.vertices[source.0]).edges,
            source.0,
            (g.header.edge_count + 1) as nat,
        ) == seq![target] + targets_from(g.edges, source.0, g.header.edge_count as nat),
        forall|v: u64|
            #![trigger targets_from(spec_add_edge(g, source, target, g.vertices[source.0]).edges, v, (g.header.edge_count + 1) as nat)]
            v != source.0 ==> targets_from(
                spec_add_edge(g, source, target, g.vertices[source.0]).edges,
                v,
                (g.header.edge_count + 1) as nat,
            ) == targets_from(g.edges, v, g.header.edge_count as nat),
{
    let n = g.header.edge_count;
    let rec = g.vertices[source.0];
    assert(g.vertices.contains_key(source.0));
    let after = spec_add_edge(g, source, target, rec);
    let edge = EdgeRecord { source: source.0, target: target.0, next_edge_id: rec.first_edge_id };
    assert(after.edges == g.edges.insert(n, edge));
    assert(after.edges[n] == edge);
    assert(after.header.edge_count == n + 1);
    assert forall|e: u64| #[trigger] after.edges.contains_key(e) implies {
        &&& after.edges[e].source < after.header.vertex_count
        &&& after.edges[e].target < after.header.vertex_count
        &&& after.edges[e].next_edge_id == last_edge_from(
            after.edges,
            after.edges[e].source,
            e as nat,
        )
    } by {
        lemma_insert_above(g.edges, after.edges[e].source, e as nat, n, edge);
        if e != n {
            assert(g.edges.contains_key(e));
        }
    }
    assert forall|v: u64| #[trigger] after.vertices.contains_key(v) implies after.vertices[v].first_edge_id
        == last_edge_from(after.edges, v, after.header.edge_count as nat) by {
        if v != source.0 {
            assert(g.vertices.contains_key(v));
        }
        lemma_one_more_edge(g.edges, n, edge, v);
    }
    lemma_one_more_edge(g.edges, n, edge, source.0);
    assert forall|v: u64| v != source.0 implies #[trigger] targets_from(after.edges, v, (n + 1) as nat)
        == targets_from(g.edges, v, n as nat) by {
        lemma_one_more_edge(g.edges, n, edge, v);
    }
}

/// A store just opened caches nothing, so it agrees with its database.
pub proof fn lemma_session_open(g: RivetView)
    ensures
        session_of(empty_graph(g.header), g),
{
}

/// Adding a vertex in the session and in the database keeps them agreeing.
pub proof fn lemma_session_add_vertex(db: RivetView, g: RivetView)
    requires
        session_of(db, g),
    ensures
        session_of(spec_add_vertex(db), spec_add_vertex(g)),
{
}

/// Adding an edge in the session and in the database, from the source's
/// database record, keeps them agreeing.
pub proof fn lemma_session_add_edge(db: RivetView, g: RivetView, source: VertexId, target: VertexId)
    requires
        session_of(db, g),
    ensures
        session_of(
            spec_add_edge(db, source, target, g.vertices[source.0]),
            spec_add_edge(g, source, target, g.vertices[source.0]),
        ),
{
}

} // verus!
