//! The graph store: vertex and edge allocation, adjacency lists and their
//! traversal.
//!
//! A vertex record points to its first outgoing edge; each edge record points
//! to the next outgoing edge of the same source, and the sentinel ID ends the
//! list. New edges are prepended. `Rivet` keeps the header and the records
//! written in this session; records that are not cached are read from the file
//! by the caller, which then hands them to these functions.
use vstd::prelude::*;
use std::collections::HashMap;
use crate::id::{VertexId, EdgeId, SENTINEL_EDGE_ID};
use crate::record::{VertexRecord, EdgeRecord, Header};
use crate::file::{layout_ok, counts_fit, has_record_layout, vertex_offset, edge_offset};

verus! {

/// Declares `std::io::Error` as an opaque type: the store only
/// carries such an error (in `RivetError::Io`), it never looks inside one.
#[verifier::external_type_specification]
#[verifier::external_body]
pub struct ExIoError(std::io::Error);

/// Errors of the graph store.
#[derive(Debug)]
pub enum RivetError {
    /// Reading or writing the database file failed.
    Io(std::io::Error),
    /// The vertex ID does not name a vertex of the database.
    InvalidVertex(u64),
    /// The edge could not be read while following an adjacency list.
    InvalidEdge(u64),
    /// The file header is not a Rivet header.
    InvalidFormat,
}

/// What a `Rivet` holds: the header, and the vertex and edge records written
/// (or cached) in this session, by ID.
pub struct RivetView {
    pub header: Header,
    pub vertices: Map<u64, VertexRecord>,
    pub edges: Map<u64, EdgeRecord>,
}

/// Main graph storage engine state.
pub struct Rivet {
    header: Header,
    vertex_cache: HashMap<u64, VertexRecord>,
    edge_cache: HashMap<u64, EdgeRecord>,
}

/// Whether a database with this header may be opened: the header carries the
/// Rivet magic bytes and version, its region offsets follow the record layout
/// (anything else would place records over the header or over each other),
/// and the slots of the next vertex and edge have positions that fit in a
/// `u64` (so every record of the database can be read and written).
pub open spec fn header_opens(header: Header) -> bool {
    header.valid() && layout_ok(header) && counts_fit(header)
}

impl View for Rivet {
    type V = RivetView;

    closed spec fn view(&self) -> RivetView {
        RivetView { header: self.header, vertices: self.vertex_cache@, edges: self.edge_cache@ }
    }
}

impl Rivet {
    /// Opens the store over a header loaded from (or just written to) the
    /// file: the header must be valid, follow the record layout, and leave
    /// room for the slots of the next vertex and edge.
    pub fn open(header: Header) -> (r: Result<Rivet, RivetError>)
        ensures
            r is Ok <==> header_opens(header),
            r matches Ok(db) ==> {
                &&& db@.header == header
                &&& db@.vertices == Map::<u64, VertexRecord>::empty()
                &&& db@.edges == Map::<u64, EdgeRecord>::empty()
            },
            r matches Err(e) ==> e is InvalidFormat,
    {
        if !header.is_valid() || !has_record_layout(&header) || vertex_offset(
            &header,
            header.vertex_count,
        ).is_none() || edge_offset(&header, header.edge_count).is_none() {
            return Err(RivetError::InvalidFormat);
        }
        let db = Rivet { header, vertex_cache: HashMap::new(), edge_cache: HashMap::new() };
        assert(db@.vertices =~= Map::<u64, VertexRecord>::empty());
        assert(db@.edges =~= Map::<u64, EdgeRecord>::empty());
        Ok(db)
    }

    /// The header as it should be on disk.
    pub fn header(&self) -> (h: &Header)
        ensures
            *h == self@.header,
    {
        &self.header
    }

    /// Adds a new vertex: its ID is the current vertex count, its record has
    /// no edge and is cached, and the count grows by one. Returns the ID and
    /// the record to write to the vertex's slot.
    pub fn add_vertex(&mut self) -> (r: (VertexId, VertexRecord))
        requires
            old(self)@.header.vertex_count < u64::MAX,
        ensures
            final(self)@ == spec_add_vertex(old(self)@),
            r.0 == VertexId(old(self)@.header.vertex_count),
            r.1 == new_vertex_record(),
    {
        let vertex_id = self.header.vertex_count;
        let record = VertexRecord::new();
        self.vertex_cache.insert(vertex_id, record);
        self.header.vertex_count = self.header.vertex_count + 1;
        (VertexId(vertex_id), record)
    }

    /// Checks that a vertex ID names a vertex of the database.
    pub fn check_vertex(&self, vertex: VertexId) -> (r: Result<(), RivetError>)
        ensures
            r is Ok <==> vertex.0 < self@.header.vertex_count,
            r matches Err(e) ==> e == RivetError::InvalidVertex(vertex.0),
    {
        if vertex.0 >= self.header.vertex_count {
            Err(RivetError::InvalidVertex(vertex.0))
        } else {
            Ok(())
        }
    }

    /// Checks both ends of a new edge, the source first.
    pub fn check_edge(&self, source: VertexId, target: VertexId) -> (r: Result<(), RivetError>)
        ensures
            r is Ok <==> source.0 < self@.header.vertex_count && target.0
                < self@.header.vertex_count,
            r matches Err(e) ==> e == RivetError::InvalidVertex(
                if source.0 >= self@.header.vertex_count {
                    source.0
                } else {
                    target.0
                },
            ),
    {
        self.check_vertex(source)?;
        self.check_vertex(target)
    }

    /// The cached record of a vertex, if this session holds one.
    pub fn cached_vertex(&self, vertex_id: u64) -> (r: Option<VertexRecord>)
        ensures
            r == (if self@.vertices.contains_key(vertex_id) {
                Some(self@.vertices[vertex_id])
            } else {
                None
            }),
    {
        match self.vertex_cache.get(&vertex_id) {
            Some(r) => Some(*r),
            None => None,
        }
    }

    /// The cached record of an edge, if this session holds one.
    pub fn cached_edge(&self, edge_id: u64) -> (r: Option<EdgeRecord>)
        ensures
            r == (if self@.edges.contains_key(edge_id) {
                Some(self@.edges[edge_id])
            } else {
                None
            }),
    {
        match self.edge_cache.get(&edge_id) {
            Some(r) => Some(*r),
            None => None,
        }
    }

    /// First step of adding an edge from `source` to `target`, given the
    /// source's current record: the new edge takes the current edge count as
    /// its ID, points to the source's previous first edge, and is cached.
    /// Returns the ID and the record to write to the edge's slot.
    pub fn stage_edge(&mut self, source: VertexId, target: VertexId, source_record: VertexRecord)
        -> (r: (EdgeId, EdgeRecord))
        ensures
            final(self)@ == spec_stage_edge(old(self)@, source, target, source_record),
            r.0 == EdgeId(old(self)@.header.edge_count),
            r.1 == new_edge_record(source, target, source_record),
    {
        let edge_id = self.header.edge_count;
        let edge = EdgeRecord::new(source.0, target.0, source_record.first_edge_id);
        self.edge_cache.insert(edge_id, edge);
        (EdgeId(edge_id), edge)
    }

    /// Second step: the source's record now starts its list with the new
    /// edge, and is cached. Returns the record to write to the source's slot.
    pub fn link_edge(&mut self, source: VertexId, edge: EdgeId) -> (r: VertexRecord)
        ensures
            final(self)@ == spec_link_edge(old(self)@, source, edge),
            r == (VertexRecord { first_edge_id: edge.0 }),
    {
        let updated = VertexRecord { first_edge_id: edge.0 };
        self.vertex_cache.insert(source.0, updated);
        updated
    }

    /// Last step: the edge count grows by one.
    pub fn commit_edge(&mut self)
        requires
            old(self)@.header.edge_count < u64::MAX,
        ensures
            final(self)@ == spec_commit_edge(old(self)@),
    {
        self.header.edge_count = self.header.edge_count + 1;
    }
}

/// The record of a vertex without edges.
pub open spec fn new_vertex_record() -> VertexRecord {
    VertexRecord { first_edge_id: SENTINEL_EDGE_ID }
}

/// The record of an edge from `source` to `target` put in front of the
/// source's list.
pub open spec fn new_edge_record(source: VertexId, target: VertexId, source_record: VertexRecord)
    -> EdgeRecord {
    EdgeRecord { source: source.0, target: target.0, next_edge_id: source_record.first_edge_id }
}

/// The store after a vertex is added.
pub open spec fn spec_add_vertex(db: RivetView) -> RivetView {
    RivetView {
        header: Header { vertex_count: (db.header.vertex_count + 1) as u64, ..db.header },
        vertices: db.vertices.insert(db.header.vertex_count, new_vertex_record()),
        edges: db.edges,
    }
}

/// The store after the first step of adding an edge.
pub open spec fn spec_stage_edge(
    db: RivetView,
    source: VertexId,
    target: VertexId,
    source_record: VertexRecord,
) -> RivetView {
    RivetView {
        edges: db.edges.insert(
            db.header.edge_count,
            new_edge_record(source, target, source_record),
        ),
        ..db
    }
}

/// The store after the second step of adding an edge.
pub open spec fn spec_link_edge(db: RivetView, source: VertexId, edge: EdgeId) -> RivetView {
    RivetView {
        vertices: db.vertices.insert(source.0, VertexRecord { first_edge_id: edge.0 }),
        ..db
    }
}

/// The store after the last step of adding an edge.
pub open spec fn spec_commit_edge(db: RivetView) -> RivetView {
    RivetView {
        header: Header { edge_count: (db.header.edge_count + 1) as u64, ..db.header },
        ..db
    }
}

/// The store after an edge from `source` to `target` is added in full, the
/// source's record before being `source_record`.
pub open spec fn spec_add_edge(
    db: RivetView,
    source: VertexId,
    target: VertexId,
    source_record: VertexRecord,
) -> RivetView {
    spec_commit_edge(
        spec_link_edge(
            spec_stage_edge(db, source, target, source_record),
            source,
            EdgeId(db.header.edge_count),
        ),
    )
}

/// The record to use for a vertex that is not cached, given what reading its
/// slot gave: a failed read counts as a vertex without edges.
pub fn record_or_empty(read: Option<VertexRecord>) -> (r: VertexRecord)
    ensures
        r == (match read {
            Some(v) => v,
            None => new_vertex_record(),
        }),
{
    match read {
        Some(v) => v,
        None => VertexRecord::new(),
    }
}

/// The targets met when following an adjacency list through the given edge
/// records, starting at edge `first`, for at most `steps` edges: `None` when
/// the list leaves the given records or is longer than `steps`.
pub open spec fn list_targets(edges: Map<u64, EdgeRecord>, first: u64, steps: nat) -> Option<
    Seq<VertexId>,
>
    decreases steps,
{
    if first == SENTINEL_EDGE_ID {
        Some(Seq::empty())
    } else if steps == 0 || !edges.contains_key(first) {
        None
    } else {
        match list_targets(edges, edges[first].next_edge_id, (steps - 1) as nat) {
            Some(rest) => Some(seq![VertexId(edges[first].target)] + rest),
            None => None,
        }
    }
}

/// The out-neighbors of `vertex` that the session's cached records give, most
/// recent edge first, following at most `steps` edges: `None` when the vertex
/// or one of its edges is not cached, or the list is longer.
pub open spec fn cached_neighbors(db: RivetView, vertex: u64, steps: nat) -> Option<Seq<VertexId>> {
    if db.vertices.contains_key(vertex) {
        list_targets(db.edges, db.vertices[vertex].first_edge_id, steps)
    } else {
        None
    }
}

/// A traversal of one vertex's adjacency list, in progress: the edge to read
/// next, the targets collected so far, and how many more edges it may follow.
/// A list holds at most as many edges as the database, so the traversal is
/// given the edge count as its budget: a list that would need more (which a
/// well-formed database never has, see `graph::lemma_graph_neighbors`) makes
/// it fail rather than run on.
pub struct NeighborWalk {
    current_edge_id: u64,
    neighbors: Vec<VertexId>,
    budget: u64,
}

impl NeighborWalk {
    /// The edge to read next (the sentinel once the list is done).
    pub closed spec fn current(&self) -> u64 {
        self.current_edge_id
    }

    /// The targets collected so far, in list order.
    pub closed spec fn found(&self) -> Seq<VertexId> {
        self.neighbors@
    }

    /// How many more edges the traversal may follow.
    pub closed spec fn remaining(&self) -> u64 {
        self.budget
    }

    /// Starts at the first edge of the vertex whose record is given, allowed
    /// to follow at most `edge_count` edges.
    pub fn start(vertex_record: &VertexRecord, edge_count: u64) -> (w: Self)
        ensures
            w.current() == vertex_record.first_edge_id,
            w.found() == Seq::<VertexId>::empty(),
            w.remaining() == edge_count,
    {
        NeighborWalk {
            current_edge_id: vertex_record.first_edge_id,
            neighbors: Vec::new(),
            budget: edge_count,
        }
    }

    /// The edge to read next, or `None` when the sentinel ends the list.
    pub fn pending_edge(&self) -> (r: Option<u64>)
        ensures
            r == (if self.current() == SENTINEL_EDGE_ID {
                None
            } else {
                Some(self.current())
            }),
    {
        if self.current_edge_id == SENTINEL_EDGE_ID {
            None
        } else {
            Some(self.current_edge_id)
        }
    }

    /// Follows the pending edge, given its record (from the cache or the
    /// file), or `None` when it could not be read. The traversal fails with
    /// `InvalidEdge` and the pending edge's ID when the edge could not be read
    /// or the budget is spent.
    pub fn follow(&mut self, fetched: Option<EdgeRecord>) -> (r: Result<(), RivetError>)
        requires
            old(self).current() != SENTINEL_EDGE_ID,
        ensures
            fetched is Some && old(self).remaining() > 0 ==> {
                &&& r is Ok
                &&& final(self).found() == old(self).found().push(
                    VertexId(fetched.unwrap().target),
                )
                &&& final(self).current() == fetched.unwrap().next_edge_id
                &&& final(self).remaining() == old(self).remaining() - 1
            },
            fetched is None || old(self).remaining() == 0 ==> {
                &&& r == Err::<(), RivetError>(RivetError::InvalidEdge(old(self).current()))
                &&& final(self).found() == old(self).found()
                &&& final(self).current() == old(self).current()
                &&& final(self).remaining() == old(self).remaining()
            },
    {
        match fetched {
            Some(edge) => {
                if self.budget == 0 {
                    return Err(RivetError::InvalidEdge(self.current_edge_id));
                }
                self.neighbors.push(VertexId(edge.target));
                self.current_edge_id = edge.next_edge_id;
                self.budget = self.budget - 1;
                Ok(())
            },
            None => Err(RivetError::InvalidEdge(self.current_edge_id)),
        }
    }

    /// The targets collected, in list order.
    pub fn finish(self) -> (r: Vec<VertexId>)
        ensures
            r@ == self.found(),
    {
        self.neighbors
    }
}

/// Following an edge during a traversal: when the list ahead ends within
/// `steps + 1` edges (the walk's remaining budget), the targets collected plus
/// the targets still ahead stay the same and the list after the edge ends
/// within `steps`, so a traversal fed the records of `edges` with that budget
/// never runs out of it and collects exactly the listed targets.
pub proof fn lemma_walk_step(
    edges: Map<u64, EdgeRecord>,
    current: u64,
    found: Seq<VertexId>,
    steps: nat,
)
    requires
        current != SENTINEL_EDGE_ID,
        list_targets(edges, current, steps + 1) is Some,
    ensures
        edges.contains_key(current),
        list_targets(edges, edges[current].next_edge_id, steps) is Some,
        found.push(VertexId(edges[current].target)) + list_targets(
            edges,
            edges[current].next_edge_id,
            steps,
        ).unwrap() == found + list_targets(edges, current, steps + 1).unwrap(),
{
    let rest = list_targets(edges, edges[current].next_edge_id, steps).unwrap();
    assert(found.push(VertexId(edges[current].target)) + rest =~= found + (seq![
        VertexId(edges[current].target),
    ] + rest));
}

/// Exactly the valid headers that follow the record layout and leave room
/// for the next records open; in
/// particular a header without the Rivet magic bytes or version never opens,
/// whatever it counts.
pub proof fn lemma_which_headers_open(header: Header)
    ensures
        !header.valid() ==> !header_opens(header),
        !layout_ok(header) ==> !header_opens(header),
        !counts_fit(header) ==> !header_opens(header),
        header.valid() && layout_ok(header) && counts_fit(header) ==> header_opens(header),
{
}

} // verus!
