//! What the database file holds, and what a database reopened on it reads.
//!
//! The file is modelled as its bytes: a write replaces the bytes it covers and
//! extends the file with zero bytes when it starts past the end; a read
//! returns the bytes that are there, up to the number asked for. The caller
//! performs, in order, the writes that the store's operations return (see
//! `Rivet::add_vertex` and the three steps of adding an edge), and reads the
//! records that are not cached. These lemmas show that a file the library
//! creates always holds the whole database (`stored`): every operation keeps
//! it so, a database reopened on it loads the same header and records, and a
//! session reads, cached or not, the database's records.
use vstd::prelude::*;
use vstd::bytes::*;
use crate::id::{VertexId, SENTINEL_EDGE_ID};
use crate::record::{VertexRecord, EdgeRecord, Header};
use crate::file::{
    vertex_bytes, edge_bytes, header_bytes, u64_at, vertex_slot_start, edge_slot_start, layout_ok,
    counts_fit,
    lemma_vertex_read_back, lemma_edge_read_back, lemma_header_read_back, lemma_slots_disjoint,
    VERTEX_SLOT_SIZE, EDGE_SLOT_SIZE, HEADER_SIZE,
};
use crate::store::{
    RivetView, list_targets, new_vertex_record, new_edge_record, spec_add_vertex, spec_add_edge,
    header_opens,
};
use crate::graph::{graph_ok, targets_from, empty_graph, session_of, lemma_graph_neighbors};

verus! {

/// The file after `data` is written at `offset`.
pub open spec fn file_after_write(file: Seq<u8>, offset: int, data: Seq<u8>) -> Seq<u8> {
    let end = offset + data.len();
    let len = if end > file.len() {
        end
    } else {
        file.len() as int
    };
    Seq::new(
        len as nat,
        |i: int|
            if offset <= i < end {
                data[i - offset]
            } else if i < file.len() {
                file[i]
            } else {
                0u8
            },
    )
}

/// What a read of up to `n` bytes at `offset` returns.
pub open spec fn file_read(file: Seq<u8>, offset: int, n: int) -> Seq<u8> {
    if offset >= file.len() {
        Seq::empty()
    } else if offset + n <= file.len() {
        file.subrange(offset, offset + n)
    } else {
        file.subrange(offset, file.len() as int)
    }
}

/// The file holds `data` at `start`.
pub open spec fn holds_at(file: Seq<u8>, start: int, data: Seq<u8>) -> bool {
    &&& 0 <= start
    &&& start + data.len() <= file.len()
    &&& file.subrange(start, start + data.len()) == data
}

/// The byte ranges `[a, a + a_len)` and `[b, b + b_len)` do not meet.
pub open spec fn apart(a: int, a_len: int, b: int, b_len: int) -> bool {
    a + a_len <= b || b + b_len <= a
}

/// The file holds the bytes of every record of the session, each in its slot.
pub open spec fn holds_records(file: Seq<u8>, db: RivetView) -> bool {
    &&& forall|v: u64| #[trigger]
        db.vertices.contains_key(v) ==> holds_at(
            file,
            vertex_slot_start(db.header, v),
            vertex_bytes(db.vertices[v]),
        )
    &&& forall|e: u64| #[trigger]
        db.edges.contains_key(e) ==> holds_at(
            file,
            edge_slot_start(db.header, e),
            edge_bytes(db.edges[e]),
        )
}

/// The file holds the database: a valid header that follows the record
/// layout (with room for the next records) at its start, and every record in
/// its slot.
pub open spec fn stored(file: Seq<u8>, g: RivetView) -> bool {
    &&& g.header.valid()
    &&& layout_ok(g.header)
    &&& counts_fit(g.header)
    &&& holds_at(file, 0, header_bytes(g.header))
    &&& holds_records(file, g)
}

/// The vertex record a session uses: the cached one, or the one its slot
/// gives.
pub open spec fn session_vertex(file: Seq<u8>, db: RivetView, vertex: u64) -> VertexRecord {
    if db.vertices.contains_key(vertex) {
        db.vertices[vertex]
    } else {
        read_vertex_record(file, db.header, vertex)
    }
}

/// The edge record a session uses: the cached one, or the one its slot gives.
pub open spec fn session_edge(file: Seq<u8>, db: RivetView, edge: u64) -> Option<EdgeRecord> {
    if db.edges.contains_key(edge) {
        Some(db.edges[edge])
    } else {
        read_edge_record(file, db.header, edge)
    }
}

/// The vertex record that reading a vertex's 16-byte slot gives a reopened
/// database: a vertex without edges when the read gives no bytes or too few.
pub open spec fn read_vertex_record(file: Seq<u8>, header: Header, vertex: u64) -> VertexRecord {
    let bytes = file_read(file, vertex_slot_start(header, vertex), VERTEX_SLOT_SIZE as int);
    if bytes.len() < 8 {
        new_vertex_record()
    } else {
        VertexRecord { first_edge_id: u64_at(bytes, 0) }
    }
}

/// The edge record that reading an edge's 32-byte slot gives a reopened
/// database, or `None` when the read gives too few bytes (or the ID is the
/// sentinel).
pub open spec fn read_edge_record(file: Seq<u8>, header: Header, edge: u64) -> Option<EdgeRecord> {
    let bytes = file_read(file, edge_slot_start(header, edge), EDGE_SLOT_SIZE as int);
    if edge == SENTINEL_EDGE_ID || bytes.len() < 24 {
        None
    } else {
        Some(EdgeRecord { source: u64_at(bytes, 0), target: u64_at(bytes, 8), next_edge_id: u64_at(bytes, 16) })
    }
}

/// The targets a reopened database collects following the list from edge
/// `first` through the file, for at most `steps` edges: `None` when an edge
/// cannot be read or the list is longer.
pub open spec fn file_list_targets(file: Seq<u8>, header: Header, first: u64, steps: nat) -> Option<
    Seq<VertexId>,
>
    decreases steps,
{
    if first == SENTINEL_EDGE_ID {
        Some(Seq::empty())
    } else if steps == 0 {
        None
    } else {
        match read_edge_record(file, header, first) {
            Some(edge) => match file_list_targets(file, header, edge.next_edge_id, (steps - 1) as nat) {
                Some(rest) => Some(seq![VertexId(edge.target)] + rest),
                None => None,
            },
            None => None,
        }
    }
}

/// The out-neighbors of `vertex` that a database reopened on `file` lists.
pub open spec fn file_neighbors(file: Seq<u8>, header: Header, vertex: u64, steps: nat) -> Option<
    Seq<VertexId>,
> {
    file_list_targets(file, header, read_vertex_record(file, header, vertex).first_edge_id, steps)
}

/// The file after the writes of adding a vertex: the new vertex's record,
/// then the header.
pub open spec fn file_after_add_vertex(file: Seq<u8>, db: RivetView) -> Seq<u8> {
    let after = spec_add_vertex(db);
    file_after_write(
        file_after_write(
            file,
            vertex_slot_start(db.header, db.header.vertex_count),
            vertex_bytes(new_vertex_record()),
        ),
        0,
        header_bytes(after.header),
    )
}

/// The file after the writes of adding an edge: the new edge's record, the
/// source's updated record, then the header.
pub open spec fn file_after_add_edge(
    file: Seq<u8>,
    db: RivetView,
    source: VertexId,
    target: VertexId,
    source_record: VertexRecord,
) -> Seq<u8> {
    let after = spec_add_edge(db, source, target, source_record);
    let e = db.header.edge_count;
    file_after_write(
        file_after_write(
            file_after_write(
                file,
                edge_slot_start(db.header, e),
                edge_bytes(new_edge_record(source, target, source_record)),
            ),
            vertex_slot_start(db.header, source.0),
            vertex_bytes(VertexRecord { first_edge_id: e }),
        ),
        0,
        header_bytes(after.header),
    )
}

/// A write holds its bytes where it wrote them.
proof fn lemma_write_holds(file: Seq<u8>, offset: int, data: Seq<u8>)
    requires
        0 <= offset,
    ensures
        holds_at(file_after_write(file, offset, data), offset, data),
{
    let f = file_after_write(file, offset, data);
    assert(f.subrange(offset, offset + data.len()) =~= data);
}

/// A write keeps the bytes it does not cover.
proof fn lemma_write_keeps(file: Seq<u8>, offset: int, data: Seq<u8>, start: int, kept: Seq<u8>)
    requires
        0 <= offset,
        holds_at(file, start, kept),
        apart(start, kept.len() as int, offset, data.len() as int),
    ensures
        holds_at(file_after_write(file, offset, data), start, kept),
{
    let f = file_after_write(file, offset, data);
    assert(f.subrange(start, start + kept.len()) =~= file.subrange(start, start + kept.len()));
}

/// A file that holds a vertex's record gives that record back when read.
proof fn lemma_read_vertex_back(file: Seq<u8>, header: Header, vertex: u64, record: VertexRecord)
    requires
        holds_at(file, vertex_slot_start(header, vertex), vertex_bytes(record)),
    ensures
        read_vertex_record(file, header, vertex) == record,
{
    lemma_vertex_read_back(record, record);
    lemma_auto_spec_u64_to_from_le_bytes();
    let start = vertex_slot_start(header, vertex);
    let bytes = file_read(file, start, VERTEX_SLOT_SIZE as int);
    assert(bytes.subrange(0, 8) =~= file.subrange(start, start + 8));
}

/// A file that holds an edge's record gives that record back when read.
proof fn lemma_read_edge_back(file: Seq<u8>, header: Header, edge: u64, record: EdgeRecord)
    requires
        edge != SENTINEL_EDGE_ID,
        holds_at(file, edge_slot_start(header, edge), edge_bytes(record)),
    ensures
        read_edge_record(file, header, edge) == Some(record),
{
    lemma_edge_read_back(record, record);
    lemma_auto_spec_u64_to_from_le_bytes();
    let start = edge_slot_start(header, edge);
    let bytes = file_read(file, start, EDGE_SLOT_SIZE as int);
    let eb = edge_bytes(record);
    assert(bytes.subrange(0, 8) =~= eb.subrange(0, 8));
    assert(bytes.subrange(8, 16) =~= eb.subrange(8, 16));
    assert(bytes.subrange(16, 24) =~= eb.subrange(16, 24));
    assert(eb.subrange(0, 8) =~= spec_u64_to_le_bytes(record.source));
    assert(eb.subrange(8, 16) =~= spec_u64_to_le_bytes(record.target));
    assert(eb.subrange(16, 24) =~= spec_u64_to_le_bytes(record.next_edge_id));
}

/// Following a list whose edges the file holds gives the same targets.
proof fn lemma_file_list_matches(file: Seq<u8>, db: RivetView, first: u64, steps: nat)
    requires
        holds_records(file, db),
        list_targets(db.edges, first, steps) is Some,
    ensures
        file_list_targets(file, db.header, first, steps) == list_targets(db.edges, first, steps),
    decreases steps,
{
    if first != SENTINEL_EDGE_ID {
        lemma_read_edge_back(file, db.header, first, db.edges[first]);
        lemma_file_list_matches(file, db, db.edges[first].next_edge_id, (steps - 1) as nat);
    }
}

/// A new file holds its header and nothing else, which is an empty database.
pub proof fn lemma_new_file_stored(header: Header)
    requires
        header.valid(),
        layout_ok(header),
        header.vertex_count == 0,
        header.edge_count == 0,
    ensures
        stored(header_bytes(header), empty_graph(header)),
        graph_ok(empty_graph(header)),
{
    lemma_header_read_back(header, header);
}

/// Reopening: a database opened on a file that holds it loads the same
/// header (which opens), reads back every vertex and edge record, and lists
/// for every vertex the targets of all edges added from it, newest first.
pub proof fn lemma_reopen(file: Seq<u8>, g: RivetView, loaded: Header)
    requires
        stored(file, g),
        graph_ok(g),
        header_bytes(loaded) == file.subrange(0, HEADER_SIZE as int),
    ensures
        loaded == g.header,
        header_opens(loaded),
        forall|v: u64| #[trigger]
            read_vertex_record(file, loaded, v) == g.vertices[v] <== v < g.header.vertex_count,
        forall|e: u64| #[trigger]
            read_edge_record(file, loaded, e) == Some(g.edges[e]) <== e < g.header.edge_count,
        forall|v: u64| #[trigger]
            file_neighbors(file, loaded, v, g.header.edge_count as nat) == Some(
                targets_from(g.edges, v, g.header.edge_count as nat),
            ) <== v < g.header.vertex_count,
{
    lemma_header_read_back(g.header, loaded);
    assert forall|v: u64| v < g.header.vertex_count implies #[trigger] read_vertex_record(
        file,
        loaded,
        v,
    ) == g.vertices[v] by {
        assert(g.vertices.contains_key(v));
        lemma_read_vertex_back(file, g.header, v, g.vertices[v]);
    }
    assert forall|e: u64| e < g.header.edge_count implies #[trigger] read_edge_record(
        file,
        loaded,
        e,
    ) == Some(g.edges[e]) by {
        assert(g.edges.contains_key(e));
        lemma_read_edge_back(file, g.header, e, g.edges[e]);
    }
    assert forall|v: u64| v < g.header.vertex_count implies #[trigger] file_neighbors(
        file,
        loaded,
        v,
        g.header.edge_count as nat,
    ) == Some(targets_from(g.edges, v, g.header.edge_count as nat)) by {
        assert(g.vertices.contains_key(v));
        lemma_read_vertex_back(file, g.header, v, g.vertices[v]);
        lemma_graph_neighbors(g, v);
        lemma_file_list_matches(file, g, g.vertices[v].first_edge_id, g.header.edge_count as nat);
    }
}

/// Within a session, on a file that holds the database and with a cache that
/// agrees with it, every vertex and edge record the session uses (cached, or
/// read from the file) is the database's record.
pub proof fn lemma_session_reads(file: Seq<u8>, db: RivetView, g: RivetView)
    requires
        stored(file, g),
        graph_ok(g),
        session_of(db, g),
    ensures
        forall|v: u64| #[trigger]
            session_vertex(file, db, v) == g.vertices[v] <== v < g.header.vertex_count,
        forall|e: u64| #[trigger]
            session_edge(file, db, e) == Some(g.edges[e]) <== e < g.header.edge_count,
{
    assert forall|v: u64| v < g.header.vertex_count implies #[trigger] session_vertex(
        file,
        db,
        v,
    ) == g.vertices[v] by {
        assert(g.vertices.contains_key(v));
        lemma_read_vertex_back(file, g.header, v, g.vertices[v]);
    }
    assert forall|e: u64| e < g.header.edge_count implies #[trigger] session_edge(file, db, e)
        == Some(g.edges[e]) by {
        assert(g.edges.contains_key(e));
        lemma_read_edge_back(file, g.header, e, g.edges[e]);
    }
}

/// A write that keeps clear of every record slot and of the header (other
/// than those it rewrites) keeps the file holding them.
proof fn lemma_write_spares(
    file: Seq<u8>,
    g: RivetView,
    offset: int,
    data: Seq<u8>,
    v: u64,
    e: u64,
)
    requires
        0 <= offset,
    ensures
        g.vertices.contains_key(v) && holds_at(file, vertex_slot_start(g.header, v), vertex_bytes(g.vertices[v]))
            && apart(vertex_slot_start(g.header, v), VERTEX_SLOT_SIZE as int, offset, data.len() as int)
            ==> holds_at(
            file_after_write(file, offset, data),
            vertex_slot_start(g.header, v),
            vertex_bytes(g.vertices[v]),
        ),
        g.edges.contains_key(e) && holds_at(file, edge_slot_start(g.header, e), edge_bytes(g.edges[e]))
            && apart(edge_slot_start(g.header, e), EDGE_SLOT_SIZE as int, offset, data.len() as int)
            ==> holds_at(
            file_after_write(file, offset, data),
            edge_slot_start(g.header, e),
            edge_bytes(g.edges[e]),
        ),
{
    lemma_vertex_read_back(g.vertices[v], g.vertices[v]);
    lemma_edge_read_back(g.edges[e], g.edges[e]);
    if g.vertices.contains_key(v) && holds_at(file, vertex_slot_start(g.header, v), vertex_bytes(g.vertices[v]))
        && apart(vertex_slot_start(g.header, v), VERTEX_SLOT_SIZE as int, offset, data.len() as int) {
        lemma_write_keeps(file, offset, data, vertex_slot_start(g.header, v), vertex_bytes(g.vertices[v]));
    }
    if g.edges.contains_key(e) && holds_at(file, edge_slot_start(g.header, e), edge_bytes(g.edges[e]))
        && apart(edge_slot_start(g.header, e), EDGE_SLOT_SIZE as int, offset, data.len() as int) {
        lemma_write_keeps(file, offset, data, edge_slot_start(g.header, e), edge_bytes(g.edges[e]));
    }
}

/// Writing the header keeps every record, since every slot lies after it.
proof fn lemma_header_write_keeps(file: Seq<u8>, g: RivetView, header: Header)
    requires
        layout_ok(g.header),
        holds_records(file, g),
        header.vertex_region_offset == g.header.vertex_region_offset,
        header.edge_region_offset == g.header.edge_region_offset,
    ensures
        holds_records(file_after_write(file, 0, header_bytes(header)), RivetView { header, ..g }),
        holds_at(file_after_write(file, 0, header_bytes(header)), 0, header_bytes(header)),
{
    lemma_header_read_back(header, header);
    lemma_write_holds(file, 0, header_bytes(header));
    let f = file_after_write(file, 0, header_bytes(header));
    assert forall|v: u64| #[trigger] g.vertices.contains_key(v) implies holds_at(
        f,
        vertex_slot_start(g.header, v),
        vertex_bytes(g.vertices[v]),
    ) by {
        lemma_slots_disjoint(g.header, v, v);
        lemma_write_spares(file, g, 0, header_bytes(header), v, 0);
    }
    assert forall|e: u64| #[trigger] g.edges.contains_key(e) implies holds_at(
        f,
        edge_slot_start(g.header, e),
        edge_bytes(g.edges[e]),
    ) by {
        lemma_slots_disjoint(g.header, e, e);
        lemma_write_spares(file, g, 0, header_bytes(header), 0, e);
    }
}

/// Adding a vertex keeps the file holding the database, as long as the slot
/// of the vertex after it still has a position that fits in a `u64`.
pub proof fn lemma_add_vertex_stored(file: Seq<u8>, g: RivetView)
    requires
        stored(file, g),
        graph_ok(g),
        g.header.vertex_count < u64::MAX,
        vertex_slot_start(g.header, (g.header.vertex_count + 1) as u64) <= u64::MAX,
    ensures
        stored(file_after_add_vertex(file, g), spec_add_vertex(g)),
{
    let h = g.header;
    let after = spec_add_vertex(g);
    let n = h.vertex_count;
    let start = vertex_slot_start(h, n);
    let data = vertex_bytes(new_vertex_record());
    lemma_vertex_read_back(new_vertex_record(), new_vertex_record());
    lemma_slots_disjoint(h, n, n);
    let f1 = file_after_write(file, start, data);
    lemma_write_holds(file, start, data);
    let mid = RivetView { header: h, ..after };
    assert forall|v: u64| #[trigger] mid.vertices.contains_key(v) implies holds_at(
        f1,
        vertex_slot_start(h, v),
        vertex_bytes(mid.vertices[v]),
    ) by {
        if v != n {
            lemma_slots_disjoint(h, v, n);
            lemma_write_spares(file, g, start, data, v, 0);
        }
    }
    assert forall|e: u64| #[trigger] mid.edges.contains_key(e) implies holds_at(
        f1,
        edge_slot_start(h, e),
        edge_bytes(mid.edges[e]),
    ) by {
        lemma_slots_disjoint(h, n, e);
        lemma_write_spares(file, g, start, data, 0, e);
    }
    lemma_header_write_keeps(f1, mid, after.header);
    assert(RivetView { header: after.header, ..mid } == after);
}

/// Adding an edge between two vertices of the database keeps the file
/// holding the database, as long as the slot of the edge after it still has
/// a position that fits in a `u64`.
pub proof fn lemma_add_edge_stored(file: Seq<u8>, g: RivetView, source: VertexId, target: VertexId)
    requires
        stored(file, g),
        graph_ok(g),
        source.0 < g.header.vertex_count,
        target.0 < g.header.vertex_count,
        g.header.edge_count < u64::MAX,
        edge_slot_start(g.header, (g.header.edge_count + 1) as u64) <= u64::MAX,
    ensures
        stored(
            file_after_add_edge(file, g, source, target, g.vertices[source.0]),
            spec_add_edge(g, source, target, g.vertices[source.0]),
        ),
{
    let h = g.header;
    let rec = g.vertices[source.0];
    let after = spec_add_edge(g, source, target, rec);
    let n = h.edge_count;
    let edge = new_edge_record(source, target, rec);
    let linked = VertexRecord { first_edge_id: n };
    let e_start = edge_slot_start(h, n);
    let e_data = edge_bytes(edge);
    let v_start = vertex_slot_start(h, source.0);
    let v_data = vertex_bytes(linked);
    lemma_edge_read_back(edge, edge);
    lemma_vertex_read_back(linked, linked);
    lemma_slots_disjoint(h, n, n);
    lemma_slots_disjoint(h, source.0, source.0);
    assert(after.edges == g.edges.insert(n, edge));
    assert(after.vertices == g.vertices.insert(source.0, linked));
    // The new edge's record.
    let g1 = RivetView { edges: after.edges, ..g };
    let f1 = file_after_write(file, e_start, e_data);
    lemma_write_holds(file, e_start, e_data);
    assert forall|e: u64| #[trigger] g1.edges.contains_key(e) implies holds_at(
        f1,
        edge_slot_start(h, e),
        edge_bytes(g1.edges[e]),
    ) by {
        if e != n {
            lemma_slots_disjoint(h, e, n);
            lemma_write_spares(file, g, e_start, e_data, 0, e);
        }
    }
    assert forall|v: u64| #[trigger] g1.vertices.contains_key(v) && v != source.0 implies holds_at(
        f1,
        vertex_slot_start(h, v),
        vertex_bytes(g1.vertices[v]),
    ) by {
        lemma_slots_disjoint(h, v, n);
        lemma_write_spares(file, g, e_start, e_data, v, 0);
    }
    // The source's updated record.
    let g2 = RivetView { header: h, ..after };
    let f2 = file_after_write(f1, v_start, v_data);
    lemma_write_holds(f1, v_start, v_data);
    assert forall|v: u64| #[trigger] g2.vertices.contains_key(v) implies holds_at(
        f2,
        vertex_slot_start(h, v),
        vertex_bytes(g2.vertices[v]),
    ) by {
        if v != source.0 {
            lemma_slots_disjoint(h, v, source.0);
            lemma_write_spares(f1, g1, v_start, v_data, v, 0);
        }
    }
    assert forall|e: u64| #[trigger] g2.edges.contains_key(e) implies holds_at(
        f2,
        edge_slot_start(h, e),
        edge_bytes(g2.edges[e]),
    ) by {
        lemma_slots_disjoint(h, source.0, e);
        lemma_write_spares(f1, g1, v_start, v_data, 0, e);
    }
    // The header.
    lemma_header_write_keeps(f2, g2, after.header);
    assert(RivetView { header: after.header, ..g2 } == after);
}

} // verus!
