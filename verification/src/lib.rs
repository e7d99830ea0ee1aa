//! Rivet: a small durable graph storage engine.
//!
//! The library holds the logic of the engine: identifiers, the fixed-size
//! on-disk records and their byte encoding, the layout of the database file,
//! and the adjacency bookkeeping of the store. File handling lives with the
//! caller, which performs the reads and writes that these functions ask for.
//! `graph` states what the adjacency lists hold (the targets of all edges
//! added from a vertex, newest first), and `durability` that a file the
//! library creates holds the whole database after every operation, so that a
//! reopened database reads back the same header, records and lists;
//! `history` puts these together over any sequence of operations and
//! reopenings.
pub mod id;
pub mod record;
pub mod file;
pub mod store;
pub mod graph;
pub mod durability;
pub mod history;

pub use id::{VertexId, EdgeId, SENTINEL_EDGE_ID};
pub use record::{VertexRecord, EdgeRecord, Header};
pub use file::{
    RecordError, HEADER_SIZE, VERTEX_SLOT_SIZE, EDGE_SLOT_SIZE, RECORD_STRIDE, HEADER_READ_SIZE,
    has_record_layout, encode_vertex, encode_edge,
    encode_header, decode_vertex, decode_edge, decode_header, vertex_offset, edge_offset,
    new_file_header, vertex_from_read, check_readable_edge,
};
pub use store::{Rivet, RivetError, NeighborWalk, record_or_empty};
