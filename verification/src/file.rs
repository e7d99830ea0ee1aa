//! The layout of the database file and the byte encoding of its records.
//!
//! The file starts with the header; vertex record `v` lives at
//! `vertex_region_offset + 48 * v` and edge record `e` at
//! `edge_region_offset + 48 * e`, with the edge region 16 bytes after the
//! vertex region, so that vertex and edge slots alternate and never meet.
//! Records are encoded with bincode's default (fixed-width, little-endian)
//! encoding.
use vstd::prelude::*;
use vstd::bytes::*;
use crate::id::SENTINEL_EDGE_ID;
use crate::record::{VertexRecord, EdgeRecord, Header};

verus! {

/// Declares `bincode::ErrorKind` as an opaque type: a decoding
/// failure is carried (in `RecordError`) for the caller's message, never
/// looked into.
#[verifier::external_type_specification]
#[verifier::external_body]
pub struct ExBincodeErrorKind(bincode::ErrorKind);

/// Bytes of a vertex record: its first edge ID, little-endian.
pub open spec fn vertex_bytes(r: VertexRecord) -> Seq<u8> {
    spec_u64_to_le_bytes(r.first_edge_id)
}

/// Bytes of an edge record: source, target and next edge ID, each little-endian.
pub open spec fn edge_bytes(r: EdgeRecord) -> Seq<u8> {
    spec_u64_to_le_bytes(r.source) + spec_u64_to_le_bytes(r.target) + spec_u64_to_le_bytes(
        r.next_edge_id,
    )
}

/// Bytes of a header: the magic bytes, the version (4 bytes), then the two
/// counts and the two region offsets (8 bytes each), all little-endian.
pub open spec fn header_bytes(h: Header) -> Seq<u8> {
    h.magic@ + spec_u32_to_le_bytes(h.version) + spec_u64_to_le_bytes(h.vertex_count)
        + spec_u64_to_le_bytes(h.edge_count) + spec_u64_to_le_bytes(h.vertex_region_offset)
        + spec_u64_to_le_bytes(h.edge_region_offset)
}

/// The `u64` stored little-endian at `bytes[at..at + 8]`.
pub open spec fn u64_at(bytes: Seq<u8>, at: int) -> u64 {
    spec_u64_from_le_bytes(bytes.subrange(at, at + 8))
}

/// Calls `bincode::serialize` on a `u64`. Claimed: it succeeds, and the bytes
/// are the value's 8 little-endian bytes (bincode's fixed-int, little-endian
/// default, with no size limit, writing into a `Vec`).
#[verifier::external_body]
fn bincode_serialize_u64(value: u64) -> (r: Result<Vec<u8>, Box<bincode::ErrorKind>>)
    ensures
        r is Ok,
        r matches Ok(b) ==> b@ == spec_u64_to_le_bytes(value),
{
    bincode::serialize(&value)
}

/// Calls `bincode::serialize` on a triple of `u64`. Claimed: it succeeds, and
/// the bytes are the three values' little-endian bytes one after the other.
#[verifier::external_body]
fn bincode_serialize_u64_triple(value: (u64, u64, u64)) -> (r: Result<
    Vec<u8>,
    Box<bincode::ErrorKind>,
>)
    ensures
        r is Ok,
        r matches Ok(b) ==> b@ == spec_u64_to_le_bytes(value.0) + spec_u64_to_le_bytes(value.1)
            + spec_u64_to_le_bytes(value.2),
{
    bincode::serialize(&value)
}

/// Calls `bincode::serialize` on the header's fields as a tuple (a 4-byte
/// array, a `u32` and four `u64`). Claimed: it succeeds, and the bytes are the
/// array's bytes followed by each integer's little-endian bytes.
#[verifier::external_body]
fn bincode_serialize_header_fields(value: ([u8; 4], u32, u64, u64, u64, u64)) -> (r: Result<
    Vec<u8>,
    Box<bincode::ErrorKind>,
>)
    ensures
        r is Ok,
        r matches Ok(b) ==> b@ == value.0@ + spec_u32_to_le_bytes(value.1) + spec_u64_to_le_bytes(
            value.2,
        ) + spec_u64_to_le_bytes(value.3) + spec_u64_to_le_bytes(value.4) + spec_u64_to_le_bytes(
            value.5,
        ),
{
    bincode::serialize(&value)
}

/// Calls `bincode::deserialize` for a `u64`. Claimed: it fails exactly when
/// fewer than 8 bytes are given (bytes past the 8th are allowed and ignored),
/// and otherwise returns the little-endian value of the first 8 bytes.
#[verifier::external_body]
fn bincode_deserialize_u64(bytes: &[u8]) -> (r: Result<u64, Box<bincode::ErrorKind>>)
    ensures
        r is Ok <==> bytes@.len() >= 8,
        r matches Ok(v) ==> v == u64_at(bytes@, 0),
{
    bincode::deserialize(bytes)
}

/// Calls `bincode::deserialize` for a triple of `u64`. Claimed: it fails
/// exactly when fewer than 24 bytes are given, and otherwise returns the
/// little-endian values at offsets 0, 8 and 16.
#[verifier::external_body]
fn bincode_deserialize_u64_triple(bytes: &[u8]) -> (r: Result<
    (u64, u64, u64),
    Box<bincode::ErrorKind>,
>)
    ensures
        r is Ok <==> bytes@.len() >= 24,
        r matches Ok(v) ==> v.0 == u64_at(bytes@, 0) && v.1 == u64_at(bytes@, 8) && v.2 == u64_at(
            bytes@,
            16,
        ),
{
    bincode::deserialize(bytes)
}

/// Calls `bincode::deserialize` for the header's field tuple. Claimed: it fails
/// exactly when fewer than 40 bytes are given, and otherwise returns bytes
/// 0..4 as the array, the little-endian `u32` at 4 and the little-endian
/// `u64` values at 8, 16, 24 and 32.
#[verifier::external_body]
fn bincode_deserialize_header_fields(bytes: &[u8]) -> (r: Result<
    ([u8; 4], u32, u64, u64, u64, u64),
    Box<bincode::ErrorKind>,
>)
    ensures
        r is Ok <==> bytes@.len() >= 40,
        r matches Ok(v) ==> {
            &&& v.0@ == bytes@.subrange(0, 4)
            &&& v.1 == spec_u32_from_le_bytes(bytes@.subrange(4, 8))
            &&& v.2 == u64_at(bytes@, 8)
            &&& v.3 == u64_at(bytes@, 16)
            &&& v.4 == u64_at(bytes@, 24)
            &&& v.5 == u64_at(bytes@, 32)
        },
{
    bincode::deserialize(bytes)
}

/// Why bytes read from the file could not be turned into a record.
#[derive(Debug)]
pub enum RecordError {
    /// The header bytes do not decode (fewer than 40 bytes).
    Header(Box<bincode::ErrorKind>),
    /// The vertex record bytes do not decode (between 1 and 7 bytes).
    Vertex(Box<bincode::ErrorKind>),
    /// The edge record bytes do not decode (fewer than 24 bytes).
    Edge(Box<bincode::ErrorKind>),
    /// The sentinel edge ID names no edge and cannot be read.
    SentinelEdge,
}

/// Encodes a vertex record (8 bytes).
pub fn encode_vertex(record: &VertexRecord) -> (bytes: Vec<u8>)
    ensures
        bytes@ == vertex_bytes(*record),
        bytes@ == spec_u64_to_le_bytes(record.first_edge_id),
{
    match bincode_serialize_u64(record.first_edge_id) {
        Ok(b) => b,
        Err(_) => Vec::new(),  // never taken: the serializer succeeds on fixed-size integers
    }
}

/// Encodes an edge record (24 bytes).
pub fn encode_edge(record: &EdgeRecord) -> (bytes: Vec<u8>)
    ensures
        bytes@ == edge_bytes(*record),
        bytes@.len() == 24,
        bytes@.subrange(0, 8) == spec_u64_to_le_bytes(record.source),
        bytes@.subrange(8, 16) == spec_u64_to_le_bytes(record.target),
        bytes@.subrange(16, 24) == spec_u64_to_le_bytes(record.next_edge_id),
{
    proof {
        lemma_edge_layout(*record);
    }
    match bincode_serialize_u64_triple((record.source, record.target, record.next_edge_id)) {
        Ok(b) => b,
        Err(_) => Vec::new(),  // never taken: the serializer succeeds on fixed-size integers
    }
}

/// Encodes a header (40 bytes).
pub fn encode_header(header: &Header) -> (bytes: Vec<u8>)
    ensures
        bytes@ == header_bytes(*header),
        bytes@.len() == 40,
        bytes@.subrange(0, 4) == header.magic@,
        bytes@.subrange(4, 8) == spec_u32_to_le_bytes(header.version),
        bytes@.subrange(8, 16) == spec_u64_to_le_bytes(header.vertex_count),
        bytes@.subrange(16, 24) == spec_u64_to_le_bytes(header.edge_count),
        bytes@.subrange(24, 32) == spec_u64_to_le_bytes(header.vertex_region_offset),
        bytes@.subrange(32, 40) == spec_u64_to_le_bytes(header.edge_region_offset),
{
    proof {
        lemma_header_layout(*header);
    }
    let fields = (
        header.magic,
        header.version,
        header.vertex_count,
        header.edge_count,
        header.vertex_region_offset,
        header.edge_region_offset,
    );
    match bincode_serialize_header_fields(fields) {
        Ok(b) => b,
        Err(_) => Vec::new(),  // never taken: the serializer succeeds on fixed-size integers
    }
}

/// Decodes a vertex record from the first 8 bytes; later bytes are ignored.
pub fn decode_vertex(bytes: &[u8]) -> (r: Result<VertexRecord, RecordError>)
    ensures
        r is Ok <==> bytes@.len() >= 8,
        r matches Ok(v) ==> vertex_bytes(v) == bytes@.subrange(0, 8),
        r matches Ok(v) ==> v.first_edge_id == u64_at(bytes@, 0),
        r matches Err(e) ==> e is Vertex,
{
    match bincode_deserialize_u64(bytes) {
        Ok(first_edge_id) => {
            proof {
                lemma_auto_spec_u64_to_from_le_bytes();
            }
            Ok(VertexRecord { first_edge_id })
        },
        Err(e) => Err(RecordError::Vertex(e)),
    }
}

/// Decodes an edge record from the first 24 bytes; later bytes are ignored.
pub fn decode_edge(bytes: &[u8]) -> (r: Result<EdgeRecord, RecordError>)
    ensures
        r is Ok <==> bytes@.len() >= 24,
        r matches Ok(e) ==> edge_bytes(e) == bytes@.subrange(0, 24),
        r matches Ok(e) ==> e.source == u64_at(bytes@, 0) && e.target == u64_at(bytes@, 8)
            && e.next_edge_id == u64_at(bytes@, 16),
        r matches Err(e) ==> e is Edge,
{
    match bincode_deserialize_u64_triple(bytes) {
        Ok(v) => {
            let e = EdgeRecord { source: v.0, target: v.1, next_edge_id: v.2 };
            proof {
                lemma_auto_spec_u64_to_from_le_bytes();
                assert(edge_bytes(e) =~= bytes@.subrange(0, 24));
            }
            Ok(e)
        },
        Err(e) => Err(RecordError::Edge(e)),
    }
}

/// Decodes a header from the first 40 bytes; later bytes are ignored.
pub fn decode_header(bytes: &[u8]) -> (r: Result<Header, RecordError>)
    ensures
        r is Ok <==> bytes@.len() >= 40,
        r matches Ok(h) ==> header_bytes(h) == bytes@.subrange(0, 40),
        r matches Ok(h) ==> {
            &&& h.magic@ == bytes@.subrange(0, 4)
            &&& h.version == spec_u32_from_le_bytes(bytes@.subrange(4, 8))
            &&& h.vertex_count == u64_at(bytes@, 8)
            &&& h.edge_count == u64_at(bytes@, 16)
            &&& h.vertex_region_offset == u64_at(bytes@, 24)
            &&& h.edge_region_offset == u64_at(bytes@, 32)
        },
        r matches Err(e) ==> e is Header,
{
    match bincode_deserialize_header_fields(bytes) {
        Ok(v) => {
            let h = Header {
                magic: v.0,
                version: v.1,
                vertex_count: v.2,
                edge_count: v.3,
                vertex_region_offset: v.4,
                edge_region_offset: v.5,
            };
            proof {
                lemma_auto_spec_u64_to_from_le_bytes();
                lemma_auto_spec_u32_to_from_le_bytes();
                assert(header_bytes(h) =~= bytes@.subrange(0, 40));
            }
            Ok(h)
        },
        Err(e) => Err(RecordError::Header(e)),
    }
}

/// Bytes the header takes at the start of the file.
pub const HEADER_SIZE: u64 = 40;

/// Bytes reserved for (and read from) each vertex record's slot.
pub const VERTEX_SLOT_SIZE: u64 = 16;

/// Bytes reserved for (and read from) each edge record's slot.
pub const EDGE_SLOT_SIZE: u64 = 32;

/// Distance between the slots of consecutive IDs. After the header, the file
/// is a sequence of 48-byte blocks; block `i` holds the slot of vertex `i`
/// (16 bytes) followed by the slot of edge `i` (32 bytes), so the vertex
/// region starts right after the header and the edge region 16 bytes later,
/// and both grow without ever meeting.
pub const RECORD_STRIDE: u64 = 48;

/// How many bytes are read from the start of an existing file to load its header.
pub const HEADER_READ_SIZE: usize = 256;

/// The slot of a vertex starts `48 * vertex_id` bytes into the vertex region.
pub open spec fn vertex_slot_start(header: Header, vertex_id: u64) -> int {
    header.vertex_region_offset + vertex_id * RECORD_STRIDE
}

/// The slot of an edge starts `48 * edge_id` bytes into the edge region.
pub open spec fn edge_slot_start(header: Header, edge_id: u64) -> int {
    header.edge_region_offset + edge_id * RECORD_STRIDE
}

/// The header's region offsets follow the record layout: the vertex region
/// starts after the header and the edge region one vertex slot later.
pub open spec fn layout_ok(header: Header) -> bool {
    &&& header.vertex_region_offset >= HEADER_SIZE
    &&& header.edge_region_offset == header.vertex_region_offset + VERTEX_SLOT_SIZE
}

/// The slots of the next vertex and the next edge (and so those of every
/// vertex and edge already counted) start at positions that fit in a `u64`.
pub open spec fn counts_fit(header: Header) -> bool {
    &&& vertex_slot_start(header, header.vertex_count) <= u64::MAX
    &&& edge_slot_start(header, header.edge_count) <= u64::MAX
}

/// Whether the header's region offsets follow the record layout.
pub fn has_record_layout(header: &Header) -> (b: bool)
    ensures
        b == layout_ok(*header),
{
    header.vertex_region_offset >= HEADER_SIZE && header.vertex_region_offset <= u64::MAX
        - VERTEX_SLOT_SIZE && header.edge_region_offset == header.vertex_region_offset
        + VERTEX_SLOT_SIZE
}

/// Where vertex record `vertex_id` starts: `vertex_region_offset + 48 * vertex_id`,
/// or `None` when that position does not fit in a `u64`.
pub fn vertex_offset(header: &Header, vertex_id: u64) -> (r: Option<u64>)
    ensures
        r == (if vertex_slot_start(*header, vertex_id) <= u64::MAX {
            Some(vertex_slot_start(*header, vertex_id) as u64)
        } else {
            None
        }),
{
    match vertex_id.checked_mul(RECORD_STRIDE) {
        Some(rel) => header.vertex_region_offset.checked_add(rel),
        None => None,
    }
}

/// Where edge record `edge_id` starts: `edge_region_offset + 48 * edge_id`,
/// or `None` when that position does not fit in a `u64`.
pub fn edge_offset(header: &Header, edge_id: u64) -> (r: Option<u64>)
    ensures
        r == (if edge_slot_start(*header, edge_id) <= u64::MAX {
            Some(edge_slot_start(*header, edge_id) as u64)
        } else {
            None
        }),
{
    match edge_id.checked_mul(RECORD_STRIDE) {
        Some(rel) => header.edge_region_offset.checked_add(rel),
        None => None,
    }
}

/// The header of a newly created file, and the bytes to write at the start
/// of the file: the bytes are that very header, which counts nothing and
/// places the vertex region right after itself.
pub fn new_file_header() -> (r: (Header, Vec<u8>))
    ensures
        r.0.valid(),
        layout_ok(r.0),
        counts_fit(r.0),
        r.0.vertex_count == 0,
        r.0.edge_count == 0,
        r.0.vertex_region_offset == HEADER_SIZE,
        r.1@ == header_bytes(r.0),
        r.1@.len() == HEADER_SIZE,
{
    let mut header = Header::new();
    header.vertex_region_offset = HEADER_SIZE;
    header.edge_region_offset = HEADER_SIZE + VERTEX_SLOT_SIZE;
    let encoded = encode_header(&header);
    proof {
        lemma_header_read_back(header, header);
    }
    (header, encoded)
}

/// The vertex record read from a vertex slot, given the bytes the read
/// returned: no bytes (the slot lies past the end of the file) is a vertex
/// without edges; otherwise the bytes are decoded.
pub fn vertex_from_read(bytes: &[u8]) -> (r: Result<VertexRecord, RecordError>)
    ensures
        bytes@.len() == 0 ==> r == Ok::<VertexRecord, RecordError>(VertexRecord { first_edge_id: SENTINEL_EDGE_ID }),
        r is Ok <==> (bytes@.len() == 0 || bytes@.len() >= 8),
        bytes@.len() > 0 ==> (r matches Ok(v) ==> vertex_bytes(v) == bytes@.subrange(0, 8)),
        bytes@.len() > 0 ==> (r matches Ok(v) ==> v.first_edge_id == u64_at(bytes@, 0)),
        r matches Err(e) ==> e is Vertex,
{
    if bytes.len() == 0 {
        Ok(VertexRecord::new())
    } else {
        decode_vertex(bytes)
    }
}

/// Checks that an edge ID may be read: the sentinel names no edge.
pub fn check_readable_edge(edge_id: u64) -> (r: Result<(), RecordError>)
    ensures
        r is Ok <==> edge_id != SENTINEL_EDGE_ID,
        r matches Err(e) ==> e is SentinelEdge,
{
    if edge_id == SENTINEL_EDGE_ID {
        Err(RecordError::SentinelEdge)
    } else {
        Ok(())
    }
}

/// Record slots never meet: two different vertices' slots are apart, two
/// different edges' slots are apart, and, when the header follows the record
/// layout, every vertex slot is apart from every edge slot and every slot lies
/// after the header. Each record's bytes fit in its slot.
pub proof fn lemma_slots_disjoint(header: Header, a: u64, b: u64)
    ensures
        a != b ==> vertex_slot_start(header, a) + VERTEX_SLOT_SIZE <= vertex_slot_start(header, b)
            || vertex_slot_start(header, b) + VERTEX_SLOT_SIZE <= vertex_slot_start(header, a),
        a != b ==> edge_slot_start(header, a) + EDGE_SLOT_SIZE <= edge_slot_start(header, b)
            || edge_slot_start(header, b) + EDGE_SLOT_SIZE <= edge_slot_start(header, a),
        layout_ok(header) ==> vertex_slot_start(header, a) + VERTEX_SLOT_SIZE <= edge_slot_start(
            header,
            b,
        ) || edge_slot_start(header, b) + EDGE_SLOT_SIZE <= vertex_slot_start(header, a),
        layout_ok(header) ==> vertex_slot_start(header, a) >= HEADER_SIZE,
        layout_ok(header) ==> edge_slot_start(header, b) >= HEADER_SIZE,
{
}

/// Under the record layout the file after the header is a run of blocks
/// with no gap: the first vertex slot starts where the header's bytes end
/// for a new file, each vertex slot is directly followed by the edge slot of
/// the same ID, and that by the next vertex slot.
pub proof fn lemma_block_layout(header: Header, i: u64)
    requires
        layout_ok(header),
    ensures
        vertex_slot_start(header, i) + VERTEX_SLOT_SIZE == edge_slot_start(header, i),
        edge_slot_start(header, i) + EDGE_SLOT_SIZE == vertex_slot_start(header, (i + 1) as u64)
            <== i < u64::MAX,
        vertex_slot_start(header, 0) == header.vertex_region_offset,
{
}

/// Each record's bytes fit in its slot.
pub proof fn lemma_records_fit(v: VertexRecord, e: EdgeRecord)
    ensures
        vertex_bytes(v).len() <= VERTEX_SLOT_SIZE,
        edge_bytes(e).len() <= EDGE_SLOT_SIZE,
{
    lemma_vertex_read_back(v, v);
    lemma_edge_read_back(e, e);
}

/// The header's bytes hold its fields at fixed places, in the order the
/// header declares them: the magic bytes at 0..4, then the little-endian
/// version at 4..8, vertex count at 8..16, edge count at 16..24, vertex region
/// offset at 24..32 and edge region offset at 32..40.
pub proof fn lemma_header_layout(h: Header)
    ensures
        header_bytes(h).len() == 40,
        header_bytes(h).subrange(0, 4) == h.magic@,
        header_bytes(h).subrange(4, 8) == spec_u32_to_le_bytes(h.version),
        header_bytes(h).subrange(8, 16) == spec_u64_to_le_bytes(h.vertex_count),
        header_bytes(h).subrange(16, 24) == spec_u64_to_le_bytes(h.edge_count),
        header_bytes(h).subrange(24, 32) == spec_u64_to_le_bytes(h.vertex_region_offset),
        header_bytes(h).subrange(32, 40) == spec_u64_to_le_bytes(h.edge_region_offset),
        spec_u32_from_le_bytes(header_bytes(h).subrange(4, 8)) == h.version,
        u64_at(header_bytes(h), 8) == h.vertex_count,
        u64_at(header_bytes(h), 16) == h.edge_count,
        u64_at(header_bytes(h), 24) == h.vertex_region_offset,
        u64_at(header_bytes(h), 32) == h.edge_region_offset,
{
    lemma_auto_spec_u64_to_from_le_bytes();
    lemma_auto_spec_u32_to_from_le_bytes();
    let b = header_bytes(h);
    assert(b.subrange(0, 4) =~= h.magic@);
    assert(b.subrange(4, 8) =~= spec_u32_to_le_bytes(h.version));
    assert(b.subrange(8, 16) =~= spec_u64_to_le_bytes(h.vertex_count));
    assert(b.subrange(16, 24) =~= spec_u64_to_le_bytes(h.edge_count));
    assert(b.subrange(24, 32) =~= spec_u64_to_le_bytes(h.vertex_region_offset));
    assert(b.subrange(32, 40) =~= spec_u64_to_le_bytes(h.edge_region_offset));
}

/// An edge record's bytes hold its fields at fixed places, in the order the
/// record declares them: the little-endian source at 0..8, target at 8..16
/// and next edge ID at 16..24.
pub proof fn lemma_edge_layout(e: EdgeRecord)
    ensures
        edge_bytes(e).len() == 24,
        edge_bytes(e).subrange(0, 8) == spec_u64_to_le_bytes(e.source),
        edge_bytes(e).subrange(8, 16) == spec_u64_to_le_bytes(e.target),
        edge_bytes(e).subrange(16, 24) == spec_u64_to_le_bytes(e.next_edge_id),
        u64_at(edge_bytes(e), 0) == e.source,
        u64_at(edge_bytes(e), 8) == e.target,
        u64_at(edge_bytes(e), 16) == e.next_edge_id,
{
    lemma_auto_spec_u64_to_from_le_bytes();
    let b = edge_bytes(e);
    assert(b.subrange(0, 8) =~= spec_u64_to_le_bytes(e.source));
    assert(b.subrange(8, 16) =~= spec_u64_to_le_bytes(e.target));
    assert(b.subrange(16, 24) =~= spec_u64_to_le_bytes(e.next_edge_id));
}

/// A vertex record's bytes are its little-endian first edge ID.
pub proof fn lemma_vertex_layout(v: VertexRecord)
    ensures
        vertex_bytes(v).len() == 8,
        vertex_bytes(v) == spec_u64_to_le_bytes(v.first_edge_id),
        u64_at(vertex_bytes(v), 0) == v.first_edge_id,
{
    lemma_auto_spec_u64_to_from_le_bytes();
    assert(vertex_bytes(v).subrange(0, 8) =~= vertex_bytes(v));
}

/// A vertex record encodes to 8 bytes (half of its 16-byte slot), and a vertex
/// record read back from the bytes written for a record is that record.
pub proof fn lemma_vertex_read_back(written: VertexRecord, read: VertexRecord)
    ensures
        vertex_bytes(written).len() == 8,
        vertex_bytes(written).subrange(0, 8) == vertex_bytes(written),
        vertex_bytes(read) == vertex_bytes(written) ==> read == written,
{
    lemma_auto_spec_u64_to_from_le_bytes();
    assert(vertex_bytes(written).subrange(0, 8) =~= vertex_bytes(written));
}

/// An edge record encodes to 24 bytes (within its 32-byte slot), and an edge
/// record read back from the bytes written for a record is that record.
pub proof fn lemma_edge_read_back(written: EdgeRecord, read: EdgeRecord)
    ensures
        edge_bytes(written).len() == 24,
        edge_bytes(written).subrange(0, 24) == edge_bytes(written),
        edge_bytes(read) == edge_bytes(written) ==> read == written,
{
    lemma_auto_spec_u64_to_from_le_bytes();
    assert(edge_bytes(written).subrange(0, 24) =~= edge_bytes(written));
    if edge_bytes(read) == edge_bytes(written) {
        let a = edge_bytes(read);
        let b = edge_bytes(written);
        assert(a.subrange(0, 8) =~= spec_u64_to_le_bytes(read.source));
        assert(b.subrange(0, 8) =~= spec_u64_to_le_bytes(written.source));
        assert(a.subrange(8, 16) =~= spec_u64_to_le_bytes(read.target));
        assert(b.subrange(8, 16) =~= spec_u64_to_le_bytes(written.target));
        assert(a.subrange(16, 24) =~= spec_u64_to_le_bytes(read.next_edge_id));
        assert(b.subrange(16, 24) =~= spec_u64_to_le_bytes(written.next_edge_id));
    }
}

/// A header encodes to 40 bytes (so the 256 bytes read when a file is opened
/// hold all of it), and a header read back from the bytes written for a
/// header is that header.
pub proof fn lemma_header_read_back(written: Header, read: Header)
    ensures
        header_bytes(written).len() == 40,
        header_bytes(written).subrange(0, 40) == header_bytes(written),
        header_bytes(read) == header_bytes(written) ==> read == written,
{
    lemma_auto_spec_u64_to_from_le_bytes();
    lemma_auto_spec_u32_to_from_le_bytes();
    assert(header_bytes(written).subrange(0, 40) =~= header_bytes(written));
    broadcast use vstd::array::group_array_axioms;
    if header_bytes(read) == header_bytes(written) {
        let a = header_bytes(read);
        let b = header_bytes(written);
        assert(a.subrange(0, 4) =~= read.magic@);
        assert(b.subrange(0, 4) =~= written.magic@);
        assert(read.magic =~= written.magic);
        assert(a.subrange(4, 8) =~= spec_u32_to_le_bytes(read.version));
        assert(b.subrange(4, 8) =~= spec_u32_to_le_bytes(written.version));
        assert(a.subrange(8, 16) =~= spec_u64_to_le_bytes(read.vertex_count));
        assert(b.subrange(8, 16) =~= spec_u64_to_le_bytes(written.vertex_count));
        assert(a.subrange(16, 24) =~= spec_u64_to_le_bytes(read.edge_count));
        assert(b.subrange(16, 24) =~= spec_u64_to_le_bytes(written.edge_count));
        assert(a.subrange(24, 32) =~= spec_u64_to_le_bytes(read.vertex_region_offset));
        assert(b.subrange(24, 32) =~= spec_u64_to_le_bytes(written.vertex_region_offset));
        assert(a.subrange(32, 40) =~= spec_u64_to_le_bytes(read.edge_region_offset));
        assert(b.subrange(32, 40) =~= spec_u64_to_le_bytes(written.edge_region_offset));
    }
}

} // verus!
