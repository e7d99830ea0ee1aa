use vstd::prelude::*;
use crate::id::SENTINEL_EDGE_ID;

verus! {

/// On-disk vertex record: stores the ID of the first outgoing edge.
#[derive(Clone, Copy, Debug)]
pub struct VertexRecord {
    pub first_edge_id: u64,
}

impl VertexRecord {
    /// A vertex with no outgoing edge.
    pub fn new() -> (r: Self)
        ensures
            r.first_edge_id == SENTINEL_EDGE_ID,
    {
        VertexRecord { first_edge_id: SENTINEL_EDGE_ID }
    }

    /// Whether the vertex has at least one outgoing edge.
    pub fn has_edges(&self) -> (b: bool)
        ensures
            b == (self.first_edge_id != SENTINEL_EDGE_ID),
    {
        self.first_edge_id != SENTINEL_EDGE_ID
    }
}

/// On-disk edge record: stores source, target, and pointer to next edge.
#[derive(Clone, Copy, Debug)]
pub struct EdgeRecord {
    pub source: u64,
    pub target: u64,
    pub next_edge_id: u64,
}

impl EdgeRecord {
    pub fn new(source: u64, target: u64, next_edge_id: u64) -> (r: Self)
        ensures
            r.source == source,
            r.target == target,
            r.next_edge_id == next_edge_id,
    {
        EdgeRecord { source, target, next_edge_id }
    }
}

/// The four magic bytes that open every database file: `RIVT`.
pub open spec fn spec_magic() -> Seq<u8> {
    seq![0x52u8, 0x49u8, 0x56u8, 0x54u8]
}

/// The file-format version this library writes and accepts.
pub const FORMAT_VERSION: u32 = 1;

/// Database header: metadata and offsets.
#[derive(Clone, Copy, Debug)]
pub struct Header {
    pub magic: [u8; 4],
    pub version: u32,
    pub vertex_count: u64,
    pub edge_count: u64,
    pub vertex_region_offset: u64,
    pub edge_region_offset: u64,
}

impl Header {
    /// Whether the header carries the Rivet magic bytes and the supported version.
    pub open spec fn valid(self) -> bool {
        self.magic@ == spec_magic() && self.version == FORMAT_VERSION
    }

    /// A fresh header: valid magic and version, no vertex or edge, both regions at offset 0.
    pub fn new() -> (h: Self)
        ensures
            h.valid(),
            h.vertex_count == 0,
            h.edge_count == 0,
            h.vertex_region_offset == 0,
            h.edge_region_offset == 0,
    {
        let h = Header {
            magic: [0x52u8, 0x49u8, 0x56u8, 0x54u8],
            version: FORMAT_VERSION,
            vertex_count: 0,
            edge_count: 0,
            vertex_region_offset: 0,
            edge_region_offset: 0,
        };
        assert(h.magic@ =~= spec_magic());
        h
    }

    /// Whether the header carries the Rivet magic bytes and version 1.
    pub fn is_valid(&self) -> (b: bool)
        ensures
            b == self.valid(),
    {
        let b = self.magic[0] == 0x52u8 && self.magic[1] == 0x49u8 && self.magic[2] == 0x56u8
            && self.magic[3] == 0x54u8 && self.version == FORMAT_VERSION;
        proof {
            if b {
                assert(self.magic@ =~= spec_magic());
            } else if self.magic@ == spec_magic() {
                assert(self.magic@[0] == 0x52u8);
                assert(self.magic@[1] == 0x49u8);
                assert(self.magic@[2] == 0x56u8);
                assert(self.magic@[3] == 0x54u8);
            }
        }
        b
    }
}

/// A header is valid exactly when its magic bytes are the ASCII letters
/// `R`, `I`, `V`, `T` and its version is 1.
pub proof fn lemma_valid_header(h: Header)
    ensures
        h.valid() <==> (h.magic@ == seq!['R' as u8, 'I' as u8, 'V' as u8, 'T' as u8]
            && h.version == 1),
{
    assert(seq!['R' as u8, 'I' as u8, 'V' as u8, 'T' as u8] =~= spec_magic());
}

} // verus!
