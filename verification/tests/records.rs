use rivet::{
    check_readable_edge, decode_edge, decode_header, decode_vertex, edge_offset, encode_edge,
    encode_header, encode_vertex, new_file_header, record_or_empty, vertex_from_read,
    vertex_offset, has_record_layout, EdgeId, EdgeRecord, Header, NeighborWalk, RecordError, Rivet, RivetError,
    VertexId, VertexRecord, EDGE_SLOT_SIZE, HEADER_READ_SIZE, HEADER_SIZE, RECORD_STRIDE,
    SENTINEL_EDGE_ID, VERTEX_SLOT_SIZE,
};

fn header_with_offsets(vertex_region_offset: u64, edge_region_offset: u64) -> Header {
    let mut h = Header::new();
    h.vertex_region_offset = vertex_region_offset;
    h.edge_region_offset = edge_region_offset;
    h
}

#[test]
fn new_vertex_record_has_no_edges() {
    let r = VertexRecord::new();
    assert_eq!(r.first_edge_id, SENTINEL_EDGE_ID);
    assert!(!r.has_edges());
    assert!(VertexRecord { first_edge_id: 0 }.has_edges());
}

#[test]
fn edge_record_new_keeps_fields() {
    let e = EdgeRecord::new(4, 5, 6);
    assert_eq!((e.source, e.target, e.next_edge_id), (4, 5, 6));
}

#[test]
fn new_header_is_valid_and_empty() {
    let h = Header::new();
    assert_eq!(&h.magic, b"RIVT");
    assert_eq!(h.version, 1);
    assert_eq!(h.vertex_count, 0);
    assert_eq!(h.edge_count, 0);
    assert_eq!(h.vertex_region_offset, 0);
    assert_eq!(h.edge_region_offset, 0);
    assert!(h.is_valid());
}

#[test]
fn header_with_other_magic_or_version_is_invalid() {
    let mut h = Header::new();
    h.magic = *b"RIVX";
    assert!(!h.is_valid());
    let mut h = Header::new();
    h.version = 2;
    assert!(!h.is_valid());
}

#[test]
fn vertex_encoding_is_little_endian() {
    assert_eq!(encode_vertex(&VertexRecord::new()), vec![0xff; 8]);
    assert_eq!(
        encode_vertex(&VertexRecord { first_edge_id: 0x0102 }),
        vec![2, 1, 0, 0, 0, 0, 0, 0]
    );
}

#[test]
fn edge_encoding_is_three_little_endian_words() {
    let bytes = encode_edge(&EdgeRecord::new(1, 0x0203, SENTINEL_EDGE_ID));
    let mut expected = vec![1, 0, 0, 0, 0, 0, 0, 0, 3, 2, 0, 0, 0, 0, 0, 0];
    expected.extend_from_slice(&[0xff; 8]);
    assert_eq!(bytes, expected);
}

#[test]
fn header_encoding_layout() {
    let mut h = Header::new();
    h.vertex_count = 3;
    h.edge_count = 2;
    h.vertex_region_offset = 40;
    h.edge_region_offset = 41;
    let bytes = encode_header(&h);
    let mut expected = b"RIVT".to_vec();
    expected.extend_from_slice(&[1, 0, 0, 0]);
    expected.extend_from_slice(&[3, 0, 0, 0, 0, 0, 0, 0]);
    expected.extend_from_slice(&[2, 0, 0, 0, 0, 0, 0, 0]);
    expected.extend_from_slice(&[40, 0, 0, 0, 0, 0, 0, 0]);
    expected.extend_from_slice(&[41, 0, 0, 0, 0, 0, 0, 0]);
    assert_eq!(bytes, expected);
    assert!(bytes.len() <= HEADER_READ_SIZE);
}

#[test]
fn records_read_back_what_was_written() {
    let v = VertexRecord { first_edge_id: 77 };
    let mut bytes = encode_vertex(&v);
    bytes.extend_from_slice(&[9; 8]);
    assert_eq!(decode_vertex(&bytes).unwrap().first_edge_id, 77);

    let e = EdgeRecord::new(10, 20, 30);
    let mut bytes = encode_edge(&e);
    bytes.extend_from_slice(&[9; 8]);
    let d = decode_edge(&bytes).unwrap();
    assert_eq!((d.source, d.target, d.next_edge_id), (10, 20, 30));

    let mut h = Header::new();
    h.vertex_count = 7;
    h.edge_count = 8;
    h.vertex_region_offset = 9;
    h.edge_region_offset = 10;
    let mut bytes = encode_header(&h);
    bytes.extend_from_slice(&[0; 100]);
    let d = decode_header(&bytes).unwrap();
    assert_eq!(&d.magic, b"RIVT");
    assert_eq!(d.version, 1);
    assert_eq!(
        (d.vertex_count, d.edge_count, d.vertex_region_offset, d.edge_region_offset),
        (7, 8, 9, 10)
    );
}

#[test]
fn short_inputs_do_not_decode() {
    assert!(matches!(decode_vertex(&[1, 2, 3, 4, 5, 6, 7]), Err(RecordError::Vertex(_))));
    assert!(matches!(decode_edge(&[0; 23]), Err(RecordError::Edge(_))));
    assert!(matches!(decode_header(&[0; 39]), Err(RecordError::Header(_))));
    assert!(decode_vertex(&[0; 8]).is_ok());
    assert!(decode_edge(&[0; 24]).is_ok());
    assert!(decode_header(&[0; 40]).is_ok());
}

#[test]
fn record_offsets() {
    let h = header_with_offsets(40, 56);
    assert_eq!(VERTEX_SLOT_SIZE, 16);
    assert_eq!(EDGE_SLOT_SIZE, 32);
    assert_eq!(RECORD_STRIDE, 48);
    assert_eq!(vertex_offset(&h, 0), Some(40));
    assert_eq!(vertex_offset(&h, 2), Some(136));
    assert_eq!(edge_offset(&h, 0), Some(56));
    assert_eq!(edge_offset(&h, 3), Some(200));
}

#[test]
fn record_offsets_that_overflow() {
    let h = header_with_offsets(u64::MAX - 15, u64::MAX - 31);
    assert_eq!(vertex_offset(&h, 0), Some(u64::MAX - 15));
    assert_eq!(vertex_offset(&h, 1), None);
    assert_eq!(edge_offset(&h, 1), None);
    let h = header_with_offsets(0, 0);
    assert_eq!(vertex_offset(&h, u64::MAX / 48), Some(u64::MAX / 48 * 48));
    assert_eq!(vertex_offset(&h, u64::MAX / 48 + 1), None);
    assert_eq!(edge_offset(&h, u64::MAX), None);
}

#[test]
fn slots_of_vertices_and_edges_never_meet() {
    let (h, _) = new_file_header();
    for i in 0..50u64 {
        let v = vertex_offset(&h, i).unwrap();
        let e = edge_offset(&h, i).unwrap();
        assert!(v >= HEADER_SIZE);
        assert_eq!(v + VERTEX_SLOT_SIZE, e);
        assert_eq!(e + EDGE_SLOT_SIZE, vertex_offset(&h, i + 1).unwrap());
    }
}

#[test]
fn record_layout_check() {
    assert!(has_record_layout(&header_with_offsets(40, 56)));
    assert!(has_record_layout(&header_with_offsets(100, 116)));
    assert!(!has_record_layout(&header_with_offsets(40, 40)));
    assert!(!has_record_layout(&header_with_offsets(0, 16)));
    assert!(!has_record_layout(&header_with_offsets(u64::MAX, 15)));
}

#[test]
fn new_file_header_places_regions_after_itself() {
    let (h, bytes) = new_file_header();
    assert_eq!(bytes.len(), 40);
    assert_eq!(bytes, encode_header(&h));
    assert_eq!(h.vertex_region_offset, 40);
    assert_eq!(h.edge_region_offset, 56);
    assert_eq!((h.vertex_count, h.edge_count), (0, 0));
    assert!(h.is_valid());
    let read = decode_header(&bytes).unwrap();
    assert_eq!((read.vertex_region_offset, read.edge_region_offset), (40, 56));
}

#[test]
fn vertex_slot_reads() {
    assert_eq!(vertex_from_read(&[]).unwrap().first_edge_id, SENTINEL_EDGE_ID);
    assert!(matches!(vertex_from_read(&[1, 2, 3]), Err(RecordError::Vertex(_))));
    let mut bytes = vec![5, 0, 0, 0, 0, 0, 0, 0];
    bytes.extend_from_slice(&[0xaa; 8]);
    assert_eq!(vertex_from_read(&bytes).unwrap().first_edge_id, 5);
}

#[test]
fn sentinel_edge_is_not_readable() {
    assert!(matches!(check_readable_edge(SENTINEL_EDGE_ID), Err(RecordError::SentinelEdge)));
    assert!(check_readable_edge(0).is_ok());
}

#[test]
fn failed_vertex_read_counts_as_empty_vertex() {
    assert_eq!(record_or_empty(None).first_edge_id, SENTINEL_EDGE_ID);
    assert_eq!(record_or_empty(Some(VertexRecord { first_edge_id: 3 })).first_edge_id, 3);
}

#[test]
fn open_accepts_only_valid_headers_with_the_record_layout() {
    let (fresh, _) = new_file_header();
    assert!(Rivet::open(fresh).is_ok());
    let mut bad = fresh;
    bad.magic = *b"XXXX";
    assert!(matches!(Rivet::open(bad), Err(RivetError::InvalidFormat)));
    let mut bad = fresh;
    bad.version = 9;
    assert!(matches!(Rivet::open(bad), Err(RivetError::InvalidFormat)));
    let mut bad = fresh;
    bad.edge_region_offset = bad.vertex_region_offset;
    assert!(matches!(Rivet::open(bad), Err(RivetError::InvalidFormat)));
    // Forty zero bytes decode to a header, which is not a Rivet header.
    let zeros = decode_header(&[0u8; 40]).unwrap();
    assert!(matches!(Rivet::open(zeros), Err(RivetError::InvalidFormat)));
    // A fresh header has both region offsets 0, which is not the record layout.
    assert!(matches!(Rivet::open(Header::new()), Err(RivetError::InvalidFormat)));
}

#[test]
fn vertex_ids_are_sequential() {
    let mut db = Rivet::open(new_file_header().0).unwrap();
    for i in 0..5u64 {
        let (id, record) = db.add_vertex();
        assert_eq!(id, VertexId(i));
        assert_eq!(record.first_edge_id, SENTINEL_EDGE_ID);
        assert_eq!(db.cached_vertex(i).unwrap().first_edge_id, SENTINEL_EDGE_ID);
    }
    assert_eq!(db.header().vertex_count, 5);
    assert!(db.cached_vertex(5).is_none());
}

#[test]
fn edge_endpoints_are_checked_source_first() {
    let mut db = Rivet::open(new_file_header().0).unwrap();
    db.add_vertex();
    db.add_vertex();
    assert!(db.check_edge(VertexId(0), VertexId(1)).is_ok());
    assert!(matches!(
        db.check_edge(VertexId(7), VertexId(9)),
        Err(RivetError::InvalidVertex(7))
    ));
    assert!(matches!(
        db.check_edge(VertexId(1), VertexId(2)),
        Err(RivetError::InvalidVertex(2))
    ));
    assert!(matches!(db.check_vertex(VertexId(2)), Err(RivetError::InvalidVertex(2))));
    assert!(db.check_vertex(VertexId(1)).is_ok());
}

#[test]
fn edge_steps_update_the_session() {
    let mut db = Rivet::open(new_file_header().0).unwrap();
    let (a, _) = db.add_vertex();
    let (b, _) = db.add_vertex();
    let source = db.cached_vertex(a.0).unwrap();
    let (e, edge) = db.stage_edge(a, b, source);
    assert_eq!(e, EdgeId(0));
    assert_eq!((edge.source, edge.target, edge.next_edge_id), (0, 1, SENTINEL_EDGE_ID));
    assert_eq!(db.cached_edge(0).unwrap().target, 1);
    assert_eq!(db.header().edge_count, 0);
    let updated = db.link_edge(a, e);
    assert_eq!(updated.first_edge_id, 0);
    assert_eq!(db.cached_vertex(0).unwrap().first_edge_id, 0);
    db.commit_edge();
    assert_eq!(db.header().edge_count, 1);
    // The next edge of `a` points to the previous one.
    let source = db.cached_vertex(a.0).unwrap();
    let (e2, edge2) = db.stage_edge(a, a, source);
    assert_eq!(e2, EdgeId(1));
    assert_eq!(edge2.next_edge_id, 0);
    // Other vertices keep their lists.
    assert_eq!(db.cached_vertex(b.0).unwrap().first_edge_id, SENTINEL_EDGE_ID);
}

#[test]
fn walk_collects_targets_in_list_order() {
    let mut w = NeighborWalk::start(&VertexRecord { first_edge_id: 4 }, 5);
    assert_eq!(w.pending_edge(), Some(4));
    w.follow(Some(EdgeRecord::new(0, 9, 2))).unwrap();
    assert_eq!(w.pending_edge(), Some(2));
    w.follow(Some(EdgeRecord::new(0, 8, SENTINEL_EDGE_ID))).unwrap();
    assert_eq!(w.pending_edge(), None);
    assert_eq!(w.finish(), vec![VertexId(9), VertexId(8)]);
}

#[test]
fn walk_fails_on_unreadable_edge() {
    let mut w = NeighborWalk::start(&VertexRecord { first_edge_id: 3 }, 5);
    assert!(matches!(w.follow(None), Err(RivetError::InvalidEdge(3))));
    assert_eq!(w.pending_edge(), Some(3));
    assert!(w.finish().is_empty());
}

#[test]
fn walk_of_vertex_without_edges_is_empty() {
    let w = NeighborWalk::start(&VertexRecord::new(), 0);
    assert_eq!(w.pending_edge(), None);
    assert!(w.finish().is_empty());
}

#[test]
fn id_text_forms() {
    assert_eq!(VertexId(0).to_text(), "V(0)");
    assert_eq!(VertexId(42).to_text(), "V(42)");
    assert_eq!(EdgeId(7).to_text(), "E(7)");
    assert_eq!(EdgeId(1000).to_text(), "E(1000)");
    assert_eq!(VertexId(u64::MAX).to_text(), format!("V({})", u64::MAX));
}

#[test]
fn walk_stops_when_its_budget_is_spent() {
    // A list that loops back on itself (which no database the library
    // writes holds) ends with an error instead of running on.
    let mut w = NeighborWalk::start(&VertexRecord { first_edge_id: 0 }, 2);
    w.follow(Some(EdgeRecord::new(0, 7, 1))).unwrap();
    w.follow(Some(EdgeRecord::new(0, 8, 0))).unwrap();
    assert_eq!(w.pending_edge(), Some(0));
    assert!(matches!(w.follow(Some(EdgeRecord::new(0, 7, 1))), Err(RivetError::InvalidEdge(0))));
    assert_eq!(w.pending_edge(), Some(0));
    assert_eq!(w.finish(), vec![VertexId(7), VertexId(8)]);
}

#[test]
fn open_refuses_headers_without_room_for_the_next_records() {
    let (fresh, _) = new_file_header();
    let mut h = fresh;
    h.vertex_region_offset = u64::MAX - 16;
    h.edge_region_offset = u64::MAX;
    assert!(has_record_layout(&h));
    // The next vertex slot starts at u64::MAX - 16, which fits.
    assert!(Rivet::open(h).is_ok());
    // With a vertex counted, the next one's slot would start past u64::MAX.
    h.vertex_count = 1;
    assert!(matches!(Rivet::open(h), Err(RivetError::InvalidFormat)));
    let mut h = fresh;
    h.edge_count = u64::MAX / 48;
    assert!(matches!(Rivet::open(h), Err(RivetError::InvalidFormat)));
    h.edge_count = (u64::MAX - 56) / 48;
    assert!(Rivet::open(h).is_ok());
}
