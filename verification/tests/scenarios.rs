//! The engine's scenarios, run against a database file kept in memory: the
//! harness below performs the reads and writes that the library asks for,
//! with the semantics of a file (a write past the end extends the file with
//! zero bytes, a read returns the bytes that are there).

use rivet::{
    check_readable_edge, decode_edge, decode_header, edge_offset, encode_edge, encode_header,
    encode_vertex, new_file_header, record_or_empty, vertex_from_read, vertex_offset, EdgeId,
    EdgeRecord, NeighborWalk, Rivet, RivetError, VertexId, VertexRecord, EDGE_SLOT_SIZE,
    HEADER_READ_SIZE, VERTEX_SLOT_SIZE,
};

/// A file's contents.
#[derive(Clone, Default)]
struct Disk {
    bytes: Vec<u8>,
}

impl Disk {
    fn write_at(&mut self, offset: u64, data: &[u8]) {
        let start = offset as usize;
        if self.bytes.len() < start + data.len() {
            self.bytes.resize(start + data.len(), 0);
        }
        self.bytes[start..start + data.len()].copy_from_slice(data);
    }

    fn read_at(&self, offset: u64, len: usize) -> Vec<u8> {
        let start = offset as usize;
        if start >= self.bytes.len() {
            return Vec::new();
        }
        let end = std::cmp::min(self.bytes.len(), start + len);
        self.bytes[start..end].to_vec()
    }
}

struct Db {
    disk: Disk,
    core: Rivet,
}

impl Db {
    fn open(mut disk: Disk) -> Result<Db, RivetError> {
        let header = if !disk.bytes.is_empty() {
            let buf = disk.read_at(0, HEADER_READ_SIZE);
            match decode_header(&buf) {
                Ok(h) => h,
                Err(_) => {
                    return Err(RivetError::Io(std::io::Error::new(
                        std::io::ErrorKind::InvalidData,
                        "Failed to deserialize header",
                    )))
                }
            }
        } else {
            let (header, encoded) = new_file_header();
            disk.write_at(0, &encoded);
            header
        };
        let core = Rivet::open(header)?;
        Ok(Db { disk, core })
    }

    fn close(self) -> Disk {
        self.disk
    }

    fn write_header(&mut self) {
        let bytes = encode_header(self.core.header());
        self.disk.write_at(0, &bytes);
    }

    fn write_vertex(&mut self, id: u64, record: &VertexRecord) {
        let offset = vertex_offset(self.core.header(), id).unwrap();
        self.disk.write_at(offset, &encode_vertex(record));
    }

    fn write_edge(&mut self, id: u64, record: &EdgeRecord) {
        let offset = edge_offset(self.core.header(), id).unwrap();
        self.disk.write_at(offset, &encode_edge(record));
    }

    fn vertex_record(&self, id: u64) -> VertexRecord {
        match self.core.cached_vertex(id) {
            Some(r) => r,
            None => {
                let offset = vertex_offset(self.core.header(), id).unwrap();
                let buf = self.disk.read_at(offset, VERTEX_SLOT_SIZE as usize);
                record_or_empty(vertex_from_read(&buf).ok())
            }
        }
    }

    fn read_edge(&self, id: u64) -> Option<EdgeRecord> {
        check_readable_edge(id).ok()?;
        let offset = edge_offset(self.core.header(), id).unwrap();
        let buf = self.disk.read_at(offset, EDGE_SLOT_SIZE as usize);
        decode_edge(&buf).ok()
    }

    fn add_vertex(&mut self) -> Result<VertexId, RivetError> {
        let (id, record) = self.core.add_vertex();
        self.write_vertex(id.0, &record);
        self.write_header();
        Ok(id)
    }

    fn add_edge(&mut self, source: VertexId, target: VertexId) -> Result<EdgeId, RivetError> {
        self.core.check_edge(source, target)?;
        let source_record = self.vertex_record(source.0);
        let (edge_id, edge) = self.core.stage_edge(source, target, source_record);
        self.write_edge(edge_id.0, &edge);
        let updated = self.core.link_edge(source, edge_id);
        self.write_vertex(source.0, &updated);
        self.core.commit_edge();
        self.write_header();
        Ok(edge_id)
    }

    fn out_neighbors(&mut self, vertex: VertexId) -> Result<Vec<VertexId>, RivetError> {
        self.core.check_vertex(vertex)?;
        let record = self.vertex_record(vertex.0);
        let mut walk = NeighborWalk::start(&record, self.core.header().edge_count);
        while let Some(edge_id) = walk.pending_edge() {
            let fetched = match self.core.cached_edge(edge_id) {
                Some(e) => Some(e),
                None => self.read_edge(edge_id),
            };
            walk.follow(fetched)?;
        }
        Ok(walk.finish())
    }
}

fn create_test_db() -> Disk {
    Disk::default()
}

#[test]
fn test_create_empty_database() {
    let disk = create_test_db();
    let db = Db::open(disk).expect("Failed to create database");
    // The new file holds the header.
    assert_eq!(db.close().bytes.len(), 40);
}

#[test]
fn test_add_single_vertex() {
    let mut db = Db::open(create_test_db()).expect("Failed to create database");
    let v1 = db.add_vertex().expect("Failed to add vertex");
    assert_eq!(v1.0, 0);
}

#[test]
fn test_add_multiple_vertices() {
    let mut db = Db::open(create_test_db()).expect("Failed to create database");
    let v1 = db.add_vertex().expect("Failed to add v1");
    let v2 = db.add_vertex().expect("Failed to add v2");
    let v3 = db.add_vertex().expect("Failed to add v3");
    assert_eq!(v1.0, 0);
    assert_eq!(v2.0, 1);
    assert_eq!(v3.0, 2);
}

#[test]
fn test_add_single_edge() {
    let mut db = Db::open(create_test_db()).expect("Failed to create database");
    let v1 = db.add_vertex().expect("Failed to add v1");
    let v2 = db.add_vertex().expect("Failed to add v2");
    let e1 = db.add_edge(v1, v2).expect("Failed to add edge");
    assert_eq!(e1.0, 0);
}

#[test]
fn test_add_multiple_edges() {
    let mut db = Db::open(create_test_db()).expect("Failed to create database");
    let v1 = db.add_vertex().expect("Failed to add v1");
    let v2 = db.add_vertex().expect("Failed to add v2");
    let v3 = db.add_vertex().expect("Failed to add v3");
    let e1 = db.add_edge(v1, v2).expect("Failed to add e1");
    let e2 = db.add_edge(v1, v3).expect("Failed to add e2");
    assert_eq!(e1.0, 0);
    assert_eq!(e2.0, 1);
}

#[test]
fn test_out_neighbors_single_edge() {
    let mut db = Db::open(create_test_db()).expect("Failed to create database");
    let v1 = db.add_vertex().expect("Failed to add v1");
    let v2 = db.add_vertex().expect("Failed to add v2");
    db.add_edge(v1, v2).expect("Failed to add edge");
    let neighbors = db.out_neighbors(v1).expect("Failed to get neighbors");
    assert_eq!(neighbors.len(), 1);
    assert_eq!(neighbors[0].0, v2.0);
}

#[test]
fn test_out_neighbors_multiple_edges() {
    let mut db = Db::open(create_test_db()).expect("Failed to create database");
    let v1 = db.add_vertex().expect("Failed to add v1");
    let v2 = db.add_vertex().expect("Failed to add v2");
    let v3 = db.add_vertex().expect("Failed to add v3");
    db.add_edge(v1, v2).expect("Failed to add e1");
    db.add_edge(v1, v3).expect("Failed to add e2");
    let neighbors = db.out_neighbors(v1).expect("Failed to get neighbors");
    assert_eq!(neighbors.len(), 2);
    // Edges are prepended, so most recent comes first
    assert!(neighbors.contains(&v2));
    assert!(neighbors.contains(&v3));
}

#[test]
fn test_no_neighbors_for_isolated_vertex() {
    let mut db = Db::open(create_test_db()).expect("Failed to create database");
    let v1 = db.add_vertex().expect("Failed to add v1");
    let neighbors = db.out_neighbors(v1).expect("Failed to get neighbors");
    assert_eq!(neighbors.len(), 0);
}

#[test]
fn test_persist_and_reopen() {
    let disk = {
        let mut db = Db::open(create_test_db()).expect("Failed to create database");
        let v1 = db.add_vertex().expect("Failed to add v1");
        let v2 = db.add_vertex().expect("Failed to add v2");
        let v3 = db.add_vertex().expect("Failed to add v3");
        db.add_edge(v1, v2).expect("Failed to add e1");
        db.add_edge(v1, v3).expect("Failed to add e2");
        db.close()
    };
    {
        let mut db = Db::open(disk).expect("Failed to reopen database");
        let v1 = VertexId(0);
        let neighbors = db.out_neighbors(v1).expect("Failed to get neighbors");
        assert_eq!(neighbors.len(), 2);
        assert!(neighbors.contains(&VertexId(1)));
        assert!(neighbors.contains(&VertexId(2)));
    }
}

#[test]
fn test_invalid_vertex_reference() {
    let mut db = Db::open(create_test_db()).expect("Failed to create database");
    let v1 = db.add_vertex().expect("Failed to add v1");
    let invalid_vertex = VertexId(999);
    let result = db.add_edge(v1, invalid_vertex);
    assert!(matches!(result, Err(RivetError::InvalidVertex(_))));
}

#[test]
fn test_invalid_vertex_reference_source() {
    let mut db = Db::open(create_test_db()).expect("Failed to create database");
    let v1 = db.add_vertex().expect("Failed to add v1");
    let invalid_vertex = VertexId(999);
    let result = db.add_edge(invalid_vertex, v1);
    assert!(matches!(result, Err(RivetError::InvalidVertex(_))));
}

#[test]
fn test_query_nonexistent_vertex() {
    let mut db = Db::open(create_test_db()).expect("Failed to create database");
    let invalid_vertex = VertexId(999);
    let result = db.out_neighbors(invalid_vertex);
    assert!(matches!(result, Err(RivetError::InvalidVertex(_))));
}

#[test]
fn test_corrupt_header_detection() {
    let disk = {
        let mut db = Db::open(create_test_db()).expect("Failed to create database");
        db.add_vertex().expect("Failed to add vertex");
        db.close()
    };
    // Verify we can reopen it
    let db = Db::open(disk).expect("Failed to reopen valid database");
    drop(db);
}

// The scenarios below are this library's own.

#[test]
fn reopen_sees_most_recent_edge_first() {
    let disk = {
        let mut db = Db::open(create_test_db()).unwrap();
        let a = db.add_vertex().unwrap();
        let b = db.add_vertex().unwrap();
        let c = db.add_vertex().unwrap();
        db.add_edge(a, b).unwrap();
        db.add_edge(a, c).unwrap();
        assert_eq!(db.out_neighbors(a).unwrap(), vec![c, b]);
        db.close()
    };
    let mut db = Db::open(disk).unwrap();
    assert_eq!(db.out_neighbors(VertexId(0)).unwrap(), vec![VertexId(2), VertexId(1)]);
}

#[test]
fn reopen_keeps_counts() {
    let disk = {
        let mut db = Db::open(create_test_db()).unwrap();
        let a = db.add_vertex().unwrap();
        let b = db.add_vertex().unwrap();
        db.add_edge(a, b).unwrap();
        db.close()
    };
    let mut db = Db::open(disk).unwrap();
    assert_eq!(db.core.header().vertex_count, 2);
    assert_eq!(db.core.header().edge_count, 1);
    assert_eq!(db.add_vertex().unwrap(), VertexId(2));
    assert_eq!(db.add_edge(VertexId(1), VertexId(0)).unwrap(), EdgeId(1));
}

#[test]
fn self_loop_is_listed() {
    let mut db = Db::open(create_test_db()).unwrap();
    let a = db.add_vertex().unwrap();
    db.add_edge(a, a).unwrap();
    assert_eq!(db.out_neighbors(a).unwrap(), vec![a]);
}

#[test]
fn corrupt_header_is_refused() {
    let disk = {
        let mut db = Db::open(create_test_db()).unwrap();
        db.add_vertex().unwrap();
        db.close()
    };
    let mut bytes = disk.bytes.clone();
    bytes[0] = b'X';
    let result = Db::open(Disk { bytes });
    assert!(matches!(result, Err(RivetError::InvalidFormat)));
}

#[test]
fn truncated_header_is_an_io_error() {
    let result = Db::open(Disk { bytes: vec![0x52, 0x49, 0x56] });
    assert!(matches!(result, Err(RivetError::Io(_))));
}

#[test]
fn adding_an_edge_leaves_other_lists_alone() {
    let mut db = Db::open(create_test_db()).unwrap();
    let a = db.add_vertex().unwrap();
    let b = db.add_vertex().unwrap();
    let c = db.add_vertex().unwrap();
    db.add_edge(b, c).unwrap();
    let before = db.out_neighbors(b).unwrap();
    db.add_edge(a, c).unwrap();
    assert_eq!(db.out_neighbors(b).unwrap(), before);
    assert_eq!(db.out_neighbors(c).unwrap(), vec![]);
    let d = db.add_vertex().unwrap();
    assert_eq!(db.out_neighbors(d).unwrap(), vec![]);
}

/// Vertex and edge slots never meet: after reopening, every vertex lists the
/// neighbors the session listed.
#[test]
fn reopen_lists_what_the_session_listed() {
    let (lists, disk) = {
        let mut db = Db::open(create_test_db()).unwrap();
        let v: Vec<VertexId> = (0..5).map(|_| db.add_vertex().unwrap()).collect();
        db.add_edge(v[3], v[0]).unwrap();
        db.add_edge(v[0], v[1]).unwrap();
        db.add_edge(v[0], v[2]).unwrap();
        db.add_edge(v[2], v[2]).unwrap();
        db.add_edge(v[0], v[4]).unwrap();
        db.add_edge(v[0], v[1]).unwrap();
        let lists: Vec<Vec<VertexId>> = v.iter().map(|x| db.out_neighbors(*x).unwrap()).collect();
        assert_eq!(lists[0], vec![v[1], v[4], v[2], v[1]]);
        assert_eq!(lists[3], vec![v[0]]);
        (lists, db.close())
    };
    let mut db = Db::open(disk).unwrap();
    for (i, list) in lists.iter().enumerate() {
        assert_eq!(&db.out_neighbors(VertexId(i as u64)).unwrap(), list);
    }
}

/// Work across several sessions: each reopened session extends the graph,
/// and adding a vertex or an edge leaves the other lists as they were.
#[test]
fn sessions_extend_the_graph() {
    let disk = {
        let db = Db::open(create_test_db()).unwrap();
        db.close()
    };
    let disk = {
        let mut db = Db::open(disk).unwrap();
        let v0 = db.add_vertex().unwrap();
        let v1 = db.add_vertex().unwrap();
        db.add_edge(v0, v1).unwrap();
        db.close()
    };
    let disk = {
        let mut db = Db::open(disk).unwrap();
        assert_eq!(db.out_neighbors(VertexId(0)).unwrap(), vec![VertexId(1)]);
        let v2 = db.add_vertex().unwrap();
        assert_eq!(v2, VertexId(2));
        assert_eq!(db.out_neighbors(VertexId(0)).unwrap(), vec![VertexId(1)]);
        assert_eq!(db.add_edge(VertexId(1), v2).unwrap(), EdgeId(1));
        assert_eq!(db.out_neighbors(VertexId(0)).unwrap(), vec![VertexId(1)]);
        db.add_edge(VertexId(0), v2).unwrap();
        db.close()
    };
    let mut db = Db::open(disk).unwrap();
    assert_eq!(db.out_neighbors(VertexId(0)).unwrap(), vec![VertexId(2), VertexId(1)]);
    assert_eq!(db.out_neighbors(VertexId(1)).unwrap(), vec![VertexId(2)]);
    assert_eq!(db.out_neighbors(VertexId(2)).unwrap(), vec![]);
    assert_eq!(db.core.header().vertex_count, 3);
    assert_eq!(db.core.header().edge_count, 3);
}

#[test]
fn file_without_rivet_header_is_refused() {
    let result = Db::open(Disk { bytes: vec![0u8; 40] });
    assert!(matches!(result, Err(RivetError::InvalidFormat)));
    let mut h = rivet::Header::new();
    h.magic = *b"NOPE";
    h.vertex_region_offset = 40;
    h.edge_region_offset = 56;
    let result = Db::open(Disk { bytes: encode_header(&h) });
    assert!(matches!(result, Err(RivetError::InvalidFormat)));
}

/// A file whose header places the vertex region further from the header
/// still follows the record layout.
#[test]
fn vertex_region_may_start_later() {
    let mut header = rivet::Header::new();
    header.vertex_region_offset = 400;
    header.edge_region_offset = 416;
    let disk = Disk { bytes: encode_header(&header) };
    let disk = {
        let mut db = Db::open(disk).unwrap();
        let a = db.add_vertex().unwrap();
        let b = db.add_vertex().unwrap();
        db.add_edge(a, b).unwrap();
        db.add_edge(b, a).unwrap();
        db.close()
    };
    assert_eq!(disk.bytes.len(), 416 + 48 + 24);
    let mut db = Db::open(disk).unwrap();
    assert_eq!(db.out_neighbors(VertexId(0)).unwrap(), vec![VertexId(1)]);
    assert_eq!(db.out_neighbors(VertexId(1)).unwrap(), vec![VertexId(0)]);
}
