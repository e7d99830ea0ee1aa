# rivet

A small durable graph storage engine: vertices and directed edges with stable
IDs, stored in one file as a header, fixed-size vertex records and fixed-size
edge records. Each vertex record points to its first outgoing edge; each edge
record points to the next outgoing edge of the same source.

- `src/` is the verified library (Verus): identifiers (`id`), records
  (`record`), the byte encoding and file layout (`file`), the store's
  operations and adjacency traversal (`store`), the database as a whole graph
  (`graph`), what the file holds and a reopened database reads back
  (`durability`), and the same over whole histories of operations and
  reopenings (`history`).

The file is the 40-byte header followed by 48-byte blocks; block `i` holds the
slot of vertex `i` (16 bytes) and then the slot of edge `i` (32 bytes), so
records never overlap and both regions grow freely. The header written for a
new file carries these region offsets (vertex region at 40, edge region at
56). This is a change of the on-disk format: files whose header places both
regions at the same offset (as earlier writers of this format did, so that
edge records overwrote vertex records) are refused as `InvalidFormat`, as are
headers without the Rivet magic bytes and version 1, whatever they count.
- `app/` opens the database file and performs the reads and writes that the
  library's operations ask for.
- `tests/` runs the library, including the store's scenarios against a file
  kept in memory.
