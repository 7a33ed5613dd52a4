# safecheckpoint

A checkpoint format for ML model weights: tensors are written after a
length-prefixed JSON header whose BLAKE3 digest follows it, each tensor's
bytes are protected by a CRC32 recorded in the header, and large models can
be split into shards listed in an index file.

The library is written in Verus and its logic is proved against its
contracts:

- `src/tensor.rs`: data types, tensor metadata and its validation, the header.
- `src/name_map.rs`: the name-keyed tables, kept sorted by the bytes of the
  names so that a checkpoint's layout never depends on insertion order.
- `src/writer.rs`: the in-memory writer, header planning and the byte layout
  of a checkpoint file (whole or one shard).
- `src/reader.rs`: checking the header frame, gating the schema version and
  reading a tensor with bounds and checksum checks.
- `src/shard.rs`: sharded saves: argument checks, how the listing is cut
  into shards, file names, deciding whether an existing shard can be kept
  and checking a written shard.
- `src/paths.rs`: refusing `..` components and symlinked path components.
- `src/codec.rs`, `src/digest.rs`: little-endian and decimal/hex encodings,
  and the CRC32 and BLAKE3 calls.
- `src/laws.rs`: properties that span several functions, such as reading
  back exactly what was written and the index mapping each tensor to the
  shard that holds it.

`app/` holds the file-system side, which Verus does not see: opening and
memory-mapping files, atomic saves through a temporary file and a rename,
file locks, JSON encoding of the header with serde, and running the shard
writes in parallel.
