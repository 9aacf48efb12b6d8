# haste

Verified building blocks of a parser for Source 2 replays (demo files) and TV broadcasts,
written in Verus. Every function in `src/` carries a contract that Verus proves.

Layout of `src/`, one module per part of the parser:

- `haste_common`: bit buffers that fail when they run out of bits, varint and ZigZag
  decoding, FNV-1a hashing.
- `haste_core`: a bit reader that reads zeros past the end, field path operations and their
  Huffman tree, field path decoding, FxHash, field metadata from variable types, demo file
  and TV broadcast framing (with Snappy-compressed bodies), protobuf tags, the decoded
  serializers message and serializers built from it, entity classes, the tick bookkeeping of
  the run loop and the decisions of a run to a tick.
- `haste_base`: the first generation of field path decoding (operation codes matched against
  a table), entity delta headers and the entity updates of a packet, field keys, field
  metadata, serializers.
- `haste_dota2`: field paths of 32 bit components, entity delta headers, field keys, instance
  baselines, field metadata from declarations, serializers and the keys of the fields that
  field paths lead to, the decisions of a run to a tick.
- `haste_dota2_deflat`: a tokenizer that reads a type declaration from either end and a parser
  that reads it from the end.
- `haste_vartype`: a Unicode tokenizer with byte spans and a recursive parser of variable
  types.
- `haste_broadcast`: broadcast command headers, recorded and streamed broadcasts, the
  decisions of HTTP broadcast streams as state machines, and the URLs and user agent of their
  requests.

`app/` holds the I/O around the library: readers, an HTTP client trait, the drivers that
perform what the stream machines decide, and the bit width of entity class ids (single
precision floating point). `tests/` runs the library on concrete inputs.
