# mysql_ibdinspect

Reads MySQL InnoDB tablespace files (`.ibd`) page by page and prints what the
pages hold: the file page header, the index page header, the records of an
index page, and the serialized dictionary information (SDI) of the table as
one JSON array.

`src/` is the verified library (Verus):

- `ut` — big-endian field access on byte buffers, specified over `be_value`.
- `fil0fil`, `page0types` — page types and header offsets.
- `rem0rec` — record header bits, the next-record pointer, column types.
- `ibd` — file page header, index page header, tablespace header, the walk
  over the records of an index page.
- `sdi` — the reading of the SDI tree as a state machine: descent to the
  leftmost leaf, record headers, externally stored data, and the JSON array.
  It names the pages it needs; the caller reads them.

`app/` is the command-line program: argument parsing, file reading, printing,
and the zlib stream over compressed BLOB pages.
