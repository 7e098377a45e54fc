# enem_kdd

Data-mining pipeline over the ENEM exam results and the Brazilian school
census, with its core logic verified in Verus.

- `src/` — the verified library:
  - `text` — whitespace trimming, splitting on a separator and joining, with
    models over `Seq<char>` and the law that joined fields split back.
  - `utils` — `get_csv_cols` (split and trim a line), `rand`, `DebugTimer`.
  - `data::header` — `TextMap`, a finite map keyed by text, and
    `DataHeader`: building a header from a header line, ordering its names,
    writing its header line, and the law that a header line reads back as the
    same header.
  - `data::item`, `data::data_item`, `data::base::data_item` — data items
    read through a header or by column name; `set`, with the law that a value
    stored is read back.
  - `data::source` — file naming, line decoding and chunking decisions of a
    data source; `data::filters` — which ENEM records are kept.
  - `types` — `UniRef`, `Source`, `SymmetricKey`.
- `app/` — the program: file and network I/O, downloading and unpacking,
  the float computations (standardization, principal components) and the
  pipeline's orchestration.
- `tests/` — tests of the library on concrete values.

The program reads `DATA_SOURCE_PATH`, `BUFFER_SIZE`, `CHUNK_SIZE`,
`ESCOLAS_QTS` (comma-separated column names) and `ESCOLAS_PCA_K` from the
environment or a `.env` file.
