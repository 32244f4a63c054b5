# kroma

The document model and file-level logic of a photograph colour editor with a
stacked, reorderable inspector, verified with Verus.

## Layout

- `src/` is the library, every function of it verified:
  - `stack`, `history`, `document`, `lib` (row ids): the edit as data, undo
    and redo with coalesced slider drags, the schema-version check on load;
  - `effects`, `tabs`: the fixed panels every document starts with, and which
    section and tool draws each of them;
  - `space`: which colour space a stored name means;
  - `geometry`: the exported file's size setting;
  - `icc`: reading the colorant tags of an ICC profile and laying out a
    matrix/TRC profile, with the proof that what is written reads back;
  - `decoded`: the decoded image, decoding and encoding through the `image`
    crate, splicing a profile into an encoded JPEG or PNG (with the CRC-32
    its chunk carries), the thumbnail's box filter and the test chart's
    layout;
  - `pack`, `pins`, `warp`, `scopes`: the uniform-block layout of an effect's
    parameters, the bounded pin list, the warper's lattice, and the scope
    buffers handed across the C boundary;
  - `text`: string comparison helpers.
- `app/` is ordinary Rust around the library: colour science and everything
  else in floating point (output and thumbnail sizes among it), serde and
  the on-disk JSON shape, the effect registry, reading and writing files
  atomically, and the document half of the C interface.
- `tests/` exercises the library as a user of it would.
