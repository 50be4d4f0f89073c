# curvectrl

The logic of a film-negative darkroom: a library of scanned rolls, per-frame
edits kept in a manifest beside the scans, black-and-white film profiles, and
dated exports to JPEG and PNG. Every function of the library is verified with
Verus against its contract.

- `src/state.rs`, `src/message.rs`, `src/effect.rs` hold the application's state,
  what it reacts to and what it asks its surroundings to do; `src/update.rs` is
  the reaction itself, put together from the modules for the library page, the
  frame grid, the detail view, editing, calibration and exports.
- `src/laws.rs` states what holds of the application as a whole. The other laws
  stand beside the functions they are about.
- `src/library.rs`, `src/dates.rs`, `src/edit_manifest.rs`, `src/film.rs`,
  `src/crop.rs`, `src/raster.rs`, `src/export.rs`, `src/exif_writer.rs` are the
  rules on rolls, dates, manifests, films, crops, pictures and files.
- `app/` is the program around the library: files, decoding, rendering, timers
  and a console to type commands at.

Numbers that the library only stores, compares or orders are held as the bits of
a single-precision float (`src/single.rs`). Arithmetic on them is done in `app/`.
