# crustyimg, verified

A library for inspecting, linting, converting and re-tagging images, written
in Verus so that its logic carries machine-checked contracts.

Layout:

- `src/` — the verified library.
  - `image/`: format sniffing, decode caps, the decode paths (generic, SVG,
    AVIF, HEIC detection, RAW previews) and the pixel buffer.
  - `metadata/`: JPEG/PNG container edits (strip, GPS removal, tags, copy),
    the TIFF-IFD reader and writer, and the law that reading back a written
    block gives it again (`reread.rs`).
  - `lint/`: rules, configuration, the lint run and its human/JSON/SARIF
    reports, with laws on ordering, exit codes and configuration.
  - `operation/`: built-in operations, gravity placement, resize geometry and
    the operation registry.
  - `quality.rs`: the bisection that drives auto-quality searches.
  - `sink/`, `source/`, `paths.rs`: output planning, encoding, input
    resolution and path helpers.
- `tests/` — the test suite, run against the compiled library.
- `app/` — the command line: argument handling, file I/O, TOML parsing, and
  the floating-point work (resampling, compositing, perceptual scoring).

Calls into outside crates (`image`, `img-parts`, `resvg`,
`kamadak-exif`, `glob`) sit behind small trusted wrappers whose contracts
state what those crates' sources show.
