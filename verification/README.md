# bootiful-plymouth-discovery

A snapshot of how Plymouth, the boot splash, is set up on a Debian-like system:
packages, daemon configuration, active and installed themes, plugins and renderers,
the distribution logo, the initramfs, the boot loader, the runtime state, graphics,
logs, and seven consistency checks over the whole.

## Layout

- `src/` is the library, verified with Verus. Every section of the snapshot is
  computed by a function of `src/detector/` from what was read of the system
  (command outputs, file texts, what was found at each path the section looks at),
  and its contract states the result over specification functions of the same
  module. Where a section chooses among paths (the active theme's description file,
  its plugin library, its images, an installed theme's description file), the
  caller reports what it found at each candidate and the library makes the choice.
  What the standard library's Unicode tables (lowercase) and `sha2` (digests) compute
  is named, not stated.
  - `text.rs`, `path.rs`: the parts of `str` and `std::path::Path` the detectors use,
    as functions on characters with their meaning stated (lines, words, trimming,
    file names, extensions, parents, joining).
  - `strmap.rs`: a map from texts to values in which no key occurs twice, viewed as a
    `Map`.
  - `order.rs`: the code-point order of texts and a stable sort by a text key.
  - `model.rs`: the snapshot's types.
  - `lib.rs`: `collect_all`, which assembles the sections, the metadata and the
    consistency check.
- `app/` is the command-line tool: it reads the system (commands, files, links,
  globs, directory walks, the clock), hands what it read to the library, and writes the snapshot as
  JSON with `serde`, through copies of the model types that carry the serde
  attributes.
- `tests/` runs the library on concrete inputs, and compares its text, path and
  pattern functions with the standard library and the `regex` crate.
