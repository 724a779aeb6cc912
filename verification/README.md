# geode

Command-line utilities for working with the Geode SDK for Geometry Dash,
with their decision-making core verified by Verus.

## Layout

- `src/` — the verified library. Every function there carries a
  `requires`/`ensures` contract, and Verus proves it, except for the small
  trusted wrappers around other crates' functions, whose contracts are
  assumed (each says so in its doc comment). It holds the logic of the
  tool: version and platform naming, profile and template bookkeeping,
  `mod.json` interpretation, dependency resolution, resource naming and
  caching, sprite-sheet and bitmap-font description text, the files of a
  project made from a template, and the decisions
  behind the index, SDK and build commands. Public `lemma_*` proof functions
  state properties that span several calls (for example that deleting a
  template removes exactly that name, that reading back a written cache map
  gives the same map, or that the `.fnt` text does not depend on the order
  glyphs come in).
- `app/` — the `geode` program around the library: argument parsing,
  prompts, files, git, HTTP, image processing and the other I/O. It hands
  plain values to the library and acts on what comes back.
- `tests/` — tests of the library through its public interface.

Calls into other crates from `src/` go through small trusted wrappers whose
doc comments say what is assumed of the outside function.
