# Spinoza

A modular multiphysics framework whose method packs register operators,
preconditioners, solvers and problem builders under typed keys. This crate
holds the framework's logic with contracts proved by Verus; the numerical
kernels and the command line live in `app/`.

## Layout

- `src/` — the verified library:
  - `capability`, `error`: capabilities, capability sets and registries,
    errors and their messages;
  - `spec`: the case specification, its validation rules and the plan of
    required capabilities;
  - `keys`, `components`, `pack`, `packs`, `registry`: typed keys, component
    descriptions, the packs of the catalog and the method registry with
    ambiguity-detecting lookups;
  - `conformance`: the pack conformance checks and their report;
  - `audit`, `list`: the audit report and its JSON form, the pack listing;
  - `solve`: which builder, solver and single-field components a solve
    uses, with the errors reported when none or several match;
  - `grid`, `constraints`, `mesher`, `block`: structured mesh numbering,
    cells, boundary nodes, box faces, multigrid hierarchies, constrained
    unknowns, meshing choices and block layouts;
  - `text`: decimal and debug rendering, joining, string order and stable
    ordering.
- `tests/` — tests of the library.
- `app/` — the `spinoza-devtools` command line (`audit`, `solve`, `list`):
  case file parsing, JSON output, and the floating-point finite element
  assembly, matrix-free operators, iterative solvers and multigrid.

## Scope

- Packs form a fixed catalog of four (`poisson`, `elasticity`, `block2x2`,
  `linear_solvers`), listed in `src/packs.rs`. Adding a pack means adding
  its entry to that catalog and its numerical components to the dispatch by
  name in `app/components.rs`; pack conformance and the pack listing see
  the catalog only. A `PackEntry` built by a user can be registered in a
  `MethodRegistry`, and checked with `verify_pack_among`.
- Unstructured mesh generation (Delaunay triangulation and tetrahedralisation,
  advancing front, surface remeshing, quad-dominant surfaces) and mesh
  quality fields are not part of this crate; of the structured mesher, only
  the integer topology (`grid`, `mesher`) is here.
- The command line has no `new-pack` scaffolding command.
