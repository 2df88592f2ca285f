# echocad

The model layer of a parametric 3D CAD program, verified with Verus: the
document and its feature tree, sketches and their constraints, undo history,
plugin registry, project-format migration and the byte layouts of the mesh
exporters. The public operations of `src/` state what they return or change,
and Verus proves it (a few private helpers and spec definitions aside); laws
that span several operations (undo then redo, cascading deletes leaving no
dangling references, the walk of closed sketch profiles, ...) are stated as
public proof functions beside them.

Real-valued quantities (coordinates, dimensions, parameter values) are held
as IEEE-754 bit patterns: the library stores, moves and compares them but
never computes with them. Floating-point geometry lives in the command-line
front end.

## Layout

- `src/` — the verified library.
  - `document`, `feature`, `parameter`, `ids`: the document, features and
    the shared id allocator; cascading removal and reparenting.
  - `sketch`, `solver`, `profile`: sketch entities and constraints, the
    structural side of the constraint solver (free parameters, residual
    rows, diagnostics), and the walk that chains edges into closed loops.
  - `edit`: the editing commands (add, rename, suppress, delete with
    dependents, parameter updates, sketch edits, recent files).
  - `undo`: bounded snapshot history.
  - `regen`, `node`: regeneration bookkeeping (which features are rebuilt,
    dependency checks, input resolution, the pass stepped one feature at a
    time) and the feature-tree view.
  - `plugin`, `registry`: the plugin interface and the registry that
    dispatches to plugins.
  - `project`: project-format migration over `serde_json`.
  - `mesh`, `export`, `base64`, `brep`: meshes, the glTF buffer layout and
    binary STL bytes, base64, and B-rep wire topology.
- `tests/` — tests of the library.
- `app/` — a command-line front end: file I/O, JSON (de)serialisation,
  the numeric constraint solver, profile tessellation, exporters and the
  built-in gear and cycloidal plugins.

## Running

    echocad <project.json> [--save <out.json>] [--plugins] [--solve] [--regions] [--regen] [--autosave <file>]
