# Riemanifold

A parametric solid modeler for 3D printing. A part is a history of features, each
described as data; replaying the history against a geometry kernel gives the solid.

The library in `src/` holds the rules and is verified with Verus. The program in
`app/` adds what works in floating point or talks to the outside: the window, the
graphics card, the OpenCASCADE kernel, and files.

## The library

| Modules | What they hold |
|---|---|
| `scalar`, `zeros`, `bounds`, `units`, `text`, `theme` | numbers as bit patterns, the two zeros, boxes, units, numbered names, colours |
| `sketch`, `sketch2d`, `session`, `solver`, `descent` | sketches, drawing them, their equations, the course of a solve |
| `features`, `history`, `document`, `parts` | features, their order and references, the rollback bar, the starting part |
| `backend`, `regen`, `cache`, `kernel` | the kernel's interface, replaying, replaying only what changed, its messages |
| `build_graph`, `panel` | the lanes of the build graph, the history panel |
| `mesh`, `picking`, `selection`, `viewport` | numbering faces and edges, finding what is clicked, the mouse |
| `modeler`, `drags` | undo, operations on the selection, pushing, moving and resizing |
| `project` | project files and preferences |

A function's contract says what it returns or changes, over the model its type
views to. The modules whose names end in `_laws`, and the proof functions whose
names begin with `law_`, state what holds of several functions together.

Numbers are compared and moved in the library, and computed outside it. Where an
operation needs a computed number, such as the length of an offset, it takes it as
an argument and its documentation says which number that is.

Two items are trusted, both in `project`: reading an entry of a zip archive, and
making an archive that reads back.

## The program

`app/main.rs` opens the window, or with `--screenshot` draws one frame to a file.
The kernel is reached through a C++ bridge (`cdt-kernel/src/ffi/bridge.hpp`), which
has to be built and linked with it.
