# deepgrid_studio

The rules of a grid-based, first-person dungeon game and of its level editor,
written in Verus with their contracts proved.

- `src/` — the verified library: the dungeon grid and movement (footing,
  falling, ladders, doors, one-way tiles), party members and their stats,
  inventories and equipment, combat, magic, hunger and hazards, monsters
  (sight, movement choices, attacks, regeneration), event triggers and their
  action chains, the project and level file format (glyph rows and every load
  check), the editor (painting, undo/redo, renaming, validation), demos, the
  message log and the data-screen actions.
- `tests/` — tests run against the compiled library.
- `app/` — the program around it: command line, reading and writing the
  project's RON files, and the few parts that run on floating-point time.
  The 3D play and editor screens are not part of this build.

Random draws (hit rolls, monster choices) are made by the caller and handed
to the library, so every outcome is a function of its inputs.
