# Clone Factory

A factory game on a grid in which most of the work is done by recordings of
yourself: the player records a sequence of actions, turns the recording into
a cloner item, and the clones it spawns replay the actions turn after turn.

- `src/` is the rules of the game as a library verified with Verus: the grid
  layers and the updates staged against them, actions, buildings, items and
  inventories, recordings, clone turns and whole turns (the clone steps of
  a turn are proved to end), the starting scene and the
  crafting menu's entries. Each public function states its result in its
  contract; the laws that relate several functions are public proof
  functions.
  The writes staged against a layer are kept as a list in the order they
  were made (the last write to a cell wins), and the definition tables as
  lists of named entries, so that contracts can speak of them exactly.
  The paradox field is a real number per cell and is not held by the
  library: the game keeps a log of the paradox changes it asks for (a
  clone's failed action raises paradox at its cell, the matter digitizer
  drains it), which the program takes after each command.
- `app/` is the egui program around the library: reading the definitions
  from `src/static_data/data.toml`, the paradox field and the interface.
- `tests/` runs the library on concrete games.
