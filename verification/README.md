# orbita

The model side of a small 2D space game built on raylib and hecs, verified
with Verus.

- `src/` is the verified library:
  - `base::body` — the chemical elements and their periodic-table categories;
  - `collections` — `VecMap`, a finite map kept as a list of entries with
    distinct keys, specified against `Map`;
  - `engine` — the window configuration, the resource registry and the event
    bus (subscription ids, unsubscribing, dispatch order);
  - `schedule` — the engine's main loop as a state machine (startup systems,
    then per frame: updates, then draws, inside the camera's mode when there
    is a camera), with its ordering laws;
  - `game::world` — the galaxy's three nested levels of chunk maps, viewed as
    one map from full positions to spaces;
  - the plugin marker types and the `Player` component.
- `app/` is the game itself: the window, drawing, textures, keyboard input,
  floating-point physics, and the loop that performs what `schedule` decides.
- `tests/` runs the library on concrete values.
