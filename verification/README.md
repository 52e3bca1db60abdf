# tvb

The verified core of Nova, the engine of the 2D adventure RPG TVB.

`src/` is a Verus library. It holds the engine's and the game's decisions,
each with a contract proved by Verus:

- `window`: window settings, the window's life cycle (opening, open,
  closing, closed) driven by window-system events, event conversion, and the
  policies that keep a swapchain usable (its settings, when to destroy and
  rebuild it, when to retry acquiring an image and when to give up);
- `graphics` and `gfx_test`: choosing the adapter, queue families, surface
  format, present mode, image counts and upload memory type, and cycling
  through frame states;
- `panels` and `ui`: the panel hierarchy (parents and children) and the
  order in which panels are laid out and drawn, with the laws that this
  order reaches every panel below its start and, in a well-linked hierarchy,
  each of them once;
- `stage`: compass directions, steering of driven actors, animation lookup,
  and the storages, resources and systems the stage registers with the
  `engine` context;
- `fps`: the frame counter.

`tests/` exercises the library on concrete values. `app/` is the program
around it: the window system, the graphics device, YAML files and the
floating-point parts of the game (layout, movement, facing, animation
timing, frame statistics).
