# acu_patches

A plugin for Assassin's Creed Unity's plugin loader that disables the game's
integrity checks and applies two fixes: camera smoothing off, and mouse
sensitivity independent of the frame rate.

- `src/` is the verified library (Verus). It decides what the plugin does to
  the game and proves it: version packing (`plugin`), the integrity-check
  bypass and the thread scan that terminates integrity-check threads
  (`patches::disable_integrity_checks`), the patches as lists of actions
  (`patches`), the plans that run such lists and stop at the first failure
  (`plan`), a model of what the actions do to the game together with the laws
  that turning a patch off undoes turning it on, the wait for the game
  (`game`), and key-state decoding (`platform`).
- `app/` is the Windows DLL around it: the loader and `DllMain` entry points,
  the C interface structs, the logger, and the code that carries out the
  actions in the game process with `libmem` and the Windows API. It builds
  only for Windows.
- `tests/` runs the library on concrete values.
