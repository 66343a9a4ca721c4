# AoiPlate core

AoiPlate is a macOS menu-bar todo overlay: double-tap a letter key (default `J`) and a
full-screen "plate" stage shows your todos.

- `src/` is the verified library. It holds the settings and their sanitising rules
  (`config`), todo bookkeeping, identifiers and text normalisation (`storage`), the
  double-tap detector for the global hotkey (`hotkey`), the application's state machine
  that turns every event into a next state and an ordered list of effects (`runtime`),
  the scripts, page assembly and plate-image selection for the web panel (`panel`),
  the tray menu commands (`tray`), error-log lines (`logging`), the permission state
  (`permissions`) and the data-folder move from the former name (`migration`).
- `app/` is the program around it: the event loop, windows and web view, tray icon,
  event tap, files, login item and threads. It performs the effects the library returns.
- `tests/` exercises the library on concrete inputs.
