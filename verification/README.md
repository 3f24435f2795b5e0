# cosmic-ext-niri-windows

A niri window list applet for the COSMIC panel: it shows the windows of the
panel's monitor grouped by workspace, focuses a window on left click, closes it on
middle click, switches workspaces on scroll, and keeps a reorderable list of pinned
applications.

## Layout

- `src/` is the verified library (Verus). It holds the applet's state machine
  (`state`: every message maps a state to the next state and the commands to carry
  out), the panel rows and their order (`display`, `raw`), the panel items and the
  context menu (`panel`, `menu`), the pinned list and its file format (`pinned`),
  the rules for finding desktop files and icons (`desktop`, `icons`), the lines exchanged with the compositor (`ipc`), the choice of
  the compositor socket (`socket`), the action sender's retry rule (`writer`) and the
  event stream's reconnect rule (`stream`).
  `laws` states the properties that span several messages.
- `app/` is the program around it: the COSMIC application, the niri IPC
  connection, and the file system lookups that the library directs.
- `tests/` runs the library on concrete values.
