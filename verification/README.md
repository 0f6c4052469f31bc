# instantmenu

The logic of instantmenu, a dmenu-style launcher for X11 and Wayland, as a
library verified with Verus, and the program around it.

`src/` is the verified library. Every public function states what it
returns in its `ensures`, over spec functions on plain values, and the
library's laws are public proof functions:

- `entry`: the item markup grammar (`{icon=…, key=…, heading} label`);
- `icons`: icon names, their normal form, lookup, the catalog and search;
- `keybind`: `KEY:LABEL` bindings and the keys a binding may use;
- `keys`: what a key press does to the line and the match list;
- `session`: applying a key's chord edit and action, a button's action,
  and Return's output to the line, the paging and the printed marks;
- `input`: the items stdin's bytes make, and the list's shape;
- `menu`: the line editor on UTF-8 bytes, dmenu and fuzzy matching, paging
  and navigation, instant mode;
- `pointer`: hover and button presses over the drawn layout (and, in
  `backend`, how X11 pointer events are routed);
- `geometry`: the window's line height, size and position;
- `layout`, `style`: where the prompt, input, cursor, items, arrows,
  counter and command slots are drawn, and how each item is styled;
- `appearance`, `color`, `color_names`: the built-in themes, color
  spellings (hex and color keywords), and the order in which the
  configuration file and the command line apply;
- `startup`, `backend`, `frame`, `itest`, `cli`, `config`: start-up
  decisions, keyboard repeat, outputs, frame buffers, the `test(1)` clone,
  the default configuration path and the strict command-line value
  parsers.

`app/` is ordinary Rust around the library: argument parsing, the
appearance file, reading stdin, connecting to the display, the keysym
lookup for key bindings (libxkbcommon) and the `itest` program. It hands
the library plain values and acts on what comes back.

The program does not open the menu window: drawing text and shapes needs a
renderer that this project does not contain. It resolves the
configuration and the items, prints the only match in instant mode, and
otherwise stops with a message saying so.

`tests/` runs the library on concrete values.
