# pixel_probe

A screen-capture pixel sampler: it runs a short scripted pointer session
(cancellable with Escape), opens a screencast portal, connects a PipeWire
stream and prints the RGBA value of one pixel of every received frame.

- `src/` is the verified library (Verus): pixel sampling (`pixel`), the
  stream's format and buffer decisions (`frame`), the escape hotkey's
  decisions (`hotkey`), the virtual pointer's action sequences (`mouse`),
  the scripted session as a state machine (`session`) and the arguments
  (`args`).
- `app/` is the program around it: argument parsing, logging, the portal,
  the PipeWire stream, the uinput pointer and the keyboard readers.
- `tests/` runs the library on concrete values.
