# g13_nexus

Configuration tools for the Logitech G13 gameboard on Linux.

- `src/` is the verified library (Verus): the configuration record and its
  defaults (`config`), the decoding of the device's input reports into key
  presses (`hid`), the profile catalogue (`profiles`), the state machine of
  the binding editor (`editor`), a string-keyed map (`str_map`) and text
  helpers (`text`).
- `app/` is the configuration window (eframe/egui): it reads the device with
  hidapi on a thread, reads and writes the JSON files, and draws the editor,
  handing every decision to the library.
- `tests/` exercises the library on concrete values.
