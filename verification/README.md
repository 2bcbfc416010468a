# ona_diagnostic

A diagnostic game for the ONA game runtime: it shows whether the runtime
configuration, the input bridge, the lifecycle bridge and the gaming display work,
and walks the player through pressing every button and moving the joystick.

The logic is a Verus-verified library (`src/`):

- `text`: decimal rendering and parsing of numbers, joining and padding texts;
- `runtime`: the runtime configuration and how raw `ONA_*` values are read;
- `lifecycle`: lifecycle events and the decisions of the lifecycle bridge worker;
- `input`: input events and the joystick dead zone;
- `diagnostic`: the state of the diagnostic screen and how events move its checks;
- `display`: choosing the gaming display, placing the window, the event loop's decisions;
- `rendering`: painting text and rectangles into the RGBA frame;
- `layout`: what the diagnostic screen shows, as drawing steps;
- `laws`: properties that hold across operations.

`app/` is the program around it: environment, sockets, threads, the window and the
GPU frame (winit, pixels), and decoding JSON input events (serde).

The 8x8 glyphs come from the `font8x8` crate: `app/font.rs` takes its
`legacy::BASIC_LEGACY` table for the printable ASCII characters (space to `~`) and
reverses the bits of each row, so that the leftmost pixel is the row's highest bit,
as `rendering::draw_char` reads it.  The library takes that table as an argument and
draws with whatever glyphs it is given.
