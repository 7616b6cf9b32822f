# wl_overlay

The decisions of an agent-cursor overlay on a native Wayland layer surface,
written in Rust and proved with Verus.

- `src/` is the verified library. It decides which globals of the compositor to
  bind, how large the surface and its buffers are at any output scale, how a
  buffer is mapped onto the surface, when a frame is drawn or held back, which
  memory is given back, what goes into the command queue, and how a frame's
  pixels are laid out.
- `app/` is ordinary Rust around it: the connection to the compositor, shared
  memory, the owner thread, the clock, and the render core that paints the
  cursor.
- `tests/` runs the library on concrete values, with binary64 arithmetic as the
  yardstick for sizes.

The scale of an output is a binary64 number, and sizes are binary64 products and
quotients. The library computes them on integers, with a proof that the result
is the correctly rounded one.

Trusted without proof are the channel (`crossbeam_channel`) and the raster
(`tiny_skia::Pixmap`), each through a contract that says what the crate's source
shows.
