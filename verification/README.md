# surf_ace_compositor

The verified core of the Surf Ace Wayland compositor's host runtime, written in
Verus. Every function under `src/` carries a contract that Verus proves; the laws
that tie several operations together are public proof functions beside them.

- `src/` — the library: pixel transforms and the screen capture store
  (`pixels`, `rotation`, `screen_capture`), presentation bookkeeping (`presentation`,
  `reclaim`), DRM output and plane decisions (`output_selection`, `planes`), surfaces
  and input (`roles`, `overlay`, `cursor`, `shortcut`, `render_capture`), the decisions
  of a presentation tick (`present_tick`), the root geometry transaction that stages
  one geometry mutation at a time and activates it on its exact page flip
  (`root_transaction`), what is read
  of client processes in `/proc` (`procfs`), runtime errors and status (`runtime`), and
  the scripted phases of integration test runs (`scripted`).
- `tests/` — tests of the library on concrete values.
- `app/` — the code around the library that Verus does not check: writing capture
  files, reading `/proc` and the environment, the xkbcommon key lookups, the
  floating-point pointer geometry, and the runtime error with its messages.

A few functions are trusted rather than proved: the wrapper around the `png` crate's
encoder, the wrappers around `std::path::Path` equality and order, and the one around
`String::push`. Their contracts state what the outside code guarantees. The xkbcommon
keysym lookups of the overlay shortcut are passed in by the caller (app/ passes
xkbcommon's), so the shortcut parser itself is verified.
