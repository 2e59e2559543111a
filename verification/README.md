# window-mru

The decisions of a window switcher for a Wayland compositor, verified with Verus: which windows are
walked in most-recently-used order, which one is selected, what is shown where, and which keys do
what.

- `src/` is the library. `mru.rs` holds the walk over the windows, `ui.rs` the switcher around it,
  `view.rs` the placement of the view along the strip of thumbnails, `thumbnail.rs` a window in the
  switcher with its cached title, `bindings.rs` the key bindings, `recent_windows.rs` the
  configuration and `x11_interop.rs` the X11 interop global. Their contracts speak of the models in
  `mru_model.rs` and `ui_model.rs`; `mru_laws.rs` and `ui_laws.rs` prove what holds across
  operations.
- `app/` ties the library to a compositor: floating-point geometry, text rendering, drawing, the
  configuration file and the Wayland display.
- `tests/` runs the library.

Windows, outputs, animations and textures belong to the compositor. The library refers to them by
handles, and takes as a list which animations are finished. Positions reach it as integers that
compare as the floating-point numbers do (`coord.rs`).

The only code taken on trust are two functions in `bindings.rs` that read key codes from `xkeysym`.
