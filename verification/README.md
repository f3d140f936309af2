# ScreenInk

A screenshot tool for GNOME. It asks the desktop portal for a screenshot, opens it for annotation
with a pen or a rectangle tool, and saves the result as a PNG that it also puts in the clipboard.

- `src/` is the library: the annotations and how they are painted, the state of the editor service,
  the steps of a capture and of a save, settings, names and messages. Its contracts are proved by
  Verus.
- `app/` is the program around it: windows, the portal, files, processes, and the floating-point
  coordinates of the pointer.
- `tests/` runs the library on concrete values.

`screenink --capture` takes a screenshot. `Ctrl+Z` removes the last annotation, `Enter` saves and
copies, `Esc` cancels. The output directory and the timeout of the portal can be set in
`config.toml` beside the executable: `output_dir` is `Screenshots` under the user's pictures unless
set, and `portal_timeout_seconds` is 60; with 0 the program waits without limit.

The library calls the `image` crate for pixels and PNG files, and `chrono` for the date in a file
name. What it relies on there is stated on the functions of `src/picture.rs` and `src/naming.rs`
that are marked `external_body`.
