# zuno

The logic of a native API client, verified with Verus: text editing, request buffers of every
kind, the response outline, the panels and overlays, the keymap and the registry of workspaces.

- `src/` is the library. Its functions state what they return and change over mathematical views
  (`EditorView`, `InputView`, `HttpEditorView`, ...), and the public proof functions state what
  holds of several of them together.
- `tests/` runs the library on concrete values.
- `app/` draws it with gpui and does its input and output. Pixels, focus, files and the HTTP engine
  live there.

The library calls outside code only through the items marked `external_body` and
`assume_specification`: grapheme boundaries, UTF-8 validation, one JSON lookup, and a few methods of
`char`, `str` and `String`.
