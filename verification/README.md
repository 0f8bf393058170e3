# petiglyph_tui

The logic of the petiglyph terminal UI, verified with Verus: key handling
of the Home panel, the Glyphs view and the creation popups as steps from a
state and a key to a new state and an action; the terminal previews of
glyphs; the text and layout of the panels; drag-and-drop payloads; natural
ordering of animation frames; the edits the UI makes to a project manifest;
and the samples shown for installed fonts (reading TrueType files through
`ttf-parser`).

- `src/` is the library. Every function in it carries a contract, and the
  public proof functions state the laws the UI keeps (the preview keeps the
  source's aspect, a well-formed glyph list stays well formed, a threshold
  written to the manifest is what a reload gives back, and so on).
- `app/` holds what the library hands off: crossterm key events, ratatui
  widgets, the clipboard commands, the environment, files on disk, PNG
  output, and the floating-point tone curve of live previews.
- `tests/` runs the library on concrete cases.
