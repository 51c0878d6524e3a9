# prompt

A desktop manager for saved AI prompts (title, tag, body, creation stamp):
keyword search that ignores case, a tag filter, add / edit / delete, copy to
the clipboard, editing in the preview pane, and JSON export.

- `src/` is the verified library: `text` (substring search, code-point
  order, decimal numerals, white-space trimming, and the standard
  library's lower-casing), `clock` (the creation stamp), `db` (the prompt collection),
  `app` (the window's state and what each user action does to it) and
  `laws` (properties that relate several operations).
- `app/` is the egui program around it: drawing, the clipboard, the data
  file `Prompts.json` beside the executable, and the entry point.
- `tests/` runs the library on concrete values.
