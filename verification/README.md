# font_fallback_test

A Windows tool that shows, for a fixed list of system fonts, whether the
registry key `HKLM\SOFTWARE\Microsoft\Windows NT\CurrentVersion\FontLink\SystemLink`
gives the font a fallback list, a preview of sample text in the font, and
the list itself.

- `src/` is the verified library:
  - `wide`: UTF-16 buffers as Win32 takes and returns text.
  - `config`: the settings file `config.toml` (font list, sample text),
    read beside the executable.
  - `fontlink`: the link table read from the registry and the text shown
    for a link list.
  - `items`: the fonts that are listed and one table row per font.
  - `fonts`: the arguments of the GDI font creation calls.
  - `layout`: window layout, list columns, status bar, and the plan of
    each owner-drawn row.
- `app/` is the window: registry reads, GDI drawing and the message loop.
- `tests/` runs the library on concrete values.
