# details

The details view of a status screen: what is selected, the lines that show it, and what of
them is drawn.

- `src/` is the library. It is written in Verus, and every function carries a contract that is
  proved. Calls into `bstr`, `gix`, `ratatui`, `syntect` and `unicode-width` stand behind
  declarations whose contracts are taken on trust; the doc comment of each says what is claimed.
  - `digits`, `text`, `bytes`, `git`, `theme`, `cli_id`: values and how they are written.
  - `ids`, `sections`: the identifiers of sections.
  - `lines`, `hunk`, `rendering`: a commit as lines.
  - `highlight`: source code in color.
  - `details`: the view itself.
- `app/` connects the library to a repository and to a terminal.
- `tests/` runs the library on given values.
