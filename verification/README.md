# dumpx

`dumpx` generates sample files (CSV, Parquet, JSON, JSON Lines, text,
Markdown, PDF, JPG, PNG) of requested sizes, with tags in their names,
contents and reports, and optional fake-data row templates.

The crate is split in two:

- `src/` is the library, verified with Verus. It holds everything the
  command decides: size parsing and labels, tags and file names, row
  templates and fake values, the content of every format (text streams, the
  PDF document, the image pattern and its growth, the Parquet rows and the
  attempts that grow the file to its target, encoded with `parquet`), the
  reading of positional words, the limits of a run, the plan of the files a
  run generates, report lines and error messages.
- `app/` is the command around it: argument parsing with `clap`, the
  interactive prompts, creating directories and files (refusing symlinks and
  existing files without `--force`), writing the content the library
  produces, and JSON reports with `serde_json`.

Modules of the library:

| module | contents |
|---|---|
| `text` | character-level helpers: trimming, case folding, decimals, splitting, joining, replacing |
| `size` | `parse_size`, `size_label`, default sizes |
| `naming` | tags, file stems and custom file names |
| `template`, `placeholders`, `fakes` | row templates and the fake values behind their placeholders |
| `formats` | format names and `generate_file`; `stream` (line formats), `pdf`, `image`, `parquet`, `common` |
| `cli` | arguments, positional words, limits, templates and `plan_run` |
| `output` | report types and lines |
| `error` | the error type and its messages |
