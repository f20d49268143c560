# jpresentation

The core of a desktop console for congregation meetings: it keeps the
assignment clock, works out which meeting week a date belongs to, reads the
meeting workbook and study publications, applies programme templates, lists
the songbook, and decides what the audience stage shows.

## Layout

- `src/` — the library, verified with Verus. Every public function states
  its result in its contract; laws that relate several functions are public
  proof functions named `law_*` beside the functions they speak of.
  - `clock` — the assignment clock as a state machine over milliseconds.
  - `calendar`, `week` — civil dates, Mondays, publication issues, the week model.
  - `template` — system and user programme templates and how they apply.
  - `jwpub` — the publication container and its documents (ZIP through the
    `zip` crate, behind small trusted wrappers).
  - `catalog`, `media`, `hymnal` — catalog answers, checksums (`md-5`),
    song listings and the in-memory catalog.
  - `week_service`, `hymnal_service`, `commands` — the decisions of the
    fetch, restore and download loops, previews and staging.
  - `explorer`, `output`, `platform`, `profile`, `schedule`, `content`,
    `jobs`, `error`, `text` — the rest of the model and its rules.
- `tests/` — the tests, run against the compiled library.
- `app/` — ordinary Rust around the library: SQLite stores, the HTTPS
  catalog, files on disk, the download loops and the console commands.
