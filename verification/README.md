# inspo_crawler

A desktop tool that searches several design-inspiration sites at once
(Pinterest, Dribbble, Behance, Awwwards, Unsplash, Are.na, Lexica) and saves
the images a user picks.

The library in `src/` is written in Verus and verified:

- `text` — the character-level string operations everything else is made of.
- `encode` — percent-encoding (through `urlencoding`) and JSON string quoting
  (through `serde_json`), each with its exact result stated.
- `json`, `html` — reading API answers (through `serde_json`) and scraped
  pages (through `scraper`) into plain tables of values.
- `sources` — one module per site: its search request, and how its answer
  becomes grid items; the catalogue of sites and the referer lookup.
- `downloader` — file names, extensions and the report of a download batch.
- `commands` — which sources a search asks, how their answers merge, when a
  save is refused, how a second page is judged.
- `model` — the values exchanged with the user interface.

`app/` is the Tauri shell around it: HTTP requests, files, the folder picker,
and the front-end commands.
