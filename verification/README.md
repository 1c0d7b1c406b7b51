# paradigm_b50

Builds a "Best 50" page for Paradigm: Reboot from the player's score export
(`records.csv`) and the song list of the community wiki, and serves it
locally.

- `src/` is the library, verified with Verus:
  - `models`: difficulties, song metadata, score records, the rows of the
    export and the wiki cache (a map from song title to metadata);
  - `calculator`: the rating formula (in hundredths), the records of the
    export rows, and the best-records list (stable sort by rating, first 50);
  - `scraper`: the rules that read the wiki song table: title, artist,
    whether the song is new (version 3.9.0 or later), the full-size cover
    address, where covers are stored (always directly inside `covers/`),
    and the cache built from the table (one entry per title, the last row
    of a title winning);
  - `html_generator`, `script_generator`, `capture`: the text of the page,
    of the video script and of the slide capture;
  - `server`: which file answers a request of the preview server;
  - `text`: string utilities (search, split, trim, decimal numbers).
- `app/` is the program around it: file and network access, the CSV and JSON
  formats, the progress bar, the HTTP server and the headless browser.
- `tests/` runs the library on concrete inputs.

Run the program with no argument to build and serve the page, with `script`
to also write `render.sh`, or with `screencap` to capture the slides of a
generated page.
