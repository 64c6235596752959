# atlas

Atlas collects anime metadata from AniList, joins it with the language
statistics of the matching Jiten decks, and loads the joined records into a
Meilisearch index.

The crate is written in Verus. `src/` is the verified library: the pagination
and retry decisions of the AniList scrapes (full and incremental), the reading
of AniList answers and rate-limit headers, the linking of Jiten decks to
AniList ids, the merge, the configuration and the comparison of index
settings. Each public function states its result in its contract, and the
invariants that hold across calls (unique ids in a scrape, known records never
lost in an incremental run, and so on) are proved as lemmas beside the
functions.

`app/` is the command-line program around it: HTTP requests, the request
limiter, sleeps, files, JSON, logging and the Meilisearch SDK. `tests/` runs
the library on concrete values.
