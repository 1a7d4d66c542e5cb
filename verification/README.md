# karakeep_sync

Syncs links from Readwise, Reddit JSON feeds and YouTube liked videos into
bookmark lists.

- `src/` is the verified library: the settings types and their once-only
  loading, the page-by-page decisions of each sync (which URL to fetch next,
  when to stop, when to refresh a token), and the turning of each fetched
  page into bookmarks, with the string routines these need.
- `app/` holds the HTTP requests, JSON decoding, environment reading and
  the async streams, which hand plain values to the library.
- `tests/` runs the library on concrete pages.
