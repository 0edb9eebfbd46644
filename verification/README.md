# wyattwtf

The backend logic of the wyatt.wtf activity feed, verified with Verus.

The site shows recent film watches (Letterboxd RSS), book updates
(Goodreads RSS) and played tracks (Last.fm API) in one feed, newest first.

- `src/` is the verified library:
  - `text.rs`: string operations with their specifications (trimming,
    whitespace collapsing, searching, splitting, decimal numbers);
  - `time.rs`: dates and times through `chrono`;
  - `models.rs`: the data served by the API;
  - `server/`: configuration from secret files, errors and their messages,
    the source parsers, the per-source cache decisions, the merged feed and
    the outage notifications;
  - `app/`: what the home page shows of the feed (titles, detail lines,
    filters, status line).
- `app/` is the program around it: command line, HTTP fetching, the axum
  routes, the Leptos page and the email delivery.
- `tests/` runs the library on concrete inputs.
