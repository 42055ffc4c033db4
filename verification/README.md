# logsday

The rules of Logsday, a site where each user may post one log a day on their
"Logsday", the chosen day of a seven- or eight-day week, written in Verus and
proved against their contracts.

- `src/` is the verified library:
  - `week` — day numbers, weekdays and Logsday timing, at a given time and at
    the time the system clock reads;
  - `slug` — slugs of user and project names;
  - `filestuff` — file names, extensions, media types, compression plans;
  - `markdown` — a log's HTML: pulldown-cmark's rendering of the events it
    parses, with raw HTML handed to the writer as text and images of video or
    audio files as players;
  - `imaging` — WebP conversion of uploaded pictures and GIF animations;
  - `logdir` — which files a log links, which are removed, how much they take;
  - `site` — sign-up, project, log, upload, comment and like rules;
  - `newlog` — whether a user may post a new log now, and its number;
  - `email` — the reminder message and the command that sends it;
  - `db` — table schemas, the schema check, and like statements;
  - `text`, `urlencode` — string helpers.
- `app/` is the web server around it (axum, SQLite through sqlx, sessions,
  templates, the file system and child processes). It needs the `templates/`
  and `static/` directories of the site next to it.
- `tests/` runs the library on concrete values.
