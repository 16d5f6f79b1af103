# unirss

A feed reader: it keeps feeds (Atom, RSS, JSON Feed) in a git repository,
counts and lists unread articles, records what was read, and shows articles as
markdown.

- `src/` is the library, verified with Verus: the reader's state and how each
  message changes it (`controls`), the conditions under which a message or a
  page can be taken (`guards`), what each part of the window shows (`views`),
  counting and marking read (`pages`), feed files and icon records (`per`),
  which feed files the parser reads without failing on a time (`feed_bytes`),
  finding a site's icon (`favicons`), translations (`localize`), settings
  (`settings`) and the text helpers they share (`text`).
- `app/` is the program around it: the window, files, downloads, git and the
  browser. It carries out the effects that `Controls::update` returns.
- `tests/` runs the library on concrete values.
