# aj_web

The logic of a browser client for the `ada-judge` programming contest system, written in
Verus and proved against its specifications, and the Dioxus application around it.

- `src/` — the verified library:
  - `models` — the records that the judge's backend sends (instants as whole seconds and nanoseconds, scores as text);
  - `state`, `session` — the application state, who may do what, the session;
  - `events` — how the live feeds of contests change the state;
  - `forms`, `contest_page`, `views`, `leaderboard` — what the forms send and when, what the cards, tables and labels show, leaderboard export;
  - `navigation` — the pages, the sign-in guard, titles, tabs and stored settings;
  - `api`, `errors` — request paths, headers, WebSocket URLs and error messages;
  - `markdown` — markdown rendered through pulldown-cmark and cleaned by ammonia, with framed code blocks;
  - `time`, `i18n`, `text`, `lists`, `alerts` — dates and durations, Russian and English texts, text and list helpers, the alert queue.
- `tests/` — tests of the library on concrete values.
- `app/` — the Dioxus application: pages, requests, browser storage, live feeds.

The backend's base URL is taken from `API_BASE` at build time, else `https://aj-host.oneprog.org`.
