# bangumi-rss

Anime RSS auto-downloader: it subscribes to RSS feeds, hands new episodes to aria2, qBittorrent or
Transmission, and puts finished files into a media library. The logic is a library whose behaviour
is stated in contracts and proved by Verus; the program around it does the I/O.

## Layout

- `src/` — the verified library
  - `types`, `tables`, `state`, `event`, `effect`: the data, and what each state keeps
  - `logic`, `logic_laws`: the reducer from state and event to state and effects, and what holds
    over its steps
  - `tokenizer`, `single`, `filter`, `pattern`, `rss`, `nesting`, `preview`, `handler`, `report`: titles,
    feeds, filters and file names
  - `downloader` with `aria2`, `qbittorrent`, `transmission`, `mock`: the calls that each operation
    takes, as state machines
  - `dl_command`, `executor`, `fetch`, `files`, `stream`: what is done with a download
  - `auth`, `routes`, `handle`, `range`, `response`, `http_code`, `problem_type`: the HTTP API
  - `timer`, `task_pool`, `semaphore`: scheduling
  - `config`, `persistence`, `notify`, `bangumi`, `encode`, `json`, `text`, `feed_id`
- `tests/` — tests of the library
- `app/` — the program: threads, channels, HTTP client and server, file system, command-line tools

The library does no I/O. Where an operation needs some, it is a state machine: it says what to do
next, and takes the outcome.

Functions that call another crate are marked `external_body`; the comment above each says what is
believed of the call.
