# olist_cdn_preheat

A tool that walks an OpenList site's directory tree and downloads every file in
full, without saving it, so that a CDN caches it. Downloads share a global
bandwidth limit (a token bucket) and a connection limit that adapts to the
measured speed.

## Layout

- `src/` — the library, verified with Verus:
  - `text.rs`: character-level string helpers;
  - `models.rs`: settings, files, updates and errors;
  - `url.rs`: stable download URLs (`{base}/d{path}`, each segment
    percent-encoded) and logical child paths;
  - `rate_limit.rs`: the token bucket and the rolling speed monitor;
  - `crawl.rs`: retry and back-off of listings, pagination, routing of listed
    entries, and the single- and multi-site (round-robin) crawl dispatchers;
  - `api.rs`: the OpenList client settings and the reading of `/api/fs/list`
    and `/api/auth/login` replies;
  - `preheat.rs`: concurrency control, the per-file attempt loop, body checks
    and the updates sent about each file;
  - `dispatch.rs`: the queues of a run, spawn pacing and retry planning.
- `tests/` — tests of the library on concrete values.
- `app/` — the shell: HTTP I/O, JSON, the async loops and timers, and the
  commands the user interface calls. It asks the library what to do at each
  step.
