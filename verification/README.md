# spotify_tracker

A background service that watches the artists of a Spotify library for new
releases and writes a daily HTML digest of them.

The library under `src/` holds what the service decides and computes, each
function with a contract that Verus proves:

- `text`: the string order used for release dates, trimming, decimal
  numerals, space encoding.
- `models`: the Web API response shapes.
- `auth`: the saved token, the login URL, the token requests, and the steps
  that obtain a usable access token.
- `releases`: which albums of a page are new releases, when to fetch another
  page, ordering and de-duplicating an artist's releases, collecting the
  artists of the liked songs.
- `notifications`: the digest page, its file name, the run-log lines.
- `tracker`: what a scan records and queues, the rate-limit cooldown, the
  pause between artists, when the digest is due, what a library sync writes,
  reading stored times.

`app/` is the program around it: SQLite, HTTP, files, the clock, randomness
and the scan loop, handing plain values to the library and acting on its
answers.
