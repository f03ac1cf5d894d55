# lsl — the Lucio Surf League, verified

The rules of the Lucio Surf League leaderboard site and of its Discord bridge, written in
Verus and proved against their contracts.

- `src/` is the library. Every function in it is verified; the few calls into outside
  crates (`rust_decimal`, `chrono`, `bit-vec`, `http`, `argon2`, `rand`, `urlencoding`)
  and into std go through small wrappers whose contracts state what those crates document.
  - `leaderboard`: which runs a leaderboard entry lists (filters such as `was_wr`,
    sorting, numbering) and what a progress chart plots.
  - `query`: the SQL of the run list, the activity feed and section updates, with every
    user value bound as a parameter; the filters read from a page's query parameters.
  - `auth`, `admin`: permissions, account rules, password hashing, uploads, redirects, and
    the administration requests.
  - `notify`: the announcements the Discord bridge posts and the role data it sends.
  - `catalog`, `view`, `markup`, `forms`, `home`, `fragment`: the league's patches and
    titles, and the page components rendered as escaped HTML.
  - `types`, `time`, `text`: the shared data, exact run times and instants, and text helpers.
- `tests/` runs the library on concrete values.
- `app/` is the Discord bridge as a program: it reads database notifications as JSON
  lines and prints the requests to send.
