# github-reviews

Polls GitHub review requests and runs a local review command from the matching
clone of each repository.

`src/` is the library. The decisions of the program stand there with contracts
that Verus proves: which pull requests ask for a review, what the
tables hold after each operation, how HTTP and GraphQL answers are read, which
commands of git are run, and what the daemon does next.

| Module | Subject |
| --- | --- |
| `model` | pull requests, reviews, notifications; what asks for a review |
| `db` | the tables: registrations, notifications, discoveries, watched pull requests, actions, leases |
| `github` | requests to `gh`, responses, pages, GraphQL queries and answers, lists of pull requests |
| `git` | origins, worktrees, fetching the revisions of a pull request |
| `runner` | the review command |
| `daemon` | the cycle of the daemon, discoveries, refreshes, the preparation of a review, retries, shutdown, reports |
| `cli` | the values of the command line |
| `text`, `number`, `order`, `table`, `time`, `spans`, `paths`, `process` | what the others are built on |

`app/` is the program around it: the command line, SQLite, child processes,
signals, threads and logs. It asks the library what to do, does it, and hands
back what came of it. An operation on the tables reads all of them from SQLite
first, so a row that cannot be decoded fails every operation until it is mended.

`tests/` runs the library on concrete values.
