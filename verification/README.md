# Vermon

Node version monitoring for the members of the IBP network: which release each
watched repository has published, which runtime and client each network runs,
and how the members' services are doing.

`src/` is the library, verified with Verus:

- `version`, `digits`, `text`: reading versions from release tags, and choosing
  the highest.
- `github`, `refresh`, `repos`: looking up the latest release of each watched
  repository, with retries.
- `rpc`, `prometheus`, `certificate`, `members`, `startup`, `probe`: asking the
  nodes of each network and of each member, and reading their answers.
- `state`, `store`, `stats`, `handlers`, `order`, `table`, `text_map`: what is
  known, and the answers to requests.
- `consistency`, `modes`: what requests answer after updates, and that both ways
  of updating end alike.
- `config`, `models`, `templates`, `time`: settings and data.

The requests themselves, the server and the clock are in `app/`, which hands the
library what came back and carries out what the library asks for next.

## Settings

| Variable             | Meaning                                     | Default |
| -------------------- | ------------------------------------------- | ------- |
| `PORT`               | the port that the server listens on         | 3000    |
| `GITHUB_TOKEN`       | a token for requests to GitHub              | none    |
| `CERT_WARNING_DAYS`  | certificates that expire sooner are warned of | 30    |
| `CERT_CRITICAL_DAYS` | certificates that expire sooner are critical  | 7     |
