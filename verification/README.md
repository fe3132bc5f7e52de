# github-deploy-helper

A server that listens for GitHub push webhooks and runs a deployment pipeline
(`stop → pull → init → update → start`, or `restart`) for each configured
project, with Telegram notices and log cleanup.

The decisions of the service live in a library verified with Verus (`src/`):

- `configure` — the configuration as written (`types`), resolved with defaults,
  `deploy.toml` overrides and `@name` command references (`loader`), what a
  reload changes (`watcher`), and what startup does for each project (`bootstrap`).
- `webhook` — the push and ping payloads, the `X-Hub-Signature-256` check, and
  how a request is answered (`handler`).
- `deploy` — the push gate, branch and commit filters, author allow-lists, the
  plan of steps and the step machine that runs it (`engine`), command outputs and
  their summaries (`runner`), and the `git` arguments.
- `notify` — the Telegram messages.
- `logging` — calendar dates, per-project command logs, retention, and log
  verbosity.
- `state` — which projects completed their init step.

`app/` holds the program around it: command-line parsing, reading files, the
HTTP server, running processes, the Telegram client and the file watcher.
