# fckn_gay

A subdomain registrar: users sign up, claim a name under a public suffix
(such as `alice.is.fckn.gay`) and manage the DNS records of it through a web
interface or an API. DNS providers, user databases and mail services are
chosen by configuration.

The library in `src/` is written in Verus and verified: each public
function states what it returns or changes, and the properties that span
several calls (what a listing shows after an add, that a used token cannot
be used again, that a dry run changes nothing, ...) are proof functions.

- `text`, `validation`: string helpers and the username, password and DNS
  name rules.
- `dns`: records, record keys, the in-memory provider, the local
  (hickory) record store and its request handling, provider selection.
- `user_database`: users, password hashes, the in-memory and CSV
  databases, database rows.
- `email`, `secret`, `random`, `logging`: mail texts, secrets, random
  passwords and ids, the log line format.
- `server`: record ownership, sessions and tokens, the web flows (sign-up,
  login, password reset, record API) as step functions, migrations, user
  renames, tracing setup and configuration defaults.

`app/` is the program around it: the HTTP server, configuration files,
provider clients, the command-line tools and the logging subscriber. It
performs the actions the library's step functions ask for and hands the
results back.

`tests/` runs the library on concrete values.
