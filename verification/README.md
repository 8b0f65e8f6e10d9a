# desktop_host

The verified core of a desktop accounting host: the rules, status machines,
journal construction and computations behind its forms and commands, written
in Verus and proved against their contracts.

## Layout

- `src/` — the library. Every function carries a `requires`/`ensures`
  contract that Verus checks.
  - `text` — trimming, parsing and printing of numbers and texts, with the
    facts the other modules lean on.
  - `settings` — the settings registry, validation of a value and reading a
    stored value back.
  - `journal` — journal lines, their checks, reversal, settlements, cheques,
    treasury movements and transfers, running balances, closing a year.
  - `cheques` — the statuses of a cheque and the moves between them.
  - `coding` — the chart of accounts: levels, natures, the account tree with
    branch balances, code suggestions and the coding audit.
  - `invoices`, `quotes`, `return_docs`, `production` — totals, status
    machines and the entries these documents post.
  - `treasury`, `treasury_docs` — treasury accounts, statements, receipt and
    payment documents.
  - `parties`, `contacts`, `products` — the party, contact and product forms.
  - `aging` — the aging of open invoices by party.
  - `json` — the fields of a JSON object or of the rows of a JSON array, as
    the other modules read them.
  - `admin`, `integrations`, `security` — sign-in, saved reports and print
    templates, data import, plugin manifests, external API connections and
    SQL identifiers.
- `tests/` — tests of the library on concrete values.
- `app/` — a command host around the library: it reads JSON requests, talks
  to the SQLite database, the system keyring and the network, and hands the
  library plain values.

## Trusted items

The few calls into outside crates that the library makes stand behind
`#[verifier::external_body]` wrappers whose doc comments say what their
contracts claim: URL parsing and joining (`reqwest::Url`), Unicode
lower- and upper-casing (`str::to_lowercase`, `str::to_uppercase`), password
checks (`argon2`), JSON parsing (`serde_json`: one object, or an array of
rows), date reading (`chrono`) and appending to a `String`.
