# domain

The verified core of an events-and-products web service, written in Verus.

- `src/` — the library. Every function carries a contract that Verus proves:
  entitlement rules (`user`, `entitlement`), Stripe webhook verification, event
  parsing, checkout and portal requests (`stripe`), applying billing events to
  profiles (`billing`), product, event and profile operations over repositories
  (`product`, `event`, `users`, `interests`), configuration resolution (`config`,
  `llm_config`), model requests and answers (`llm`, `analysis`), bearer-token
  validation (`jwt`), mail composition (`mail`), the command line (`cli`), the
  HTTP status of each error (`api_error`), and in-memory fakes (`fakes`).
  Calls into `serde_json`, `hmac`, `sha2`, `hex`, `subtle`, `uuid`, `time` and
  `jsonwebtoken` stand behind small trusted wrappers whose contracts name what the
  outside function computes.
- `tests/` — tests of the library on concrete values.
- `app/` — the server program: command line, configuration files, Postgres
  storage, HTTP routes, and the clients for Stripe, the language-model providers,
  the identity provider and the mail provider.
