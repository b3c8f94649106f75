# usestakly

The service core of UseStakly, an observatory of public GitHub repositories:
quality-scored discovery, watchlists and notifications, and usage signals
reported by users and coding agents.

## Layout

- `src/` — the library, written in Verus. Every function carries a contract
  and is proved against it: query and topic normalisation, intent detection
  and recommendation gates, repository categories, the radar band, the
  display states of a profile and its proof tier, flag consensus, the integer
  side of signal weighting, the scheduler's refresh targets, GitHub response
  handling and paging decisions, rate-limit classification, notification
  routing, digest scheduling, alert and e-mail texts, channel validation,
  webhook encryption, agent tokens and the guards on their writes.
  Calls into outside crates (hashing, base64, AES-GCM, URL parsing, e-mail
  syntax, time zones, UUIDs, HTTP status phrases) go through small trusted
  functions whose contracts name what the crate computes.
- `tests/` — tests of the library on concrete values.
- `app/` — the service layer around the library: database access, HTTP
  calls, the delivery loops, the JSON shapes of the API, and the
  floating-point parts of scoring (score dimensions, weights, ratios,
  radar relevance and trend).

Times cross the library as whole seconds since the Unix epoch and
identifiers as 128-bit integers; `app/` converts to and from `chrono` and
`uuid`.
