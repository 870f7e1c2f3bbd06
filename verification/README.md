# mandate_gate

A spend authorizer that stands between AI shopping agents and Razorpay: every
spend request is checked against a pre-approved mandate (owner, merchant,
status, expiry, per-transaction, daily and total caps) before an order is
created, and every decision is written to an audit trail.

## Layout

- `src/` — the library, verified with Verus.
  - `gate_service.rs`: the checks, the denial texts, and the authorization
    protocol as a state machine (`gate_step`: phase and event in, next phase,
    outside work and decision out), with its laws: approvals stay within the
    caps, every approval and denial is logged once, only approvals spend,
    the transaction ends exactly once, the daily counter resets with the date.
    A mandate has expired when its status says so or its expiry stamp comes
    before the moment of the request.
  - `calendar.rs`: civil dates and UTC stamps from day numbers and
    seconds, proved against a day-counting model of the Gregorian calendar,
    with the law that later moments give later stamps.
  - `models.rs`, `audit_service.rs`, `razorpay_client.rs`,
    `agent_service.rs`, `nlu_parser.rs`, `server_service.rs`, `config.rs`:
    the data model and its JSON, audit entries, order requests and replies,
    the agent's plan and wording, prompt reading, HTTP routing and responses,
    settings.
  - `text.rs`: character-level string helpers.
- `tests/` — tests of the library, including an in-memory run of the
  authorization protocol.
- `app/` — the program around the library: SQLite (through its C interface),
  the HTTP server, the clock, `curl` for Razorpay, and the floating-point
  parts (reading amounts, utilization percentages). Commands: `server`
  (default), `seed`, `agent <prompt>`.
