# fosnie

The rules of a self-hosted assistant platform's HTTP backend, as a Rust library verified with
[Verus](https://github.com/verus-lang/verus).

A request is answered in three steps: what it is about is read from the database, the cache or
another service; a rule decides what is owed to it; and the answer is stored, sent or refused.
The library is the middle step. Each function takes plain values — who asks, what was found —
and returns the decision together with what is to be done. What a request uses up or changes — a
pairing code, a staged file, an agent and its history — is handed in and comes back as it is to
be stored. The contract of a function says on which inputs each refusal comes and what every
accepted request results in.

## Layout

- `src/` — the library.
  - `error`, `principal`, `grants`: refusals, who makes a request, and which rights the caller has.
  - `text`, `clock`, `encoding`, `ids`, `json`, `address`: strings, instants, base64, identifiers,
    JSON documents and addresses, with the outside functions the rules rest on.
  - `order`: lists in the order in which they are shown.
  - `trail`: the entries of the audit trail.
  - `groundedness`: checking answers against their sources, and repairing what is not supported.
  - `http`: one module for each area of the service — accounts, chats, agents, automations,
    documents, knowledge bases, exports, messaging, telephony, administration — together with the
    security headers, the routes and the limits on how often a thing may be done.
- `tests/` — the library seen from outside, on concrete values.
- `app/` — the service around it: routes, queries, files.

What is believed without proof is marked `external_body` or `assume_specification`; each such item
names the outside function it stands for and says what it claims of it. Public proof functions
state what holds of several functions together.
