# ai_agent

The rules of an on-chain world of autonomous AI agents, as a verified library
with a thin CosmWasm contract around it.

Agents are minted with a personality and funds, act on the strength of
inferences that an oracle has filed under the SHA-256 of a reasoning proof,
evolve through four stages by paying for each, and are ranked by balance.

Layout:

- `src/` — the library, verified with Verus.
  - `types.rs`: agents, personalities, stages, actions, records, inferences,
    messages, errors and answers.
  - `text.rs`: decimal and hexadecimal rendering; the std string calls used.
  - `identity.rs`: how an agent's id and wallet address are derived.
  - `rules.rs`: personality validation, how actions shape a personality,
    evolution costs and order.
  - `describe.rs`: the texts reported in answers.
  - `order.rs`: the byte order in which stored keys are walked.
  - `digest.rs`: the SHA-256 key under which inferences are filed.
  - `store.rs`: the stored collections, their reads, writes and ranking.
  - `world.rs`: the world's state and the messages that read and change it.
  - `laws.rs`: properties that hold across operations.
- `app/` — the contract: entry points, JSON message types, storage.
  The deployment supplies the checks and helpers that actions rely on
  (feasibility, trade and hire messages, combat, oracle authorisation) and
  personality updates through the `Deployment` trait; the library receives
  them as closures, and its contracts say what each is asked.
- `tests/` — tests of the library.
