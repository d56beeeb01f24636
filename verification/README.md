# asgard

The rules of a project control plane, as a Verus library: who may register a
project and what it may do, how it is promoted and reviewed, how infrastructure is
requested, granted, driven and torn down for it, how its secrets and states are kept,
and how its cost is attributed, rolled up and reported.

- `src/registry/` holds the project registry: registration, groups, evidence,
  promotion, approvals, reviews, governance metrics, and the document catalogs.
- `src/provision/` holds provisioning: the service catalog, requests, grants, the
  work on resources, their lifecycle, the connectors, sealed storage, and cost.
- `src/text.rs`, `src/json.rs`, `src/calendar.rs`, `src/usd.rs`, `src/ordering.rs` and
  `src/sorted_map.rs` are what the rules are stated over.
- `app/` is the ordinary Rust around the library: the database, the workflow engine
  and the other ports, processes and HTTP calls, and floating-point arithmetic.
- `tests/` runs the library on concrete values.

An amount of money is held as the bits of a floating-point number (`usd::Usd`); the
library compares amounts exactly, and whatever adds or divides them does so in `app/`.

Functions whose names begin with `law_` state what holds of the library as a whole.
What rests on another crate is said in the doc comment of each function that calls
into one.
