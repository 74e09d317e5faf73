# fleet_application

The use-case layer of a developer fleet control plane — authorization,
audit, machines, onboarding, node identity, durable operations, desired-state
composition, observed-state comparison, planning, apply, and the Proxmox and
Tailscale integrations — written in Verus, with the rules stated as contracts
and proved.

## Layout

- `src/` — the verified library. Each module states its decisions as
  functions from plain values to plain values, with `requires`/`ensures`
  over spec models (`Seq`, `Map`, views of the library's types). Properties
  that span functions stand as public `law_*` proof functions beside the
  code they speak of.
- `app/` — ordinary Rust around the library: the async storage, transport
  and credential ports; service structs that sequence authorization, audit
  and mutation over those ports for machines, nodes, onboarding, operations
  and their worker, Proxmox accounts, skills, the desired-state source and
  the tailnet; the live event fan-out; and the serde forms of the library's
  values. The lab, image-recipe and project decisions (lease admission,
  provision keys and replay, promotion, name and remote checks) are in
  `src/`, but no service in `app/` drives them yet: their record types
  (leases, recipe versions, project views) belong to the fleet's core
  model, which is not part of this crate.
- `tests/` — the behavioural tests, run against the compiled library.

## Outside crates

`serde_json` is called from the library for two computations on plain
values (reading a top-level string member of a JSON document, and writing
an object of string members); each call sits behind one small trusted
function whose contract names its result, and the member names are passed
in from verified code. `serde`, `tokio` and `async-trait` are used by
`app/` only.
