# futurefin_api

The decision logic of a personal-finance projection service, written in Verus: the functions
under `src/` are verified, and the public ones state in `requires`/`ensures` what they return;
the laws that span several functions are stated and proved as proof functions.

What the library decides:

- **Retirement profile** (`profile`): parsing of the wire literals, defaults, the resolution of a
  stored profile (clamps, the retired `pension_bridge` alias, inherited withdrawal percentages),
  validation with one error per rule, and the field-by-field PATCH merge.
- **Projection requests** (`series`, `bands`, `response`, `deflate`): the month grid (monthly or
  hybrid density), query validation, fan-chart band extraction, the series response (phases,
  depletion month, horizon) and the real-money deflator.
- **Plan assembly** (`plan`, `calendar`, `planning`, `assembly`, `savings`, `ledger`): ages as
  months, the retirement phase plan, expense bases, debt service and allocation rules.
- **What-if simulation** (`whatif`, `milestones`, `compound`): the scenario overrides (one-off
  amounts, income steps, pauses and growth, liability overrides, asset returns), the deltas
  against the base projection, and the yearly milestones.

Numbers are `rust_decimal` decimals and dates are `chrono` dates; the library calls both crates
through small trusted wrappers (`decimal`, `date`, `text`) whose contracts say what the crates
document. `app/` holds what Verus does not see: the serde forms of the profile, the wording of
the errors, and the presentation of the stochastic engine's floating-point figures.
