# ib — a verified paper-trading ledger

`ib` keeps simulated accounts, contracts, orders, fills, positions and cash
balances. Amounts and quantities are six-decimal fixed point, stored as
integer micro-units. Nothing is ever sent to a real market.

The library under `src/` holds the rules and the arithmetic, each with a
Verus contract:

- `decimal`, `fixed`: decimal values as `rust_decimal` gives them, and their
  conversion to micro-units (more than six places is refused, and so is a
  count of micro-units outside the `i64` range). The conversion is proved
  exact for every value it accepts.
- `orders`: order, contract and cash-entry rules.
- `ledger`: a simulated fill as a step-by-step transaction — idempotent on
  its execution ID, filling the whole remaining quantity, rolling the
  position up by the average-cost rule and moving cash by the notional. The
  blended average cost is proved to be the exact weighted mean wherever that
  mean is a whole number of micro-units and the intermediate values fit a
  decimal mantissa; otherwise it is what `rust_decimal` computes.
- `ids`: simulation account IDs and execution IDs.
- `auth`, `email`: address and password rules, session cookies and tokens,
  the steps of a request for a new verification e-mail (which answer alike
  for unknown and verified addresses), verification e-mail texts.
- `registration`: the steps of opening an account (a transaction that is
  rolled back on any failure) and of confirming an address with its token.
- `migrations`: how a schema script is cut into statements.
- `responses`: what the web API reports.

`app/` is the program around it: the command line, the SQLite store, the
HTTP server and the e-mail sender.
