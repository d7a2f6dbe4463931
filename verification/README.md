# contracts_revo

Verified business logic of five agricultural ledger contracts, written in
Verus:

- `loyalty`: loyalty programs where users earn points on transactions and
  redeem them for rewards kept in limited stock;
- `forecasting`: a registry of products and oracle demand forecasts, with
  planting recommendations ranked by recent average demand;
- `microlending`: loan requests, funding by several lenders, installment
  repayments (the first one after funding is shared out to the lenders in
  proportion to their contributions), and collateral claims on defaults;
- `price_stabilization`: funds that pay farmers, in proportion to their
  capacity, when a crop's market price falls below a threshold;
- `auction`: product listings, auctions, shipping and seller verification.

Each contract keeps its state in a plain value; every entry point is a
function from that state, the caller, the ledger time and the arguments to a
new state and a result, with a contract that states both.  The `laws` module
of each contract proves the properties that hold across operations.  The
`*_in_range` functions say when an operation's arithmetic stays within the
machine ranges, which the entry points require of their inputs.

Layout:

- `src/`: the verified library;
- `tests/`: tests driving each contract as a ledger client does;
- `app/`: the ledger contracts around the library (authentication, storage,
  token transfers and events), built with `soroban-sdk`.
