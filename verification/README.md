# pallet_evm_rent

Storage rent for EVM accounts: from an activation time on, every account owes
a daily rent for each whole day since its rent was last paid; charging it
advances its paid-through time by exactly those days, so the part of a day not
yet paid stays owed.

- `src/rent.rs` — constants, `RentStatus`, and the charge of one account
  (`charge_due`, `estimate_due`) as functions of plain values.
- `src/pallet.rs` — the pallet's state (`Pallet`, viewed as `RentState`),
  governance (`set_active_timestamp`, `set_daily_rent` and their checks),
  charging (`charge_rent`) and the `EvmRentCalculator` implementation.
- `src/calculator.rs` — the `EvmRentCalculator` trait and the calculator that
  charges nothing.
- `src/laws.rs` — properties proved over `RentState`: estimation agrees with
  charging, no charge twice for the same time, split charges add up, other
  accounts are untouched, charges are monotone, nothing before activation.
- `app/` — the FRAME pallet around the library: storage, origins, events and
  the runtime's timestamp.
