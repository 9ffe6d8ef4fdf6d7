# Nulo chain pallet logic, verified

The decision logic of the Nulo parachain's own pallets, written in Verus and
proved against its contracts:

- `existential_sponsorship`: sponsors keep beneficiary accounts alive by
  holding funds in them; caps per sponsor and per block, leases with expiry
  buckets, an auto-unlock queue, genesis sponsorships, and the
  `SponsorshipProvider` interface for other pallets. `laws.rs` holds the
  properties that span several operations.
- `prepaid_gas`: prepaid transaction credit bought with native balance.
- `gas_transaction_payment`: the fee adapter that pays inclusion fees from
  prepaid credit and falls back to the native balance, and settles the
  actual fee afterwards.
- `weights`: two-dimensional weights with saturating arithmetic and the
  pallets' weight tables.
- `runtime`, `origin`, `hyper_fungible_token`: ISMP routing, pallet
  accounts and account conversion.

Balance operations (transfers, holds, provider references) belong to the
runtime's currency. The library states them as plans (`CurrencyOp`
sequences) and takes what the currency reported as plain values, so every
decision around them is verified for every possible outcome.

The tests under `tests/` drive the library with a small in-memory model of
the balances.
