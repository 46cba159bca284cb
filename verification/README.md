# tfn_test_launchpad

A verified model of the TeachFi test launchpad contract: users whitelisted on
the platform create launchpads that sell their project tokens for a payment
token; buyers pay `price` payment units per whole token (18 decimals), the
owner can cancel before any sale, and after the end anyone can launch, which
pays the owner the raised funds and the unsold tokens.

- `src/common/types.rs`: addresses, token payments, outgoing transfers, errors.
- `src/common/amounts.rs`: `payment * 10^18 / price` computed exactly in 128 bits.
- `src/common/config.rs`: states, statuses, the launchpad record and its rules
  (quotes, and the record after a sale, a deposit or a launch), and
  `ConfigModule`, the contract storage with its configuration endpoints; its
  well-formedness is a type invariant that every endpoint keeps.
- `src/common/views.rs`: the read-only views over the stored launchpads.
- `src/contract.rs`: `TFNTestLaunchpadContract` and the launchpad endpoints.
- `src/laws.rs`: properties that span several endpoints or calls.
- `app/`: the MultiversX contract shell that reads the chain, asks the library
  what to do, writes back the records the library computes, and sends tokens.
  It also asks the platform whether a caller is whitelisted and, when the
  platform address is set, for its governance token id; the library takes
  both answers as plain values.

Token amounts, `BigUint` on chain, are `u128` in the library. A deposit or a
purchase that would take a stored amount beyond that range is refused with
`AmountOutOfRange`, a new launchpad once every `u64` id is used with
`IdsExhausted`, and `get_total_raised` returns `None` when a sum does not fit.
