# Agama dollar protocol

A stablecoin protocol as verified state machines. USDC goes into a vault, the
vault issues agUSD for it one for one, an allocation engine decides how much of
the vault's cash may be lent out and to which pools, adapters stand between the
engine and the pools, an oracle collects what the positions are worth, and a
staking vault shares out the yield.

Every contract is a plain value that holds the contract's storage, with one
method per entry point. A method is told what the ledger saw (who signed, the
clock, what other contracts answered), and says what it decides: the new state,
and the calls, events and storage rent that the ledger still has to see to. Its
contract states exactly when it succeeds, which refusal is given otherwise, and
that a refusal changes nothing.

## Layout

- `src/`: the library, all of it verified with Verus.
  - `math`, `address`, `table`: checked arithmetic, identifiers, and an ordered
    table with sums over it.
  - `host`, `role`, `token`: what a call sees and asks for, the admin role that
    moves in two steps, and the token that several contracts are built on.
  - `vault`, `engine`, `private_credit`, `etherfuse`, `oracle`, `staking`,
    `agusd_core`, `agusd`, `mock_usdc`: the contracts. `hostile` is an engine
    that does not play by the rules.
  - `system`: the vault, the engine, the adapters and the two tokens together.
- `app/`: the contracts as the ledger runs them, around the library.
- `tests/`: scenarios, one test each.

The laws that span several calls or several contracts are public proof
functions, each beside what it is about; those of the protocol as a whole are in
`src/system.rs`.
