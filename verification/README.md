# maj_core

A verified library for the Maj multisig program: named multisig wallets kept as
program-derived accounts, whose admins propose, sign, revoke, cancel and execute
transactions, and whose governance (admins, threshold, blacklist) moves only
through the wallet's own executed transactions.

## Layout

- `src/` — the library, verified with Verus.
  - `pubkey`, `pda`: addresses and the seeds each kind of account is derived
    from. Address derivation is the one call into `anchor_lang`.
  - `state`, `events`, `errors`: the stored records, the events and the errors.
  - `program`: the program state as a map from address to account.
  - `instructions/*`: each instruction as a spec function from the state to
    the new accounts and outcome (or the error), and the handler proved to
    follow it.
  - `maj_core`: the entry points and the dispatch of an instruction.
  - `calls`: an executed transaction's calls into the program itself (its
    governance), and `start_transaction` / `finish_transaction`, which run a
    submitted instruction with those calls and the lamports it moves, hand
    back a call of another program, and commit or return to the state before
    once the caller reports whether that call succeeded.
  - `balances`: the lamports every address holds and how they move.
  - `laws`, `counting`: what every instruction keeps and how instructions
    relate to one another.
- `tests/` — tests that run the library.
- `app/` — a small runtime around the library: address conversion to and
  from `anchor_lang`, and a driver that keeps the state and the balances.

Rent amounts are not modelled: they come from floating-point arithmetic in the
runtime's rent schedule.
