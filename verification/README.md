# Sequencer blocks

The block logic of a sequencer, written in Rust and proved with Verus.

- `header`, `genesis`, `builder`, `proposal`: what a header holds and is committed to
  by, the first one, how one is built on its parent, and how a proposed one is checked.
- `fee`, `account_proof`: fee amounts and accounts, receipts, and proofs of balances.
- `transaction`, `payload`, `nmt_serializer`: the transactions of a block, grouped by
  VM, and their encoding.
- `l1`, `l1_client`: references to the L1 chain, and the set-up of its client.
- `data_source`: where a query service gets data that it is missing.
- `commitment`, `merkle`, `u256`, `bytes`, `text`: what the others are made of.

Merkle trees, the L1 client and the clock are not part of the library. Functions that
need them say what to ask and take the answer as an argument; `builder` does so step
by step. `app/` asks the questions: it holds the trees, the serialized forms, and the
interfaces of consensus and the query service.

Calls into `ethers` (256-bit numbers, addresses, Keccak-256) and `bincode` stand in
small functions of their own, whose contracts are taken on trust. Public functions
with a condition on their input have a function beside them that tests it where the
condition is not a plain comparison: `accepts`, `can_finish`, `can_follow`,
`can_credit`, `fits_u64`.
