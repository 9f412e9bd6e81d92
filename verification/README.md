# deccp

A verified clearing and risk book for a Decentralized Central Counterparty.

The library in `src/` holds the clearing rules: member admission, collateral
and margin, netting cycles, public and confidential guarantees, the default
waterfall, the threshold authority set, and snapshots. Every operation of
`ClearingBook` is specified as a transition of `BookState`, and Verus proves
that the code carries out exactly that transition.

- `ident`, `map`, `transcript`, `json`, `error`: identifiers, tables keyed by
  them, digests over transcripts, canonical JSON text, and errors.
- `authority`: authority sets, quorum approvals, and their acceptance.
- `members`, `cycles`, `guarantees`, `defaults`, `ports`: the records, the
  digests that are approved or settled, and the evidence services.
- `book`, `admission`, `clearing`, `netting`, `guarantee_ops`,
  `confidential_ops`, `default_ops`: the state and its operations.
- `validate`, `snapshot`: the structural invariants, the text of a snapshot,
  and restoring.
- `aethel`: the adapter that drives confidential guarantees for Aethel.
- `laws`: what holds of the book as a whole.

Three calls leave the library and are trusted: SHA-256 (`sha2`), the decimal
text of a number (`serde_json`), and the decoding of an Ed25519 key
(`ed25519-dalek`). Evidence services are traits without promises; operations
state what they do for every reply.

`app/` is the host side: serialized copies of the records, errors with the
standard traits, and the calls into the key service, whose answers the library
takes as plain values.
