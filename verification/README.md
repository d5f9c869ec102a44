# Inheritance plans

The rules of a service that keeps inheritance plans: a plan names an owner, a token, an amount
and the heirs who share it; the owner shows a sign of life by signed pings, and each ping credits
the yield since the last one. A listing shows each plan with the yield that it has accrued by
then.

`src/` is the library, written and verified with Verus.

- `model` holds the requests, the stored rows and the answers; `reply` the kinds of answers.
- `plan` says which plans are accepted and what is stored of them.
- `create`, `list` and `ping` decide, step by step, what a request asks of the database, the
  clock and the yield formula, and what is answered in the end. `create_laws`, `list_laws` and
  `ping_laws` prove what holds of every request from beginning to end.
- `store` says what the tables hold and what the database has to report of them; `store_laws`
  proves what then holds across requests.
- `signature` decides whether a message was signed by the account that it names.
- `amount`, `binary64`, `yields` and `text` hold money, the binary numbers that requests carry,
  the time and rate of yield, and text.
- `payout` lists the payouts of the registry of anchors; `routes` lists the endpoints.

Signatures, account addresses, hexadecimal text and decimal sums come from `ed25519-dalek`,
`stellar-strkey`, `hex` and `rust_decimal`. What the proofs rest on there is said at the function
that makes each call.

`app/` is the HTTP service around the library. The yield formula, the registry of anchors and how
it lists its payouts, the signature check of user routes, the KYC webhook and the KYC socket are
handed to it.
