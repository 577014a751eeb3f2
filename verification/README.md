# marketplace

A verified NFT marketplace in the style of a CosmWasm contract. Sellers list
cw721 tokens at a price in a native coin or a cw20 token; buyers place
auction bids on a token, collection bids on any token of a collection, or buy
at the listed price. A sale refunds the other bids on the token, pays the
collection's royalty members their portions of the royalty, pays the seller
the rest and sends the token to the buyer.

Layout:

- `src/` — the library, verified with Verus.
  - `decimal.rs` — fixed-point portions, computed by `cosmwasm_std`.
  - `types.rs` — records, messages and the chain messages the marketplace emits.
  - `model.rs` — the state as sequences and what each message does to it.
  - `market.rs` — the marketplace and its message handlers, proved to follow `model.rs`.
  - `settle.rs` — splitting a price between royalty members and the seller.
  - `encode.rs` — turning payments into bank sends and cw20/cw721 transfers.
  - `query.rs`, `volume.rs`, `expiry.rs` — paged queries, traded volume, and
    a bidder's bids ordered by expiry.
  - `sums.rs`, `laws.rs` — the properties that hold across messages: every
    sale pays out exactly its price, the escrow always balances, taking back
    a bid undoes placing it, the marketplace holds exactly the listed tokens,
    listings stay unique, royalty rules stay valid.
- `tests/` — scenarios run against the compiled library.
- `app/` — the contract's entry points: JSON messages, storage, and the
  conversions to and from the library's types.
