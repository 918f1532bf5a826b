# lwd_mixnet_proxy

The decisions behind carrying a Zcash light wallet's gRPC connection over the Nym mixnet, each
stated and proved.

- `src/health.rs`: the three startup states a half reports, which only ever move forward.
- `src/splice.rs`: the stall and idle watchdog that ends a spliced connection whose far side went
  silent, and the byte counts it reads.
- `src/dial.rs`: how stream attempts are grouped into rounds and each round is run, spending every
  attempt allowed and no more.
- `src/operations.rs`: giving up on a local client that refuses every open, the serving half's
  capacity, and the counts behind the pair of reported rates.
- `src/endpoint.rs`: how `/metrics` and `/health` answer.
- `src/measure.rs`: the bookkeeping of measuring the dialling.

Times and deadlines are counts of milliseconds. `app/` runs these against the network: the HTTP
server, the byte pumps and their ticker, the dialling loop, and signal handling.
