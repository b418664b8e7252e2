# polyarb

An arbitrage engine between the Binance BTC spot price and Polymarket's
15-minute BTC up/down markets, written in Verus.

When the spot price stands more than 0.3% (of itself) away from the price a
contract implies (the strike its question names, or else the start price of
the current 15-minute window) while the contract's price has not been updated
for more than 200ms, the detector emits a signal to buy the side the move
favours, with that distance over the spot price as its edge. The risk
manager approves a size or rejects the signal; approved signals open simulated
positions, which close when their window ends or when they have gained 2%.
Every entry and exit goes to a trade journal, written out as daily CSV files.

## Layout

- `src/` — the verified library:
  - `fixed` — fixed-point numbers (millionths) and their decimal text,
  - `window` — the 15-minute market windows,
  - `engine` — market state, signals and detection,
  - `risk` — the risk gate and capital ledger, with its laws in `risk::laws`,
  - `execution` — simulated execution,
  - `logger` — the trade journal and its CSV rows,
  - `feeds` — turning Binance trades and Polymarket listings into updates,
  - `config` — settings.
- `app/` — the program around it: configuration loading, the WebSocket and
  HTTP feeds, the tasks that drive the detector and the executor, and the
  CSV files.
- `tests/` — tests of the library.

## Numbers

Prices, probabilities and USDC amounts are integers in millionths: `0.5` is
`500_000`, 20 USDC is `20_000_000`. Edges and the edge threshold are integers
in billionths: an edge of 0.3% is `3_000_000`. Decimal text is rounded to the
nearest, a tie to the even digit.
Durations that are fractional milliseconds are millionths of a millisecond.
