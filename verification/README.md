# polymarket_arbitrage_bot

A bot for Polymarket's fifteen-minute up/down markets. When a market starts it offers to
buy both sides at a limit price, and then looks after what was bought: it sells, stops
losses, and redeems what won.

- `src/` is the library, verified with Verus: the rules that the trader decides by, the
  procedures that talk to the exchange (each a step from a state and a reply to the next
  state and the next request), the requests themselves, and how replies are read.
- `app/` is the program around it: arguments, configuration, HTTP, files, timers.
- `tests/` runs the library on concrete values.

Prices and shares are whole millionths; values and profit are whole millionths of
millionths of a dollar; quotes are exact decimals.

The program talks to the exchange over HTTP, with requests signed by the API secret. It
does not sign orders with the private key. The commands about approvals need the
contracts' addresses in the configuration (`contracts`); none are built in. Without
`--no-simulation` nothing is ordered.
