# schwab_bot

A trading bot that watches configured equities at Charles Schwab and Interactive Brokers, derives
momentum signals from their quotes, checks every order for risk, and sends limit orders.

The logic is a Verus library: each function states in its contract what it returns or changes, and
Verus proves it. The program around it talks to the brokers and to a Telegram chat, hands the
library what was answered, and carries out what the library decides.

## Layout

- `src/` – the verified library.
  - `decimal`, `format`, `text`, `table`, `clock`, `json` – numbers with eight decimal places and
    how they are written, text helpers, an ordered table, points in time, reading JSON.
  - `models`, `bot` – the data and the state of the bot.
  - `accounts`, `settings`, `setup` – which accounts are named, where the gateway is, how the bot
    starts.
  - `history` – when symbols were last ordered.
  - `schwab`, `ibkr`, `quotes`, `update` – what the brokers answer and how it is taken in.
  - `signals`, `strategy` – signals and one run of the strategy.
  - `risk`, `orders`, `fills` – the checks, the way of an order, and what becomes of it.
  - `report`, `status` – the texts for the chat.
- `tests/` – tests of the library on concrete values.
- `app/` – the program: connections, configuration file, audit files, chat.

## Numbers

Money, share counts and percentages are whole numbers of hundred-millionths. Binary floating-point
numbers are converted at the edge, to the nearest such number. Volumes are whole numbers.

## Proved properties

Public proof functions whose names start with `law_` state what holds of the library as a whole:
among them that no symbol is ordered twice on one day, also across a restart, that a buy which
passes is covered by cash and keeps its position within one hundredth of the portfolio value (where
none is known, of the account's second balance: the liquidation value of a cash account, the buying
power of a margin account), that signals never want more shares than their amount buys, that only
the broker of an account has a say on its balances and positions, and that a failed order stops
neither the others nor the report.

## What is trusted

The contracts of a few outside functions are believed without proof. Each stands with a comment
where it is declared: `String::push` and `str::to_uppercase` in `text`, four calls into `chrono` in
`clock`, and five into `serde_json` in `json`.
