# cassino

A Discord casino bot. Players collect coins over time, buy and upgrade
businesses that raise their income, and bet coins in four games: par ou
ímpar, a slot machine (caça-níquel), HighLow and duels between members.

## Layout

- `src/` — the verified library (Verus): the game rules, the economy and
  the bookkeeping decisions:
  - `model` — player records and the business catalog;
  - `rewards` — income per interval, the collection cap, pending rewards and
    what a collection changes;
  - `records` — new player records, bet history entries, profile statistics;
  - `bets` — reading and checking a stake (`allwin` or a number);
  - `parity`, `niquel`, `cards`/`deck`/`highlow`, `duel` — the games; HighLow
    is a state machine stepped by button presses;
  - `shop` — catalog navigation, purchases and upgrades;
  - `ranking` — the stable coin and business rankings;
  - `commands` — slash-command registration, the help topics, admin checks;
  - `clock`, `text` — the system clock and the string operations the rules use.
- `app/` — the bot itself: Discord commands and embeds (poise/serenity),
  MongoDB reads and writes, and the payout formulas that use floating point
  (the HighLow multiplier and cash-out bonus, the slot-machine line payouts).
- `tests/` — tests of the library on concrete values.
