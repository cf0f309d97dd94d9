# blackjack

A blackjack table model with machine-checked contracts (Verus).

- `src/black_jack/`: cards, hands and their values, the shoe and its random
  draw, the dealer and player rules, judging a hand (`black_jack.rs`), the
  rules in force (`rule.rs`), and the table-driven basic strategy with the
  reader for its table texts (`strategy/`).
- `src/simulation.rs`: playing and settling one round on the basic strategy,
  results in half bets.
- `src/calculator/`: the table-side state of the calculator: selection and
  stepping through a round, the expected-value controller, the settings and
  their windows, the interface texts, activation.
- `app/main.rs`: plays 10000 rounds on an eight-deck shoe with the strategy
  read from `./Strategy/BasicStrategy/{hard,soft,split}.txt` and prints the
  net result in bets.

A strategy table text has one line per row and one tab-separated cell per
column (dealer's up card, ace first); cells are `H`, `S`, `P`, `N`, `Ph`, `D`,
`Ds`, `Rh`, `Rs`, and the text must not end with a newline.
