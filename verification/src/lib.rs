//! A blackjack table model: cards, hands, the shoe, the dealer and player
//! rules, the settlement of a round, a table-driven basic strategy, and the
//! table-side state that the calculator keeps (selection, stepping through a
//! round, settings, texts).

pub mod black_jack;
pub mod calculator;
pub mod simulation;
