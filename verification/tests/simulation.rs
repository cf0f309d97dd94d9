use blackjack::black_jack::deck::Deck;
use blackjack::black_jack::strategy::basic_strategy::BasicStrategy8;
use blackjack::black_jack::{BJResult, Dealer, Player};
use blackjack::simulation::{hand_profit_halves, play_on_strategy, settle};

fn always_stand() -> BasicStrategy8 {
    let row = vec!["S"; 10].join("\t");
    let table = vec![row.as_str(); 10].join("\n");
    let nrow = vec!["N"; 10].join("\t");
    let split = vec![nrow.as_str(); 10].join("\n");
    BasicStrategy8::new(table.as_bytes(), table.as_bytes(), split.as_bytes()).unwrap()
}

#[test]
fn hand_profits_in_half_bets() {
    assert_eq!(hand_profit_halves(BJResult::BJ, false), 3);
    assert_eq!(hand_profit_halves(BJResult::Win, false), 2);
    assert_eq!(hand_profit_halves(BJResult::Win, true), 4);
    assert_eq!(hand_profit_halves(BJResult::Push, false), 0);
    assert_eq!(hand_profit_halves(BJResult::Lose, true), -4);
    assert_eq!(hand_profit_halves(BJResult::Surrender, false), -1);
}

#[test]
fn settle_adds_up_the_hands() {
    let players = vec![Player::from_arr(&[10, 10]), Player::from_arr(&[1, 10]), Player::from_arr(&[10, 6])];
    let dealer = Dealer::from_arr(&[10, 9]);
    // Win (+2), natural (+3), lose (-2).
    assert_eq!(settle(&players, &dealer), 3);
    assert_eq!(settle(&Vec::new(), &dealer), 0);
}

#[test]
fn a_round_on_a_shoe_of_tens() {
    // Only tens: the dealer and the player hold 20 each and the player stands.
    let mut deck = Deck::new(1);
    for r in 1..=9 {
        deck.set(r, 0);
    }
    let strategy = always_stand();
    assert_eq!(play_on_strategy(&mut deck, &strategy), Some(0));
    assert_eq!(deck.sum(), 16 - 4);
}

#[test]
fn rounds_stay_within_bounds() {
    let deck = Deck::new(8);
    let strategy = always_stand();
    for _ in 0..2000 {
        let p = play_on_strategy(&mut deck.clone(), &strategy).unwrap();
        assert!((-8..=8).contains(&p));
    }
}
