use blackjack::black_jack::strategy::basic_strategy::BasicStrategy8;
use blackjack::black_jack::strategy::basic_strategy::load_strategy_table;
use blackjack::black_jack::strategy::basic_strategy::BasicStrategyAction;
use blackjack::black_jack::strategy::{Action, Strategy};
use blackjack::black_jack::{Dealer, Player};

const HARD: &str = "H\tH\tH\tH\tH\tH\tH\tH\tH\tH
H\tH\tD\tD\tD\tD\tH\tH\tH\tH
H\tD\tD\tD\tD\tD\tD\tD\tD\tH
H\tD\tD\tD\tD\tD\tD\tD\tD\tD
H\tH\tH\tS\tS\tS\tH\tH\tH\tH
H\tS\tS\tS\tS\tS\tH\tH\tH\tH
H\tS\tS\tS\tS\tS\tH\tH\tH\tH
H\tS\tS\tS\tS\tS\tH\tH\tH\tRh
Rh\tS\tS\tS\tS\tS\tH\tH\tRh\tRh
S\tS\tS\tS\tS\tS\tS\tS\tS\tS";

const SOFT: &str = "H\tH\tH\tH\tH\tH\tH\tH\tH\tH
H\tH\tH\tH\tD\tD\tH\tH\tH\tH
H\tH\tH\tH\tD\tD\tH\tH\tH\tH
H\tH\tH\tD\tD\tD\tH\tH\tH\tH
H\tH\tH\tD\tD\tD\tH\tH\tH\tH
H\tH\tD\tD\tD\tD\tH\tH\tH\tH
H\tS\tDs\tDs\tDs\tDs\tS\tS\tH\tH
S\tS\tS\tS\tS\tS\tS\tS\tS\tS
S\tS\tS\tS\tS\tS\tS\tS\tS\tS
S\tS\tS\tS\tS\tS\tS\tS\tS\tS";

const SPLIT: &str = "P\tP\tP\tP\tP\tP\tP\tP\tP\tP
N\tPh\tPh\tP\tP\tP\tP\tN\tN\tN
N\tPh\tPh\tP\tP\tP\tP\tN\tN\tN
N\tN\tN\tN\tPh\tPh\tN\tN\tN\tN
N\tN\tN\tN\tN\tN\tN\tN\tN\tN
N\tPh\tP\tP\tP\tP\tN\tN\tN\tN
N\tP\tP\tP\tP\tP\tP\tN\tN\tN
P\tP\tP\tP\tP\tP\tP\tP\tP\tP
N\tP\tP\tP\tP\tP\tN\tP\tP\tN
N\tN\tN\tN\tN\tN\tN\tN\tN\tN";

fn strategy() -> BasicStrategy8 {
    BasicStrategy8::new(HARD.as_bytes(), SOFT.as_bytes(), SPLIT.as_bytes()).expect("tables")
}

#[test]
fn strategy_test() {
    let stra = strategy();
    for i in 1..=10 {
        let player = Player::from_arr(&[7, 9]);
        let dealer = Dealer::from_arr(&[i]);
        let a = stra.get(&player, &dealer);
        println!("{}", a.name());
    }
}

#[test]
fn hard_sixteen_follows_the_table() {
    let stra = strategy();
    let expected = [
        Action::Hit,
        Action::Stand,
        Action::Stand,
        Action::Stand,
        Action::Stand,
        Action::Stand,
        Action::Hit,
        Action::Hit,
        Action::Hit,
        Action::Hit,
    ];
    for i in 1..=10usize {
        let player = Player::from_arr(&[7, 9]);
        let dealer = Dealer::from_arr(&[i]);
        assert_eq!(stra.get(&player, &dealer), expected[i - 1], "dealer {}", i);
    }
}

#[test]
fn pairs_doubles_and_soft_hands() {
    let stra = strategy();
    // A pair of eights splits against a ten.
    assert_eq!(stra.get(&Player::from_arr(&[8, 8]), &Dealer::from_arr(&[10])), Action::Split);
    // A pair of twos against a 3 is "Ph": no doubling after a split, so no split;
    // hard 4 hits.
    assert_eq!(stra.get(&Player::from_arr(&[2, 2]), &Dealer::from_arr(&[3])), Action::Hit);
    // Eleven doubles against a 6.
    assert_eq!(stra.get(&Player::from_arr(&[5, 6]), &Dealer::from_arr(&[6])), Action::Double);
    // Eleven with three cards cannot double: hits.
    assert_eq!(stra.get(&Player::from_arr(&[2, 3, 6]), &Dealer::from_arr(&[6])), Action::Hit);
    // Soft 18 against a 4 is "Ds": doubles with two cards, stands with three.
    assert_eq!(stra.get(&Player::from_arr(&[1, 7]), &Dealer::from_arr(&[4])), Action::Double);
    assert_eq!(stra.get(&Player::from_arr(&[1, 3, 4]), &Dealer::from_arr(&[4])), Action::Stand);
    // A pair of tens does not split; hard 20 stands.
    assert_eq!(stra.get(&Player::from_arr(&[10, 10]), &Dealer::from_arr(&[1])), Action::Stand);
}

#[test]
fn table_text_parsing() {
    let t = load_strategy_table(b"H\tS\r\nD").expect("parses");
    assert_eq!(t.len(), 100);
    assert_eq!(t[0], BasicStrategyAction::Hit);
    assert_eq!(t[1], BasicStrategyAction::Stand);
    assert_eq!(t[10], BasicStrategyAction::Double);
    assert_eq!(t[11], BasicStrategyAction::Hit);
    assert_eq!(t[99], BasicStrategyAction::Hit);
    // Unknown cell, trailing newline (an empty last line), too many cells.
    assert!(load_strategy_table(b"H\tX").is_none());
    assert!(load_strategy_table(b"H\n").is_none());
    assert!(load_strategy_table(b"").is_none());
    assert!(load_strategy_table(b"H\tH\tH\tH\tH\tH\tH\tH\tH\tH\tH").is_none());
    let eleven_lines = vec!["H"; 11].join("\n");
    assert!(load_strategy_table(eleven_lines.as_bytes()).is_none());
    let all = "Ph\tDs\tRh\tRs\tN\tP";
    let t = load_strategy_table(all.as_bytes()).expect("parses");
    assert_eq!(
        &t[0..6],
        &[
            BasicStrategyAction::SplitIfDoubleable,
            BasicStrategyAction::DoubleElseStand,
            BasicStrategyAction::Surrender,
            BasicStrategyAction::SurrenderElseStand,
            BasicStrategyAction::NoSplit,
            BasicStrategyAction::Split,
        ]
    );
}

#[test]
fn misplaced_entries_leave_the_hand_unanswered() {
    // A pair entry in the hard table: the strategy loads, but has no answer
    // for the hand that consults that cell.
    let bad_hard = HARD.replacen("H", "P", 1);
    let s = BasicStrategy8::new(bad_hard.as_bytes(), SOFT.as_bytes(), SPLIT.as_bytes()).unwrap();
    assert!(!s.answers(&Player::from_arr(&[2, 3]), &Dealer::from_arr(&[1])));
    assert!(s.answers(&Player::from_arr(&[2, 3]), &Dealer::from_arr(&[2])));
    // A pair table that leaves cells at the default `Hit`.
    let s = BasicStrategy8::new(HARD.as_bytes(), SOFT.as_bytes(), b"P").unwrap();
    assert!(s.answers(&Player::from_arr(&[1, 1]), &Dealer::from_arr(&[1])));
    assert!(!s.answers(&Player::from_arr(&[2, 2]), &Dealer::from_arr(&[2])));
    assert!(s.answers(&Player::from_arr(&[2, 3]), &Dealer::from_arr(&[2])));
    assert!(BasicStrategy8::new(b"Q", SOFT.as_bytes(), SPLIT.as_bytes()).is_none());
    let good = strategy();
    assert!(good.answers(&Player::from_arr(&[8, 8]), &Dealer::from_arr(&[10])));
}

#[test]
fn an_empty_hand_reads_the_first_hard_row() {
    let stra = strategy();
    let empty = Player::from_arr(&[]);
    assert!(stra.answers(&empty, &Dealer::from_arr(&[2])));
    assert_eq!(stra.get(&empty, &Dealer::from_arr(&[2])), Action::Hit);
}
