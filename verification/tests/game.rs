use blackjack::black_jack::card::Card;
use blackjack::black_jack::deck::Deck;
use blackjack::black_jack::hand::Hand;
use blackjack::black_jack::{judge, BJResult, Dealer, Player};
use rand::Rng;

fn show(cards: &[Card]) -> String {
    cards.iter().map(|c| format!("{} ", c.symbol())).collect()
}

#[test]
fn dealer_test() {
    let mut rng = rand::thread_rng();
    let mut deck = Deck::new(4);
    let mut d = Dealer::from_arr(&[rng.gen_range(1..=10)]);
    d.drow(&mut deck);
    println!("{}\n{:?}", show(&d.cards()), d.status());
    assert!(d.status().0 >= 17);
}

#[test]
fn split_test() {
    let mut deck = Deck::new(4);
    let mut p = Player::from_arr(&[3, 3]);
    let (m, flag) = p.split(&mut deck);
    println!("{} splitted={} doubled={} ", show(&p.cards()), p.is_splitted(), p.doubled);
    println!("{} splitted={} doubled={} ", show(&m.cards()), m.is_splitted(), m.doubled);
    println!("{}", flag);
    assert_eq!(p.cards().len(), 2);
    assert_eq!(m.cards().len(), 2);
    assert_eq!(p.cards()[0].suit, 3);
    assert_eq!(m.cards()[0].suit, 3);
    assert!(p.is_splitted() && m.is_splitted());
    assert!(!flag);
    assert_eq!(deck.sum(), 208 - 2);
}

#[test]
fn deck_test1() {
    let mut result = [0; 10];
    let times = 1000000;
    for _ in 0..times {
        let mut deck = Deck::new(1);
        let temp = deck.draw_random();
        result[temp.suit as usize - 1] += 1;
    }
    for &item in result.iter() {
        println!("{}", item as f32 / times as f32);
    }
    assert_eq!(result.iter().sum::<i32>(), times);
}

#[test]
fn deck_test2() {
    let mut deck = Deck::new(1);
    for _ in 0..52 {
        deck.draw_random();
    }
    let counts: Vec<String> = (1..=10).map(|i| deck.index(i).to_string()).collect();
    println!("{}", counts.join(" "));
    assert_eq!(deck.sum(), 0);
    // An empty shoe gives a ten and stays empty.
    assert_eq!(deck.draw_random().suit, 10);
    assert_eq!(deck.sum(), 0);
}

#[test]
fn card_new_accepts_ranks_one_to_ten() {
    assert_eq!(Card::new(1).unwrap().suit, 1);
    assert_eq!(Card::new(10).unwrap().suit, 10);
    assert_eq!(Card::new(0).unwrap_err(), "Cardを1~10以外で定義しようとしました");
    assert!(Card::new(11).is_err());
    assert_eq!(Card::new(7).unwrap().to_usize(), 6);
    let symbols: String = (1..=10).map(|i| Card::new(i).unwrap().symbol()).collect();
    assert_eq!(symbols, "A23456789T");
    assert_eq!(Card { suit: 0 }.symbol(), '_');
}

#[test]
fn hand_values() {
    assert_eq!(Hand::from_arr(&[1, 6]).unwrap().status(), (17, true));
    assert_eq!(Hand::from_arr(&[1, 6, 10]).unwrap().status(), (17, false));
    assert_eq!(Hand::from_arr(&[1, 1]).unwrap().status(), (12, true));
    assert_eq!(Hand::from_arr(&[10, 10, 5]).unwrap().status(), (25, false));
    assert_eq!(Hand::from_arr(&[]).unwrap().status(), (0, false));
    assert_eq!(Hand::from_arr(&[1]).unwrap().status(), (11, true));
    assert!(Hand::from_arr(&[3, 11, 2]).is_err());
    let mut h = Hand::from_arr(&[2, 3]).unwrap();
    h.add(Card::new(4).unwrap());
    assert_eq!(h.len(), 3);
    h.pop();
    assert_eq!(h.len(), 2);
    assert_eq!(h.index(1).suit, 3);
    let mut e = Hand::new();
    e.pop();
    assert_eq!(e.len(), 0);
}

#[test]
fn judge_outcomes() {
    let bj = Player::from_arr(&[1, 10]);
    let twenty = Player::from_arr(&[10, 10]);
    let bust = Player::from_arr(&[10, 10, 5]);
    let mut surrendered = Player::from_arr(&[10, 6]);
    surrendered.surrender();
    assert_eq!(judge(&bj, &Dealer::from_arr(&[10, 1])), BJResult::Push);
    assert_eq!(judge(&twenty, &Dealer::from_arr(&[10, 1])), BJResult::Lose);
    assert_eq!(judge(&bj, &Dealer::from_arr(&[10, 10])), BJResult::BJ);
    assert_eq!(judge(&bust, &Dealer::from_arr(&[10, 6, 10])), BJResult::Lose);
    assert_eq!(judge(&twenty, &Dealer::from_arr(&[10, 6, 10])), BJResult::Win);
    assert_eq!(judge(&twenty, &Dealer::from_arr(&[10, 9])), BJResult::Win);
    assert_eq!(judge(&twenty, &Dealer::from_arr(&[10, 10])), BJResult::Push);
    assert_eq!(judge(&Player::from_arr(&[10, 7]), &Dealer::from_arr(&[10, 8])), BJResult::Lose);
    assert_eq!(judge(&surrendered, &Dealer::from_arr(&[10, 1])), BJResult::Surrender);
    // 21 with three cards is no natural.
    assert_eq!(judge(&Player::from_arr(&[7, 7, 7]), &Dealer::from_arr(&[10, 10, 1])), BJResult::Push);
}

#[test]
fn player_flags() {
    let p = Player::from_arr(&[5, 5]);
    assert!(p.doubleable());
    assert!(p.splittable());
    assert_eq!(p.status(), (10, false));
    let q = Player::from_arr(&[5, 6, 2]);
    assert!(!q.doubleable());
    assert!(!q.splittable());
    let mut deck = Deck::new(1);
    let mut aces = Player::from_arr(&[1, 1]);
    let (other, flag) = aces.split(&mut deck);
    assert!(flag);
    // Split hands may neither double (no doubling after a split) nor split again,
    // and 21 from a split is no natural.
    assert!(!aces.doubleable());
    assert!(!other.splittable());
    let mut d = Player::from_arr(&[5, 6]);
    d.double(&mut deck);
    assert!(d.doubled && d.is_doubled());
    assert_eq!(d.cards().len(), 3);
    assert_eq!(deck.sum(), 52 - 3);
}

#[test]
fn draw_at_counts_from_the_tens_down() {
    let mut deck = Deck::new(1);
    assert_eq!(deck.sum(), 52);
    // Tickets 0..16 fall on the tens, 16..20 on the nines, 48..52 on the aces.
    assert_eq!(deck.draw_at(0).suit, 10);
    assert_eq!(deck.index(10), 15);
    assert_eq!(deck.draw_at(15).suit, 9);
    assert_eq!(deck.index(9), 3);
    assert_eq!(deck.draw_at(49).suit, 1);
    assert_eq!(deck.index(1), 3);
    assert_eq!(deck.sum(), 49);
    // A ticket beyond the cards left gives a ten and takes nothing.
    assert_eq!(deck.draw_at(49).suit, 10);
    assert_eq!(deck.sum(), 49);
    deck.set(10, 0);
    assert_eq!(deck.index(10), 0);
    assert_eq!(deck.draw_at(0).suit, 9);
}

#[test]
fn dealer_draws_to_seventeen() {
    let mut deck = Deck::new(1);
    for r in 1..=9 {
        deck.set(r, 0);
    }
    deck.set(10, 5);
    let mut d = Dealer::from_arr(&[6]);
    d.drow(&mut deck);
    assert_eq!(d.cards().len(), 3);
    assert_eq!(d.status(), (26, false));
    assert_eq!(deck.sum(), 3);
    let mut s = Dealer::from_arr(&[1, 6]);
    s.drow(&mut deck);
    assert_eq!(s.cards().len(), 2);
    let created = Dealer::create(&mut deck);
    assert_eq!(created.cards().len(), 2);
    assert_eq!(deck.sum(), 1);
    assert_eq!(*created.up_card(), Card::new(10).unwrap());
}

#[test]
fn a_surrendered_hand_is_judged_without_its_value() {
    // Twenty-six tens: a value that does not fit in `u8`.
    let mut p = Player::from_arr(&[10; 26]);
    p.surrender();
    assert_eq!(judge(&p, &Dealer::from_arr(&[10, 1])), BJResult::Surrender);
}

#[test]
fn hand_value_ignores_order() {
    assert_eq!(Hand::from_arr(&[1, 5, 10]).unwrap().status(), Hand::from_arr(&[10, 1, 5]).unwrap().status());
    assert_eq!(Hand::from_arr(&[6, 1]).unwrap().status(), Hand::from_arr(&[1, 6]).unwrap().status());
}
