pub mod card;
pub mod deck;
pub mod hand;
pub mod rule;
pub mod strategy;

use vstd::prelude::*;

use card::Card;
use deck::{Deck, drawn_from, one_draw};
use hand::{Hand, hand_value, raw_sum, all_valid, cards_of, lemma_raw_sum_push};

verus! {

/// How a player's hand ends against the dealer's.
#[derive(Clone, Copy, PartialEq, Eq, Structural, Debug)]
pub enum BJResult {
    BJ,
    Win,
    Push,
    Lose,
    Surrender,
}

/// What the player's hand holds and what was done with it.
pub struct PlayerView {
    pub cards: Seq<Card>,
    pub splitted: bool,
    pub doubled: bool,
    pub surrender: bool,
}

/// A dealer's value and whether the hand is a natural (21 with two cards).
pub open spec fn dealer_status(cards: Seq<Card>) -> (int, bool) {
    let v = hand_value(cards).0;
    (v, v == 21 && cards.len() == 2)
}

/// A player's value and whether the hand is a natural: 21 with two cards
/// that did not come from a split.
pub open spec fn player_status(p: PlayerView) -> (int, bool) {
    let v = hand_value(p.cards).0;
    (v, v == 21 && p.cards.len() == 2 && !p.splitted)
}

/// The outcome of a player's hand against the dealer's.
pub open spec fn judge_spec(p: PlayerView, dealer: Seq<Card>) -> BJResult {
    let (dealer_sum, dealer_bj) = dealer_status(dealer);
    let (player_sum, player_bj) = player_status(p);
    if p.surrender {
        BJResult::Surrender
    } else if dealer_bj && player_bj {
        BJResult::Push
    } else if dealer_bj {
        BJResult::Lose
    } else if player_bj {
        BJResult::BJ
    } else if player_sum > 21 {
        BJResult::Lose
    } else if dealer_sum > 21 {
        BJResult::Win
    } else if player_sum > dealer_sum {
        BJResult::Win
    } else if player_sum < dealer_sum {
        BJResult::Lose
    } else {
        BJResult::Push
    }
}

/// Draws that follow draws compose.
pub proof fn lemma_drawn_from_push(a: Seq<u16>, cards: Seq<Card>, b: Seq<u16>, c: Card, d: Seq<u16>)
    requires
        drawn_from(a, cards, b),
        one_draw(b, c, d),
    ensures
        drawn_from(a, cards.push(c), d),
    decreases cards.len(),
{
    if cards.len() == 0 {
        assert(cards.push(c).drop_first() =~= Seq::<Card>::empty());
        assert(drawn_from(d, Seq::<Card>::empty(), d));
        assert(one_draw(a, cards.push(c)[0], d));
    } else {
        let mid = choose|mid: Seq<u16>|
            #[trigger] one_draw(a, cards[0], mid) && drawn_from(mid, cards.drop_first(), b);
        lemma_drawn_from_push(mid, cards.drop_first(), b, c, d);
        assert(cards.push(c).drop_first() =~= cards.drop_first().push(c));
        assert(cards.push(c)[0] == cards[0]);
    }
}

/// A surrendered hand is always settled as a surrender; otherwise a player
/// who busts loses, whatever the dealer holds.
pub proof fn lemma_judge_player_bust(p: PlayerView, dealer: Seq<Card>)
    requires
        !p.surrender,
        player_status(p).0 > 21,
    ensures
        judge_spec(p, dealer) == BJResult::Lose,
{
}

/// Against a dealer's natural, every hand that is not a natural (and not
/// surrendered) loses, and a natural pushes.
pub proof fn lemma_judge_dealer_natural(p: PlayerView, dealer: Seq<Card>)
    requires
        !p.surrender,
        dealer_status(dealer).1,
    ensures
        judge_spec(p, dealer) == if player_status(p).1 {
            BJResult::Push
        } else {
            BJResult::Lose
        },
{
}

/// When neither hand is a natural, the hand is not surrendered and neither
/// hand has busted, the values decide: counting one ace as 11 where that
/// keeps a hand at 21 or below, the higher value wins and equal values push.
/// A soft hand counts at its high value, for the dealer as for the player.
pub proof fn lemma_judge_by_values(p: PlayerView, dealer: Seq<Card>)
    requires
        !p.surrender,
        !(hand_value(p.cards).0 == 21 && p.cards.len() == 2 && !p.splitted),
        !(hand_value(dealer).0 == 21 && dealer.len() == 2),
        hand_value(p.cards).0 <= 21,
        hand_value(dealer).0 <= 21,
    ensures
        judge_spec(p, dealer) == BJResult::Win <==> hand_value(p.cards).0 > hand_value(dealer).0,
        judge_spec(p, dealer) == BJResult::Lose <==> hand_value(p.cards).0 < hand_value(dealer).0,
        judge_spec(p, dealer) == BJResult::Push <==> hand_value(p.cards).0 == hand_value(
            dealer,
        ).0,
{
}

/// A dealer's hand matters only through its value and whether it is a
/// natural: two dealer hands alike in both judge every hand alike, whether
/// they are soft or hard.
pub proof fn lemma_judge_dealer_value_only(p: PlayerView, d1: Seq<Card>, d2: Seq<Card>)
    requires
        hand_value(d1).0 == hand_value(d2).0,
        (hand_value(d1).0 == 21 && d1.len() == 2) == (hand_value(d2).0 == 21 && d2.len() == 2),
    ensures
        judge_spec(p, d1) == judge_spec(p, d2),
{
}

/// A player's hand matters only through its value, whether it is a natural
/// and whether it was surrendered: two hands alike in these are judged alike
/// against every dealer hand, whether they are soft or hard.
pub proof fn lemma_judge_player_value_only(p1: PlayerView, p2: PlayerView, dealer: Seq<Card>)
    requires
        hand_value(p1.cards).0 == hand_value(p2.cards).0,
        (hand_value(p1.cards).0 == 21 && p1.cards.len() == 2 && !p1.splitted) == (hand_value(
            p2.cards,
        ).0 == 21 && p2.cards.len() == 2 && !p2.splitted),
        p1.surrender == p2.surrender,
    ensures
        judge_spec(p1, dealer) == judge_spec(p2, dealer),
{
}

/// A hand that came from a split is never a natural, so it is never paid as
/// one.
pub proof fn lemma_split_hand_not_natural(p: PlayerView, dealer: Seq<Card>)
    requires
        p.splitted,
    ensures
        !player_status(p).1,
        judge_spec(p, dealer) != BJResult::BJ,
{
}

/// Draws that follow draws compose, sequence after sequence.
pub proof fn lemma_drawn_from_concat(a: Seq<u16>, x: Seq<Card>, b: Seq<u16>, y: Seq<Card>, c: Seq<u16>)
    requires
        drawn_from(a, x, b),
        drawn_from(b, y, c),
    ensures
        drawn_from(a, x + y, c),
    decreases x.len(),
{
    if x.len() == 0 {
        assert(x + y =~= y);
    } else {
        let mid = choose|mid: Seq<u16>|
            #[trigger] one_draw(a, x[0], mid) && drawn_from(mid, x.drop_first(), b);
        lemma_drawn_from_concat(mid, x.drop_first(), b, y, c);
        assert((x + y).drop_first() =~= x.drop_first() + y);
        assert((x + y)[0] == x[0]);
        assert(one_draw(a, (x + y)[0], mid) && drawn_from(mid, (x + y).drop_first(), c));
    }
}

/// Judges a player's hand against the dealer's.
pub fn judge(player: &Player, dealer: &Dealer) -> (r: BJResult)
    requires
        player@.surrender || (player.countable() && dealer.countable()),
    ensures
        r == judge_spec(player@, dealer@),
{
    if player.surrender {
        return BJResult::Surrender;
    }
    let (dealer_sum, is_dealer_bj) = dealer.status();
    let (player_sum, is_player_bj) = player.status();

    if is_dealer_bj && is_player_bj {
        return BJResult::Push;
    }
    if is_dealer_bj {
        return BJResult::Lose;
    }
    if is_player_bj {
        return BJResult::BJ;
    }
    let is_player_bust = player_sum > 21;
    if is_player_bust {
        return BJResult::Lose;
    }
    let is_dealer_bust = dealer_sum > 21;
    if is_dealer_bust {
        return BJResult::Win;
    }
    if player_sum > dealer_sum {
        BJResult::Win
    } else if player_sum < dealer_sum {
        BJResult::Lose
    } else {
        BJResult::Push
    }
}

/// The dealer's hand.
pub struct Dealer {
    hand: Hand,
}

impl View for Dealer {
    type V = Seq<Card>;

    closed spec fn view(&self) -> Seq<Card> {
        self.hand@
    }
}

impl Clone for Dealer {
    fn clone(&self) -> (d: Dealer)
        ensures
            d@ == self@,
    {
        Dealer { hand: self.hand.clone() }
    }
}

impl Dealer {
    /// The dealer's value can be computed without leaving `u8`.
    pub open spec fn countable(&self) -> bool {
        raw_sum(self@) <= 255
    }

    /// Every card of the dealer has a rank in 1..=10.
    pub open spec fn wf(&self) -> bool {
        all_valid(self@)
    }

    fn new() -> (d: Self)
        ensures
            d@ == Seq::<Card>::empty(),
    {
        Dealer { hand: Hand::new() }
    }

    /// Deals the dealer's opening cards from the shoe: the up card, and the
    /// hole card when the rules give one.
    pub fn create(deck: &mut Deck) -> (d: Self)
        requires
            old(deck).countable(),
        ensures
            d@.len() == if rule::DEALER_HOLE_CARD { 2int } else { 1int },
            drawn_from(old(deck)@, d@, final(deck)@),
            d.wf(),
            d.countable(),
            final(deck).countable(),
    {
        let mut temp = Self::new();
        let ghost d0 = deck@;
        let c = deck.draw_random();
        temp.hand.add(c);
        proof {
            assert(drawn_from(d0, Seq::<Card>::empty(), d0));
            lemma_drawn_from_push(d0, Seq::<Card>::empty(), d0, c, deck@);
            assert(Seq::<Card>::empty().push(c) =~= temp@);
            lemma_raw_sum_push(Seq::<Card>::empty(), c);
        }
        if rule::DEALER_HOLE_CARD {
            let ghost d1 = deck@;
            let ghost s1 = temp@;
            let c2 = deck.draw_random();
            temp.hand.add(c2);
            proof {
                lemma_drawn_from_push(d0, s1, d1, c2, deck@);
                lemma_raw_sum_push(s1, c2);
            }
        }
        temp
    }

    /// The dealer holding the ranks in `arr`.
    pub fn from_arr(arr: &[usize]) -> (d: Self)
        requires
            forall|i: int| 0 <= i < arr@.len() ==> Card::valid_rank(#[trigger] arr@[i] as int),
        ensures
            d@ == cards_of(arr@),
    {
        Dealer { hand: Hand::from_arr(arr).unwrap() }
    }

    /// The dealer draws until the hand is worth 17 or more (standing on soft
    /// 17), each card taken at random from the shoe.
    pub fn drow(&mut self, deck: &mut Deck)
        requires
            old(self).countable(),
            old(deck).countable(),
        ensures
            final(self)@.len() >= old(self)@.len(),
            final(self)@.take(old(self)@.len() as int) == old(self)@,
            drawn_from(old(deck)@, final(self)@.skip(old(self)@.len() as int), final(deck)@),
            hand_value(final(self)@).0 >= 17,
            forall|k: int|
                old(self)@.len() <= k < final(self)@.len() ==> hand_value(
                    #[trigger] final(self)@.take(k),
                ).0 < 17,
            final(self).countable(),
            final(deck).countable(),
    {
        let ghost h0 = self@;
        let ghost d0 = deck@;
        proof {
            assert(self@.skip(h0.len() as int) =~= Seq::<Card>::empty());
            assert(self@.take(h0.len() as int) =~= h0);
        }
        loop
            invariant
                self.countable(),
                deck.countable(),
                self@.len() >= h0.len(),
                self@.take(h0.len() as int) == h0,
                drawn_from(d0, self@.skip(h0.len() as int), deck@),
                forall|k: int|
                    h0.len() <= k < self@.len() ==> hand_value(#[trigger] self@.take(k)).0 < 17,
            ensures
                hand_value(self@).0 >= 17,
            decreases 255 - raw_sum(self@),
        {
            let (sum, _) = self.hand.status();
            if sum >= 17 {
                break;
            }
            let ghost before = self@;
            let ghost dk = deck@;
            let c = deck.draw_random();
            self.hand.add(c);
            proof {
                lemma_raw_sum_push(before, c);
                assert(hand_value(before).0 >= raw_sum(before));
                lemma_drawn_from_push(d0, before.skip(h0.len() as int), dk, c, deck@);
                assert(before.skip(h0.len() as int).push(c) =~= self@.skip(h0.len() as int));
                assert(self@.take(h0.len() as int) =~= before.take(h0.len() as int));
                assert(self@.take(before.len() as int) =~= before);
                assert forall|k: int| h0.len() <= k < self@.len() implies hand_value(
                    #[trigger] self@.take(k),
                ).0 < 17 by {
                    if k < before.len() {
                        assert(self@.take(k) =~= before.take(k));
                    }
                }
            }
        }
    }

    /// The dealer's value and whether the hand is a natural.
    pub fn status(&self) -> (r: (u8, bool))
        requires
            self.countable(),
        ensures
            r.0 == dealer_status(self@).0,
            r.1 == dealer_status(self@).1,
    {
        let (sum, _) = self.hand.status();
        let is_bj = sum == 21 && self.hand.len() == 2;
        (sum, is_bj)
    }

    /// The dealer's up card.
    pub fn up_card(&self) -> (c: &Card)
        requires
            self@.len() > 0,
        ensures
            *c == self@[0],
    {
        self.hand.index(0)
    }

    /// A copy of the dealer's cards, in order.
    pub fn cards(&self) -> (v: Vec<Card>)
        ensures
            v@ == self@,
    {
        self.hand.cards()
    }
}

/// A player's hand with what was done to it.
pub struct Player {
    hand: Hand,
    splitted: bool,
    pub doubled: bool,
    surrender: bool,
}

impl View for Player {
    type V = PlayerView;

    closed spec fn view(&self) -> PlayerView {
        PlayerView {
            cards: self.hand@,
            splitted: self.splitted,
            doubled: self.doubled,
            surrender: self.surrender,
        }
    }
}

impl Clone for Player {
    fn clone(&self) -> (p: Player)
        ensures
            p@ == self@,
    {
        Player {
            hand: self.hand.clone(),
            splitted: self.splitted,
            doubled: self.doubled,
            surrender: self.surrender,
        }
    }
}

impl Player {
    /// The player's value can be computed without leaving `u8`.
    pub open spec fn countable(&self) -> bool {
        raw_sum(self@.cards) <= 255
    }

    /// Every card of the player has a rank in 1..=10.
    pub open spec fn wf(&self) -> bool {
        all_valid(self@.cards)
    }

    fn new() -> (p: Self)
        ensures
            p@ == (PlayerView {
                cards: Seq::<Card>::empty(),
                splitted: false,
                doubled: false,
                surrender: false,
            }),
    {
        Player { hand: Hand::new(), splitted: false, doubled: false, surrender: false }
    }

    /// Deals a player two cards from the shoe.
    pub fn create(deck: &mut Deck) -> (p: Self)
        requires
            old(deck).countable(),
        ensures
            p@.cards.len() == 2,
            !p@.splitted && !p@.doubled && !p@.surrender,
            drawn_from(old(deck)@, p@.cards, final(deck)@),
            p.wf(),
            p.countable(),
            final(deck).countable(),
    {
        let mut temp = Self::new();
        let ghost d0 = deck@;
        let c = deck.draw_random();
        temp.hand.add(c);
        let ghost d1 = deck@;
        let ghost s1 = temp@.cards;
        proof {
            assert(drawn_from(d0, Seq::<Card>::empty(), d0));
            lemma_drawn_from_push(d0, Seq::<Card>::empty(), d0, c, d1);
            assert(Seq::<Card>::empty().push(c) =~= s1);
            lemma_raw_sum_push(Seq::<Card>::empty(), c);
        }
        let c2 = deck.draw_random();
        temp.hand.add(c2);
        proof {
            lemma_drawn_from_push(d0, s1, d1, c2, deck@);
            lemma_raw_sum_push(s1, c2);
        }
        temp
    }

    /// A fresh player holding the ranks in `arr`.
    pub fn from_arr(arr: &[usize]) -> (p: Self)
        requires
            forall|i: int| 0 <= i < arr@.len() ==> Card::valid_rank(#[trigger] arr@[i] as int),
        ensures
            p@ == (PlayerView {
                cards: cards_of(arr@),
                splitted: false,
                doubled: false,
                surrender: false,
            }),
    {
        Player { hand: Hand::from_arr(arr).unwrap(), splitted: false, doubled: false, surrender: false }
    }

    /// Takes one more card from the shoe.
    pub fn hit(&mut self, deck: &mut Deck)
        requires
            old(deck).countable(),
        ensures
            final(self)@.cards.len() == old(self)@.cards.len() + 1,
            final(self)@.cards.drop_last() == old(self)@.cards,
            one_draw(old(deck)@, final(self)@.cards.last(), final(deck)@),
            final(self)@.cards.last().wf(),
            raw_sum(final(self)@.cards) == raw_sum(old(self)@.cards) + final(self)@.cards.last().suit,
            final(self)@.splitted == old(self)@.splitted,
            final(self)@.doubled == old(self)@.doubled,
            final(self)@.surrender == old(self)@.surrender,
            final(deck).countable(),
    {
        let c = deck.draw_random();
        self.hand.add(c);
        proof {
            lemma_raw_sum_push(old(self)@.cards, c);
            assert(self@.cards.drop_last() =~= old(self)@.cards);
        }
    }

    /// Doubles the bet and takes exactly one more card.
    pub fn double(&mut self, deck: &mut Deck)
        requires
            old(deck).countable(),
        ensures
            final(self)@.cards.len() == old(self)@.cards.len() + 1,
            final(self)@.cards.drop_last() == old(self)@.cards,
            one_draw(old(deck)@, final(self)@.cards.last(), final(deck)@),
            final(self)@.cards.last().wf(),
            raw_sum(final(self)@.cards) == raw_sum(old(self)@.cards) + final(self)@.cards.last().suit,
            final(self)@.doubled,
            final(self)@.splitted == old(self)@.splitted,
            final(self)@.surrender == old(self)@.surrender,
            final(deck).countable(),
    {
        let c = deck.draw_random();
        self.hand.add(c);
        self.doubled = true;
        proof {
            lemma_raw_sum_push(old(self)@.cards, c);
            assert(self@.cards.drop_last() =~= old(self)@.cards);
        }
    }

    /// Splits the hand: the last card leaves, both hands are marked as split,
    /// this hand draws a card and then the new hand draws one. The flag tells
    /// whether the hands are aces (this hand's first card is an ace).
    pub fn split(&mut self, deck: &mut Deck) -> (r: (Player, bool))
        requires
            old(deck).countable(),
        ensures
            ({
                let base = if old(self)@.cards.len() > 0 {
                    old(self)@.cards.drop_last()
                } else {
                    old(self)@.cards
                };
                &&& final(self)@.cards.len() == base.len() + 1
                &&& final(self)@.cards.drop_last() == base
                &&& r.0@.cards.len() == base.len() + 1
                &&& r.0@.cards.drop_last() == base
                &&& drawn_from(
                    old(deck)@,
                    seq![final(self)@.cards.last(), r.0@.cards.last()],
                    final(deck)@,
                )
                &&& final(self)@.splitted && r.0@.splitted
                &&& final(self)@.doubled == old(self)@.doubled && r.0@.doubled == old(self)@.doubled
                &&& final(self)@.surrender == old(self)@.surrender && r.0@.surrender == old(
                    self,
                )@.surrender
                &&& r.1 == (final(self)@.cards[0].suit == 1)
                &&& final(self)@.cards.last().wf() && r.0@.cards.last().wf()
                &&& raw_sum(final(self)@.cards) == raw_sum(base) + final(self)@.cards.last().suit
                &&& raw_sum(r.0@.cards) == raw_sum(base) + r.0@.cards.last().suit
            }),
            final(deck).countable(),
    {
        let ghost d0 = deck@;
        self.hand.pop();
        self.splitted = true;
        let mut clone = self.clone();
        self.hit(deck);
        let ghost d1 = deck@;
        clone.hit(deck);
        proof {
            let c1 = self@.cards.last();
            let c2 = clone@.cards.last();
            assert(drawn_from(d0, Seq::<Card>::empty(), d0));
            lemma_drawn_from_push(d0, Seq::<Card>::empty(), d0, c1, d1);
            lemma_drawn_from_push(d0, seq![c1], d1, c2, deck@);
            assert(Seq::<Card>::empty().push(c1) =~= seq![c1]);
            assert(seq![c1].push(c2) =~= seq![c1, c2]);
        }
        let flag = self.hand.index(0).suit == 1;
        (clone, flag)
    }

    /// Gives up the hand for half the bet.
    pub fn surrender(&mut self)
        ensures
            final(self)@ == (PlayerView { surrender: true, ..old(self)@ }),
    {
        self.surrender = true
    }

    /// The hand may double down: two cards, and not from a split unless the
    /// rules allow doubling after a split.
    pub fn doubleable(&self) -> (b: bool)
        ensures
            b == (self@.cards.len() == 2 && (!self@.splitted || rule::DOUBLE_AFTER_SPLIT)),
    {
        self.hand.len() == 2 && (!self.splitted || rule::DOUBLE_AFTER_SPLIT)
    }

    /// The hand may split: a pair, and not from a split unless the rules allow
    /// splitting again.
    pub fn splittable(&self) -> (b: bool)
        ensures
            b == (self@.cards.len() == 2 && self@.cards[0] == self@.cards[1] && (rule::RE_SPLIT
                || !self@.splitted)),
    {
        self.hand.len() == 2 && *self.hand.index(0) == *self.hand.index(1) && (rule::RE_SPLIT
            || !self.splitted)
    }

    /// The player's value and whether the hand is a natural.
    pub fn status(&self) -> (r: (u8, bool))
        requires
            self.countable(),
        ensures
            r.0 == player_status(self@).0,
            r.1 == player_status(self@).1,
    {
        let (sum, _) = self.hand.status();
        let is_bj = sum == 21 && self.hand.len() == 2 && !self.splitted;
        (sum, is_bj)
    }

    /// Whether the player's value can be computed without leaving `u8`.
    pub fn is_countable(&self) -> (b: bool)
        ensures
            b == self.countable(),
    {
        self.hand.is_countable()
    }

    /// The value of the hand and whether it is soft.
    pub fn hand_status(&self) -> (r: (u8, bool))
        requires
            self.countable(),
        ensures
            r.0 == hand_value(self@.cards).0,
            r.1 == hand_value(self@.cards).1,
    {
        self.hand.status()
    }

    /// The card at position `index` of the hand.
    pub fn card(&self, index: usize) -> (c: &Card)
        requires
            index < self@.cards.len(),
        ensures
            *c == self@.cards[index as int],
    {
        self.hand.index(index)
    }

    /// A copy of the player's cards, in order.
    pub fn cards(&self) -> (v: Vec<Card>)
        ensures
            v@ == self@.cards,
    {
        self.hand.cards()
    }

    /// Whether the hand came from a split.
    pub fn is_splitted(&self) -> (b: bool)
        ensures
            b == self@.splitted,
    {
        self.splitted
    }

    /// Whether the bet on the hand was doubled.
    pub fn is_doubled(&self) -> (b: bool)
        ensures
            b == self@.doubled,
    {
        self.doubled
    }

    /// Whether the hand was surrendered.
    pub fn is_surrendered(&self) -> (b: bool)
        ensures
            b == self@.surrender,
    {
        self.surrender
    }
}

} // verus!
