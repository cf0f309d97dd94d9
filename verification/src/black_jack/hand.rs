use vstd::prelude::*;

use super::card::{Card, card_error_text};

verus! {

/// The sum of the ranks of the cards, every ace counted as 1.
pub open spec fn raw_sum(cards: Seq<Card>) -> int
    decreases cards.len(),
{
    if cards.len() == 0 {
        0
    } else {
        raw_sum(cards.drop_last()) + cards.last().suit
    }
}

/// Whether some card of the sequence is an ace.
pub open spec fn contains_ace(cards: Seq<Card>) -> bool {
    exists|i: int| 0 <= i < cards.len() && #[trigger] cards[i].suit == 1
}

/// The value of a hand and whether it is soft: one ace counts 11 when that
/// keeps the total at 21 or below.
pub open spec fn hand_value(cards: Seq<Card>) -> (int, bool) {
    if raw_sum(cards) <= 11 && contains_ace(cards) {
        (raw_sum(cards) + 10, true)
    } else {
        (raw_sum(cards), false)
    }
}

/// Every card of the sequence has a rank in 1..=10.
pub open spec fn all_valid(cards: Seq<Card>) -> bool {
    forall|i: int| 0 <= i < cards.len() ==> (#[trigger] cards[i]).wf()
}

/// The cards of the ranks in `arr`, in order.
pub open spec fn cards_of(arr: Seq<usize>) -> Seq<Card> {
    Seq::new(arr.len(), |i: int| Card { suit: arr[i] as u8 })
}

/// A prefix never sums to more than the whole sequence.
pub proof fn lemma_raw_sum_prefix(cards: Seq<Card>, k: int)
    requires
        0 <= k <= cards.len(),
    ensures
        0 <= raw_sum(cards.take(k)) <= raw_sum(cards),
    decreases cards.len(),
{
    if cards.len() > 0 {
        if k == cards.len() {
            assert(cards.take(k) =~= cards);
            lemma_raw_sum_prefix(cards.drop_last(), k - 1);
        } else {
            lemma_raw_sum_prefix(cards.drop_last(), k);
            assert(cards.drop_last().take(k) =~= cards.take(k));
        }
    }
}

/// Adding a card adds its rank.
pub proof fn lemma_raw_sum_push(cards: Seq<Card>, c: Card)
    ensures
        raw_sum(cards.push(c)) == raw_sum(cards) + c.suit,
{
    assert(cards.push(c).drop_last() =~= cards);
}

/// A sequence of valid cards sums to at least its length.
pub proof fn lemma_raw_sum_lower(cards: Seq<Card>)
    requires
        all_valid(cards),
    ensures
        raw_sum(cards) >= cards.len(),
    decreases cards.len(),
{
    if cards.len() > 0 {
        assert(cards.last().wf());
        lemma_raw_sum_lower(cards.drop_last());
    }
}

/// An ace is counted as 11 only where that keeps the hand at 21 or below, so
/// a soft hand is worth between 11 and 21, and a hand's value is its rank
/// sum or ten more.
pub proof fn lemma_soft_value(cards: Seq<Card>)
    requires
        all_valid(cards),
    ensures
        hand_value(cards).1 ==> 11 <= hand_value(cards).0 <= 21,
        hand_value(cards).0 == raw_sum(cards) || hand_value(cards).0 == raw_sum(cards) + 10,
        !hand_value(cards).1 ==> hand_value(cards).0 == raw_sum(cards),
{
    if contains_ace(cards) {
        let i = choose|i: int| 0 <= i < cards.len() && #[trigger] cards[i].suit == 1;
        lemma_raw_sum_lower(cards);
    }
}

/// Taking a card out takes its rank off the sum.
pub proof fn lemma_raw_sum_remove(cards: Seq<Card>, j: int)
    requires
        0 <= j < cards.len(),
    ensures
        raw_sum(cards) == raw_sum(cards.remove(j)) + cards[j].suit,
    decreases cards.len(),
{
    if j == cards.len() - 1 {
        assert(cards.remove(j) =~= cards.drop_last());
    } else {
        lemma_raw_sum_remove(cards.drop_last(), j);
        assert(cards.remove(j).drop_last() =~= cards.drop_last().remove(j));
        assert(cards.remove(j).last() == cards.last());
    }
}

/// The rank sum depends only on which cards there are, not on their order.
pub proof fn lemma_raw_sum_order(p: Seq<Card>, q: Seq<Card>)
    requires
        p.to_multiset() == q.to_multiset(),
    ensures
        raw_sum(p) == raw_sum(q),
    decreases p.len(),
{
    broadcast use vstd::seq_lib::group_to_multiset_ensures;

    if p.len() == 0 {
        assert(q.len() == p.to_multiset().len());
    } else {
        let x = p.last();
        let rest = p.drop_last();
        assert(p =~= rest.push(x));
        assert(p.to_multiset() =~= rest.to_multiset().insert(x));
        assert(q.to_multiset().count(x) > 0);
        assert(q.contains(x));
        let j = choose|j: int| 0 <= j < q.len() && q[j] == x;
        assert(q.remove(j).to_multiset() =~= q.to_multiset().remove(x));
        assert(rest.to_multiset().insert(x).remove(x) =~= rest.to_multiset());
        lemma_raw_sum_order(rest, q.remove(j));
        lemma_raw_sum_remove(q, j);
    }
}

/// Whether a hand holds an ace depends only on which cards there are.
pub proof fn lemma_contains_ace_order(p: Seq<Card>, q: Seq<Card>)
    requires
        p.to_multiset() == q.to_multiset(),
    ensures
        contains_ace(p) == contains_ace(q),
{
    broadcast use vstd::seq_lib::group_to_multiset_ensures;

    let ace = Card { suit: 1 };
    if contains_ace(p) {
        let i = choose|i: int| 0 <= i < p.len() && #[trigger] p[i].suit == 1;
        assert(p[i] == ace);
        assert(p.contains(ace));
        assert(p.to_multiset().count(ace) > 0);
        assert(q.to_multiset().count(ace) > 0);
        assert(q.contains(ace));
        let j = choose|j: int| 0 <= j < q.len() && q[j] == ace;
        assert(q[j].suit == 1);
    }
    if contains_ace(q) {
        let i = choose|i: int| 0 <= i < q.len() && #[trigger] q[i].suit == 1;
        assert(q[i] == ace);
        assert(q.contains(ace));
        assert(q.to_multiset().count(ace) > 0);
        assert(p.to_multiset().count(ace) > 0);
        assert(p.contains(ace));
        let j = choose|j: int| 0 <= j < p.len() && p[j] == ace;
        assert(p[j].suit == 1);
    }
}

/// A hand's value, and whether it is soft, do not depend on the order of its
/// cards.
pub proof fn lemma_hand_value_order(p: Seq<Card>, q: Seq<Card>)
    requires
        p.to_multiset() == q.to_multiset(),
    ensures
        hand_value(p) == hand_value(q),
{
    lemma_raw_sum_order(p, q);
    lemma_contains_ace_order(p, q);
}

/// The cards held by a dealer or a player.
pub struct Hand {
    content: Vec<Card>,
}

impl View for Hand {
    type V = Seq<Card>;

    closed spec fn view(&self) -> Seq<Card> {
        self.content@
    }
}

impl Hand {
    /// Every card of the hand has a rank in 1..=10.
    pub open spec fn wf(&self) -> bool {
        all_valid(self@)
    }

    /// The hand's value can be computed without leaving `u8`.
    pub open spec fn countable(&self) -> bool {
        raw_sum(self@) <= 255
    }

    pub fn new() -> (h: Self)
        ensures
            h@ == Seq::<Card>::empty(),
    {
        Hand { content: Vec::new() }
    }

    pub fn add(&mut self, c: Card)
        ensures
            final(self)@ == old(self)@.push(c),
    {
        self.content.push(c);
    }

    /// Removes the last card, if there is one.
    pub fn pop(&mut self)
        ensures
            old(self)@.len() > 0 ==> final(self)@ == old(self)@.drop_last(),
            old(self)@.len() == 0 ==> final(self)@ == old(self)@,
    {
        self.content.pop();
    }

    pub fn len(&self) -> (n: usize)
        ensures
            n == self@.len(),
    {
        self.content.len()
    }

    /// The card at position `index`.
    pub fn index(&self, index: usize) -> (c: &Card)
        requires
            index < self@.len(),
        ensures
            *c == self@[index as int],
    {
        &self.content[index]
    }

    /// A copy of the cards, in order.
    pub fn cards(&self) -> (v: Vec<Card>)
        ensures
            v@ == self@,
    {
        self.content.clone()
    }

    /// The hand of the ranks in `arr`; the first rank outside 1..=10 is refused
    /// with the error of `Card::new`.
    pub fn from_arr(arr: &[usize]) -> (res: Result<Self, String>)
        ensures
            res is Ok <==> (forall|i: int| 0 <= i < arr@.len() ==> Card::valid_rank(#[trigger] arr@[i] as int)),
            res matches Ok(h) ==> h@ == cards_of(arr@),
            res matches Err(e) ==> e@ == card_error_text(),
    {
        let mut temp = Hand::new();
        let mut k: usize = 0;
        while k < arr.len()
            invariant
                k <= arr@.len(),
                forall|i: int| 0 <= i < k ==> Card::valid_rank(#[trigger] arr@[i] as int),
                temp@ == cards_of(arr@.take(k as int)),
            decreases arr@.len() - k,
        {
            match Card::new(arr[k]) {
                Ok(o) => temp.add(o),
                Err(e) => return Err(e),
            };
            assert(cards_of(arr@.take(k + 1)) =~= cards_of(arr@.take(k as int)).push(
                Card { suit: arr@[k as int] as u8 },
            ));
            k = k + 1;
        }
        assert(arr@.take(k as int) =~= arr@);
        Ok(temp)
    }

    /// Whether the hand's value can be computed without leaving `u8`.
    pub fn is_countable(&self) -> (b: bool)
        ensures
            b == self.countable(),
    {
        let mut sum: u32 = 0;
        let mut k: usize = 0;
        while k < self.content.len()
            invariant
                k <= self@.len(),
                self.content@ == self@,
                sum == raw_sum(self@.take(k as int)),
                sum <= 255,
            decreases self@.len() - k,
        {
            assert(self@.take(k + 1).drop_last() =~= self@.take(k as int));
            sum = sum + self.content[k].suit as u32;
            k = k + 1;
            if sum > 255 {
                proof {
                    lemma_raw_sum_prefix(self@, k as int);
                }
                return false;
            }
        }
        assert(self@.take(k as int) =~= self@);
        true
    }

    /// The value of the hand and whether it is soft.
    pub fn status(&self) -> (r: (u8, bool))
        requires
            self.countable(),
        ensures
            r.0 == hand_value(self@).0,
            r.1 == hand_value(self@).1,
    {
        let mut has_ace = false;
        let mut sum: u8 = 0;
        let mut softhand = false;
        let mut k: usize = 0;
        while k < self.content.len()
            invariant
                k <= self@.len(),
                self.content@ == self@,
                raw_sum(self@) <= 255,
                sum == raw_sum(self@.take(k as int)),
                has_ace == contains_ace(self@.take(k as int)),
            decreases self@.len() - k,
        {
            let item = self.content[k];
            proof {
                assert(self@.take(k + 1).drop_last() =~= self@.take(k as int));
                lemma_raw_sum_prefix(self@, k + 1);
                if contains_ace(self@.take(k + 1)) && !contains_ace(self@.take(k as int)) {
                    let j = choose|j: int| 0 <= j < k + 1 && #[trigger] self@.take(k + 1)[j].suit == 1;
                    if j < k {
                        assert(self@.take(k as int)[j].suit == 1);
                    }
                }
                if contains_ace(self@.take(k as int)) {
                    let j = choose|j: int| 0 <= j < k && #[trigger] self@.take(k as int)[j].suit == 1;
                    assert(self@.take(k + 1)[j].suit == 1);
                }
                if item.suit == 1 {
                    assert(self@.take(k + 1)[k as int].suit == 1);
                }
            }
            sum = sum + item.suit;
            if item.suit == 1 {
                has_ace = true;
            }
            k = k + 1;
        }
        assert(self@.take(k as int) =~= self@);
        if sum <= 11 && has_ace {
            sum = sum + 10;
            softhand = true;
        }
        (sum, softhand)
    }
}

impl Clone for Hand {
    fn clone(&self) -> (h: Hand)
        ensures
            h@ == self@,
    {
        Hand { content: self.content.clone() }
    }
}

} // verus!
