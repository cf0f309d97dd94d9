use rand::Rng;
use vstd::prelude::*;

use super::card::Card;

verus! {

/// `rand::rngs::ThreadRng`, the generator a shoe draws with; opaque.
#[verifier::external_type_specification]
#[verifier::external_body]
pub struct ExThreadRng(rand::rngs::ThreadRng);

/// `rand::thread_rng`: a handle to the thread's random generator. Nothing is
/// claimed of it.
#[verifier::external_body]
fn new_thread_rng() -> rand::rngs::ThreadRng {
    rand::thread_rng()
}

/// `Clone::clone` on `rand::rngs::ThreadRng`: another handle to the same
/// thread-local generator. Nothing is claimed of it.
#[verifier::external_body]
fn clone_rng(rng: &rand::rngs::ThreadRng) -> rand::rngs::ThreadRng {
    rng.clone()
}

/// `rand::Rng::gen_range(0..bound)` on `u16`: some value below `bound`. The
/// source samples uniformly from the half-open range and panics on an empty
/// one, which `requires` rules out. Which value comes back is chance and is
/// not stated.
#[verifier::external_body]
fn gen_below(rng: &mut rand::rngs::ThreadRng, bound: u16) -> (r: u16)
    requires
        bound > 0,
    ensures
        r < bound,
{
    rng.gen_range(0..bound)
}

/// The number of cards at positions `k..` of the counts.
pub open spec fn suffix_total(counts: Seq<u16>, k: int) -> int
    decreases counts.len() - k,
{
    if k < 0 || k >= counts.len() {
        0
    } else {
        counts[k] + suffix_total(counts, k + 1)
    }
}

/// The number of cards left in the shoe.
pub open spec fn total(counts: Seq<u16>) -> int {
    suffix_total(counts, 0)
}

/// Scanning the positions below `k` from the top (tens first) and adding up
/// their counts, the first position at which the running count passes
/// `ticket`; -1 when none does.
pub open spec fn scan(counts: Seq<u16>, ticket: int, k: int) -> int
    decreases k,
{
    if k <= 0 {
        -1
    } else if suffix_total(counts, k - 1) > ticket {
        k - 1
    } else {
        scan(counts, ticket, k - 1)
    }
}

/// The position (rank minus one) that ticket `ticket` draws from the counts,
/// or -1 when the ticket lies beyond the cards left.
pub open spec fn draw_position(counts: Seq<u16>, ticket: int) -> int {
    scan(counts, ticket, 10)
}

/// The card that ticket `ticket` draws, and the counts afterwards: the drawn
/// rank loses one card. A ticket beyond the cards left gives a ten and leaves
/// the counts as they were.
pub open spec fn draw_effect(counts: Seq<u16>, ticket: int) -> (Card, Seq<u16>) {
    let p = draw_position(counts, ticket);
    if p < 0 {
        (Card { suit: 10 }, counts)
    } else {
        (Card { suit: (p + 1) as u8 }, counts.update(p, (counts[p] - 1) as u16))
    }
}

/// `t` is a ticket the generator may give for these counts: below the number
/// of cards left, or 0 when none is left.
pub open spec fn valid_ticket(counts: Seq<u16>, t: int) -> bool {
    0 <= t && (t < total(counts) || total(counts) == 0)
}

/// One random draw from `before` can give card `c` and leave `after`.
pub open spec fn one_draw(before: Seq<u16>, c: Card, after: Seq<u16>) -> bool {
    exists|t: int| valid_ticket(before, t) && #[trigger] draw_effect(before, t) == (c, after)
}

/// Successive random draws from `before` can give `cards`, in order, and leave
/// `after`.
pub open spec fn drawn_from(before: Seq<u16>, cards: Seq<Card>, after: Seq<u16>) -> bool
    decreases cards.len(),
{
    if cards.len() == 0 {
        before == after
    } else {
        exists|mid: Seq<u16>|
            #[trigger] one_draw(before, cards[0], mid) && drawn_from(mid, cards.drop_first(), after)
    }
}

/// The counts of a fresh shoe of `n` decks: four of each rank from ace to
/// nine per deck, sixteen ten-valued cards per deck.
pub open spec fn fresh_counts(n: int) -> Seq<u16> {
    Seq::new(10, |i: int| if i == 9 { (16 * n) as u16 } else { (4 * n) as u16 })
}

proof fn lemma_suffix_total_nonneg(counts: Seq<u16>, k: int)
    ensures
        suffix_total(counts, k) >= 0,
    decreases counts.len() - k,
{
    if 0 <= k < counts.len() {
        lemma_suffix_total_nonneg(counts, k + 1);
    }
}

proof fn lemma_suffix_total_mono(counts: Seq<u16>, j: int, k: int)
    requires
        0 <= j <= k,
    ensures
        suffix_total(counts, k) <= suffix_total(counts, j),
    decreases k - j,
{
    if j < k {
        lemma_suffix_total_mono(counts, j + 1, k);
        if j < counts.len() {
            lemma_suffix_total_nonneg(counts, j + 1);
        }
    }
}

/// Lowering the count at `p` by one lowers every window that holds `p` by one
/// and leaves the others alone.
proof fn lemma_suffix_total_update(counts: Seq<u16>, p: int, k: int)
    requires
        0 <= p < counts.len(),
        counts[p] > 0,
        0 <= k,
    ensures
        suffix_total(counts.update(p, (counts[p] - 1) as u16), k) == suffix_total(counts, k) - (
        if k <= p {
            1int
        } else {
            0int
        }),
    decreases counts.len() - k,
{
    if k < counts.len() {
        lemma_suffix_total_update(counts, p, k + 1);
    }
}

/// A position exists exactly when the ticket lies below the number of cards
/// left, and then it is the one whose window `[suffix_total(p + 1),
/// suffix_total(p))` holds the ticket, so its count is positive.
pub proof fn lemma_draw_position(counts: Seq<u16>, ticket: int)
    requires
        counts.len() == 10,
        0 <= ticket,
    ensures
        ({
            let p = draw_position(counts, ticket);
            &&& -1 <= p < 10
            &&& (p >= 0 <==> ticket < total(counts))
            &&& p >= 0 ==> suffix_total(counts, p + 1) <= ticket < suffix_total(counts, p)
            &&& p >= 0 ==> counts[p] > 0
        }),
{
    lemma_scan_window(counts, ticket, 10);
}

/// What `scan` below `k` finds, for a ticket beyond every window from `k` up.
proof fn lemma_scan_window(counts: Seq<u16>, ticket: int, k: int)
    requires
        counts.len() == 10,
        0 <= k <= 10,
        0 <= ticket,
        suffix_total(counts, k) <= ticket,
    ensures
        ({
            let p = scan(counts, ticket, k);
            &&& -1 <= p < k
            &&& (p >= 0 <==> ticket < total(counts))
            &&& p >= 0 ==> suffix_total(counts, p + 1) <= ticket < suffix_total(counts, p)
            &&& p >= 0 ==> counts[p] > 0
        }),
    decreases k,
{
    if k > 0 {
        if suffix_total(counts, k - 1) > ticket {
            lemma_suffix_total_mono(counts, 0, k - 1);
        } else {
            lemma_scan_window(counts, ticket, k - 1);
        }
    }
}

/// Every card left can be drawn, and each rank by as many tickets as it has
/// cards left: the tickets that draw rank `p + 1` are exactly those in the
/// window `[suffix_total(p + 1), suffix_total(p))`, which holds `counts[p]`
/// of them. So a ticket chosen uniformly below the number of cards left
/// draws each card left with the same chance.
pub proof fn lemma_every_card_drawable(counts: Seq<u16>, p: int)
    requires
        counts.len() == 10,
        0 <= p < 10,
        counts[p] > 0,
    ensures
        suffix_total(counts, p) - suffix_total(counts, p + 1) == counts[p],
        forall|t: int|
            0 <= t < total(counts) ==> (#[trigger] draw_position(counts, t) == p <==> (
            suffix_total(counts, p + 1) <= t < suffix_total(counts, p))),
        one_draw(counts, Card { suit: (p + 1) as u8 }, counts.update(p, (counts[p] - 1) as u16)),
{
    assert forall|t: int| 0 <= t < total(counts) implies (#[trigger] draw_position(counts, t) == p
        <==> (suffix_total(counts, p + 1) <= t < suffix_total(counts, p))) by {
        lemma_draw_position(counts, t);
        let q = draw_position(counts, t);
        if q < p {
            lemma_suffix_total_mono(counts, q + 1, p);
        } else if q > p {
            lemma_suffix_total_mono(counts, p + 1, q);
        }
    }
    let t = suffix_total(counts, p + 1);
    lemma_suffix_total_mono(counts, 0, p);
    lemma_suffix_total_nonneg(counts, p + 1);
    assert(draw_position(counts, t) == p);
    assert(valid_ticket(counts, t));
    assert(draw_effect(counts, t) == (Card { suit: (p + 1) as u8 }, counts.update(
        p,
        (counts[p] - 1) as u16,
    )));
}

/// A fresh shoe of `n` decks holds 52 cards per deck.
pub proof fn lemma_fresh_total(n: int)
    requires
        0 <= n,
        16 * n <= u16::MAX,
    ensures
        total(fresh_counts(n)) == 52 * n,
{
    reveal_with_fuel(suffix_total, 11);
}

/// A shoe: how many cards of each rank are left, position `i` holding rank
/// `i + 1`, and the random generator that draws from it.
pub struct Deck {
    content: [u16; 10],
    rng: rand::rngs::ThreadRng,
}

impl View for Deck {
    type V = Seq<u16>;

    closed spec fn view(&self) -> Seq<u16> {
        self.content@
    }
}

impl Deck {
    /// A shoe holds one count per rank, ten in all.
    pub proof fn lemma_ten_counts(&self)
        ensures
            self@.len() == 10,
    {
    }

    /// The number of cards left fits in `u16`.
    pub open spec fn countable(&self) -> bool {
        total(self@) <= u16::MAX
    }

    /// A fresh shoe of `deck_size` decks.
    pub fn new(deck_size: u16) -> (d: Self)
        requires
            deck_size * 16 <= u16::MAX,
        ensures
            d@ == fresh_counts(deck_size as int),
            total(d@) == 52 * deck_size,
    {
        proof {
            lemma_fresh_total(deck_size as int);
        }
        let n: u16 = deck_size * 4;
        let temp = Deck {
            content: [n, n, n, n, n, n, n, n, n, deck_size * 16],
            rng: new_thread_rng(),
        };
        assert(temp@ =~= fresh_counts(deck_size as int));
        temp
    }

    /// The number of cards left.
    pub fn sum(&self) -> (s: u16)
        requires
            self.countable(),
        ensures
            s == total(self@),
    {
        proof {
            assert(self@.len() == 10);
        }
        let mut s: u16 = 0;
        let mut i: usize = 10;
        while i > 0
            invariant
                i <= 10,
                self.content@ == self@,
                self@.len() == 10,
                total(self@) <= u16::MAX,
                s == suffix_total(self@, i as int),
            decreases i,
        {
            i = i - 1;
            proof {
                lemma_suffix_total_mono(self@, 0, i as int);
                lemma_suffix_total_nonneg(self@, i + 1);
            }
            s = s + self.content[i];
        }
        s
    }

    /// Draws the card that `ticket` points at (see `draw_effect`): counting
    /// the cards from the tens down to the aces, the card whose place in that
    /// count is `ticket`.
    pub fn draw_at(&mut self, ticket: u16) -> (c: Card)
        requires
            old(self).countable(),
        ensures
            (c, final(self)@) == draw_effect(old(self)@, ticket as int),
            c.wf(),
            final(self).countable(),
            ticket < total(old(self)@) ==> total(final(self)@) == total(old(self)@) - 1 && old(
                self,
            )@[c.suit - 1] > 0,
            ticket >= total(old(self)@) ==> final(self)@ == old(self)@ && c.suit == 10,
    {
        proof {
            lemma_draw_position(self@, ticket as int);
            let p = draw_position(self@, ticket as int);
            if p >= 0 {
                lemma_suffix_total_update(self@, p, 0);
            }
            assert(self@.len() == 10);
        }
        let ghost c0 = self@;
        let mut pos: u16 = 0;
        let mut i: usize = 10;
        while i > 0
            invariant
                i <= 10,
                self.content@ == c0,
                self@ == c0,
                old(self)@ == c0,
                c0.len() == 10,
                total(c0) <= u16::MAX,
                pos == suffix_total(c0, i as int),
                pos <= ticket,
                scan(c0, ticket as int, 10) == scan(c0, ticket as int, i as int),
            decreases i,
        {
            i = i - 1;
            proof {
                lemma_suffix_total_mono(c0, 0, i as int);
                lemma_suffix_total_nonneg(c0, i + 1);
            }
            assert(scan(c0, ticket as int, 10) == scan(c0, ticket as int, (i + 1) as int));
            pos = pos + self.content[i];
            if pos > ticket {
                assert(scan(c0, ticket as int, (i + 1) as int) == i as int);
                assert(draw_position(c0, ticket as int) == i as int);
                proof {
                    lemma_draw_position(c0, ticket as int);
                    lemma_suffix_total_update(c0, i as int, 0);
                }
                self.content[i] = self.content[i] - 1;
                assert(self@ =~= c0.update(i as int, (c0[i as int] - 1) as u16));
                return Card::new(i + 1).unwrap();
            }
        }
        Card::new(10).unwrap()
    }

    /// Draws a card at random: a ticket below the number of cards left is
    /// chosen by the generator and handed to `draw_at`. From an empty shoe
    /// the draw gives a ten and takes nothing.
    pub fn draw_random(&mut self) -> (c: Card)
        requires
            old(self).countable(),
        ensures
            one_draw(old(self)@, c, final(self)@),
            c.wf(),
            final(self).countable(),
            total(old(self)@) > 0 ==> total(final(self)@) == total(old(self)@) - 1 && old(
                self,
            )@[c.suit - 1] > 0,
            total(old(self)@) == 0 ==> final(self)@ == old(self)@ && c.suit == 10,
    {
        let n = self.sum();
        let ticket = if n == 0 {
            0
        } else {
            gen_below(&mut self.rng, n)
        };
        let c = self.draw_at(ticket);
        assert(valid_ticket(old(self)@, ticket as int));
        assert(draw_effect(old(self)@, ticket as int) == (c, self@));
        c
    }

    /// The number of cards of rank `index` left.
    pub fn index(&self, index: usize) -> (n: u16)
        requires
            1 <= index <= 10,
        ensures
            n == self@[index - 1],
    {
        self.content[index - 1]
    }

    /// Sets the number of cards of rank `index` left.
    pub fn set(&mut self, index: usize, n: u16)
        requires
            1 <= index <= 10,
        ensures
            final(self)@ == old(self)@.update(index - 1, n),
    {
        self.content[index - 1] = n;
    }
}

impl Clone for Deck {
    /// A shoe with the same counts, drawing from the same generator.
    fn clone(&self) -> (d: Deck)
        ensures
            d@ == self@,
    {
        Deck { content: self.content, rng: clone_rng(&self.rng) }
    }
}

} // verus!
