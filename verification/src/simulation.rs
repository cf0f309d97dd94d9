use vstd::prelude::*;

use crate::black_jack::{BJResult, Dealer, Player, PlayerView, judge, judge_spec, dealer_status, lemma_drawn_from_push, lemma_drawn_from_concat};
use crate::black_jack::deck::drawn_from;
use crate::black_jack::card::Card;
use crate::black_jack::deck::Deck;
use crate::black_jack::hand::{hand_value, raw_sum, lemma_raw_sum_lower};
use crate::black_jack::strategy::{Action, Strategy};
use crate::black_jack::rule;
use crate::black_jack::strategy::basic_strategy::{BasicStrategy8, BasicStrategyView, basic_action, entries_fit};

verus! {

/// What a hand pays back, in half bets, per bet staked: a natural pays 2.5,
/// a win 2, a push returns the bet, a surrender returns half of it.
pub open spec fn payback_halves(r: BJResult) -> int {
    match r {
        BJResult::BJ => 5,
        BJResult::Win => 4,
        BJResult::Push => 2,
        BJResult::Lose => 0,
        BJResult::Surrender => 1,
    }
}

/// The net result of a hand in half bets: what it pays back, twice over when
/// the bet was doubled, less what was staked (one bet, or two when doubled).
pub open spec fn hand_profit(r: BJResult, doubled: bool) -> int {
    if doubled {
        payback_halves(r) * 2 - 4
    } else {
        payback_halves(r) - 2
    }
}

/// The net result of all the player's hands against the dealer, in half bets.
pub open spec fn settle_spec(players: Seq<PlayerView>, dealer: Seq<Card>) -> int
    decreases players.len(),
{
    if players.len() == 0 {
        0
    } else {
        settle_spec(players.drop_last(), dealer) + hand_profit(
            judge_spec(players.last(), dealer),
            players.last().doubled,
        )
    }
}

/// The views of a sequence of players.
pub open spec fn player_views(v: Seq<Player>) -> Seq<PlayerView> {
    Seq::new(v.len(), |i: int| v[i]@)
}

/// A hand is finished: it was doubled or surrendered, the strategy stands on
/// it, or it is one of a pair of split aces holding its two cards.
pub open spec fn finished(s: BasicStrategy8, p: PlayerView, dealer: Seq<Card>) -> bool {
    ||| p.doubled
    ||| p.surrender
    ||| basic_action(s@, p, dealer) == Action::Stand
    ||| (p.splitted && p.cards.len() == 2 && p.cards[0].suit == 1)
}

/// Where playing the hands on a sequence of drawn cards leads: the hands as
/// they end, a failure, or a sequence of cards that does not fit the play
/// (too few or too many).
pub enum HandsRun {
    Finished(Seq<PlayerView>),
    Failed,
    Mismatch,
}

/// Plays hand `i` (its current state `cur`, the stored hands `players`)
/// and then the hands after it, with `cards` as the cards drawn, in order.
/// A hand whose value leaves `u8`, or for which the strategy consults an
/// entry of the wrong kind, fails the play. Otherwise the strategy's action
/// is taken: a hit draws a card; a double draws one card and ends the hand;
/// a stand or a surrender ends it; a split keeps the first card, draws one
/// card for this hand and then one for the new hand, which goes after all
/// the others, and ends this hand at once when the pair was aces.
pub open spec fn run_hands(
    s: BasicStrategyView,
    d: Seq<Card>,
    players: Seq<PlayerView>,
    i: int,
    cur: PlayerView,
    cards: Seq<Card>,
) -> HandsRun
    decreases cards.len(), players.len() - i, 0int,
{
    if !(0 <= i < players.len()) {
        HandsRun::Mismatch
    } else if raw_sum(cur.cards) > 255 || !entries_fit(s, cur, d) {
        if cards.len() == 0 {
            HandsRun::Failed
        } else {
            HandsRun::Mismatch
        }
    } else {
        match basic_action(s, cur, d) {
            Action::Hit => if cards.len() == 0 {
                HandsRun::Mismatch
            } else {
                run_hands(
                    s,
                    d,
                    players,
                    i,
                    PlayerView { cards: cur.cards.push(cards[0]), ..cur },
                    cards.drop_first(),
                )
            },
            Action::Stand => next_hand(s, d, players.update(i, cur), i + 1, cards),
            Action::Double => if cards.len() == 0 {
                HandsRun::Mismatch
            } else {
                next_hand(
                    s,
                    d,
                    players.update(i, PlayerView { cards: cur.cards.push(cards[0]), doubled: true, ..cur }),
                    i + 1,
                    cards.drop_first(),
                )
            },
            Action::Surrender => next_hand(
                s,
                d,
                players.update(i, PlayerView { surrender: true, ..cur }),
                i + 1,
                cards,
            ),
            Action::Split => if cards.len() < 2 {
                HandsRun::Mismatch
            } else {
                let base = cur.cards.drop_last();
                let kept = PlayerView { cards: base.push(cards[0]), splitted: true, ..cur };
                let other = PlayerView { cards: base.push(cards[1]), splitted: true, ..cur };
                let ps = players.push(other);
                if kept.cards[0].suit == 1 {
                    next_hand(s, d, ps.update(i, kept), i + 1, cards.skip(2))
                } else {
                    run_hands(s, d, ps, i, kept, cards.skip(2))
                }
            },
        }
    }
}

/// Plays the stored hands from hand `i` on, with `cards` as the cards drawn;
/// when none is left the play is finished exactly when every card was used.
pub open spec fn next_hand(
    s: BasicStrategyView,
    d: Seq<Card>,
    players: Seq<PlayerView>,
    i: int,
    cards: Seq<Card>,
) -> HandsRun
    decreases cards.len(), players.len() - i, 1int,
{
    if 0 <= i < players.len() {
        run_hands(s, d, players, i, players[i], cards)
    } else if cards.len() == 0 {
        HandsRun::Finished(players)
    } else {
        HandsRun::Mismatch
    }
}

/// How a round can end: one or two hands (two only after a split), each
/// finished against the dealer's opening cards, and the dealer holding the
/// opening cards and whatever was drawn to reach 17 or more.
pub open spec fn played_round(
    s: BasicStrategy8,
    players: Seq<PlayerView>,
    opening: Seq<Card>,
    dealer: Seq<Card>,
) -> bool {
    &&& 1 <= players.len() <= 2
    &&& players.len() == 2 ==> players[0].splitted && players[1].splitted
    &&& opening.len() >= 1
    &&& forall|k: int| 0 <= k < players.len() ==> finished(s, #[trigger] players[k], opening)
    &&& dealer.len() >= opening.len()
    &&& dealer.take(opening.len() as int) == opening
    &&& dealer_status(dealer).0 >= 17
    &&& forall|k: int|
        0 <= k < players.len() ==> ((#[trigger] players[k]).doubled ==> players[k].cards.len() >= 3)
}

/// A hand's net result lies between -4 and 6 half bets: at worst a lost
/// doubled bet, at best a doubled natural.
pub proof fn lemma_hand_profit_bounds(r: BJResult, doubled: bool)
    ensures
        -4 <= hand_profit(r, doubled) <= 6,
{
}

/// The net result of `n` hands lies between -4n and 6n half bets.
pub proof fn lemma_settle_bounds(players: Seq<PlayerView>, dealer: Seq<Card>)
    ensures
        -4 * players.len() <= settle_spec(players, dealer) <= 6 * players.len(),
    decreases players.len(),
{
    if players.len() > 0 {
        lemma_settle_bounds(players.drop_last(), dealer);
        lemma_hand_profit_bounds(judge_spec(players.last(), dealer), players.last().doubled);
    }
}

/// Settling two groups of hands together nets what settling them apart does.
pub proof fn lemma_settle_additive(a: Seq<PlayerView>, b: Seq<PlayerView>, dealer: Seq<Card>)
    ensures
        settle_spec(a + b, dealer) == settle_spec(a, dealer) + settle_spec(b, dealer),
    decreases b.len(),
{
    if b.len() == 0 {
        assert(a + b =~= a);
    } else {
        lemma_settle_additive(a, b.drop_last(), dealer);
        assert((a + b).drop_last() =~= a + b.drop_last());
        assert((a + b).last() == b.last());
    }
}

/// A hand that is not a doubled two-card hand nets between -4 and 4 half
/// bets: a doubled hand holds a third card, so it is never paid as a
/// natural, and a natural on a single bet nets 3.
pub proof fn lemma_hand_two_bets(p: PlayerView, dealer: Seq<Card>)
    requires
        p.doubled ==> p.cards.len() != 2,
    ensures
        -4 <= hand_profit(judge_spec(p, dealer), p.doubled) <= 4,
{
}

/// Hands none of which is a doubled two-card hand net between -2 and 2 bets
/// each: between -4n and 4n half bets for `n` hands.
pub proof fn lemma_settle_two_bets(players: Seq<PlayerView>, dealer: Seq<Card>)
    requires
        forall|k: int|
            0 <= k < players.len() ==> ((#[trigger] players[k]).doubled ==> players[k].cards.len()
                != 2),
    ensures
        -4 * players.len() <= settle_spec(players, dealer) <= 4 * players.len(),
    decreases players.len(),
{
    if players.len() > 0 {
        assert forall|k: int| 0 <= k < players.drop_last().len() implies ((#[trigger] players.drop_last()[k]).doubled
            ==> players.drop_last()[k].cards.len() != 2) by {
            assert(players.drop_last()[k] == players[k]);
        }
        lemma_settle_two_bets(players.drop_last(), dealer);
        lemma_hand_two_bets(players.last(), dealer);
    }
}

/// What one hand nets, in half bets, by how it ends: a natural 3, a win 2, a
/// push 0, a loss -2, a surrender -1; a doubled hand twice as much (a win 4,
/// a loss -4).
pub proof fn lemma_settle_one_hand(p: PlayerView, dealer: Seq<Card>)
    ensures
        ({
            let r = judge_spec(p, dealer);
            let net = settle_spec(seq![p], dealer);
            let k: int = if p.doubled { 2 } else { 1 };
            &&& r == BJResult::BJ ==> net == 3 * k
            &&& r == BJResult::Win ==> net == 2 * k
            &&& r == BJResult::Push ==> net == 0
            &&& r == BJResult::Lose ==> net == -2 * k
            &&& r == BJResult::Surrender ==> net == -k
        }),
{
    assert(seq![p].drop_last() =~= Seq::<PlayerView>::empty());
    assert(settle_spec(seq![p].drop_last(), dealer) == 0);
    assert(seq![p].last() == p);
    assert(settle_spec(seq![p], dealer) == hand_profit(judge_spec(p, dealer), p.doubled));
}

/// Doubling a hand doubles what it nets: the same hand settled with its bet
/// doubled wins or loses twice what it does on a single bet.
pub proof fn lemma_settle_doubled(p: PlayerView, dealer: Seq<Card>)
    ensures
        settle_spec(seq![PlayerView { doubled: true, ..p }], dealer) == 2 * settle_spec(
            seq![PlayerView { doubled: false, ..p }],
            dealer,
        ),
{
    lemma_settle_one_hand(PlayerView { doubled: true, ..p }, dealer);
    lemma_settle_one_hand(PlayerView { doubled: false, ..p }, dealer);
    assert(judge_spec(PlayerView { doubled: true, ..p }, dealer) == judge_spec(
        PlayerView { doubled: false, ..p },
        dealer,
    ));
}

/// The net result of one hand in half bets.
pub fn hand_profit_halves(result: BJResult, doubled: bool) -> (p: i64)
    ensures
        p == hand_profit(result, doubled),
{
    let payback: i64 = match result {
        BJResult::BJ => 5,
        BJResult::Win => 4,
        BJResult::Push => 2,
        BJResult::Lose => 0,
        BJResult::Surrender => 1,
    };
    if doubled {
        payback * 2 - 4
    } else {
        payback - 2
    }
}

/// Settles every hand against the dealer and adds up the net results, in
/// half bets.
pub fn settle(players: &Vec<Player>, dealer: &Dealer) -> (p: i64)
    requires
        forall|k: int| 0 <= k < players@.len() ==> (#[trigger] players@[k]).countable(),
        dealer.countable(),
        players@.len() * 6 <= i64::MAX,
    ensures
        p == settle_spec(player_views(players@), dealer@),
{
    let mut profit: i64 = 0;
    let mut k: usize = 0;
    while k < players.len()
        invariant
            k <= players@.len(),
            players@.len() * 6 <= i64::MAX,
            forall|j: int| 0 <= j < players@.len() ==> (#[trigger] players@[j]).countable(),
            dealer.countable(),
            profit == settle_spec(player_views(players@).take(k as int), dealer@),
        decreases players@.len() - k,
    {
        proof {
            lemma_settle_bounds(player_views(players@).take(k as int), dealer@);
            assert(player_views(players@).take(k + 1).drop_last() =~= player_views(players@).take(
                k as int,
            ));
        }
        let item = &players[k];
        let r = judge(item, dealer);
        profit = profit + hand_profit_halves(r, item.is_doubled());
        k = k + 1;
    }
    assert(player_views(players@).take(k as int) =~= player_views(players@));
    profit
}

/// What playing the hands should come to, for the result of `play_hands`.
pub open spec fn hands_outcome(r: Option<Vec<Player>>) -> HandsRun {
    match r {
        Some(v) => HandsRun::Finished(player_views(v@)),
        None => HandsRun::Failed,
    }
}

/// Plays the player's hands against the dealer's opening cards, each hand in
/// turn as the strategy says, the hand split off a pair coming after the one
/// it was split from (see `run_hands`). `None` where a hand grows past what a
/// `u8` value can count, or where the strategy consults a table entry of the
/// wrong kind.
pub fn play_hands(deck: &mut Deck, strategy: &BasicStrategy8, dealer: &Dealer, first: Player) -> (r:
    Option<Vec<Player>>)
    requires
        old(deck).countable(),
        dealer@.len() > 0,
        dealer@[0].wf(),
        first.wf(),
        first.countable(),
        first@.cards.len() >= 2,
    ensures
        final(deck).countable(),
        exists|hand_cards: Seq<Card>|
            drawn_from(old(deck)@, hand_cards, final(deck)@) && #[trigger] run_hands(
                strategy@,
                dealer@,
                seq![first@],
                0,
                first@,
                hand_cards,
            ) == hands_outcome(r),
        r matches Some(v) ==> {
            &&& 1 <= v@.len() <= 2
            &&& v@.len() == 2 ==> v@[0]@.splitted && v@[1]@.splitted
            &&& forall|k: int|
                0 <= k < v@.len() ==> (#[trigger] v@[k]).wf() && finished(*strategy, v@[k]@, dealer@)
            &&& forall|k: int|
                0 <= k < v@.len() ==> ((#[trigger] v@[k])@.doubled ==> v@[k]@.cards.len() >= 3
                    || first@.doubled)
        },
{
    let ghost s = strategy@;
    let ghost d = dealer@;
    let ghost first0 = first@;
    let ghost start = seq![first0];
    let ghost deck0 = deck@;
    let ghost mut drawn: Seq<Card> = Seq::empty();
    let mut vec: Vec<Player> = Vec::new();
    vec.push(first);
    proof {
        assert(drawn_from(deck0, drawn, deck@));
        assert(player_views(vec@) =~= start);
        assert forall|rest: Seq<Card>| #[trigger]
            run_hands(s, d, start, 0, first0, drawn + rest) == next_hand(
                s,
                d,
                player_views(vec@),
                0,
                rest,
            ) by {
            assert(drawn + rest =~= rest);
        }
    }
    let mut i: usize = 0;
    while i < vec.len()
        invariant
            s == strategy@,
            d == dealer@,
            start == seq![first0],
            first0 == first@,
            deck0 == old(deck)@,
            deck.countable(),
            dealer@.len() > 0,
            dealer@[0].wf(),
            1 <= vec@.len() <= 2,
            i <= vec@.len(),
            vec@.len() == 2 ==> vec@[0]@.splitted && vec@[1]@.splitted,
            forall|k: int|
                0 <= k < vec@.len() ==> (#[trigger] vec@[k]).wf() && vec@[k]@.cards.len() >= 2
                    && raw_sum(vec@[k]@.cards) <= 265,
            forall|k: int| 0 <= k < i ==> finished(*strategy, (#[trigger] vec@[k])@, dealer@),
            forall|k: int|
                0 <= k < vec@.len() ==> ((#[trigger] vec@[k])@.doubled ==> vec@[k]@.cards.len() >= 3
                    || first0.doubled),
            drawn_from(deck0, drawn, deck@),
            forall|rest: Seq<Card>| #[trigger]
                run_hands(s, d, start, 0, first0, drawn + rest) == next_hand(
                    s,
                    d,
                    player_views(vec@),
                    i as int,
                    rest,
                ),
        decreases 2 - i,
    {
        let mut cur = vec[i].clone();
        proof {
            assert forall|rest: Seq<Card>| #[trigger]
                run_hands(s, d, start, 0, first0, drawn + rest) == run_hands(
                    s,
                    d,
                    player_views(vec@),
                    i as int,
                    cur@,
                    rest,
                ) by {
                assert(player_views(vec@)[i as int] == cur@);
            }
        }
        loop
            invariant_except_break
                forall|rest: Seq<Card>| #[trigger]
                    run_hands(s, d, start, 0, first0, drawn + rest) == run_hands(
                        s,
                        d,
                        player_views(vec@),
                        i as int,
                        cur@,
                        rest,
                    ),
            invariant
                s == strategy@,
                d == dealer@,
                start == seq![first0],
                first0 == first@,
                deck0 == old(deck)@,
                deck.countable(),
                dealer@.len() > 0,
                dealer@[0].wf(),
                1 <= vec@.len() <= 2,
                i < vec@.len(),
                vec@.len() == 2 ==> cur@.splitted && forall|k: int|
                    0 <= k < 2 && k != i ==> (#[trigger] vec@[k])@.splitted,
                forall|k: int|
                    0 <= k < vec@.len() ==> (#[trigger] vec@[k]).wf() && vec@[k]@.cards.len() >= 2
                        && raw_sum(vec@[k]@.cards) <= 265,
                forall|k: int| 0 <= k < i ==> finished(*strategy, (#[trigger] vec@[k])@, dealer@),
                cur.wf(),
                cur@.cards.len() >= 2,
                raw_sum(cur@.cards) <= 265,
                forall|k: int|
                    0 <= k < vec@.len() ==> ((#[trigger] vec@[k])@.doubled ==> vec@[k]@.cards.len()
                        >= 3 || first0.doubled),
                cur@.doubled ==> cur@.cards.len() >= 3 || first0.doubled,
                drawn_from(deck0, drawn, deck@),
            ensures
                finished(*strategy, cur@, dealer@),
                forall|rest: Seq<Card>| #[trigger]
                    run_hands(s, d, start, 0, first0, drawn + rest) == next_hand(
                        s,
                        d,
                        player_views(vec@).update(i as int, cur@),
                        i + 1,
                        rest,
                    ),
            decreases
                if cur@.splitted {
                    0int
                } else {
                    1int
                },
                300 - raw_sum(cur@.cards),
        {
            let ghost pv = player_views(vec@);
            let ghost before = cur@;
            let ghost deck_before = deck@;
            let ghost old_drawn = drawn;
            if !cur.is_countable() {
                proof {
                    assert(drawn + Seq::<Card>::empty() =~= drawn);
                    assert(run_hands(s, d, start, 0, first0, drawn + Seq::<Card>::empty())
                        == HandsRun::Failed);
                    assert(run_hands(strategy@, dealer@, seq![first@], 0, first@, drawn)
                        == hands_outcome(None));
                }
                return None;
            }
            proof {
                lemma_raw_sum_lower(cur@.cards);
            }
            if !strategy.answers(&cur, dealer) {
                proof {
                    assert(drawn + Seq::<Card>::empty() =~= drawn);
                    assert(run_hands(s, d, start, 0, first0, drawn + Seq::<Card>::empty())
                        == HandsRun::Failed);
                    assert(run_hands(strategy@, dealer@, seq![first@], 0, first@, drawn)
                        == hands_outcome(None));
                }
                return None;
            }
            let a = strategy.get(&cur, dealer);
            assert(a == basic_action(s, before, d));
            match a {
                Action::Hit => {
                    cur.hit(deck);
                    let ghost c = cur@.cards.last();
                    proof {
                        assert forall|k: int| 0 <= k < cur@.cards.len() implies (
                        #[trigger] cur@.cards[k]).wf() by {
                            if k < cur@.cards.len() - 1 {
                                assert(cur@.cards[k] == cur@.cards.drop_last()[k]);
                            }
                        }
                        assert(cur@.cards =~= before.cards.push(c));
                        assert(cur@ == PlayerView { cards: before.cards.push(c), ..before });
                        lemma_drawn_from_push(deck0, old_drawn, deck_before, c, deck@);
                        drawn = old_drawn.push(c);
                        assert forall|rest: Seq<Card>| #[trigger]
                            run_hands(s, d, start, 0, first0, drawn + rest) == run_hands(
                                s,
                                d,
                                pv,
                                i as int,
                                cur@,
                                rest,
                            ) by {
                            let r2 = seq![c] + rest;
                            assert(drawn + rest =~= old_drawn + r2);
                            assert(r2[0] == c);
                            assert(r2.drop_first() =~= rest);
                            assert(run_hands(s, d, start, 0, first0, old_drawn + r2) == run_hands(
                                s,
                                d,
                                pv,
                                i as int,
                                before,
                                r2,
                            ));
                        }
                    }
                },
                Action::Stand => {
                    proof {
                        assert forall|rest: Seq<Card>| #[trigger]
                            run_hands(s, d, start, 0, first0, drawn + rest) == next_hand(
                                s,
                                d,
                                pv.update(i as int, cur@),
                                i + 1,
                                rest,
                            ) by {
                            assert(run_hands(s, d, start, 0, first0, drawn + rest) == run_hands(
                                s,
                                d,
                                pv,
                                i as int,
                                before,
                                rest,
                            ));
                        }
                    }
                    break;
                },
                Action::Split => {
                    let (new_hand, flag) = cur.split(deck);
                    let ghost c1 = cur@.cards.last();
                    let ghost c2 = new_hand@.cards.last();
                    let ghost base = before.cards.drop_last();
                    proof {
                        assert(before.cards.len() == 2);
                        assert(!before.splitted);
                        assert(new_hand@.cards.drop_last().len() == 1);
                        assert(new_hand.wf()) by {
                            assert forall|k: int| 0 <= k < new_hand@.cards.len() implies (
                            #[trigger] new_hand@.cards[k]).wf() by {
                                if k == 0 {
                                    assert(new_hand@.cards[0] == new_hand@.cards.drop_last()[0]);
                                    assert(before.cards.drop_last()[0] == before.cards[0]);
                                }
                            }
                        }
                        assert(cur.wf()) by {
                            assert forall|k: int| 0 <= k < cur@.cards.len() implies (
                            #[trigger] cur@.cards[k]).wf() by {
                                if k == 0 {
                                    assert(cur@.cards[0] == cur@.cards.drop_last()[0]);
                                    assert(before.cards.drop_last()[0] == before.cards[0]);
                                }
                            }
                        }
                        assert(raw_sum(before.cards) == raw_sum(before.cards.drop_last())
                            + before.cards.last().suit);
                        assert(cur@.cards =~= base.push(c1));
                        assert(new_hand@.cards =~= base.push(c2));
                        assert(cur@ == PlayerView { cards: base.push(c1), splitted: true, ..before });
                        assert(new_hand@ == PlayerView {
                            cards: base.push(c2),
                            splitted: true,
                            ..before
                        });
                        lemma_drawn_from_concat(deck0, old_drawn, deck_before, seq![c1, c2], deck@);
                        drawn = old_drawn + seq![c1, c2];
                    }
                    vec.push(new_hand);
                    proof {
                        assert(player_views(vec@) =~= pv.push(new_hand@));
                        assert forall|rest: Seq<Card>| #[trigger]
                            run_hands(s, d, start, 0, first0, drawn + rest) == (if flag {
                                next_hand(s, d, pv.push(new_hand@).update(i as int, cur@), i + 1, rest)
                            } else {
                                run_hands(s, d, pv.push(new_hand@), i as int, cur@, rest)
                            }) by {
                            let r2 = seq![c1, c2] + rest;
                            assert(drawn + rest =~= old_drawn + r2);
                            assert(r2[0] == c1);
                            assert(r2[1] == c2);
                            assert(r2.skip(2) =~= rest);
                            assert(run_hands(s, d, start, 0, first0, old_drawn + r2) == run_hands(
                                s,
                                d,
                                pv,
                                i as int,
                                before,
                                r2,
                            ));
                        }
                    }
                    if flag {
                        break;
                    }
                },
                Action::Double => {
                    cur.double(deck);
                    let ghost c = cur@.cards.last();
                    proof {
                        assert(cur@.cards =~= before.cards.push(c));
                        assert(cur@ == PlayerView {
                            cards: before.cards.push(c),
                            doubled: true,
                            ..before
                        });
                        lemma_drawn_from_push(deck0, old_drawn, deck_before, c, deck@);
                        drawn = old_drawn.push(c);
                        assert forall|rest: Seq<Card>| #[trigger]
                            run_hands(s, d, start, 0, first0, drawn + rest) == next_hand(
                                s,
                                d,
                                pv.update(i as int, cur@),
                                i + 1,
                                rest,
                            ) by {
                            let r2 = seq![c] + rest;
                            assert(drawn + rest =~= old_drawn + r2);
                            assert(r2[0] == c);
                            assert(r2.drop_first() =~= rest);
                            assert(run_hands(s, d, start, 0, first0, old_drawn + r2) == run_hands(
                                s,
                                d,
                                pv,
                                i as int,
                                before,
                                r2,
                            ));
                        }
                    }
                    break;
                },
                Action::Surrender => {
                    cur.surrender();
                    proof {
                        assert forall|rest: Seq<Card>| #[trigger]
                            run_hands(s, d, start, 0, first0, drawn + rest) == next_hand(
                                s,
                                d,
                                pv.update(i as int, cur@),
                                i + 1,
                                rest,
                            ) by {
                            assert(run_hands(s, d, start, 0, first0, drawn + rest) == run_hands(
                                s,
                                d,
                                pv,
                                i as int,
                                before,
                                rest,
                            ));
                        }
                    }
                    break;
                },
            }
        }
        let ghost pv_end = player_views(vec@);
        vec.set(i, cur);
        proof {
            assert(player_views(vec@) =~= pv_end.update(i as int, cur@));
        }
        i = i + 1;
    }
    proof {
        assert(drawn + Seq::<Card>::empty() =~= drawn);
        assert(run_hands(s, d, start, 0, first0, drawn + Seq::<Card>::empty()) == next_hand(
            s,
            d,
            player_views(vec@),
            i as int,
            Seq::<Card>::empty(),
        ));
        assert(hands_outcome(Some(vec)) == HandsRun::Finished(player_views(vec@)));
        assert(run_hands(strategy@, dealer@, seq![first@], 0, first@, drawn) == hands_outcome(
            Some(vec),
        ));
    }
    Some(vec)
}

/// The dealer, holding `opening`, drew `extra` by the rule: to a value of 17
/// or more, never past the first point where it got there.
pub open spec fn dealer_draws(opening: Seq<Card>, extra: Seq<Card>) -> bool {
    &&& hand_value(opening + extra).0 >= 17
    &&& forall|k: int|
        opening.len() <= k < opening.len() + extra.len() ==> hand_value(
            #[trigger] (opening + extra).take(k),
        ).0 < 17
}

/// Every hand's value fits in `u8`.
pub open spec fn all_countable(ps: Seq<PlayerView>) -> bool {
    forall|k: int| 0 <= k < ps.len() ==> raw_sum((#[trigger] ps[k]).cards) <= 255
}

/// How a round from the shoe `start` goes, given the cards drawn: the
/// dealer's opening cards, the player's two cards, the cards the hands draw
/// (the shoe is at `after_hands` then), and the cards the dealer draws after
/// (the shoe ends at `end`). When the hands finish with values that fit in
/// `u8`, the dealer draws to 17 and the result is the settlement, in half
/// bets; when playing the hands fails or a hand's value leaves `u8`, there is
/// no result and the dealer draws nothing.
pub open spec fn round_outcome(
    s: BasicStrategy8,
    start: Seq<u16>,
    opening: Seq<Card>,
    dealt: Seq<Card>,
    hand_cards: Seq<Card>,
    after_hands: Seq<u16>,
    extra: Seq<Card>,
    end: Seq<u16>,
    r: Option<i64>,
) -> bool {
    let first = PlayerView { cards: dealt, splitted: false, doubled: false, surrender: false };
    &&& opening.len() == if rule::DEALER_HOLE_CARD {
        2int
    } else {
        1int
    }
    &&& dealt.len() == 2
    &&& drawn_from(start, opening + dealt + hand_cards, after_hands)
    &&& match run_hands(s@, opening, seq![first], 0, first, hand_cards) {
        HandsRun::Finished(ps) => if all_countable(ps) {
            &&& dealer_draws(opening, extra)
            &&& drawn_from(after_hands, extra, end)
            &&& r matches Some(p) && p == settle_spec(ps, opening + extra)
        } else {
            r is None && extra.len() == 0 && end == after_hands
        },
        HandsRun::Failed => r is None && extra.len() == 0 && end == after_hands,
        HandsRun::Mismatch => false,
    }
}

/// Plays one round from the shoe: the dealer's opening cards, one player's
/// two cards, the player's hands as the strategy says, the dealer drawing to
/// 17, and the settlement, returned in half bets. `None` where a hand grows
/// past what a `u8` value can count, or where the strategy consults a table
/// entry of the wrong kind.
pub fn play_on_strategy(deck: &mut Deck, strategy: &BasicStrategy8) -> (r: Option<i64>)
    requires
        old(deck).countable(),
    ensures
        final(deck).countable(),
        exists|opening: Seq<Card>, dealt: Seq<Card>, hand_cards: Seq<Card>, after_hands: Seq<u16>, extra: Seq<Card>|
            #[trigger] round_outcome(
                *strategy,
                old(deck)@,
                opening,
                dealt,
                hand_cards,
                after_hands,
                extra,
                final(deck)@,
                r,
            ),
        r matches Some(p) ==> exists|players: Seq<PlayerView>, opening: Seq<Card>, dealer: Seq<Card>|
            #[trigger] played_round(*strategy, players, opening, dealer) && settle_spec(players, dealer)
                == p && -4 * players.len() <= p <= 4 * players.len(),
        r matches Some(p) ==> -8 <= p <= 8,
{
    let ghost d0 = deck@;
    let mut dealer = Dealer::create(deck);
    let ghost opening = dealer@;
    let ghost d1 = deck@;
    let first = Player::create(deck);
    let ghost dealt = first@.cards;
    let ghost d2 = deck@;
    let ghost first_view = first@;
    proof {
        assert(first_view == PlayerView { cards: dealt, splitted: false, doubled: false, surrender: false });
        lemma_drawn_from_concat(d0, opening, d1, dealt, d2);
    }
    let hands = play_hands(deck, strategy, &dealer, first);
    let ghost d3 = deck@;
    let ghost hand_cards = choose|hc: Seq<Card>|
        drawn_from(d2, hc, d3) && #[trigger] run_hands(
            strategy@,
            opening,
            seq![first_view],
            0,
            first_view,
            hc,
        ) == hands_outcome(hands);
    proof {
        lemma_drawn_from_concat(d0, opening + dealt, d2, hand_cards, d3);
    }
    let players = match hands {
        Some(v) => v,
        None => {
            proof {
                assert(drawn_from(d3, Seq::<Card>::empty(), d3));
                assert(round_outcome(
                    *strategy,
                    d0,
                    opening,
                    dealt,
                    hand_cards,
                    d3,
                    Seq::<Card>::empty(),
                    deck@,
                    None,
                ));
            }
            return None;
        },
    };
    let mut k: usize = 0;
    #[verifier::loop_isolation(false)]
    while k < players.len()
        invariant
            deck.countable(),
            k <= players@.len(),
            forall|j: int| 0 <= j < k ==> (#[trigger] players@[j]).countable(),
        decreases players@.len() - k,
    {
        if !players[k].is_countable() {
            proof {
                assert(player_views(players@)[k as int] == players@[k as int]@);
                assert(!all_countable(player_views(players@)));
                assert(round_outcome(
                    *strategy,
                    d0,
                    opening,
                    dealt,
                    hand_cards,
                    d3,
                    Seq::<Card>::empty(),
                    deck@,
                    None,
                ));
            }
            return None;
        }
        k = k + 1;
    }
    proof {
        assert forall|j: int| 0 <= j < player_views(players@).len() implies raw_sum(
            (#[trigger] player_views(players@)[j]).cards,
        ) <= 255 by {
            assert(player_views(players@)[j] == players@[j]@);
        }
        assert(all_countable(player_views(players@)));
    }
    dealer.drow(deck);
    let ghost extra = dealer@.skip(opening.len() as int);
    let p = settle(&players, &dealer);
    proof {
        assert(dealer@ =~= opening + extra);
        lemma_settle_bounds(player_views(players@), dealer@);
        assert(dealer_status(dealer@).0 >= 17);
        assert(settle_spec(player_views(players@), dealer@) == p);
        assert(dealer_draws(opening, extra));
        assert(round_outcome(*strategy, d0, opening, dealt, hand_cards, d3, extra, deck@, Some(p)));
        assert forall|k: int| 0 <= k < player_views(players@).len() implies finished(
            *strategy,
            #[trigger] player_views(players@)[k],
            opening,
        ) by {
            assert(player_views(players@)[k] == players@[k]@);
        }
        assert forall|k: int| 0 <= k < player_views(players@).len() implies ((#[trigger] player_views(
            players@,
        )[k]).doubled ==> player_views(players@)[k].cards.len() >= 3) by {
            assert(player_views(players@)[k] == players@[k]@);
        }
        assert(played_round(*strategy, player_views(players@), opening, dealer@));
        lemma_settle_two_bets(player_views(players@), dealer@);
    }
    Some(p)
}

} // verus!
