pub mod basic_strategy;
pub mod table_text;

use vstd::prelude::*;

use super::{Dealer, Player, PlayerView};
use super::card::Card;
use super::rule;
use super::hand::hand_value;

verus! {

/// What a player does with a hand.
#[derive(Clone, Copy, PartialEq, Eq, Structural, Debug)]
pub enum Action {
    Hit,
    Stand,
    Split,
    Double,
    Surrender,
}

impl Action {
    /// The action's name as it is printed.
    pub fn name(&self) -> (s: &'static str)
        ensures
            s@ == action_name(*self),
    {
        match self {
            Action::Hit => "Hit",
            Action::Stand => "Stand",
            Action::Split => "Split",
            Action::Double => "Double",
            Action::Surrender => "Surrender",
        }
    }
}

/// The printed name of an action.
pub open spec fn action_name(a: Action) -> Seq<char> {
    match a {
        Action::Hit => "Hit"@,
        Action::Stand => "Stand"@,
        Action::Split => "Split"@,
        Action::Double => "Double"@,
        Action::Surrender => "Surrender"@,
    }
}

/// A way of choosing the player's action from the player's hand and the
/// dealer's up card.
pub trait Strategy {
    /// The hands, against the dealer's cards, that the strategy has an
    /// answer for.
    spec fn answers_for(&self, player: PlayerView, dealer: Seq<Card>) -> bool;

    /// The action for `player` against `dealer`. The strategy answers for
    /// the hand, a splittable pair and the dealer's up card have ranks in
    /// 1..=10, the hand's value fits in `u8`, and a soft hand is worth at
    /// least 12 (it holds more than a lone ace).
    fn get(&self, player: &Player, dealer: &Dealer) -> Action
        requires
            self.answers_for(player@, dealer@),
            player@.cards.len() == 2 && player@.cards[0] == player@.cards[1] && (rule::RE_SPLIT
                || !player@.splitted) ==> player@.cards[0].wf(),
            player.countable(),
            hand_value(player@.cards).1 ==> hand_value(player@.cards).0 >= 12,
            dealer@.len() > 0,
            dealer@[0].wf(),
    ;
}

} // verus!
