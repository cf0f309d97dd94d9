use vstd::prelude::*;

verus! {

/// The place a card typed in goes to: a player's hand (counted from the
/// left), the dealer, or the discards.
#[derive(Clone, Copy, PartialEq, Eq, Structural, Debug)]
pub enum Selected {
    Player(usize),
    Dealer,
    Discard,
}

impl Selected {
    /// Whether this is player `i`'s hand.
    pub fn is_player(&self, i: usize) -> (b: bool)
        ensures
            b == (*self == Selected::Player(i)),
    {
        if let Selected::Player(t) = self {
            return i == *t;
        }
        false
    }

    /// Follows the removal of the rightmost hand (`players` hands remain): a
    /// selection on the removed hand moves to the new rightmost one.
    pub fn after_remove_back(&mut self, players: usize)
        ensures
            *final(self) == match *old(self) {
                Selected::Player(i) => if i == players && i != 0 {
                    Selected::Player((i - 1) as usize)
                } else {
                    Selected::Player(i)
                },
                s => s,
            },
            *old(self) matches Selected::Player(i) ==> (players >= 1 && i <= players ==> (
            *final(self) matches Selected::Player(j) && j < players)),
    {
        if let Selected::Player(i) = *self {
            if i == players && i != 0 {
                *self = Selected::Player(i - 1);
            }
        }
    }

    /// Follows the removal of the leftmost hand: the selection moves one
    /// place left with its hand, staying on the first place.
    pub fn after_remove_front(&mut self)
        ensures
            *final(self) == match *old(self) {
                Selected::Player(i) => if i != 0 {
                    Selected::Player((i - 1) as usize)
                } else {
                    Selected::Player(i)
                },
                s => s,
            },
    {
        if let Selected::Player(i) = *self {
            if i != 0 {
                *self = Selected::Player(i - 1);
            }
        }
    }

    /// Follows the addition of a hand on the right, `players` being the
    /// number of hands before it: a selection on the rightmost hand moves to
    /// the new one.
    pub fn before_add_back(&mut self, players: usize)
        requires
            *old(self) matches Selected::Player(i) ==> i < usize::MAX,
        ensures
            *final(self) == match *old(self) {
                Selected::Player(i) => if i + 1 == players {
                    Selected::Player((i + 1) as usize)
                } else {
                    Selected::Player(i)
                },
                s => s,
            },
            *old(self) matches Selected::Player(i) ==> (i < players ==> (
            *final(self) matches Selected::Player(j) && j < players + 1)),
    {
        if let Selected::Player(i) = *self {
            if i + 1 == players {
                *self = Selected::Player(i + 1);
            }
        }
    }

    /// Follows the addition of a hand on the left, `players` being the number
    /// of hands after it: the selection moves right with its hand.
    pub fn after_add_front(&mut self, players: usize)
        requires
            *old(self) matches Selected::Player(i) ==> (players != 1 ==> i < usize::MAX),
        ensures
            *final(self) == match *old(self) {
                Selected::Player(i) => if players != 1 {
                    Selected::Player((i + 1) as usize)
                } else {
                    Selected::Player(i)
                },
                s => s,
            },
            *old(self) matches Selected::Player(i) ==> (i + 1 < players ==> (
            *final(self) matches Selected::Player(j) && j < players)),
    {
        if let Selected::Player(i) = *self {
            if players != 1 {
                *self = Selected::Player(i + 1);
            }
        }
    }
}

/// A step in dealing and playing a round.
#[derive(Clone, Copy, PartialEq, Eq, Structural, Debug)]
pub enum StepperElements {
    DealToDealer,
    _DealToPlayerFromLeft,
    DealToPlayerFromRight,
    PlayerPlaysFromRight,
    _PlayerPlaysFromLeft,
    DiscardIfExist,
    DealerPlays,
}

/// The step goes through the players from the right.
pub open spec fn from_right(e: StepperElements) -> bool {
    e == StepperElements::DealToPlayerFromRight || e == StepperElements::PlayerPlaysFromRight
}

/// The step goes through the players from the left.
pub open spec fn from_left(e: StepperElements) -> bool {
    e == StepperElements::_DealToPlayerFromLeft || e == StepperElements::_PlayerPlaysFromLeft
}

/// Where a step starts: the dealer, the rightmost or leftmost player, or the
/// discards.
pub open spec fn entry_of(e: StepperElements, players: int) -> Selected {
    match e {
        StepperElements::DealToDealer | StepperElements::DealerPlays => Selected::Dealer,
        StepperElements::DealToPlayerFromRight | StepperElements::PlayerPlaysFromRight => Selected::Player(
            (players - 1) as usize,
        ),
        StepperElements::_DealToPlayerFromLeft | StepperElements::_PlayerPlaysFromLeft => Selected::Player(
            0,
        ),
        StepperElements::DiscardIfExist => Selected::Discard,
    }
}

/// The steps of a round and the one the table is at.
pub struct StepperView {
    pub steps: Seq<StepperElements>,
    pub current: int,
}

/// The steps of a round: deal the players from the right, deal the dealer,
/// deal the players again, let them play from the right, take the discards,
/// let the dealer play.
pub open spec fn default_steps() -> Seq<StepperElements> {
    seq![
        StepperElements::DealToPlayerFromRight,
        StepperElements::DealToDealer,
        StepperElements::DealToPlayerFromRight,
        StepperElements::PlayerPlaysFromRight,
        StepperElements::DiscardIfExist,
        StepperElements::DealerPlays,
    ]
}

/// Where step `index` starts, if there is such a step.
pub open spec fn entry_spec(steps: Seq<StepperElements>, players: int, index: int) -> Option<Selected> {
    if 0 <= index < steps.len() {
        Some(entry_of(steps[index], players))
    } else {
        None
    }
}

/// Step `index` can find where it starts: a step that starts at the
/// rightmost player needs a player.
pub open spec fn entry_ok(steps: Seq<StepperElements>, players: int, index: int) -> bool {
    (0 <= index < steps.len() && from_right(steps[index])) ==> players >= 1
}

/// The step the table moves to from step `current`: the next one, skipping
/// taking the discards unless discards are kept track of.
pub open spec fn move_target(steps: Seq<StepperElements>, current: int, infinite: bool) -> int {
    let c1 = current + 1;
    if c1 < steps.len() && steps[c1] == StepperElements::DiscardIfExist && !infinite {
        c1 + 1
    } else {
        c1
    }
}

/// Moving to the next step (see `move_target`) and selecting where it
/// starts.
pub open spec fn move_spec(
    steps: Seq<StepperElements>,
    current: int,
    selected: Selected,
    players: int,
    infinite: bool,
) -> (int, Selected) {
    let c2 = move_target(steps, current, infinite);
    let sel = match entry_spec(steps, players, c2) {
        Some(x) => x,
        None => selected,
    };
    (c2, sel)
}

/// Moving on within a step: a dealer or discard step ends at once; a step
/// through the players goes to the next player and ends after the last one.
pub open spec fn step_force_spec(
    steps: Seq<StepperElements>,
    current: int,
    selected: Selected,
    players: int,
    infinite: bool,
) -> (int, Selected) {
    if 0 <= current < steps.len() {
        let e = steps[current];
        if from_left(e) {
            match selected {
                Selected::Player(i) => if i + 1 == players {
                    move_spec(steps, current, Selected::Player((i + 1) as usize), players, infinite)
                } else {
                    (current, Selected::Player((i + 1) as usize))
                },
                _ => (current, selected),
            }
        } else if from_right(e) {
            match selected {
                Selected::Player(i) => if i == 0 {
                    move_spec(steps, current, selected, players, infinite)
                } else {
                    (current, Selected::Player((i - 1) as usize))
                },
                _ => (current, selected),
            }
        } else {
            move_spec(steps, current, selected, players, infinite)
        }
    } else {
        (current, selected)
    }
}

/// Moving on within step `current` can be done: a step through the players
/// from the left can count one more player, and where the step ends, the
/// next one can find where it starts.
pub open spec fn step_force_ok(
    steps: Seq<StepperElements>,
    current: int,
    selected: Selected,
    players: int,
    infinite: bool,
) -> bool {
    let target_ok = entry_ok(steps, players, move_target(steps, current, infinite));
    if 0 <= current < steps.len() {
        let e = steps[current];
        if from_left(e) {
            match selected {
                Selected::Player(i) => i < usize::MAX && (i + 1 == players ==> target_ok),
                _ => true,
            }
        } else if from_right(e) {
            match selected {
                Selected::Player(i) => i == 0 ==> target_ok,
                _ => true,
            }
        } else {
            target_ok
        }
    } else {
        true
    }
}

/// The step is one that deals a card.
pub open spec fn dealing_step(steps: Seq<StepperElements>, current: int) -> bool {
    0 <= current < steps.len() && (steps[current] == StepperElements::DealToDealer
        || steps[current] == StepperElements::_DealToPlayerFromLeft || steps[current]
        == StepperElements::DealToPlayerFromRight)
}

/// After a card is dealt: a dealing step moves on, a playing step waits.
pub open spec fn step_spec(
    steps: Seq<StepperElements>,
    current: int,
    selected: Selected,
    players: int,
    infinite: bool,
) -> (int, Selected) {
    if dealing_step(steps, current) {
        step_force_spec(steps, current, selected, players, infinite)
    } else {
        (current, selected)
    }
}

/// A card entered while the players play, while discards are taken or
/// while the dealer plays moves nothing: the table stays at its step with the
/// same selection, so more cards can be entered there. Past the last step
/// nothing moves either.
pub proof fn lemma_step_waits_outside_dealing(
    steps: Seq<StepperElements>,
    current: int,
    selected: Selected,
    players: int,
    infinite: bool,
)
    requires
        !(0 <= current < steps.len()) || steps[current] == StepperElements::PlayerPlaysFromRight
            || steps[current] == StepperElements::_PlayerPlaysFromLeft || steps[current]
            == StepperElements::DiscardIfExist || steps[current] == StepperElements::DealerPlays,
    ensures
        step_spec(steps, current, selected, players, infinite) == (current, selected),
{
}

/// A card dealt to the dealer or to a player moves the table on as
/// `step_force` would: to the next player, or past the last one to the next
/// step.
pub proof fn lemma_step_moves_when_dealing(
    steps: Seq<StepperElements>,
    current: int,
    selected: Selected,
    players: int,
    infinite: bool,
)
    requires
        0 <= current < steps.len(),
        steps[current] == StepperElements::DealToDealer || steps[current]
            == StepperElements::_DealToPlayerFromLeft || steps[current]
            == StepperElements::DealToPlayerFromRight,
    ensures
        step_spec(steps, current, selected, players, infinite) == step_force_spec(
            steps,
            current,
            selected,
            players,
            infinite,
        ),
{
}

/// Where the table is in dealing and playing a round.
pub struct Stepper {
    vec: Vec<StepperElements>,
    current: usize,
}

impl View for Stepper {
    type V = StepperView;

    closed spec fn view(&self) -> StepperView {
        StepperView { steps: self.vec@, current: self.current as int }
    }
}

impl Default for Stepper {
    /// The steps of a round, at the first.
    fn default() -> (s: Self)
        ensures
            s@.steps == default_steps(),
            s@.current == 0,
    {
        let s = Stepper {
            vec: vec![
                StepperElements::DealToPlayerFromRight,
                StepperElements::DealToDealer,
                StepperElements::DealToPlayerFromRight,
                StepperElements::PlayerPlaysFromRight,
                StepperElements::DiscardIfExist,
                StepperElements::DealerPlays,
            ],
            current: 0,
        };
        assert(s@.steps =~= default_steps());
        s
    }
}

impl Clone for Stepper {
    fn clone(&self) -> (s: Self)
        ensures
            s@ == self@,
    {
        Stepper { vec: self.vec.clone(), current: self.current }
    }
}

impl Stepper {
    /// The step index is never negative.
    pub proof fn lemma_current_nonneg(&self)
        ensures
            self@.current >= 0,
    {
    }

    /// The step the table is at, if the round is not over.
    pub fn get(&self) -> (r: Option<&StepperElements>)
        ensures
            self@.current >= 0,
            r == if 0 <= self@.current < self@.steps.len() {
                Some(&self@.steps[self@.current])
            } else {
                None
            },
    {
        if self.current < self.vec.len() {
            Some(&self.vec[self.current])
        } else {
            None
        }
    }

    /// Back to the first step; gives where it starts.
    pub fn reset(&mut self, players: usize) -> (r: Option<Selected>)
        requires
            entry_ok(old(self)@.steps, players as int, 0),
        ensures
            final(self)@ == (StepperView { current: 0, ..old(self)@ }),
            r == entry_spec(old(self)@.steps, players as int, 0),
    {
        self.current = 0;
        self.get_entry_current(players)
    }

    /// Where step `index` starts, if there is such a step.
    pub fn get_entry(&self, players: usize, index: usize) -> (r: Option<Selected>)
        requires
            entry_ok(self@.steps, players as int, index as int),
        ensures
            r == entry_spec(self@.steps, players as int, index as int),
    {
        if index < self.vec.len() {
            match self.vec[index] {
                StepperElements::DealToDealer | StepperElements::DealerPlays => Some(Selected::Dealer),
                StepperElements::DealToPlayerFromRight | StepperElements::PlayerPlaysFromRight => {
                    assert(from_right(self@.steps[index as int]));
                    Some(Selected::Player(players - 1))
                },
                StepperElements::_DealToPlayerFromLeft | StepperElements::_PlayerPlaysFromLeft => Some(
                    Selected::Player(0),
                ),
                StepperElements::DiscardIfExist => Some(Selected::Discard),
            }
        } else {
            None
        }
    }

    /// Where the current step starts, if the round is not over.
    pub fn get_entry_current(&self, players: usize) -> (r: Option<Selected>)
        requires
            entry_ok(self@.steps, players as int, self@.current),
        ensures
            r == entry_spec(self@.steps, players as int, self@.current),
    {
        self.get_entry(players, self.current)
    }

    /// Moves to the next step (see `move_spec`).
    fn stepper_move(&mut self, selected: &mut Selected, players: usize, infinite: bool)
        requires
            old(self)@.current < old(self)@.steps.len(),
            entry_ok(
                old(self)@.steps,
                players as int,
                move_target(old(self)@.steps, old(self)@.current, infinite),
            ),
        ensures
            final(self)@.steps == old(self)@.steps,
            (final(self)@.current, *final(selected)) == move_spec(
                old(self)@.steps,
                old(self)@.current,
                *old(selected),
                players as int,
                infinite,
            ),
    {
        let n = self.vec.len();
        assert(self.current < n);
        self.current = self.current + 1;
        if self.current < self.vec.len() && self.vec[self.current] == StepperElements::DiscardIfExist
            && !infinite {
            self.current = self.current + 1;
        }
        if let Some(x) = self.get_entry_current(players) {
            *selected = x;
        }
    }

    /// After a card is dealt: a dealing step moves on (see `step_spec`).
    pub fn step(&mut self, selected: &mut Selected, players: usize, infinite: bool)
        requires
            dealing_step(old(self)@.steps, old(self)@.current) ==> step_force_ok(
                old(self)@.steps,
                old(self)@.current,
                *old(selected),
                players as int,
                infinite,
            ),
        ensures
            final(self)@.steps == old(self)@.steps,
            (final(self)@.current, *final(selected)) == step_spec(
                old(self)@.steps,
                old(self)@.current,
                *old(selected),
                players as int,
                infinite,
            ),
    {
        if let Some(o) = self.get() {
            match o {
                StepperElements::DealToDealer | StepperElements::_DealToPlayerFromLeft
                | StepperElements::DealToPlayerFromRight => self.step_force(selected, players, infinite),
                _ => {},
            }
        }
    }

    /// Moves on within the current step (see `step_force_spec`).
    pub fn step_force(&mut self, selected: &mut Selected, players: usize, infinite: bool)
        requires
            step_force_ok(
                old(self)@.steps,
                old(self)@.current,
                *old(selected),
                players as int,
                infinite,
            ),
        ensures
            final(self)@.steps == old(self)@.steps,
            (final(self)@.current, *final(selected)) == step_force_spec(
                old(self)@.steps,
                old(self)@.current,
                *old(selected),
                players as int,
                infinite,
            ),
    {
        if let Some(o) = self.get() {
            match o {
                StepperElements::DealToDealer | StepperElements::DealerPlays
                | StepperElements::DiscardIfExist => self.stepper_move(selected, players, infinite),
                StepperElements::_DealToPlayerFromLeft | StepperElements::_PlayerPlaysFromLeft => {
                    if let Selected::Player(i) = *selected {
                        *selected = Selected::Player(i + 1);
                        if i + 1 == players {
                            self.stepper_move(selected, players, infinite)
                        }
                    }
                },
                StepperElements::DealToPlayerFromRight | StepperElements::PlayerPlaysFromRight => {
                    if let Selected::Player(i) = *selected {
                        if i == 0 {
                            self.stepper_move(selected, players, infinite)
                        } else {
                            *selected = Selected::Player(i - 1);
                        }
                    }
                },
            }
        }
    }
}

/// The keys pressed (or held) in one frame that move the selection.
#[derive(Clone, Copy, PartialEq, Eq, Structural, Debug)]
pub struct SelectionInput {
    pub right: bool,
    pub left: bool,
    pub up: bool,
    pub down: bool,
    pub dealer_held: bool,
    pub discard_held: bool,
}

/// The selection after the right key: the next player to the right, wrapping
/// to the first; the dealer and the discards swap.
pub open spec fn move_right(s: Selected, players: int) -> Selected {
    match s {
        Selected::Player(pos) => if pos == players - 1 {
            Selected::Player(0)
        } else {
            Selected::Player((pos + 1) as usize)
        },
        Selected::Dealer => Selected::Discard,
        Selected::Discard => Selected::Dealer,
    }
}

/// The selection after the left key: the next player to the left, wrapping
/// to the last; the dealer and the discards swap.
pub open spec fn move_left(s: Selected, players: int) -> Selected {
    match s {
        Selected::Player(pos) => if pos == 0 {
            Selected::Player((players - 1) as usize)
        } else {
            Selected::Player((pos - 1) as usize)
        },
        Selected::Dealer => Selected::Discard,
        Selected::Discard => Selected::Dealer,
    }
}

/// Moving left undoes moving right, and moving right undoes moving left.
pub proof fn lemma_left_undoes_right(s: Selected, players: int)
    requires
        players >= 1,
        s matches Selected::Player(pos) ==> pos < players,
        players <= usize::MAX,
    ensures
        move_left(move_right(s, players), players) == s,
        move_right(move_left(s, players), players) == s,
{
}

/// The selection after the up or down key: from a player to the dealer, from
/// the dealer or the discards to the first player.
pub open spec fn move_vertical(s: Selected) -> Selected {
    match s {
        Selected::Player(_) => Selected::Dealer,
        _ => Selected::Player(0),
    }
}

/// The selection kept from frame to frame, after this frame's keys.
pub open spec fn base_after(base: Selected, players: int, input: SelectionInput) -> Selected {
    let b1 = if input.right {
        move_right(base, players)
    } else {
        base
    };
    let b2 = if input.left {
        move_left(b1, players)
    } else {
        b1
    };
    if input.up || input.down {
        move_vertical(b2)
    } else {
        b2
    }
}

/// Updates the selection from this frame's keys: right, left, then up or
/// down move the kept selection; while the dealer or the discard key is held
/// the cards go there instead.
pub fn update_selected(
    selected_base: &mut Selected,
    selected_current: &mut Selected,
    players: usize,
    input: &SelectionInput,
)
    requires
        (input.right || input.left) && *old(selected_base) is Player ==> players >= 1,
        input.right ==> (*old(selected_base) matches Selected::Player(pos) ==> (pos == players - 1
            || pos < usize::MAX)),
    ensures
        *final(selected_base) == base_after(*old(selected_base), players as int, *input),
        *final(selected_current) == if input.dealer_held {
            Selected::Dealer
        } else if input.discard_held {
            Selected::Discard
        } else {
            *final(selected_base)
        },
        players >= 1 && (*old(selected_base) matches Selected::Player(pos) ==> pos < players) ==> (
        *final(selected_base) matches Selected::Player(pos) ==> pos < players),
{
    if input.right {
        *selected_base = match *selected_base {
            Selected::Player(pos) => {
                if pos == players - 1 {
                    Selected::Player(0)
                } else {
                    Selected::Player(pos + 1)
                }
            },
            Selected::Dealer => Selected::Discard,
            Selected::Discard => Selected::Dealer,
        };
    }
    if input.left {
        *selected_base = match *selected_base {
            Selected::Player(pos) => {
                if pos == 0 {
                    Selected::Player(players - 1)
                } else {
                    Selected::Player(pos - 1)
                }
            },
            Selected::Dealer => Selected::Discard,
            Selected::Discard => Selected::Dealer,
        };
    }
    if input.up || input.down {
        *selected_base = match *selected_base {
            Selected::Player(_) => Selected::Dealer,
            Selected::Dealer => Selected::Player(0),
            Selected::Discard => Selected::Player(0),
        };
    }
    if input.dealer_held {
        *selected_current = Selected::Dealer;
    } else if input.discard_held {
        *selected_current = Selected::Discard;
    } else {
        *selected_current = *selected_base;
    }
}

} // verus!
