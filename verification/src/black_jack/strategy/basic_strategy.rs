use vstd::prelude::*;

use super::{Action, Strategy};
use super::table_text::{split_on, strip_cr, views, remove_cr, split_bytes};
use super::super::{Dealer, Player, PlayerView};
use super::super::card::Card;
use super::super::hand::hand_value;
use super::super::rule;

verus! {

/// The line separator of a table text.
pub const NEWLINE: u8 = 10;

/// The cell separator of a table text.
pub const TAB: u8 = 9;

pub const UPPER_D: u8 = 68;

pub const UPPER_H: u8 = 72;

pub const UPPER_N: u8 = 78;

pub const UPPER_P: u8 = 80;

pub const UPPER_R: u8 = 82;

pub const UPPER_S: u8 = 83;

pub const LOWER_H: u8 = 104;

pub const LOWER_S: u8 = 115;

/// An entry of a basic-strategy table.
#[derive(Clone, Copy, PartialEq, Eq, Structural, Debug)]
pub enum BasicStrategyAction {
    Hit,
    Stand,
    Split,
    NoSplit,
    SplitIfDoubleable,
    Double,
    DoubleElseStand,
    Surrender,
    SurrenderElseStand,
}

/// The entry a table cell's text stands for: `H`, `S`, `P`, `N`, `Ph`, `D`,
/// `Ds`, `Rh`, `Rs`; any other text stands for none.
pub open spec fn parse_token(t: Seq<u8>) -> Option<BasicStrategyAction> {
    if t == seq![UPPER_H] {
        Some(BasicStrategyAction::Hit)
    } else if t == seq![UPPER_S] {
        Some(BasicStrategyAction::Stand)
    } else if t == seq![UPPER_P] {
        Some(BasicStrategyAction::Split)
    } else if t == seq![UPPER_N] {
        Some(BasicStrategyAction::NoSplit)
    } else if t == seq![UPPER_P, LOWER_H] {
        Some(BasicStrategyAction::SplitIfDoubleable)
    } else if t == seq![UPPER_D] {
        Some(BasicStrategyAction::Double)
    } else if t == seq![UPPER_D, LOWER_S] {
        Some(BasicStrategyAction::DoubleElseStand)
    } else if t == seq![UPPER_R, LOWER_H] {
        Some(BasicStrategyAction::Surrender)
    } else if t == seq![UPPER_R, LOWER_S] {
        Some(BasicStrategyAction::SurrenderElseStand)
    } else {
        None
    }
}

/// The entry is one of those a pair table holds.
pub open spec fn is_split_kind(a: BasicStrategyAction) -> bool {
    a == BasicStrategyAction::Split || a == BasicStrategyAction::NoSplit || a
        == BasicStrategyAction::SplitIfDoubleable
}

/// The lines of a table text, carriage returns removed.
pub open spec fn table_lines(text: Seq<u8>) -> Seq<Seq<u8>> {
    split_on(strip_cr(text), NEWLINE)
}

/// The tab-separated cells of line `i` of a table text.
pub open spec fn table_cells(text: Seq<u8>, i: int) -> Seq<Seq<u8>> {
    split_on(table_lines(text)[i], TAB)
}

/// A table text fits a 10 by 10 table and every cell names an entry.
pub open spec fn table_text_ok(text: Seq<u8>) -> bool {
    &&& table_lines(text).len() <= 10
    &&& forall|i: int|
        0 <= i < table_lines(text).len() ==> {
            &&& (#[trigger] table_cells(text, i)).len() <= 10
            &&& forall|j: int|
                0 <= j < table_cells(text, i).len() ==> (#[trigger] parse_token(
                    table_cells(text, i)[j],
                )) is Some
        }
}

/// Row `i`, column `j` of the table a text describes; cells that the text
/// does not reach hold `Hit`.
pub open spec fn table_cell(text: Seq<u8>, i: int, j: int) -> BasicStrategyAction {
    if i < table_lines(text).len() && j < table_cells(text, i).len() {
        parse_token(table_cells(text, i)[j])->0
    } else {
        BasicStrategyAction::Hit
    }
}

/// The table a text describes, row by row: cell `(i, j)` at `10 * i + j`.
pub open spec fn table_of(text: Seq<u8>) -> Seq<BasicStrategyAction> {
    Seq::new(100, |n: int| table_cell(text, n / 10, n % 10))
}

/// The entry a table cell's text stands for.
fn from_token(t: &[u8]) -> (r: Option<BasicStrategyAction>)
    ensures
        r == parse_token(t@),
{
    if t.len() == 1 {
        assert(t@ =~= seq![t@[0]]);
        match t[0] {
            UPPER_H => Some(BasicStrategyAction::Hit),
            UPPER_S => Some(BasicStrategyAction::Stand),
            UPPER_P => Some(BasicStrategyAction::Split),
            UPPER_N => Some(BasicStrategyAction::NoSplit),
            UPPER_D => Some(BasicStrategyAction::Double),
            _ => None,
        }
    } else if t.len() == 2 {
        assert(t@ =~= seq![t@[0], t@[1]]);
        if t[0] == UPPER_P && t[1] == LOWER_H {
            Some(BasicStrategyAction::SplitIfDoubleable)
        } else if t[0] == UPPER_D && t[1] == LOWER_S {
            Some(BasicStrategyAction::DoubleElseStand)
        } else if t[0] == UPPER_R && t[1] == LOWER_H {
            Some(BasicStrategyAction::Surrender)
        } else if t[0] == UPPER_R && t[1] == LOWER_S {
            Some(BasicStrategyAction::SurrenderElseStand)
        } else {
            None
        }
    } else {
        None
    }
}

/// Reads a table text: lines separated by `\n` (carriage returns ignored),
/// cells separated by `\t`, line `i` giving row `i`. `None` when the text has
/// more than ten lines, a line has more than ten cells, or a cell names no
/// entry.
pub fn load_strategy_table(text: &[u8]) -> (r: Option<Vec<BasicStrategyAction>>)
    ensures
        r is Some <==> table_text_ok(text@),
        r matches Some(v) ==> v@ == table_of(text@),
{
    let clean = remove_cr(text);
    let lines = split_bytes(clean.as_slice(), NEWLINE);
    let ghost ls = table_lines(text@);
    assert(views(lines@) == ls);
    if lines.len() > 10 {
        return None;
    }
    let mut table: Vec<BasicStrategyAction> = vec![BasicStrategyAction::Hit; 100];
    let mut i: usize = 0;
    while i < lines.len()
        invariant
            views(lines@) == ls,
            ls == table_lines(text@),
            lines@.len() <= 10,
            i <= lines@.len(),
            table@.len() == 100,
            forall|a: int|
                0 <= a < i ==> {
                    &&& (#[trigger] table_cells(text@, a)).len() <= 10
                    &&& forall|b: int|
                        0 <= b < table_cells(text@, a).len() ==> (#[trigger] parse_token(
                            table_cells(text@, a)[b],
                        )) is Some
                },
            forall|a: int, b: int|
                0 <= a < 10 && 0 <= b < 10 ==> #[trigger] table@[a * 10 + b] == if a < i {
                    table_cell(text@, a, b)
                } else {
                    BasicStrategyAction::Hit
                },
        decreases lines@.len() - i,
    {
        let cells = split_bytes(lines[i].as_slice(), TAB);
        let ghost cs = table_cells(text@, i as int);
        assert(views(lines@)[i as int] == lines@[i as int]@);
        assert(views(cells@) == cs);
        if cells.len() > 10 {
            return None;
        }
        let mut j: usize = 0;
        while j < cells.len()
            invariant
                views(cells@) == cs,
                cs == table_cells(text@, i as int),
                ls == table_lines(text@),
                i < ls.len(),
                cells@.len() <= 10,
                j <= cells@.len(),
                i < 10,
                table@.len() == 100,
                forall|b: int| 0 <= b < j ==> (#[trigger] parse_token(cs[b])) is Some,
                forall|a: int, b: int|
                    0 <= a < 10 && 0 <= b < 10 ==> #[trigger] table@[a * 10 + b] == if a < i || (a
                        == i && b < j) {
                        table_cell(text@, a, b)
                    } else {
                        BasicStrategyAction::Hit
                    },
            decreases cells@.len() - j,
        {
            assert(views(cells@)[j as int] == cells@[j as int]@);
            match from_token(cells[j].as_slice()) {
                Some(a) => {
                    table.set(i * 10 + j, a);
                    assert forall|x: int, y: int| 0 <= x < 10 && 0 <= y < 10 implies #[trigger] table@[x
                        * 10 + y] == if x < i || (x == i && y < j + 1) {
                        table_cell(text@, x, y)
                    } else {
                        BasicStrategyAction::Hit
                    } by {
                        if x == i && y == j {
                        } else {
                            assert(x * 10 + y != i * 10 + j);
                        }
                    }
                },
                None => {
                    assert(!table_text_ok(text@)) by {
                        assert(0 <= i < table_lines(text@).len());
                        assert(parse_token(table_cells(text@, i as int)[j as int]) is None);
                    }
                    return None;
                },
            }
            j = j + 1;
        }
        assert forall|a: int, b: int| 0 <= a < 10 && 0 <= b < 10 implies #[trigger] table@[a * 10
            + b] == if a < i + 1 {
            table_cell(text@, a, b)
        } else {
            BasicStrategyAction::Hit
        } by {
            if a == i && b >= j {
                assert(table_cell(text@, a, b) == BasicStrategyAction::Hit);
            }
        }
        i = i + 1;
    }
    assert(table_text_ok(text@));
    assert forall|n: int| 0 <= n < 100 implies table@[n] == #[trigger] table_of(text@)[n] by {
        let a = n / 10;
        let b = n % 10;
        assert(n == a * 10 + b);
        if a >= lines@.len() {
            assert(table_cell(text@, a, b) == BasicStrategyAction::Hit);
        }
    }
    assert(table@ =~= table_of(text@));
    Some(table)
}

/// The table for hard totals: row 0 for 8 or less, rows 1..=8 for 9..=16,
/// row 9 for 17 or more; one column per dealer up card, ace first.
pub struct HardHandStrategy {
    content: Vec<BasicStrategyAction>,
}

impl HardHandStrategy {
    fn new() -> (s: Self)
        ensures
            s.content@ == Seq::new(100, |n: int| BasicStrategyAction::Hit),
    {
        let s = HardHandStrategy { content: vec![BasicStrategyAction::Hit; 100] };
        assert(s.content@ =~= Seq::new(100, |n: int| BasicStrategyAction::Hit));
        s
    }

    fn load_strategy(text: &[u8]) -> (r: Option<Self>)
        ensures
            r is Some <==> table_text_ok(text@),
            r matches Some(s) ==> s.content@ == table_of(text@),
    {
        match load_strategy_table(text) {
            Some(content) => Some(HardHandStrategy { content }),
            None => None,
        }
    }
}

/// The table for soft totals: row `t - 12` for a soft total `t`.
pub struct SoftHandStrategy {
    content: Vec<BasicStrategyAction>,
}

impl SoftHandStrategy {
    fn new() -> (s: Self)
        ensures
            s.content@ == Seq::new(100, |n: int| BasicStrategyAction::Hit),
    {
        let s = SoftHandStrategy { content: vec![BasicStrategyAction::Hit; 100] };
        assert(s.content@ =~= Seq::new(100, |n: int| BasicStrategyAction::Hit));
        s
    }

    fn load_strategy(text: &[u8]) -> (r: Option<Self>)
        ensures
            r is Some <==> table_text_ok(text@),
            r matches Some(s) ==> s.content@ == table_of(text@),
    {
        match load_strategy_table(text) {
            Some(content) => Some(SoftHandStrategy { content }),
            None => None,
        }
    }
}

/// The table for pairs: row `r - 1` for a pair of rank `r`.
pub struct SplittableHandStrategy {
    content: Vec<BasicStrategyAction>,
}

impl SplittableHandStrategy {
    fn new() -> (s: Self)
        ensures
            s.content@ == Seq::new(100, |n: int| BasicStrategyAction::Hit),
    {
        let s = SplittableHandStrategy { content: vec![BasicStrategyAction::Hit; 100] };
        assert(s.content@ =~= Seq::new(100, |n: int| BasicStrategyAction::Hit));
        s
    }

    fn load_strategy(text: &[u8]) -> (r: Option<Self>)
        ensures
            r is Some <==> table_text_ok(text@),
            r matches Some(s) ==> s.content@ == table_of(text@),
    {
        match load_strategy_table(text) {
            Some(content) => Some(SplittableHandStrategy { content }),
            None => None,
        }
    }
}

/// The three tables of a basic strategy.
pub struct BasicStrategyView {
    pub hard: Seq<BasicStrategyAction>,
    pub soft: Seq<BasicStrategyAction>,
    pub split: Seq<BasicStrategyAction>,
}

/// The row of the hard table for a hard total.
pub open spec fn hard_row(sum: int) -> int {
    if sum <= 8 {
        0
    } else if sum >= 17 {
        9
    } else {
        sum - 8
    }
}

/// The hand is a pair that may be split.
pub open spec fn is_splittable_pair(p: PlayerView) -> bool {
    p.cards.len() == 2 && p.cards[0] == p.cards[1] && (rule::RE_SPLIT || !p.splitted)
}

/// The pair-table entry for the hand against the dealer's up card.
pub open spec fn pair_entry(s: BasicStrategyView, p: PlayerView, d: Seq<Card>) -> BasicStrategyAction {
    s.split[(p.cards[0].suit - 1) * 10 + (d[0].suit - 1)]
}

/// The hard- or soft-table entry for the hand against the dealer's up card.
pub open spec fn total_entry(s: BasicStrategyView, p: PlayerView, d: Seq<Card>) -> BasicStrategyAction {
    let up = d[0].suit - 1;
    let (sum, soft) = hand_value(p.cards);
    if soft {
        s.soft[(sum - 12) * 10 + up]
    } else {
        s.hard[hard_row(sum) * 10 + up]
    }
}

/// The pair table says to split the hand.
pub open spec fn pair_says_split(s: BasicStrategyView, p: PlayerView, d: Seq<Card>) -> bool {
    let e = pair_entry(s, p, d);
    e == BasicStrategyAction::Split || (e == BasicStrategyAction::SplitIfDoubleable
        && rule::DOUBLE_AFTER_SPLIT)
}

/// The entries the strategy consults for the hand are of the right kind: a
/// pair entry in the pair table for a splittable pair, and, unless that
/// splits, no pair entry in the hard or soft table.
pub open spec fn entries_fit(s: BasicStrategyView, p: PlayerView, d: Seq<Card>) -> bool {
    &&& is_splittable_pair(p) ==> is_split_kind(pair_entry(s, p, d))
    &&& !(is_splittable_pair(p) && pair_says_split(s, p, d)) ==> !is_split_kind(
        total_entry(s, p, d),
    )
}

/// The action the basic strategy gives for a player's hand against the
/// dealer's up card: split a splittable pair when the pair table says so (an
/// entry `Ph` counting only where doubling after a split is allowed);
/// otherwise the hard or soft table's entry, doubling only a hand that may
/// double and surrendering only where the rules allow it. (The last arm is
/// for pair entries, which `entries_fit` keeps out.)
pub open spec fn basic_action(s: BasicStrategyView, p: PlayerView, d: Seq<Card>) -> Action {
    let may_double = p.cards.len() == 2 && (!p.splitted || rule::DOUBLE_AFTER_SPLIT);
    if is_splittable_pair(p) && pair_says_split(s, p, d) {
        Action::Split
    } else {
        match total_entry(s, p, d) {
            BasicStrategyAction::Hit => Action::Hit,
            BasicStrategyAction::Stand => Action::Stand,
            BasicStrategyAction::Double => if may_double {
                Action::Double
            } else {
                Action::Hit
            },
            BasicStrategyAction::DoubleElseStand => if may_double {
                Action::Double
            } else {
                Action::Stand
            },
            BasicStrategyAction::Surrender => if rule::SURRENDER {
                Action::Surrender
            } else {
                Action::Hit
            },
            BasicStrategyAction::SurrenderElseStand => if rule::SURRENDER {
                Action::Surrender
            } else {
                Action::Stand
            },
            _ => Action::Stand,
        }
    }
}

/// The basic strategy only splits a pair that may be split, only doubles a
/// hand that may double, and only surrenders where the rules allow it.
pub proof fn lemma_basic_action_allowed(s: BasicStrategyView, p: PlayerView, d: Seq<Card>)
    ensures
        basic_action(s, p, d) == Action::Split ==> is_splittable_pair(p),
        basic_action(s, p, d) == Action::Double ==> p.cards.len() == 2 && (!p.splitted
            || rule::DOUBLE_AFTER_SPLIT),
        basic_action(s, p, d) == Action::Surrender ==> rule::SURRENDER,
{
}

/// What a hard- or soft-table entry tells a hand to do: hit, stand, double
/// (when the hand may not double, `D` hits and `Ds` stands), surrender (when
/// the rules forbid it, `Rh` hits and `Rs` stands).
pub open spec fn table_entry_action(e: BasicStrategyAction, may_double: bool) -> Action {
    if e == BasicStrategyAction::Hit {
        Action::Hit
    } else if e == BasicStrategyAction::Double {
        if may_double { Action::Double } else { Action::Hit }
    } else if e == BasicStrategyAction::DoubleElseStand {
        if may_double { Action::Double } else { Action::Stand }
    } else if e == BasicStrategyAction::Surrender {
        if rule::SURRENDER { Action::Surrender } else { Action::Hit }
    } else if e == BasicStrategyAction::SurrenderElseStand {
        if rule::SURRENDER { Action::Surrender } else { Action::Stand }
    } else {
        Action::Stand
    }
}

/// Where the strategy looks up a hand, each table laid out as ten rows of
/// ten cells, one column per dealer up card (ace first): a splittable pair
/// whose pair-table cell (row: the pair's rank) says to split is split; any
/// other soft hand worth `v` reads soft row `v - 12`; a hard hand worth 8 or
/// less reads hard row 0, one worth 9 to 16 hard row `v - 8`, one worth 17
/// or more hard row 9. A hand may double when it holds two cards and did not
/// come from a split (unless the rules let split hands double).
pub proof fn lemma_basic_action_lookup(s: BasicStrategyView, p: PlayerView, d: Seq<Card>)
    ensures
        ({
            let up = d[0].suit - 1;
            let v = hand_value(p.cards).0;
            let soft = hand_value(p.cards).1;
            let pair_cell = s.split[(p.cards[0].suit - 1) * 10 + up];
            let splits = p.cards.len() == 2 && p.cards[0] == p.cards[1] && (rule::RE_SPLIT
                || !p.splitted) && (pair_cell == BasicStrategyAction::Split || (pair_cell
                == BasicStrategyAction::SplitIfDoubleable && rule::DOUBLE_AFTER_SPLIT));
            let may_double = p.cards.len() == 2 && (!p.splitted || rule::DOUBLE_AFTER_SPLIT);
            let a = basic_action(s, p, d);
            &&& splits ==> a == Action::Split
            &&& !splits && soft ==> a == table_entry_action(s.soft[(v - 12) * 10 + up], may_double)
            &&& !splits && !soft && v <= 8 ==> a == table_entry_action(s.hard[up], may_double)
            &&& !splits && !soft && 9 <= v <= 16 ==> a == table_entry_action(
                s.hard[(v - 8) * 10 + up],
                may_double,
            )
            &&& !splits && !soft && v >= 17 ==> a == table_entry_action(
                s.hard[90 + up],
                may_double,
            )
        }),
{
}

/// A basic strategy read from three tables: hard totals, soft totals, pairs.
pub struct BasicStrategy8 {
    hard: HardHandStrategy,
    soft: SoftHandStrategy,
    split: SplittableHandStrategy,
}

impl View for BasicStrategy8 {
    type V = BasicStrategyView;

    closed spec fn view(&self) -> BasicStrategyView {
        BasicStrategyView {
            hard: self.hard.content@,
            soft: self.soft.content@,
            split: self.split.content@,
        }
    }
}

/// Whether an entry is one of those a pair table holds.
fn is_pair_entry(a: BasicStrategyAction) -> (b: bool)
    ensures
        b == is_split_kind(a),
{
    match a {
        BasicStrategyAction::Split | BasicStrategyAction::NoSplit
        | BasicStrategyAction::SplitIfDoubleable => true,
        _ => false,
    }
}

impl BasicStrategy8 {
    #[verifier::type_invariant]
    closed spec fn sized(&self) -> bool {
        &&& self.hard.content@.len() == 100
        &&& self.soft.content@.len() == 100
        &&& self.split.content@.len() == 100
    }

    /// Builds the strategy from the texts of the hard, soft and pair tables;
    /// `None` when a text is not a table (see `load_strategy_table`).
    pub fn new(hard_text: &[u8], soft_text: &[u8], split_text: &[u8]) -> (r: Option<Self>)
        ensures
            r is Some <==> (table_text_ok(hard_text@) && table_text_ok(soft_text@)
                && table_text_ok(split_text@)),
            r matches Some(s) ==> s@ == (BasicStrategyView {
                hard: table_of(hard_text@),
                soft: table_of(soft_text@),
                split: table_of(split_text@),
            }),
    {
        let hard = match HardHandStrategy::load_strategy(hard_text) {
            Some(h) => h,
            None => return None,
        };
        let soft = match SoftHandStrategy::load_strategy(soft_text) {
            Some(s) => s,
            None => return None,
        };
        let split = match SplittableHandStrategy::load_strategy(split_text) {
            Some(s) => s,
            None => return None,
        };
        Some(BasicStrategy8 { hard, soft, split })
    }

    /// Whether the entries the strategy consults for this hand are of the
    /// right kind (see `entries_fit`), so that `get` can answer.
    pub fn answers(&self, player: &Player, dealer: &Dealer) -> (b: bool)
        requires
            player@.cards.len() == 2 && player@.cards[0] == player@.cards[1] && (rule::RE_SPLIT
                || !player@.splitted) ==> player@.cards[0].wf(),
            player.countable(),
            hand_value(player@.cards).1 ==> hand_value(player@.cards).0 >= 12,
            dealer@.len() > 0,
            dealer@[0].wf(),
        ensures
            b == entries_fit(self@, player@, dealer@),
    {
        proof {
            use_type_invariant(self);
        }
        let up = dealer.up_card().to_usize();
        let pair = player.splittable();
        let mut splits = false;
        if pair {
            let e = self.split.content[player.card(0).to_usize() * 10 + up];
            if !is_pair_entry(e) {
                return false;
            }
            splits = e == BasicStrategyAction::Split || (e == BasicStrategyAction::SplitIfDoubleable
                && rule::DOUBLE_AFTER_SPLIT);
        }
        if pair && splits {
            return true;
        }
        let (sum, soft) = player.hand_status();
        let e = if soft {
            self.soft.content[(sum as usize - 12) * 10 + up]
        } else {
            let mut row = sum as usize;
            if row <= 8 {
                row = 0
            } else if row >= 17 {
                row = 9
            } else {
                row -= 8
            }
            self.hard.content[row * 10 + up]
        };
        !is_pair_entry(e)
    }
}

impl Strategy for BasicStrategy8 {
    open spec fn answers_for(&self, player: PlayerView, dealer: Seq<Card>) -> bool {
        entries_fit(self@, player, dealer)
    }

    fn get(&self, player: &Player, dealer: &Dealer) -> (a: Action)
        ensures
            a == basic_action(self@, player@, dealer@),
    {
        proof {
            use_type_invariant(self);
        }
        let dealer_upcard: usize = dealer.up_card().to_usize();
        if player.splittable() {
            let row = player.card(0).to_usize();
            match self.split.content[row * 10 + dealer_upcard] {
                BasicStrategyAction::Split => return Action::Split,
                BasicStrategyAction::SplitIfDoubleable => {
                    if rule::DOUBLE_AFTER_SPLIT {
                        return Action::Split;
                    }
                },
                _ => {},
            }
        }
        let stra: BasicStrategyAction;
        let (player_sum, player_soft) = player.hand_status();
        if player_soft {
            stra = self.soft.content[(player_sum as usize - 12) * 10 + dealer_upcard];
        } else {
            let mut temp = player_sum as usize;
            if temp <= 8 {
                temp = 0
            } else if temp >= 17 {
                temp = 9
            } else {
                temp -= 8
            }
            stra = self.hard.content[temp * 10 + dealer_upcard];
        }
        match stra {
            BasicStrategyAction::Hit => Action::Hit,
            BasicStrategyAction::Stand => Action::Stand,
            BasicStrategyAction::Double => {
                if player.doubleable() {
                    Action::Double
                } else {
                    Action::Hit
                }
            },
            BasicStrategyAction::DoubleElseStand => {
                if player.doubleable() {
                    Action::Double
                } else {
                    Action::Stand
                }
            },
            BasicStrategyAction::Surrender => {
                if rule::SURRENDER {
                    Action::Surrender
                } else {
                    Action::Hit
                }
            },
            BasicStrategyAction::SurrenderElseStand => {
                if rule::SURRENDER {
                    Action::Surrender
                } else {
                    Action::Stand
                }
            },
            _ => Action::Stand,
        }
    }
}

} // verus!
