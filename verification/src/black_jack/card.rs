use vstd::prelude::*;

verus! {

/// The message of the error that `Card::new` gives for a rank outside 1..=10.
pub open spec fn card_error_text() -> Seq<char> {
    "Cardを1~10以外で定義しようとしました"@
}

/// A card by rank: 1 is an ace, 2..=9 are pips, 10 stands for every ten-valued card.
#[derive(Clone, Copy, PartialEq, Eq, Structural, Debug)]
pub struct Card {
    pub suit: u8,
}

impl Card {
    /// A rank a card can have.
    pub open spec fn valid_rank(i: int) -> bool {
        1 <= i <= 10
    }

    pub open spec fn wf(self) -> bool {
        Self::valid_rank(self.suit as int)
    }

    /// Builds the card of rank `i`; ranks outside 1..=10 are refused.
    pub fn new(i: usize) -> (res: Result<Self, String>)
        ensures
            res is Ok <==> Self::valid_rank(i as int),
            res matches Ok(c) ==> c.suit == i,
            res matches Err(e) ==> e@ == card_error_text(),
    {
        if 1 <= i && i <= 10 {
            Ok(Card { suit: i as u8 })
        } else {
            Err("Cardを1~10以外で定義しようとしました".to_owned())
        }
    }

    /// The zero-based position of the rank (ace is 0, ten is 9).
    pub fn to_usize(&self) -> (r: usize)
        requires
            self.suit >= 1,
        ensures
            r == self.suit - 1,
    {
        self.suit as usize - 1
    }

    /// The character the card is printed as: `A`, `2`..`9`, `T`, and `_` for
    /// a rank outside 1..=10.
    pub fn symbol(&self) -> (c: char)
        ensures
            c == card_symbol(self.suit),
    {
        match self.suit {
            1 => 'A',
            2 => '2',
            3 => '3',
            4 => '4',
            5 => '5',
            6 => '6',
            7 => '7',
            8 => '8',
            9 => '9',
            10 => 'T',
            _ => '_',
        }
    }
}

/// The character of a rank.
pub open spec fn card_symbol(suit: u8) -> char {
    if suit == 1 {
        'A'
    } else if 2 <= suit <= 9 {
        ((suit as int) + ('0' as int)) as char
    } else if suit == 10 {
        'T'
    } else {
        '_'
    }
}

} // verus!
