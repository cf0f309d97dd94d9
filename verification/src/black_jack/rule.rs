use vstd::prelude::*;

verus! {

/// The dealer takes a second (hole) card when the round is dealt.
pub const DEALER_HOLE_CARD: bool = true;

/// A hand that came from a split may still double down.
pub const DOUBLE_AFTER_SPLIT: bool = false;

/// A hand that came from a split may be split again.
pub const RE_SPLIT: bool = false;

/// The player may give up half the bet instead of playing the hand.
pub const SURRENDER: bool = false;

} // verus!
