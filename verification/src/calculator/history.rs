use std::collections::VecDeque;
use vstd::prelude::*;

verus! {

/// The most table states kept for undoing.
pub const HISTORY_LIMIT: usize = 100;

/// The kept states after `previous` is recorded: it goes last, and the
/// oldest state is forgotten once more than `HISTORY_LIMIT` are kept.
pub open spec fn record_spec<T>(states: Seq<T>, previous: T) -> Seq<T> {
    let s = states.push(previous);
    if s.len() > HISTORY_LIMIT {
        s.drop_first()
    } else {
        s
    }
}

/// The table states kept for undoing, oldest first.
pub struct History<T> {
    states: VecDeque<T>,
}

impl<T> View for History<T> {
    type V = Seq<T>;

    closed spec fn view(&self) -> Seq<T> {
        self.states@
    }
}

impl<T> History<T> {
    /// No state kept.
    pub fn new() -> (h: Self)
        ensures
            h@ == Seq::<T>::empty(),
    {
        History { states: VecDeque::new() }
    }

    /// Keeps the state the table was in before a change (see `record_spec`).
    pub fn record(&mut self, previous: T)
        ensures
            final(self)@ == record_spec(old(self)@, previous),
            old(self)@.len() <= HISTORY_LIMIT ==> final(self)@.len() <= HISTORY_LIMIT,
    {
        self.states.push_back(previous);
        if self.states.len() > HISTORY_LIMIT {
            let _ = self.states.pop_front();
            assert(self@ =~= old(self)@.push(previous).drop_first());
        }
    }

    /// Takes back the state kept last, if any.
    pub fn undo(&mut self) -> (r: Option<T>)
        ensures
            old(self)@.len() == 0 ==> r is None && final(self)@ == old(self)@,
            old(self)@.len() > 0 ==> r == Some(old(self)@.last()) && final(self)@ == old(
                self,
            )@.drop_last(),
    {
        let r = self.states.pop_back();
        proof {
            if old(self)@.len() > 0 {
                assert(self@ =~= old(self)@.drop_last());
            }
        }
        r
    }

    /// The number of states kept.
    pub fn len(&self) -> (n: usize)
        ensures
            n == self@.len(),
    {
        self.states.len()
    }
}

/// Undoing right after recording gives back the recorded state, and keeps
/// what was kept before it (less the oldest state, when the limit was
/// passed).
pub proof fn lemma_undo_after_record<T>(states: Seq<T>, previous: T)
    ensures
        record_spec(states, previous).len() > 0,
        record_spec(states, previous).last() == previous,
        record_spec(states, previous).drop_last() == if states.len() + 1 > HISTORY_LIMIT {
            states.drop_first()
        } else {
            states
        },
{
    let s = states.push(previous);
    if s.len() > HISTORY_LIMIT {
        assert(s.drop_first().drop_last() =~= states.drop_first());
    } else {
        assert(s.drop_last() =~= states);
    }
}

} // verus!
