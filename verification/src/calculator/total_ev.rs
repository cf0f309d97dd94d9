use vstd::prelude::*;

verus! {

/// How the expected value of the shoe is being computed: not at all, once,
/// or again whenever the table moves on.
#[derive(Clone, Copy, PartialEq, Eq, Structural, Debug)]
pub enum CalcState {
    Idle,
    Endless,
    Once,
}

/// What the caller should do with the computing process.
#[derive(Clone, Copy, PartialEq, Eq, Structural, Debug)]
pub enum EvCommand {
    Nothing,
    Spawn,
    Stop,
}

/// The decisions about the process that computes the shoe's expected value:
/// the mode, and whether a process is running.
#[derive(Clone, Copy, PartialEq, Eq, Structural, Debug)]
pub struct EvController {
    pub state: CalcState,
    pub running: bool,
}

impl EvController {
    /// Idle, with no process running.
    pub fn new() -> (c: Self)
        ensures
            c == (EvController { state: CalcState::Idle, running: false }),
    {
        EvController { state: CalcState::Idle, running: false }
    }

    /// Starts a process unless one is running.
    fn try_spawn(&mut self) -> (cmd: EvCommand)
        ensures
            final(self).state == old(self).state,
            final(self).running,
            cmd == if old(self).running {
                EvCommand::Nothing
            } else {
                EvCommand::Spawn
            },
    {
        if self.running {
            return EvCommand::Nothing;
        }
        self.running = true;
        EvCommand::Spawn
    }

    /// Stops the running process, if any.
    fn stop(&mut self) -> (cmd: EvCommand)
        ensures
            final(self).state == old(self).state,
            !final(self).running,
            cmd == if old(self).running {
                EvCommand::Stop
            } else {
                EvCommand::Nothing
            },
    {
        if self.running {
            self.running = false;
            EvCommand::Stop
        } else {
            EvCommand::Nothing
        }
    }

    /// The "once" button (offered while no process runs): compute once.
    pub fn press_once(&mut self) -> (cmd: EvCommand)
        ensures
            final(self).state == CalcState::Once,
            final(self).running,
            cmd == if old(self).running {
                EvCommand::Nothing
            } else {
                EvCommand::Spawn
            },
    {
        self.state = CalcState::Once;
        self.try_spawn()
    }

    /// The "endless" button: from idle, compute again and again (starting at
    /// once when there is no result yet); from endless, stop; from once,
    /// carry on endlessly.
    pub fn press_endless(&mut self, has_result: bool) -> (cmd: EvCommand)
        ensures
            final(self).state == match old(self).state {
                CalcState::Idle => CalcState::Endless,
                CalcState::Endless => CalcState::Idle,
                CalcState::Once => CalcState::Endless,
            },
            old(self).state == CalcState::Idle ==> (final(self).running == (old(self).running
                || !has_result)) && cmd == if !has_result && !old(self).running {
                EvCommand::Spawn
            } else {
                EvCommand::Nothing
            },
            old(self).state == CalcState::Endless ==> !final(self).running && cmd == if old(
                self,
            ).running {
                EvCommand::Stop
            } else {
                EvCommand::Nothing
            },
            old(self).state == CalcState::Once ==> final(self).running == old(self).running && cmd
                == EvCommand::Nothing,
    {
        match self.state {
            CalcState::Idle => {
                self.state = CalcState::Endless;
                if !has_result {
                    return self.try_spawn();
                }
                EvCommand::Nothing
            },
            CalcState::Endless => {
                self.state = CalcState::Idle;
                self.stop()
            },
            CalcState::Once => {
                self.state = CalcState::Endless;
                EvCommand::Nothing
            },
        }
    }

    /// Each frame: in endless mode, once the dealer stands or the next round
    /// or a reset is asked for, compute for the current shoe unless that was
    /// done already.
    pub fn on_frame(&mut self, dealer_stands: bool, next_or_reset: bool, calculated_for_current: bool) -> (cmd:
        EvCommand)
        ensures
            final(self).state == old(self).state,
            ({
                let start = old(self).state == CalcState::Endless && (dealer_stands || next_or_reset)
                    && !calculated_for_current;
                &&& start ==> final(self).running && cmd == if old(self).running {
                    EvCommand::Nothing
                } else {
                    EvCommand::Spawn
                }
                &&& !start ==> *final(self) == *old(self) && cmd == EvCommand::Nothing
            }),
    {
        let start_condition = match self.state {
            CalcState::Endless => dealer_stands || next_or_reset,
            _ => false,
        };
        if start_condition && !calculated_for_current {
            return self.try_spawn();
        }
        EvCommand::Nothing
    }

    /// A result came back: the process is over, and a single computation
    /// goes back to idle.
    pub fn on_result(&mut self)
        ensures
            !final(self).running,
            final(self).state == if old(self).state == CalcState::Once {
                CalcState::Idle
            } else {
                old(self).state
            },
    {
        self.running = false;
        if self.state == CalcState::Once {
            self.state = CalcState::Idle;
        }
    }

    /// The rules changed: stop the process, keep the mode.
    pub fn reset(&mut self) -> (cmd: EvCommand)
        ensures
            *final(self) == (EvController { state: old(self).state, running: false }),
            cmd == if old(self).running {
                EvCommand::Stop
            } else {
                EvCommand::Nothing
            },
    {
        self.stop()
    }
}

} // verus!
