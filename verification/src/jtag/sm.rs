//! The JTAG TAP controller state machine.

use vstd::prelude::*;

verus! {

/// Inner states of the parallel arms (IR-Scan and DR-Scan) of the JTAG state machine.
#[derive(Clone, Copy, Debug, PartialEq, Eq, Structural)]
pub enum OperationState {
    Select,
    Capture,
    Shift,
    Exit1,
    Pause,
    Exit2,
    Update,
}

impl OperationState {
    /// The TMS value that moves an arm state one step toward `target` inside the arm.
    /// `Update` leaves the arm; the outer machine decides there.
    pub open spec fn arm_tms_toward(self, target: Self) -> bool {
        match self {
            OperationState::Select => false,
            OperationState::Capture => target != OperationState::Shift,
            OperationState::Exit1 => !(target == OperationState::Pause || target
                == OperationState::Exit2),
            OperationState::Exit2 => !(target == OperationState::Shift || target
                == OperationState::Exit1 || target == OperationState::Pause),
            _ => true,
        }
    }

    /// The arm state reached from `self` on one TCK edge with the given TMS value,
    /// for the transitions that stay inside the arm.
    pub open spec fn arm_next(self, tms: bool) -> Self {
        if tms {
            match self {
                OperationState::Capture | OperationState::Shift => OperationState::Exit1,
                OperationState::Exit1 | OperationState::Exit2 => OperationState::Update,
                OperationState::Pause => OperationState::Exit2,
                // leaves the arm: handled by the outer machine
                _ => self,
            }
        } else {
            match self {
                OperationState::Select => OperationState::Capture,
                OperationState::Capture | OperationState::Shift => OperationState::Shift,
                OperationState::Exit1 | OperationState::Pause => OperationState::Pause,
                OperationState::Exit2 => OperationState::Shift,
                // leaves the arm: handled by the outer machine
                OperationState::Update => self,
            }
        }
    }

    /// Returns the TMS value that takes a step from the current state toward the target state.
    fn step_toward(self, target: Self) -> (tms: bool)
        requires
            self != OperationState::Update,
        ensures
            tms == self.arm_tms_toward(target),
    {
        match self {
            Self::Select => false,
            Self::Capture if matches!(target, Self::Shift) => false,
            Self::Exit1 if matches!(target, Self::Pause | Self::Exit2) => false,
            Self::Exit2 if matches!(target, Self::Shift | Self::Exit1 | Self::Pause) => false,
            _ => true,
        }
    }

    /// Step the state machine to a new state based on the TMS input value.
    fn update(self, tms: bool) -> (next: Self)
        requires
            self != OperationState::Update,
            tms ==> self != OperationState::Select,
        ensures
            next == self.arm_next(tms),
    {
        if tms {
            match self {
                Self::Capture | Self::Shift => Self::Exit1,
                Self::Exit1 | Self::Exit2 => Self::Update,
                _ => Self::Exit2,
            }
        } else {
            match self {
                Self::Select => Self::Capture,
                Self::Capture | Self::Shift => Self::Shift,
                Self::Exit1 | Self::Pause => Self::Pause,
                _ => Self::Shift,
            }
        }
    }
}

/// JTAG State Machine representation.
#[derive(Clone, Copy, Debug, PartialEq, Eq, Structural)]
pub enum JtagState {
    Reset,
    Idle,
    Dr(OperationState),
    Ir(OperationState),
}

impl JtagState {
    /// The state reached from `self` on one TCK edge with the given TMS value
    /// (IEEE 1149.1 TAP controller).
    pub open spec fn next(self, tms: bool) -> JtagState {
        match self {
            JtagState::Reset => if tms {
                JtagState::Reset
            } else {
                JtagState::Idle
            },
            JtagState::Idle => if tms {
                JtagState::Dr(OperationState::Select)
            } else {
                JtagState::Idle
            },
            JtagState::Dr(op) => if op == OperationState::Update {
                if tms {
                    JtagState::Dr(OperationState::Select)
                } else {
                    JtagState::Idle
                }
            } else if op == OperationState::Select && tms {
                JtagState::Ir(OperationState::Select)
            } else {
                JtagState::Dr(op.arm_next(tms))
            },
            JtagState::Ir(op) => if op == OperationState::Update {
                if tms {
                    JtagState::Dr(OperationState::Select)
                } else {
                    JtagState::Idle
                }
            } else if op == OperationState::Select && tms {
                JtagState::Reset
            } else {
                JtagState::Ir(op.arm_next(tms))
            },
        }
    }

    /// Whether the state lies in the DR-Scan or the IR-Scan arm.
    pub open spec fn in_scan_arm(self) -> bool {
        self is Dr || self is Ir
    }

    /// The TMS value that takes one step from `self` toward `target`,
    /// or `None` when `self` is `target`.
    pub open spec fn tms_toward(self, target: JtagState) -> Option<bool> {
        if self == target {
            None
        } else {
            Some(
                match self {
                    JtagState::Reset => false,
                    JtagState::Idle => true,
                    JtagState::Dr(op) => if op == OperationState::Select {
                        !(target is Dr)
                    } else if op == OperationState::Update {
                        target.in_scan_arm()
                    } else {
                        op.arm_tms_toward(
                            match target {
                                JtagState::Dr(t) => t,
                                _ => OperationState::Update,
                            },
                        )
                    },
                    JtagState::Ir(op) => if op == OperationState::Select {
                        !(target is Ir)
                    } else if op == OperationState::Update {
                        target.in_scan_arm()
                    } else {
                        op.arm_tms_toward(
                            match target {
                                JtagState::Ir(t) => t,
                                _ => OperationState::Update,
                            },
                        )
                    },
                },
            )
        }
    }

    /// The state reached after at most `n` steps from `self` toward `target`, each step
    /// clocking the TMS value that `tms_toward` chooses.
    pub open spec fn walk(self, target: JtagState, n: nat) -> JtagState
        decreases n,
    {
        if n == 0 {
            self
        } else {
            match self.tms_toward(target) {
                None => self,
                Some(tms) => self.next(tms).walk(target, (n - 1) as nat),
            }
        }
    }

    /// Returns the TMS value that takes a step from the current state toward the target state.
    ///
    /// Returns `None` if the state machine is already in the target state.
    pub fn step_toward(self, target: Self) -> (tms: Option<bool>)
        ensures
            tms == self.tms_toward(target),
            tms is None <==> self == target,
    {
        let tms = match self {
            state if target == state => return None,
            Self::Reset => false,
            Self::Idle => true,
            Self::Dr(OperationState::Select) => !matches!(target, Self::Dr(_)),
            Self::Ir(OperationState::Select) => !matches!(target, Self::Ir(_)),
            Self::Dr(OperationState::Update) | Self::Ir(OperationState::Update) => {
                matches!(target, Self::Ir(_) | Self::Dr(_))
            },
            Self::Dr(state) => {
                // Decide if we need to stay in the current arm or not.
                // The inner state machine will handle the case where we need to loop back
                // through Run-Test/Idle.
                let next = if let Self::Dr(target) = target {
                    target
                } else {
                    // Let's aim for the inner state that can exit the scan arm.
                    OperationState::Update
                };
                state.step_toward(next)
            },
            Self::Ir(state) => {
                // Decide if we need to stay in the current arm or not.
                // The inner state machine will handle the case where we need to loop back
                // through Run-Test/Idle.
                let next = if let Self::Ir(target) = target {
                    target
                } else {
                    // Let's aim for the inner state that can exit the scan arm.
                    OperationState::Update
                };
                state.step_toward(next)
            },
        };
        Some(tms)
    }

    /// Updates the state machine from the given TMS bit.
    pub fn update(&mut self, tms: bool)
        ensures
            *final(self) == old(self).next(tms),
    {
        *self = match *self {
            Self::Reset if tms => Self::Reset,
            Self::Reset => Self::Idle,
            Self::Idle if tms => Self::Dr(OperationState::Select),
            Self::Idle => Self::Idle,
            Self::Dr(OperationState::Select) if tms => Self::Ir(OperationState::Select),
            Self::Ir(OperationState::Select) if tms => Self::Reset,
            Self::Dr(OperationState::Update) | Self::Ir(OperationState::Update) => {
                if tms {
                    Self::Dr(OperationState::Select)
                } else {
                    Self::Idle
                }
            },
            Self::Dr(state) => Self::Dr(state.update(tms)),
            Self::Ir(state) => Self::Ir(state.update(tms)),
        };
    }
}

/// Following `step_toward` from any state reaches any target state within eight
/// TCK edges, and stays there however many more steps are taken.
pub proof fn lemma_walk_reaches_target(start: JtagState, target: JtagState, n: nat)
    requires
        n >= 8,
    ensures
        start.walk(target, n) == target,
{
    lemma_walk_within_eight(start, target);
    lemma_walk_extends(start, target, 8, n);
}

proof fn lemma_walk_within_eight(start: JtagState, target: JtagState)
    ensures
        start.walk(target, 8) == target,
{
    reveal_with_fuel(JtagState::walk, 9);
}

proof fn lemma_walk_extends(start: JtagState, target: JtagState, m: nat, n: nat)
    requires
        m <= n,
        start.walk(target, m) == target,
    ensures
        start.walk(target, n) == target,
    decreases m,
{
    if m == 0 {
        lemma_walk_stays(target, n);
    } else {
        match start.tms_toward(target) {
            None => {},
            Some(tms) => {
                lemma_walk_extends(start.next(tms), target, (m - 1) as nat, (n - 1) as nat);
            },
        }
    }
}

proof fn lemma_walk_stays(target: JtagState, n: nat)
    ensures
        target.walk(target, n) == target,
{
}

/// Five TCK edges with TMS held high bring the TAP controller to Test-Logic-Reset
/// from any state.
pub proof fn lemma_five_tms_high_reset(state: JtagState)
    ensures
        state.next(true).next(true).next(true).next(true).next(true) == JtagState::Reset,
{
}

/// The arm a scan state lies in, and where in it.
pub open spec fn arm_position(state: JtagState) -> Option<OperationState> {
    match state {
        JtagState::Dr(op) => Some(op),
        JtagState::Ir(op) => Some(op),
        _ => None,
    }
}

/// Between Capture and Update the IR-Scan arm moves exactly as the DR-Scan arm
/// does, and neither leaves its arm there.
pub proof fn lemma_arms_move_alike(op: OperationState, tms: bool)
    requires
        op != OperationState::Select,
        op != OperationState::Update,
    ensures
        JtagState::Dr(op).next(tms) is Dr,
        JtagState::Ir(op).next(tms) is Ir,
        arm_position(JtagState::Ir(op).next(tms)) == arm_position(JtagState::Dr(op).next(tms)),
{
}

/// The TAP controller transitions of IEEE 1149.1, for every state and TMS value.
pub proof fn lemma_ieee_transitions()
    ensures
        JtagState::Reset.next(true) == JtagState::Reset,
        JtagState::Reset.next(false) == JtagState::Idle,
        JtagState::Idle.next(true) == JtagState::Dr(OperationState::Select),
        JtagState::Idle.next(false) == JtagState::Idle,
        JtagState::Dr(OperationState::Select).next(true) == JtagState::Ir(OperationState::Select),
        JtagState::Dr(OperationState::Select).next(false) == JtagState::Dr(OperationState::Capture),
        JtagState::Dr(OperationState::Capture).next(true) == JtagState::Dr(OperationState::Exit1),
        JtagState::Dr(OperationState::Capture).next(false) == JtagState::Dr(OperationState::Shift),
        JtagState::Dr(OperationState::Shift).next(true) == JtagState::Dr(OperationState::Exit1),
        JtagState::Dr(OperationState::Shift).next(false) == JtagState::Dr(OperationState::Shift),
        JtagState::Dr(OperationState::Exit1).next(true) == JtagState::Dr(OperationState::Update),
        JtagState::Dr(OperationState::Exit1).next(false) == JtagState::Dr(OperationState::Pause),
        JtagState::Dr(OperationState::Pause).next(true) == JtagState::Dr(OperationState::Exit2),
        JtagState::Dr(OperationState::Pause).next(false) == JtagState::Dr(OperationState::Pause),
        JtagState::Dr(OperationState::Exit2).next(true) == JtagState::Dr(OperationState::Update),
        JtagState::Dr(OperationState::Exit2).next(false) == JtagState::Dr(OperationState::Shift),
        JtagState::Dr(OperationState::Update).next(true) == JtagState::Dr(OperationState::Select),
        JtagState::Dr(OperationState::Update).next(false) == JtagState::Idle,
        JtagState::Ir(OperationState::Select).next(true) == JtagState::Reset,
        JtagState::Ir(OperationState::Select).next(false) == JtagState::Ir(OperationState::Capture),
        JtagState::Ir(OperationState::Capture).next(true) == JtagState::Ir(OperationState::Exit1),
        JtagState::Ir(OperationState::Capture).next(false) == JtagState::Ir(OperationState::Shift),
        JtagState::Ir(OperationState::Shift).next(true) == JtagState::Ir(OperationState::Exit1),
        JtagState::Ir(OperationState::Shift).next(false) == JtagState::Ir(OperationState::Shift),
        JtagState::Ir(OperationState::Exit1).next(true) == JtagState::Ir(OperationState::Update),
        JtagState::Ir(OperationState::Exit1).next(false) == JtagState::Ir(OperationState::Pause),
        JtagState::Ir(OperationState::Pause).next(true) == JtagState::Ir(OperationState::Exit2),
        JtagState::Ir(OperationState::Pause).next(false) == JtagState::Ir(OperationState::Pause),
        JtagState::Ir(OperationState::Exit2).next(true) == JtagState::Ir(OperationState::Update),
        JtagState::Ir(OperationState::Exit2).next(false) == JtagState::Ir(OperationState::Shift),
        JtagState::Ir(OperationState::Update).next(true) == JtagState::Dr(OperationState::Select),
        JtagState::Ir(OperationState::Update).next(false) == JtagState::Idle,
{
}

/// Where one TCK edge reaches the target, `tms_toward` takes that edge: the TMS
/// value it picks is the one that gets there at once.
pub proof fn lemma_one_step_moves_taken(state: JtagState, target: JtagState, tms: bool)
    requires
        state != target,
        state.next(tms) == target,
    ensures
        state.tms_toward(target) == Some(tms),
{
}

impl Default for JtagState {
    fn default() -> (state: Self)
        ensures
            state == JtagState::Reset,
    {
        JtagState::Reset
    }
}

} // verus!
