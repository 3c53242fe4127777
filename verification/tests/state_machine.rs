use dap_rs::jtag::{JtagState, OperationState};
use dap_rs::jtag::OperationState::{Capture, Exit1, Exit2, Pause, Select, Shift, Update};

const OPS: [OperationState; 7] = [
    OperationState::Select,
    OperationState::Capture,
    OperationState::Shift,
    OperationState::Exit1,
    OperationState::Pause,
    OperationState::Exit2,
    OperationState::Update,
];

fn all_states() -> Vec<JtagState> {
    let mut v = vec![JtagState::Reset, JtagState::Idle];
    for op in OPS {
        v.push(JtagState::Dr(op));
    }
    for op in OPS {
        v.push(JtagState::Ir(op));
    }
    v
}

fn next(state: JtagState, tms: bool) -> JtagState {
    let mut s = state;
    s.update(tms);
    s
}

#[test]
fn default_state_is_reset() {
    assert_eq!(JtagState::default(), JtagState::Reset);
}

#[test]
fn step_toward_is_none_at_target() {
    for s in all_states() {
        assert_eq!(s.step_toward(s), None);
        for t in all_states() {
            if s != t {
                assert!(s.step_toward(t).is_some());
            }
        }
    }
}

#[test]
fn step_toward_examples() {
    assert_eq!(JtagState::Reset.step_toward(JtagState::Idle), Some(false));
    assert_eq!(JtagState::Idle.step_toward(JtagState::Reset), Some(true));
    assert_eq!(
        JtagState::Dr(OperationState::Select).step_toward(JtagState::Dr(OperationState::Shift)),
        Some(false)
    );
    assert_eq!(
        JtagState::Dr(OperationState::Select).step_toward(JtagState::Ir(OperationState::Shift)),
        Some(true)
    );
    assert_eq!(
        JtagState::Ir(OperationState::Select).step_toward(JtagState::Dr(OperationState::Shift)),
        Some(true)
    );
    assert_eq!(
        JtagState::Dr(OperationState::Update).step_toward(JtagState::Idle),
        Some(false)
    );
    assert_eq!(
        JtagState::Ir(OperationState::Update).step_toward(JtagState::Ir(OperationState::Pause)),
        Some(true)
    );
    assert_eq!(
        JtagState::Dr(OperationState::Capture).step_toward(JtagState::Dr(OperationState::Shift)),
        Some(false)
    );
    assert_eq!(
        JtagState::Dr(OperationState::Capture).step_toward(JtagState::Dr(OperationState::Pause)),
        Some(true)
    );
    assert_eq!(
        JtagState::Dr(OperationState::Exit1).step_toward(JtagState::Dr(OperationState::Exit2)),
        Some(false)
    );
    assert_eq!(
        JtagState::Dr(OperationState::Exit2).step_toward(JtagState::Dr(OperationState::Exit1)),
        Some(false)
    );
    assert_eq!(
        JtagState::Ir(OperationState::Exit2).step_toward(JtagState::Idle),
        Some(true)
    );
}

#[test]
fn update_transitions() {
    let table = [
        (JtagState::Reset, true, JtagState::Reset),
        (JtagState::Reset, false, JtagState::Idle),
        (JtagState::Idle, true, JtagState::Dr(Select)),
        (JtagState::Idle, false, JtagState::Idle),
        (JtagState::Dr(Select), true, JtagState::Ir(Select)),
        (JtagState::Dr(Select), false, JtagState::Dr(Capture)),
        (JtagState::Ir(Select), true, JtagState::Reset),
        (JtagState::Ir(Select), false, JtagState::Ir(Capture)),
        (JtagState::Dr(Capture), true, JtagState::Dr(Exit1)),
        (JtagState::Dr(Capture), false, JtagState::Dr(Shift)),
        (JtagState::Dr(Shift), true, JtagState::Dr(Exit1)),
        (JtagState::Dr(Shift), false, JtagState::Dr(Shift)),
        (JtagState::Dr(Exit1), true, JtagState::Dr(Update)),
        (JtagState::Dr(Exit1), false, JtagState::Dr(Pause)),
        (JtagState::Dr(Pause), true, JtagState::Dr(Exit2)),
        (JtagState::Dr(Pause), false, JtagState::Dr(Pause)),
        (JtagState::Dr(Exit2), true, JtagState::Dr(Update)),
        (JtagState::Dr(Exit2), false, JtagState::Dr(Shift)),
        (JtagState::Dr(Update), true, JtagState::Dr(Select)),
        (JtagState::Dr(Update), false, JtagState::Idle),
        (JtagState::Ir(Update), true, JtagState::Dr(Select)),
        (JtagState::Ir(Update), false, JtagState::Idle),
        (JtagState::Ir(Exit2), false, JtagState::Ir(Shift)),
        (JtagState::Ir(Pause), true, JtagState::Ir(Exit2)),
    ];
    for (from, tms, to) in table {
        assert_eq!(next(from, tms), to, "{:?} with tms {}", from, tms);
    }
}

#[test]
fn lemma_walk_reaches_target() {
    for start in all_states() {
        for target in all_states() {
            let mut s = start;
            let mut steps = 0;
            while let Some(tms) = s.step_toward(target) {
                s.update(tms);
                steps += 1;
                assert!(steps <= 8, "{:?} -> {:?} takes too long", start, target);
            }
            assert_eq!(s, target);
        }
    }
}

#[test]
fn longest_walk_takes_eight_steps() {
    let target = JtagState::Ir(OperationState::Exit2);
    let mut s = JtagState::Dr(OperationState::Shift);
    let mut steps = 0;
    while let Some(tms) = s.step_toward(target) {
        s.update(tms);
        steps += 1;
    }
    assert_eq!(steps, 8);
}

#[test]
fn lemma_five_tms_high_reset() {
    for s in all_states() {
        let mut t = s;
        for _ in 0..5 {
            t.update(true);
        }
        assert_eq!(t, JtagState::Reset);
    }
    // four are not always enough
    let mut t = JtagState::Dr(OperationState::Pause);
    for _ in 0..4 {
        t.update(true);
    }
    assert_ne!(t, JtagState::Reset);
}
