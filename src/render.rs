use vstd::prelude::*;

use crate::system::{get_full_display, get_i, get_memory_u8, get_registers, Machine, MachineState};

verus! {

/// How a display cell is drawn, comparing this frame with the previous one.
#[derive(Debug, Clone, Copy, PartialEq, Eq, Structural)]
pub enum Cell {
    /// Off in both frames.
    Blank,
    /// On in both frames.
    Lit,
    /// Turned on since the previous frame.
    NewlyLit,
    /// Turned off since the previous frame.
    NewlyDark,
}

/// The cell for a pixel that is `is_set` now and `was_set` in the previous frame.
pub fn cell_kind(is_set: bool, was_set: bool) -> (r: Cell)
    ensures
        r == if is_set && was_set {
            Cell::Lit
        } else if is_set {
            Cell::NewlyLit
        } else if was_set {
            Cell::NewlyDark
        } else {
            Cell::Blank
        },
{
    if is_set && was_set {
        Cell::Lit
    } else if is_set {
        Cell::NewlyLit
    } else if was_set {
        Cell::NewlyDark
    } else {
        Cell::Blank
    }
}

/// Whether the sound square is shown: the sound timer runs and the step is a frame boundary.
pub fn sound_indicator(m: &Machine, n_instructions_executed: u64) -> (r: bool)
    ensures
        r == (m@.sound_timer > 0 && n_instructions_executed % 12 == 0),
{
    m.sound_timer > 0 && n_instructions_executed % 12 == 0
}

/// I with the bytes at I and I + 2, where those addresses are in memory.
pub open spec fn spec_i_state(s: MachineState) -> (u16, Option<u8>, Option<u8>) {
    (
        s.i,
        if s.i < 0x1000 {
            Some(s.memory[s.i as int])
        } else {
            None
        },
        if s.i + 2 < 0x1000 {
            Some(s.memory[s.i + 2])
        } else {
            None
        },
    )
}

/// I with the bytes it points at, for the debugger's panel.
pub fn i_state(m: &Machine) -> (r: (u16, Option<u8>, Option<u8>))
    requires
        m.wf(),
    ensures
        r == spec_i_state(m@),
{
    let i = get_i(m);
    let at = if i < 0x1000 {
        Some(get_memory_u8(m, i))
    } else {
        None
    };
    let at2 = if i + 2 < 0x1000 {
        Some(get_memory_u8(m, i + 2))
    } else {
        None
    };
    (i, at, at2)
}

/// The state before an instruction runs, kept to show what it changed.
pub struct Snapshot {
    pub registers: Vec<u8>,
    pub i_state: (u16, Option<u8>, Option<u8>),
    pub display: Vec<bool>,
}

/// Takes the snapshot of registers, I and display.
pub fn take_snapshot(m: &Machine) -> (r: Snapshot)
    requires
        m.wf(),
    ensures
        r.registers@ == m@.registers,
        r.i_state == spec_i_state(m@),
        r.display@ == m@.display,
{
    Snapshot { registers: get_registers(m), i_state: i_state(m), display: get_full_display(m) }
}

/// For each register, whether it differs from the snapshot.
pub fn changed_registers(before: &Snapshot, m: &Machine) -> (r: Vec<bool>)
    requires
        m.wf(),
        before.registers@.len() == 16,
    ensures
        r@.len() == 16,
        forall|k: int| 0 <= k < 16 ==> #[trigger] r@[k] == (before.registers@[k] != m@.registers[k]),
{
    let mut r: Vec<bool> = Vec::new();
    let mut k: usize = 0;
    while k < 16
        invariant
            k <= 16,
            m.wf(),
            before.registers@.len() == 16,
            r@.len() == k,
            forall|t: int| 0 <= t < k ==> #[trigger] r@[t] == (before.registers@[t] != m@.registers[t]),
        decreases 16 - k,
    {
        r.push(before.registers[k] != m.registers[k]);
        k = k + 1;
    }
    r
}

} // verus!
