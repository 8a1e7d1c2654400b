use vstd::prelude::*;

use crate::decode::{decode, spec_decode};
use crate::execute::{execute, spec_execute, Fault, Quirks};
use crate::instruction::Instruction;
use crate::keymap::HostKey;
use crate::register::Register;
use crate::system::{
    decrement_delay_timer, decrement_sound_timer, get_memory_u16, get_pc, get_register,
    peek_stack, set_pc, Machine, MachineState,
};

verus! {

/// Instructions executed per second.
pub const INSTRUCTION_SPEED: u64 = 720;

/// Steps per frame: timers tick and the frame is drawn once every this many steps.
pub const STEPS_PER_FRAME: u64 = 12;

/// How many recently executed instructions the debugger keeps.
pub const RECENT_CAPACITY: usize = 3;

/// One executed instruction: where it was, its raw word, and what it decoded to.
#[derive(Debug, Clone, Copy, PartialEq, Eq, Structural)]
pub struct StepRecord {
    pub address: u16,
    pub raw: u16,
    pub instruction: Instruction,
}

/// The timers after a step: on every twelfth step both count down by one, stopping at zero.
pub open spec fn tick_timers(s: MachineState, step: u64) -> MachineState {
    if step % 12 == 0 {
        MachineState {
            delay_timer: if s.delay_timer > 0 {
                (s.delay_timer - 1) as u8
            } else {
                0
            },
            sound_timer: if s.sound_timer > 0 {
                (s.sound_timer - 1) as u8
            } else {
                0
            },
            ..s
        }
    } else {
        s
    }
}

/// One step of the machine: fetch the word at PC and advance PC by two, decode it, execute it,
/// then tick the timers. Yields the new state and what was executed.
pub open spec fn spec_step(
    s: MachineState,
    pressed: Seq<HostKey>,
    last: Seq<HostKey>,
    step: u64,
    random: u8,
    q: Quirks,
) -> Result<(MachineState, StepRecord), Fault> {
    if s.pc + 2 >= 0x1000 {
        Err(Fault::AddressOverflow)
    } else {
        let w = s.word_at(s.pc as int);
        match spec_decode(w) {
            None => Err(Fault::InvalidInstruction { address: s.pc, word: w }),
            Some(ins) => match spec_execute(
                s.with_pc((s.pc + 2) as u16),
                ins,
                pressed,
                last,
                step,
                random,
                q,
            ) {
                Err(f) => Err(f),
                Ok(t) => Ok(
                    (tick_timers(t, step), StepRecord { address: s.pc, raw: w, instruction: ins }),
                ),
            },
        }
    }
}

/// Reads the word at PC and moves PC past it.
pub fn fetch(m: &mut Machine) -> (r: Result<u16, Fault>)
    requires
        old(m).wf(),
    ensures
        old(m)@.pc + 2 >= 0x1000 ==> r == Err::<u16, Fault>(Fault::AddressOverflow) && final(m)@
            == old(m)@,
        old(m)@.pc + 2 < 0x1000 ==> r == Ok::<u16, Fault>(old(m)@.word_at(old(m)@.pc as int))
            && final(m)@ == old(m)@.with_pc((old(m)@.pc + 2) as u16),
        final(m).wf(),
{
    let pc = get_pc(m);
    if pc + 2 >= 0x1000 {
        return Err(Fault::AddressOverflow);
    }
    let instruction = get_memory_u16(m, pc);
    set_pc(m, pc + 2);
    Ok(instruction)
}

/// Counts both timers down when `step` is a frame boundary.
pub fn tick(m: &mut Machine, step: u64)
    requires
        old(m).wf(),
    ensures
        final(m)@ == tick_timers(old(m)@, step),
        final(m).wf(),
{
    if step % STEPS_PER_FRAME == 0 {
        decrement_delay_timer(m);
        decrement_sound_timer(m);
    }
}

/// Runs one step: fetch, decode, execute, and the timer tick. On a fault the machine is left
/// as it was.
pub fn step(
    m: &mut Machine,
    pressed_keys: &Vec<HostKey>,
    last_pressed_keys: &Vec<HostKey>,
    n_instructions_executed: u64,
    random: u8,
    quirks: Quirks,
) -> (r: Result<StepRecord, Fault>)
    requires
        old(m).wf(),
    ensures
        match spec_step(
            old(m)@,
            pressed_keys@,
            last_pressed_keys@,
            n_instructions_executed,
            random,
            quirks,
        ) {
            Ok((t, rec)) => r == Ok::<StepRecord, Fault>(rec) && final(m)@ == t,
            Err(f) => r == Err::<StepRecord, Fault>(f) && final(m)@ == old(m)@,
        },
        final(m).wf(),
{
    let pc = get_pc(m);
    let raw = match fetch(m) {
        Ok(w) => w,
        Err(f) => return Err(f),
    };
    let instruction = match decode(raw) {
        Some(i) => i,
        None => {
            set_pc(m, pc);
            return Err(Fault::InvalidInstruction { address: pc, word: raw });
        },
    };
    match execute(
        m,
        instruction,
        pressed_keys,
        last_pressed_keys,
        n_instructions_executed,
        random,
        quirks,
    ) {
        Ok(()) => {},
        Err(f) => {
            set_pc(m, pc);
            assert(m@ == old(m)@);
            return Err(f);
        },
    }
    tick(m, n_instructions_executed);
    Ok(StepRecord { address: pc, raw, instruction })
}

/// Whether a frame is drawn after the step: on frame boundaries, and always while debugging.
pub fn should_draw(n_instructions_executed: u64, is_debug: bool) -> (r: bool)
    ensures
        r == (n_instructions_executed % 12 == 0 || is_debug),
{
    n_instructions_executed % STEPS_PER_FRAME == 0 || is_debug
}

/// The instruction stored at `a`, when both of its bytes are in memory and it decodes.
pub open spec fn instruction_at(s: MachineState, a: int) -> Option<Instruction> {
    if 0 <= a && a + 1 < 0x1000 {
        spec_decode(s.word_at(a))
    } else {
        None
    }
}

/// A best-effort guess at the instruction that runs after the one at `addr`, and its address:
/// jumps and calls are followed to their target, a return to the top of the stack, and
/// anything else falls through to the next word.
pub open spec fn spec_predict(s: MachineState, addr: u16) -> (Option<Instruction>, u16) {
    let next = (addr + 2) as u16;
    match instruction_at(s, addr as int) {
        Some(Instruction::Jump(nnn)) => (instruction_at(s, nnn as int), nnn),
        Some(Instruction::SubroutineCall(nnn)) => (instruction_at(s, nnn as int), nnn),
        Some(Instruction::JumpOffset(nnn)) => {
            let target = ((nnn as int + s.reg(Register::V0) as int) % 0x1000) as u16;
            (instruction_at(s, target as int), target)
        },
        Some(Instruction::SubroutineReturn) => if s.stack.len() > 0 {
            (instruction_at(s, s.stack.last() as int), s.stack.last())
        } else {
            (instruction_at(s, next as int), next)
        },
        _ => (instruction_at(s, next as int), next),
    }
}

/// Decodes the word at `a` if both of its bytes are in memory.
fn read_instruction(m: &Machine, a: u16) -> (r: Option<Instruction>)
    requires
        m.wf(),
    ensures
        r == instruction_at(m@, a as int),
{
    if a < 0x0FFF {
        decode(get_memory_u16(m, a))
    } else {
        None
    }
}

/// Predicts the instruction after the one at `addr`, and its address (see `spec_predict`).
pub fn predict_instruction(m: &Machine, addr: u16) -> (r: (Option<Instruction>, u16))
    requires
        m.wf(),
        addr < 0x1000,
    ensures
        r == spec_predict(m@, addr),
{
    let next = addr + 2;
    match read_instruction(m, addr) {
        Some(Instruction::Jump(nnn)) => (read_instruction(m, nnn), nnn),
        Some(Instruction::SubroutineCall(nnn)) => (read_instruction(m, nnn), nnn),
        Some(Instruction::JumpOffset(nnn)) => {
            let target = ((nnn as u32 + get_register(m, Register::V0) as u32) % 0x1000) as u16;
            (read_instruction(m, target), target)
        },
        Some(Instruction::SubroutineReturn) => match peek_stack(m) {
            Some(top) => (read_instruction(m, top), top),
            None => (read_instruction(m, next), next),
        },
        _ => (read_instruction(m, next), next),
    }
}

/// Adds a record at the front of the recent-instruction list, newest first, dropping the
/// oldest so that at most three remain.
pub fn push_recent(recent: &mut Vec<StepRecord>, rec: StepRecord)
    requires
        old(recent)@.len() <= RECENT_CAPACITY,
    ensures
        final(recent)@ == seq![rec] + old(recent)@.take(
            if old(recent)@.len() == 3 {
                2
            } else {
                old(recent)@.len() as int
            },
        ),
        final(recent)@.len() <= RECENT_CAPACITY,
{
    if recent.len() == RECENT_CAPACITY {
        recent.pop();
    }
    recent.insert(0, rec);
    assert(recent@ =~= seq![rec] + old(recent)@.take(
        if old(recent)@.len() == 3 {
            2
        } else {
            old(recent)@.len() as int
        },
    ));
}

} // verus!
