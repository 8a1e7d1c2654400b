use vstd::prelude::*;

use crate::execute::{
    draw_collides, draw_hits, drawn_display, is_alu, rewind, spec_execute, Quirks,
};
use crate::instruction::Instruction;
use crate::keymap::{first_released, lemma_first_released, spec_keypad_code, HostKey};
use crate::register::{lemma_register_index, Register};
use crate::run::spec_step;
use crate::system::{pixel_index, MachineState};

verus! {

/// The destination register VX of a two-operand arithmetic instruction.
pub open spec fn alu_dest(ins: Instruction) -> Register {
    match ins {
        Instruction::RegSet(vx, _) => vx,
        Instruction::BinaryOr(vx, _) => vx,
        Instruction::BinaryAnd(vx, _) => vx,
        Instruction::BinaryXor(vx, _) => vx,
        Instruction::RegAdd(vx, _) => vx,
        Instruction::Subtract1(vx, _) => vx,
        Instruction::Subtract2(vx, _) => vx,
        Instruction::ShiftRight(vx, _) => vx,
        Instruction::ShiftLeft(vx, _) => vx,
        _ => Register::V0,
    }
}

/// Only FX15 and FX18 change a timer: no other instruction touches either of them.
pub proof fn lemma_timers_only_set_explicitly(
    s: MachineState,
    ins: Instruction,
    pressed: Seq<HostKey>,
    last: Seq<HostKey>,
    step: u64,
    random: u8,
    q: Quirks,
)
    requires
        !(ins is SetDelayTimer),
        !(ins is SetSoundTimer),
        spec_execute(s, ins, pressed, last, step, random, q) is Ok,
    ensures
        spec_execute(s, ins, pressed, last, step, random, q)->Ok_0.delay_timer == s.delay_timer,
        spec_execute(s, ins, pressed, last, step, random, q)->Ok_0.sound_timer == s.sound_timer,
{
}

/// Two-operand arithmetic writes VX and VF and no other register, and changes nothing but
/// registers.
pub proof fn lemma_alu_writes_only_dest_and_flag(
    s: MachineState,
    ins: Instruction,
    pressed: Seq<HostKey>,
    last: Seq<HostKey>,
    step: u64,
    random: u8,
    q: Quirks,
)
    requires
        s.wf(),
        is_alu(ins),
    ensures
        spec_execute(s, ins, pressed, last, step, random, q) is Ok,
        ({
            let t = spec_execute(s, ins, pressed, last, step, random, q)->Ok_0;
            &&& t.registers.len() == 16
            &&& forall|k: int|
                0 <= k < 16 && k != alu_dest(ins).spec_index() && k != 15 ==> #[trigger] t.registers[k]
                    == s.registers[k]
            &&& t.memory == s.memory
            &&& t.display == s.display
            &&& t.i == s.i
            &&& t.pc == s.pc
            &&& t.stack == s.stack
            &&& t.delay_timer == s.delay_timer
            &&& t.sound_timer == s.sound_timer
        }),
{
    lemma_register_index(alu_dest(ins));
}

/// After 00E0 every pixel is off.
pub proof fn lemma_clear_blanks_display(
    s: MachineState,
    pressed: Seq<HostKey>,
    last: Seq<HostKey>,
    step: u64,
    random: u8,
    q: Quirks,
)
    ensures
        spec_execute(s, Instruction::Clear, pressed, last, step, random, q) is Ok,
        ({
            let t = spec_execute(s, Instruction::Clear, pressed, last, step, random, q)->Ok_0;
            &&& t.display.len() == 2048
            &&& forall|k: int| 0 <= k < 2048 ==> !#[trigger] t.display[k]
        }),
{
}

/// 00E0 on a blank display changes nothing.
pub proof fn lemma_clear_idempotent(
    s: MachineState,
    pressed: Seq<HostKey>,
    last: Seq<HostKey>,
    step: u64,
    random: u8,
    q: Quirks,
)
    requires
        s.wf(),
        forall|k: int| 0 <= k < 2048 ==> !#[trigger] s.display[k],
    ensures
        spec_execute(s, Instruction::Clear, pressed, last, step, random, q) == Ok::<
            MachineState,
            crate::execute::Fault,
        >(s),
{
    assert(s.display =~= Seq::new(2048, |k: int| false));
}

/// 6XNN twice in a row leaves the same state as once.
pub proof fn lemma_set_register_idempotent(
    s: MachineState,
    vx: Register,
    n: u8,
    pressed: Seq<HostKey>,
    last: Seq<HostKey>,
    step: u64,
    random: u8,
    q: Quirks,
)
    requires
        s.wf(),
    ensures
        ({
            let once = spec_execute(s, Instruction::SetRegister(vx, n), pressed, last, step, random, q);
            &&& once is Ok
            &&& spec_execute(once->Ok_0, Instruction::SetRegister(vx, n), pressed, last, step, random, q)
                == once
        }),
{
    lemma_register_index(vx);
    let t = s.with_reg(vx, n);
    assert(t.with_reg(vx, n).registers =~= t.registers);
}

/// A draw changes only pixels inside the sprite's box to the right of and below (VX mod 64,
/// VY mod 32); what falls past the right or the bottom edge is dropped, never wrapped.
pub proof fn lemma_draw_clips(
    s: MachineState,
    vx: Register,
    vy: Register,
    n: u8,
    pressed: Seq<HostKey>,
    last: Seq<HostKey>,
    step: u64,
    random: u8,
    q: Quirks,
    x: int,
    y: int,
)
    requires
        s.wf(),
        step % 12 == 1,
        0 <= x < 64,
        0 <= y < 32,
        spec_execute(s, Instruction::Draw(vx, vy, n), pressed, last, step, random, q) is Ok,
        spec_execute(s, Instruction::Draw(vx, vy, n), pressed, last, step, random, q)->Ok_0.pixel(
            x,
            y,
        ) != s.pixel(x, y),
    ensures
        (s.reg(vx) % 64) as int <= x < (s.reg(vx) % 64) as int + 8,
        (s.reg(vy) % 32) as int <= y < (s.reg(vy) % 32) as int + n,
{
    let k = pixel_index(x, y);
    assert(k % 64 == x && k / 64 == y);
}

/// After a draw, VF is 1 exactly when some pixel went from on to off, and 0 when none did.
pub proof fn lemma_draw_flag(
    s: MachineState,
    vx: Register,
    vy: Register,
    n: u8,
    pressed: Seq<HostKey>,
    last: Seq<HostKey>,
    step: u64,
    random: u8,
    q: Quirks,
)
    requires
        s.wf(),
        step % 12 == 1,
        spec_execute(s, Instruction::Draw(vx, vy, n), pressed, last, step, random, q) is Ok,
    ensures
        ({
            let t = spec_execute(s, Instruction::Draw(vx, vy, n), pressed, last, step, random, q)->Ok_0;
            &&& t.reg(Register::VF) == 1 <==> exists|x: int, y: int|
                0 <= x < 64 && 0 <= y < 32 && #[trigger] s.pixel(x, y) && !t.pixel(x, y)
            &&& t.reg(Register::VF) == 0 <==> forall|x: int, y: int|
                0 <= x < 64 && 0 <= y < 32 && #[trigger] s.pixel(x, y) ==> t.pixel(x, y)
        }),
{
    let x0 = (s.reg(vx) % 64) as int;
    let y0 = (s.reg(vy) % 32) as int;
    let t = spec_execute(s, Instruction::Draw(vx, vy, n), pressed, last, step, random, q)->Ok_0;
    let d = drawn_display(s, x0, y0, n as int);
    assert(t.display == d);
    assert(t.reg(Register::VF) == if draw_collides(s, x0, y0, n as int) {
        1u8
    } else {
        0u8
    });
    assert forall|x: int, y: int| 0 <= x < 64 && 0 <= y < 32 implies (#[trigger] s.pixel(x, y)
        && !t.pixel(x, y)) == (draw_hits(s, x0, y0, n as int, x, y) && s.pixel(x, y)) by {
        let k = pixel_index(x, y);
        assert(k % 64 == x && k / 64 == y);
    }
    if draw_collides(s, x0, y0, n as int) {
        let (x, y) = choose|x: int, y: int|
            0 <= x < 64 && 0 <= y < 32 && #[trigger] draw_hits(s, x0, y0, n as int, x, y) && s.pixel(
                x,
                y,
            );
        assert(s.pixel(x, y) && !t.pixel(x, y));
    }
    if exists|x: int, y: int| 0 <= x < 64 && 0 <= y < 32 && #[trigger] s.pixel(x, y) && !t.pixel(x, y) {
        let (x, y) = choose|x: int, y: int|
            0 <= x < 64 && 0 <= y < 32 && #[trigger] s.pixel(x, y) && !t.pixel(x, y);
        assert(draw_hits(s, x0, y0, n as int, x, y));
    }
}

/// 8XY5 with VX equal to VY leaves VX = 0 and VF = 1; with VX below VY it leaves VF = 0.
pub proof fn lemma_subtract_borrow(
    s: MachineState,
    vx: Register,
    vy: Register,
    pressed: Seq<HostKey>,
    last: Seq<HostKey>,
    step: u64,
    random: u8,
    q: Quirks,
)
    requires
        s.wf(),
        vx != Register::VF,
    ensures
        ({
            let t = spec_execute(s, Instruction::Subtract1(vx, vy), pressed, last, step, random, q)->Ok_0;
            &&& s.reg(vx) == s.reg(vy) ==> t.reg(vx) == 0 && t.reg(Register::VF) == 1
            &&& s.reg(vx) < s.reg(vy) ==> t.reg(Register::VF) == 0
        }),
{
    lemma_register_index(vx);
    assert(vx.spec_index() != 15) by {
        if vx.spec_index() == 15 {
            assert(crate::register::Register::spec_from_index(15) == Register::VF);
        }
    }
}

/// FX55 with X = 0 writes V0 to I and nothing else, and moves I on by one.
pub proof fn lemma_store_one_register(
    s: MachineState,
    pressed: Seq<HostKey>,
    last: Seq<HostKey>,
    step: u64,
    random: u8,
    q: Quirks,
)
    requires
        s.wf(),
        q.memory_increments_i,
        s.i + 1 < 0x1000,
    ensures
        spec_execute(s, Instruction::StoreMemory(0), pressed, last, step, random, q) is Ok,
        ({
            let t = spec_execute(s, Instruction::StoreMemory(0), pressed, last, step, random, q)->Ok_0;
            &&& t.memory == s.memory.update(s.i as int, s.reg(Register::V0))
            &&& t.i == s.i + 1
            &&& t.registers == s.registers
        }),
{
    let t = spec_execute(s, Instruction::StoreMemory(0), pressed, last, step, random, q)->Ok_0;
    assert(t.memory =~= s.memory.update(s.i as int, s.reg(Register::V0)));
}

/// FX0A completes only on a release edge: with no key of the previous sample missing from the
/// current one (whatever was newly pressed) it rewinds PC and changes nothing else; when one
/// is missing, VX receives that key's code.
pub proof fn lemma_get_key_waits_for_release(
    s: MachineState,
    vx: Register,
    pressed: Seq<HostKey>,
    last: Seq<HostKey>,
    step: u64,
    random: u8,
    q: Quirks,
)
    ensures
        (forall|t: int| 0 <= t < last.len() ==> pressed.contains(#[trigger] last[t])) ==> spec_execute(
            s,
            Instruction::GetKey(vx),
            pressed,
            last,
            step,
            random,
            q,
        ) == Ok::<MachineState, crate::execute::Fault>(rewind(s)),
        first_released(last, pressed) matches Some(k) ==> {
            &&& last.contains(k)
            &&& !pressed.contains(k)
            &&& spec_execute(s, Instruction::GetKey(vx), pressed, last, step, random, q) == Ok::<
                MachineState,
                crate::execute::Fault,
            >(s.with_reg(vx, spec_keypad_code(k)))
        },
{
    lemma_first_released(last, pressed);
}

/// Over a whole step the timers never go up unless the step ran FX15 or FX18: they stay or
/// count down by one.
pub proof fn lemma_step_timers_never_increase(
    s: MachineState,
    pressed: Seq<HostKey>,
    last: Seq<HostKey>,
    step: u64,
    random: u8,
    q: Quirks,
)
    requires
        spec_step(s, pressed, last, step, random, q) is Ok,
        !(spec_step(s, pressed, last, step, random, q)->Ok_0.1.instruction is SetDelayTimer),
        !(spec_step(s, pressed, last, step, random, q)->Ok_0.1.instruction is SetSoundTimer),
    ensures
        spec_step(s, pressed, last, step, random, q)->Ok_0.0.delay_timer <= s.delay_timer,
        spec_step(s, pressed, last, step, random, q)->Ok_0.0.sound_timer <= s.sound_timer,
{
    let ins = spec_step(s, pressed, last, step, random, q)->Ok_0.1.instruction;
    lemma_timers_only_set_explicitly(
        s.with_pc((s.pc + 2) as u16),
        ins,
        pressed,
        last,
        step,
        random,
        q,
    );
}

} // verus!
