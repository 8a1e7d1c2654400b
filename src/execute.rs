use vstd::prelude::*;

use crate::instruction::Instruction;
use crate::keymap::{
    first_released, find_released, host_key_for, is_pressed, keypad_code, spec_host_key,
    spec_keypad_code, HostKey,
};
use crate::register::Register;
use crate::system::{
    get_delay_timer, get_i, get_memory_u8, get_pc, get_register, pixel_index, set_delay_timer,
    set_i, set_memory_u16, set_memory_u8, set_pc, set_register, set_sound_timer, stack_pop,
    stack_push, Machine, MachineState, DISPLAY_PIXELS, STACK_SIZE,
};

verus! {

/// Optional behaviours in which CHIP-8 variants differ.
#[derive(Debug, Clone, Copy, PartialEq, Eq, Structural)]
pub struct Quirks {
    /// 8XY6 and 8XYE copy VY into VX before shifting (on by default).
    pub shift_copies_vy: bool,
    /// FX55 and FX65 leave I one past the last address used (on by default).
    pub memory_increments_i: bool,
    /// FX29 writes the glyph address as a word at I instead of loading it into I (off by
    /// default).
    pub font_writes_memory: bool,
}

impl Quirks {
    pub open spec fn spec_default() -> Quirks {
        Quirks { shift_copies_vy: true, memory_increments_i: true, font_writes_memory: false }
    }
}

impl Default for Quirks {
    fn default() -> (r: Quirks)
        ensures
            r == Quirks::spec_default(),
    {
        Quirks { shift_copies_vy: true, memory_increments_i: true, font_writes_memory: false }
    }
}

/// A fatal error of the machine.
#[derive(Debug, Clone, Copy, PartialEq, Eq, Structural)]
pub enum Fault {
    /// 0NNN: native machine code cannot run here.
    MachineLanguageRoutine,
    /// 00EE with an empty call stack.
    EmptyStackReturn,
    /// 2NNN with a full call stack.
    StackOverflow,
    /// A 12-bit address (PC, I, or a memory access) would be exceeded.
    AddressOverflow,
    /// EXA1 with a value in VX that is no keypad code.
    UnmappedKey(u8),
    /// The word fetched at `address` is no instruction.
    InvalidInstruction { address: u16, word: u16 },
}

/// Skips the next instruction when `cond` holds.
pub open spec fn skip_if(s: MachineState, cond: bool) -> Result<MachineState, Fault> {
    if !cond {
        Ok(s)
    } else if s.pc + 2 < 0x1000 {
        Ok(s.with_pc((s.pc + 2) as u16))
    } else {
        Err(Fault::AddressOverflow)
    }
}

/// Moves PC back onto the instruction just fetched, so that it runs again.
pub open spec fn rewind(s: MachineState) -> MachineState {
    s.with_pc(
        if s.pc >= 2 {
            (s.pc - 2) as u16
        } else {
            0
        },
    )
}

/// Whether the key with the given keypad code is in a sample.
pub open spec fn key_down(pressed: Seq<HostKey>, code: u8) -> bool {
    match spec_host_key(code) {
        Some(k) => pressed.contains(k),
        None => false,
    }
}

/// The value shifted by 8XY6 and 8XYE.
pub open spec fn shift_source(s: MachineState, vx: Register, vy: Register, q: Quirks) -> u8 {
    if q.shift_copies_vy {
        s.reg(vy)
    } else {
        s.reg(vx)
    }
}

/// The two-operand arithmetic 8XYN: the result goes to VX, then the flag to VF.
pub open spec fn spec_alu(s: MachineState, ins: Instruction, q: Quirks) -> MachineState {
    match ins {
        Instruction::RegSet(vx, vy) => s.with_reg(vx, s.reg(vy)),
        Instruction::BinaryOr(vx, vy) => s.with_reg(vx, s.reg(vx) | s.reg(vy)).with_reg(
            Register::VF,
            0,
        ),
        Instruction::BinaryAnd(vx, vy) => s.with_reg(vx, s.reg(vx) & s.reg(vy)).with_reg(
            Register::VF,
            0,
        ),
        Instruction::BinaryXor(vx, vy) => s.with_reg(vx, s.reg(vx) ^ s.reg(vy)).with_reg(
            Register::VF,
            0,
        ),
        Instruction::RegAdd(vx, vy) => {
            let sum = s.reg(vx) as int + s.reg(vy) as int;
            s.with_reg(vx, (sum % 256) as u8).with_reg(
                Register::VF,
                if sum > 255 {
                    1
                } else {
                    0
                },
            )
        },
        Instruction::Subtract1(vx, vy) => s.with_reg(
            vx,
            ((s.reg(vx) as int - s.reg(vy) as int + 256) % 256) as u8,
        ).with_reg(
            Register::VF,
            if s.reg(vx) >= s.reg(vy) {
                1
            } else {
                0
            },
        ),
        Instruction::Subtract2(vx, vy) => s.with_reg(
            vx,
            ((s.reg(vy) as int - s.reg(vx) as int + 256) % 256) as u8,
        ).with_reg(
            Register::VF,
            if s.reg(vy) >= s.reg(vx) {
                1
            } else {
                0
            },
        ),
        Instruction::ShiftRight(vx, vy) => {
            let v = shift_source(s, vx, vy, q);
            s.with_reg(vx, v / 2).with_reg(Register::VF, v % 2)
        },
        Instruction::ShiftLeft(vx, vy) => {
            let v = shift_source(s, vx, vy, q);
            s.with_reg(vx, ((v as int * 2) % 256) as u8).with_reg(Register::VF, v / 128)
        },
        _ => s,
    }
}

/// Whether an instruction is one of the two-operand arithmetic instructions 8XYN.
pub open spec fn is_alu(ins: Instruction) -> bool {
    ||| ins is RegSet
    ||| ins is BinaryOr
    ||| ins is BinaryAnd
    ||| ins is BinaryXor
    ||| ins is RegAdd
    ||| ins is Subtract1
    ||| ins is Subtract2
    ||| ins is ShiftRight
    ||| ins is ShiftLeft
}

/// Whether column `col` (0 is leftmost) of a sprite row is set.
pub open spec fn sprite_bit(row: u8, col: int) -> bool {
    (row >> ((7 - col) as u8)) & 1u8 == 1u8
}

/// How many sprite rows of an `n`-row sprite at row `y0` are on screen.
pub open spec fn drawn_rows(y0: int, n: int) -> int {
    if n <= 32 - y0 {
        n
    } else {
        32 - y0
    }
}

/// Whether drawing the `n`-row sprite at I to (x0, y0) flips the pixel (x, y): it lies under
/// the sprite and the sprite's bit there is set. Nothing wraps around an edge.
pub open spec fn draw_hits(s: MachineState, x0: int, y0: int, n: int, x: int, y: int) -> bool {
    &&& x0 <= x < x0 + 8
    &&& y0 <= y < y0 + n
    &&& sprite_bit(s.memory[s.i + (y - y0)], x - x0)
}

/// The display after the sprite is XORed onto it.
pub open spec fn drawn_display(s: MachineState, x0: int, y0: int, n: int) -> Seq<bool> {
    Seq::new(
        2048,
        |k: int|
            if draw_hits(s, x0, y0, n, k % 64, k / 64) {
                !s.display[k]
            } else {
                s.display[k]
            },
    )
}

/// Whether drawing turns some lit pixel off.
pub open spec fn draw_collides(s: MachineState, x0: int, y0: int, n: int) -> bool {
    exists|x: int, y: int|
        0 <= x < 64 && 0 <= y < 32 && #[trigger] draw_hits(s, x0, y0, n, x, y) && s.pixel(x, y)
}

/// DXYN: only on the step just after a vertical blank (step mod 12 is 1); otherwise the
/// instruction is retried on the next step.
pub open spec fn spec_draw(s: MachineState, vx: Register, vy: Register, n: u8, step: u64) -> Result<
    MachineState,
    Fault,
> {
    let x0 = (s.reg(vx) % 64) as int;
    let y0 = (s.reg(vy) % 32) as int;
    if step % 12 != 1 {
        Ok(rewind(s))
    } else if drawn_rows(y0, n as int) > 0 && s.i + drawn_rows(y0, n as int) > 0x1000 {
        Err(Fault::AddressOverflow)
    } else {
        Ok(
            MachineState { display: drawn_display(s, x0, y0, n as int), ..s }.with_reg(
                Register::VF,
                if draw_collides(s, x0, y0, n as int) {
                    1
                } else {
                    0
                },
            ),
        )
    }
}

/// The address of the font glyph for the low nibble of `v`.
pub open spec fn glyph_address(v: u8) -> u16 {
    (0x50 + 5 * (v % 16)) as u16
}

/// FX29: I is set to the glyph address, or the address is written as a word at I.
pub open spec fn spec_font(s: MachineState, vx: Register, q: Quirks) -> Result<MachineState, Fault> {
    let a = glyph_address(s.reg(vx));
    if !q.font_writes_memory {
        Ok(MachineState { i: a, ..s })
    } else if s.i + 1 < 0x1000 {
        Ok(
            MachineState {
                memory: s.memory.update(s.i as int, (a / 256) as u8).update(
                    s.i + 1,
                    (a % 256) as u8,
                ),
                ..s
            },
        )
    } else {
        Err(Fault::AddressOverflow)
    }
}

/// FX33: the hundreds, tens and ones digits of VX at I, I+1 and I+2.
pub open spec fn spec_bcd(s: MachineState, vx: Register) -> Result<MachineState, Fault> {
    let v = s.reg(vx);
    if s.i + 2 < 0x1000 {
        Ok(
            MachineState {
                memory: s.memory.update(s.i as int, v / 100).update(s.i + 1, (v % 100) / 10).update(
                    s.i + 2,
                    v % 10,
                ),
                ..s
            },
        )
    } else {
        Err(Fault::AddressOverflow)
    }
}

/// Whether the addresses I..=I+x, and I+x+1 when I moves, fit in 12 bits.
pub open spec fn block_fits(s: MachineState, x: u8, q: Quirks) -> bool {
    if q.memory_increments_i {
        s.i + x + 1 < 0x1000
    } else {
        s.i + x < 0x1000
    }
}

/// Where I ends after FX55 or FX65.
pub open spec fn block_end_i(s: MachineState, x: u8, q: Quirks) -> u16 {
    if q.memory_increments_i {
        (s.i + x + 1) as u16
    } else {
        s.i
    }
}

/// FX55: V0..=VX are written to I..=I+X.
pub open spec fn spec_store(s: MachineState, x: u8, q: Quirks) -> Result<MachineState, Fault> {
    if block_fits(s, x, q) {
        Ok(
            MachineState {
                memory: Seq::new(
                    4096,
                    |a: int|
                        if s.i <= a <= s.i + x {
                            s.registers[a - s.i]
                        } else {
                            s.memory[a]
                        },
                ),
                i: block_end_i(s, x, q),
                ..s
            },
        )
    } else {
        Err(Fault::AddressOverflow)
    }
}

/// FX65: V0..=VX are read from I..=I+X.
pub open spec fn spec_load(s: MachineState, x: u8, q: Quirks) -> Result<MachineState, Fault> {
    if block_fits(s, x, q) {
        Ok(
            MachineState {
                registers: Seq::new(
                    16,
                    |r: int|
                        if r <= x {
                            s.memory[s.i + r]
                        } else {
                            s.registers[r]
                        },
                ),
                i: block_end_i(s, x, q),
                ..s
            },
        )
    } else {
        Err(Fault::AddressOverflow)
    }
}

/// What executing one instruction does to the machine. `pressed` and `last` are the current
/// and the previous keyboard samples, `step` counts the instructions executed before this one,
/// and `random` is the random byte that CXNN uses.
pub open spec fn spec_execute(
    s: MachineState,
    ins: Instruction,
    pressed: Seq<HostKey>,
    last: Seq<HostKey>,
    step: u64,
    random: u8,
    q: Quirks,
) -> Result<MachineState, Fault> {
    match ins {
        Instruction::ExecuteMachineLanguageRoutine => Err(Fault::MachineLanguageRoutine),
        Instruction::Clear => Ok(MachineState { display: Seq::new(2048, |k: int| false), ..s }),
        Instruction::SubroutineReturn => if s.stack.len() == 0 {
            Err(Fault::EmptyStackReturn)
        } else {
            Ok(MachineState { pc: s.stack.last(), stack: s.stack.drop_last(), ..s })
        },
        Instruction::Jump(nnn) => Ok(s.with_pc(nnn)),
        Instruction::SubroutineCall(nnn) => if s.stack.len() >= 16 {
            Err(Fault::StackOverflow)
        } else {
            Ok(MachineState { pc: nnn, stack: s.stack.push(s.pc), ..s })
        },
        Instruction::SkipConditional1(vx, nn) => skip_if(s, s.reg(vx) == nn),
        Instruction::SkipConditional2(vx, nn) => skip_if(s, s.reg(vx) != nn),
        Instruction::SkipConditional3(vx, vy) => skip_if(s, s.reg(vx) == s.reg(vy)),
        Instruction::SkipConditional4(vx, vy) => skip_if(s, s.reg(vx) != s.reg(vy)),
        Instruction::SetRegister(vx, nn) => Ok(s.with_reg(vx, nn)),
        Instruction::Add(vx, nn) => Ok(s.with_reg(vx, ((s.reg(vx) as int + nn as int) % 256) as u8)),
        Instruction::RegSet(_, _) => Ok(spec_alu(s, ins, q)),
        Instruction::BinaryOr(_, _) => Ok(spec_alu(s, ins, q)),
        Instruction::BinaryAnd(_, _) => Ok(spec_alu(s, ins, q)),
        Instruction::BinaryXor(_, _) => Ok(spec_alu(s, ins, q)),
        Instruction::RegAdd(_, _) => Ok(spec_alu(s, ins, q)),
        Instruction::Subtract1(_, _) => Ok(spec_alu(s, ins, q)),
        Instruction::ShiftRight(_, _) => Ok(spec_alu(s, ins, q)),
        Instruction::Subtract2(_, _) => Ok(spec_alu(s, ins, q)),
        Instruction::ShiftLeft(_, _) => Ok(spec_alu(s, ins, q)),
        Instruction::SetIndexRegister(nnn) => Ok(MachineState { i: nnn, ..s }),
        Instruction::JumpOffset(nnn) => Ok(
            s.with_pc(((nnn as int + s.reg(Register::V0) as int) % 0x1000) as u16),
        ),
        Instruction::Random(vx, nn) => Ok(s.with_reg(vx, random & nn)),
        Instruction::Draw(vx, vy, n) => spec_draw(s, vx, vy, n, step),
        Instruction::SkipIfKey(vx) => skip_if(s, key_down(pressed, s.reg(vx))),
        Instruction::SkipIfNotKey(vx) => if spec_host_key(s.reg(vx)) is None {
            Err(Fault::UnmappedKey(s.reg(vx)))
        } else {
            skip_if(s, !key_down(pressed, s.reg(vx)))
        },
        Instruction::GetDelayTimer(vx) => Ok(s.with_reg(vx, s.delay_timer)),
        Instruction::GetKey(vx) => match first_released(last, pressed) {
            Some(k) => Ok(s.with_reg(vx, spec_keypad_code(k))),
            None => Ok(rewind(s)),
        },
        Instruction::SetDelayTimer(vx) => Ok(MachineState { delay_timer: s.reg(vx), ..s }),
        Instruction::SetSoundTimer(vx) => Ok(MachineState { sound_timer: s.reg(vx), ..s }),
        Instruction::AddToIndex(vx) => if s.i + s.reg(vx) < 0x1000 {
            Ok(MachineState { i: (s.i + s.reg(vx)) as u16, ..s })
        } else {
            Err(Fault::AddressOverflow)
        },
        Instruction::FontCharacter(vx) => spec_font(s, vx, q),
        Instruction::BCD(vx) => spec_bcd(s, vx),
        Instruction::StoreMemory(x) => spec_store(s, x, q),
        Instruction::LoadMemory(x) => spec_load(s, x, q),
        Instruction::Db(_) => Ok(s),
    }
}

/// The state after `execute` returned `r` on a machine that is now `s`.
pub open spec fn outcome(r: Result<(), Fault>, s: MachineState) -> Result<MachineState, Fault> {
    match r {
        Ok(_) => Ok(s),
        Err(f) => Err(f),
    }
}

/// Skips the next instruction when `cond` holds.
fn skip_when(m: &mut Machine, cond: bool) -> (r: Result<(), Fault>)
    requires
        old(m).wf(),
    ensures
        outcome(r, final(m)@) == skip_if(old(m)@, cond),
        r is Err ==> final(m)@ == old(m)@,
        final(m).wf(),
{
    if cond {
        let pc = get_pc(m);
        if pc + 2 < 0x1000 {
            set_pc(m, pc + 2);
        } else {
            return Err(Fault::AddressOverflow);
        }
    }
    Ok(())
}

/// Moves PC back onto the instruction just fetched.
fn rewind_pc(m: &mut Machine)
    requires
        old(m).wf(),
    ensures
        final(m)@ == rewind(old(m)@),
        final(m).wf(),
{
    let pc = get_pc(m);
    set_pc(m, pc.saturating_sub(2));
}

/// The two-operand arithmetic instructions 8XYN.
fn execute_alu(m: &mut Machine, ins: Instruction, q: Quirks)
    requires
        old(m).wf(),
        is_alu(ins),
    ensures
        final(m)@ == spec_alu(old(m)@, ins, q),
        final(m).wf(),
{
    match ins {
        Instruction::RegSet(vx, vy) => {
            let v = get_register(m, vy);
            set_register(m, vx, v);
        },
        Instruction::BinaryOr(vx, vy) => {
            let v = get_register(m, vx) | get_register(m, vy);
            set_register(m, vx, v);
            set_register(m, Register::VF, 0);
        },
        Instruction::BinaryAnd(vx, vy) => {
            let v = get_register(m, vx) & get_register(m, vy);
            set_register(m, vx, v);
            set_register(m, Register::VF, 0);
        },
        Instruction::BinaryXor(vx, vy) => {
            let v = get_register(m, vx) ^ get_register(m, vy);
            set_register(m, vx, v);
            set_register(m, Register::VF, 0);
        },
        Instruction::RegAdd(vx, vy) => {
            let sum = get_register(m, vx) as u16 + get_register(m, vy) as u16;
            set_register(m, vx, (sum % 256) as u8);
            set_register(m, Register::VF, if sum > 255 { 1 } else { 0 });
        },
        Instruction::Subtract1(vx, vy) => {
            let a = get_register(m, vx);
            let b = get_register(m, vy);
            set_register(m, vx, ((a as u16 + 256 - b as u16) % 256) as u8);
            set_register(m, Register::VF, if a >= b { 1 } else { 0 });
        },
        Instruction::Subtract2(vx, vy) => {
            let a = get_register(m, vx);
            let b = get_register(m, vy);
            set_register(m, vx, ((b as u16 + 256 - a as u16) % 256) as u8);
            set_register(m, Register::VF, if b >= a { 1 } else { 0 });
        },
        Instruction::ShiftRight(vx, vy) => {
            let v = if q.shift_copies_vy {
                get_register(m, vy)
            } else {
                get_register(m, vx)
            };
            set_register(m, vx, v / 2);
            set_register(m, Register::VF, v % 2);
        },
        Instruction::ShiftLeft(vx, vy) => {
            let v = if q.shift_copies_vy {
                get_register(m, vy)
            } else {
                get_register(m, vx)
            };
            set_register(m, vx, ((v as u16 * 2) % 256) as u8);
            set_register(m, Register::VF, v / 128);
        },
        _ => {},
    }
}

/// XORs the `n`-row sprite at I onto the display at (x0, y0), clipping at the edges, and
/// tells whether a lit pixel was turned off.
fn draw_sprite(m: &mut Machine, x0: u8, y0: u8, n: u8) -> (collided: bool)
    requires
        old(m).wf(),
        x0 < 64,
        y0 < 32,
        n < 16,
        drawn_rows(y0 as int, n as int) <= 0 || old(m)@.i + drawn_rows(y0 as int, n as int)
            <= 0x1000,
    ensures
        final(m)@ == (MachineState {
            display: drawn_display(old(m)@, x0 as int, y0 as int, n as int),
            ..old(m)@
        }),
        collided == draw_collides(old(m)@, x0 as int, y0 as int, n as int),
        final(m).wf(),
{
    let ghost s = m@;
    let rows: u8 = if n <= 32 - y0 {
        n
    } else {
        32 - y0
    };
    let i = get_i(m);
    let mut collided = false;
    let mut r: u8 = 0;
    while r < rows
        invariant
            m.wf(),
            x0 < 64,
            y0 < 32,
            n < 16,
            r <= rows,
            rows as int == drawn_rows(y0 as int, n as int),
            rows <= 0 || s.i + rows <= 0x1000,
            i == s.i,
            m@ == (MachineState { display: m@.display, ..s }),
            forall|x: int, y: int|
                0 <= x < 64 && 0 <= y < 32 ==> #[trigger] m@.pixel(x, y) == if y < y0 + r
                    && draw_hits(s, x0 as int, y0 as int, n as int, x, y) {
                    !s.pixel(x, y)
                } else {
                    s.pixel(x, y)
                },
            collided == exists|x: int, y: int|
                0 <= x < 64 && 0 <= y < 32 && y < y0 + r && #[trigger] draw_hits(
                    s,
                    x0 as int,
                    y0 as int,
                    n as int,
                    x,
                    y,
                ) && s.pixel(x, y),
        decreases rows - r,
    {
        let row = get_memory_u8(m, i + r as u16);
        let py = y0 + r;
        let mut c: u8 = 0;
        while c < 8
            invariant
                m.wf(),
                x0 < 64,
                y0 < 32,
                n < 16,
                r < rows,
                rows as int == drawn_rows(y0 as int, n as int),
                py == y0 + r,
                py < 32,
                c <= 8,
                row == s.memory[s.i + r],
                m@ == (MachineState { display: m@.display, ..s }),
                forall|x: int, y: int|
                    0 <= x < 64 && 0 <= y < 32 ==> #[trigger] m@.pixel(x, y) == if (y < py || (y
                        == py && x < x0 + c)) && draw_hits(
                        s,
                        x0 as int,
                        y0 as int,
                        n as int,
                        x,
                        y,
                    ) {
                        !s.pixel(x, y)
                    } else {
                        s.pixel(x, y)
                    },
                collided == exists|x: int, y: int|
                    0 <= x < 64 && 0 <= y < 32 && (y < py || (y == py && x < x0 + c))
                        && #[trigger] draw_hits(s, x0 as int, y0 as int, n as int, x, y) && s.pixel(
                        x,
                        y,
                    ),
            decreases 8 - c,
        {
            let px = x0 + c;
            let ghost before = collided;
            let ghost m0 = m@;
            if px < 64 && (row >> (7 - c)) & 1 == 1 {
                assert(draw_hits(s, x0 as int, y0 as int, n as int, px as int, py as int));
                let lit = crate::system::get_display(m, px, py);
                crate::system::set_display(m, px, py, !lit);
                if lit {
                    collided = true;
                }
                assert forall|x: int, y: int| 0 <= x < 64 && 0 <= y < 32 implies #[trigger] m@.pixel(x, y)
                    == if (y < py || (y == py && x < x0 + c + 1)) && draw_hits(
                    s,
                    x0 as int,
                    y0 as int,
                    n as int,
                    x,
                    y,
                ) {
                    !s.pixel(x, y)
                } else {
                    s.pixel(x, y)
                } by {
                    if x != px || y != py {
                        assert(pixel_index(x, y) != pixel_index(px as int, py as int));
                        assert(m@.pixel(x, y) == m0.pixel(x, y));
                    }
                }
            } else {
                assert(px < 64 ==> !draw_hits(s, x0 as int, y0 as int, n as int, px as int, py as int));
            }
            assert(collided == exists|x: int, y: int|
                0 <= x < 64 && 0 <= y < 32 && (y < py || (y == py && x < x0 + c + 1))
                    && #[trigger] draw_hits(s, x0 as int, y0 as int, n as int, x, y) && s.pixel(
                    x,
                    y,
                )) by {
                if collided && !before {
                    assert(draw_hits(s, x0 as int, y0 as int, n as int, px as int, py as int)
                        && s.pixel(px as int, py as int));
                }
                if !collided {
                    assert forall|x: int, y: int|
                        0 <= x < 64 && 0 <= y < 32 && (y < py || (y == py && x < x0 + c + 1))
                            && #[trigger] draw_hits(s, x0 as int, y0 as int, n as int, x, y)
                            implies !s.pixel(x, y) by {
                        if !(x == px && y == py) {
                            assert(y < py || (y == py && x < x0 + c));
                        }
                    }
                }
            }
            c = c + 1;
        }
        assert forall|x: int, y: int|
            0 <= x < 64 && 0 <= y < 32 && y == py && x >= x0 + 8 implies !#[trigger] draw_hits(
            s,
            x0 as int,
            y0 as int,
            n as int,
            x,
            y,
        ) by {}
        r = r + 1;
    }
    let ghost target = drawn_display(s, x0 as int, y0 as int, n as int);
    assert forall|k: int| 0 <= k < 2048 implies #[trigger] m@.display[k] == target[k] by {
        let x = k % 64;
        let y = k / 64;
        assert(0 <= x < 64 && 0 <= y < 32);
        assert(pixel_index(x, y) == k);
        assert(y >= y0 + r ==> !draw_hits(s, x0 as int, y0 as int, n as int, x, y));
        assert(m@.pixel(x, y) == m@.display[k]);
        assert(s.pixel(x, y) == s.display[k]);
    }
    assert(m@.display =~= target);
    assert(collided == draw_collides(s, x0 as int, y0 as int, n as int)) by {
        if draw_collides(s, x0 as int, y0 as int, n as int) {
            let (x, y) = choose|x: int, y: int|
                0 <= x < 64 && 0 <= y < 32 && #[trigger] draw_hits(
                    s,
                    x0 as int,
                    y0 as int,
                    n as int,
                    x,
                    y,
                ) && s.pixel(x, y);
            assert(y < y0 + r);
        }
    }
    collided
}

/// FX55: V0..=VX to I..=I+X.
fn store_registers(m: &mut Machine, x: u8, q: Quirks) -> (r: Result<(), Fault>)
    requires
        old(m).wf(),
        x < 16,
    ensures
        outcome(r, final(m)@) == spec_store(old(m)@, x, q),
        r is Err ==> final(m)@ == old(m)@,
        final(m).wf(),
{
    let ghost s = m@;
    let i = get_i(m);
    let fits = if q.memory_increments_i {
        (i as u32 + x as u32 + 1) < 0x1000
    } else {
        (i as u32 + x as u32) < 0x1000
    };
    if !fits {
        return Err(Fault::AddressOverflow);
    }
    let mut k: u8 = 0;
    while k <= x
        invariant
            m.wf(),
            x < 16,
            k <= x + 1,
            i == s.i,
            i + x < 0x1000,
            m@ == (MachineState { memory: m@.memory, ..s }),
            forall|a: int|
                0 <= a < 4096 ==> #[trigger] m@.memory[a] == if s.i <= a < s.i + k {
                    s.registers[a - s.i]
                } else {
                    s.memory[a]
                },
        decreases x + 1 - k,
    {
        let v = get_register(m, Register::from_index(k));
        set_memory_u8(m, i + k as u16, v);
        k = k + 1;
    }
    let ghost target = spec_store(s, x, q)->Ok_0.memory;
    assert(m@.memory =~= target);
    if q.memory_increments_i {
        set_i(m, i + x as u16 + 1);
    }
    Ok(())
}

/// FX65: V0..=VX from I..=I+X.
fn load_registers(m: &mut Machine, x: u8, q: Quirks) -> (r: Result<(), Fault>)
    requires
        old(m).wf(),
        x < 16,
    ensures
        outcome(r, final(m)@) == spec_load(old(m)@, x, q),
        r is Err ==> final(m)@ == old(m)@,
        final(m).wf(),
{
    let ghost s = m@;
    let i = get_i(m);
    let fits = if q.memory_increments_i {
        (i as u32 + x as u32 + 1) < 0x1000
    } else {
        (i as u32 + x as u32) < 0x1000
    };
    if !fits {
        return Err(Fault::AddressOverflow);
    }
    let mut k: u8 = 0;
    while k <= x
        invariant
            m.wf(),
            x < 16,
            k <= x + 1,
            i == s.i,
            i + x < 0x1000,
            m@ == (MachineState { registers: m@.registers, ..s }),
            forall|t: int|
                0 <= t < 16 ==> #[trigger] m@.registers[t] == if t < k {
                    s.memory[s.i + t]
                } else {
                    s.registers[t]
                },
        decreases x + 1 - k,
    {
        let v = get_memory_u8(m, i + k as u16);
        let reg = Register::from_index(k);
        set_register(m, reg, v);
        k = k + 1;
    }
    let ghost target = spec_load(s, x, q)->Ok_0.registers;
    assert(m@.registers =~= target);
    if q.memory_increments_i {
        set_i(m, i + x as u16 + 1);
    }
    Ok(())
}

/// 00E0: every pixel off.
fn clear_display(m: &mut Machine)
    requires
        old(m).wf(),
    ensures
        final(m)@ == (MachineState { display: Seq::new(2048, |k: int| false), ..old(m)@ }),
        final(m).wf(),
{
    let ghost s = m@;
    let mut k: usize = 0;
    while k < DISPLAY_PIXELS
        invariant
            k <= DISPLAY_PIXELS,
            m@ == (MachineState { display: m@.display, ..s }),
            m@.display.len() == 2048,
            forall|t: int| 0 <= t < k ==> !#[trigger] m@.display[t],
            s.wf(),
        decreases DISPLAY_PIXELS - k,
    {
        m.display.set(k, false);
        k = k + 1;
    }
    assert(m@.display =~= Seq::new(2048, |k: int| false));
}

/// DXYN with its vertical-blank gate.
fn execute_draw(m: &mut Machine, vx: Register, vy: Register, n: u8, step: u64) -> (r: Result<
    (),
    Fault,
>)
    requires
        old(m).wf(),
        n < 16,
    ensures
        outcome(r, final(m)@) == spec_draw(old(m)@, vx, vy, n, step),
        r is Err ==> final(m)@ == old(m)@,
        final(m).wf(),
{
    if step % 12 != 1 {
        rewind_pc(m);
        return Ok(());
    }
    let x0 = get_register(m, vx) % 64;
    let y0 = get_register(m, vy) % 32;
    let rows: u8 = if n <= 32 - y0 {
        n
    } else {
        32 - y0
    };
    if rows > 0 && get_i(m) as u32 + rows as u32 > 0x1000 {
        return Err(Fault::AddressOverflow);
    }
    let collided = draw_sprite(m, x0, y0, n);
    set_register(m, Register::VF, if collided { 1 } else { 0 });
    Ok(())
}

/// Control flow: 0NNN, 00E0, 00EE, 1NNN, 2NNN, BNNN and raw words.
fn execute_flow(
    m: &mut Machine,
    instruction: Instruction,
    pressed_keys: &Vec<HostKey>,
    last_pressed_keys: &Vec<HostKey>,
    n_instructions_executed: u64,
    random: u8,
    quirks: Quirks,
) -> (r: Result<(), Fault>)
    requires
        old(m).wf(),
        instruction.wf(),
        instruction is ExecuteMachineLanguageRoutine || instruction is Clear || instruction is SubroutineReturn || instruction is Jump || instruction is SubroutineCall || instruction is JumpOffset || instruction is Db,
    ensures
        outcome(r, final(m)@) == spec_execute(
            old(m)@,
            instruction,
            pressed_keys@,
            last_pressed_keys@,
            n_instructions_executed,
            random,
            quirks,
        ),
        r is Err ==> final(m)@ == old(m)@,
        final(m).wf(),
{
    match instruction {
        Instruction::ExecuteMachineLanguageRoutine => Err(Fault::MachineLanguageRoutine),
        Instruction::Clear => {
            clear_display(m);
            Ok(())
        },
        Instruction::SubroutineReturn => match stack_pop(m) {
            Some(addr) => {
                set_pc(m, addr);
                Ok(())
            },
            None => Err(Fault::EmptyStackReturn),
        },
        Instruction::Jump(nnn) => {
            set_pc(m, nnn);
            Ok(())
        },
        Instruction::SubroutineCall(nnn) => {
            if m.stack.len() >= STACK_SIZE {
                return Err(Fault::StackOverflow);
            }
            let pc = get_pc(m);
            stack_push(m, pc);
            set_pc(m, nnn);
            Ok(())
        },
        Instruction::JumpOffset(nnn) => {
            let target = ((nnn as u32 + get_register(m, Register::V0) as u32) % 0x1000) as u16;
            set_pc(m, target);
            Ok(())
        },
        Instruction::Db(_) => Ok(()),
        _ => Ok(()),
    }
}

/// The conditional skips 3XNN, 4XNN, 5XY0, 9XY0, EX9E and EXA1.
fn execute_skip(
    m: &mut Machine,
    instruction: Instruction,
    pressed_keys: &Vec<HostKey>,
    last_pressed_keys: &Vec<HostKey>,
    n_instructions_executed: u64,
    random: u8,
    quirks: Quirks,
) -> (r: Result<(), Fault>)
    requires
        old(m).wf(),
        instruction.wf(),
        instruction is SkipConditional1 || instruction is SkipConditional2 || instruction is SkipConditional3 || instruction is SkipConditional4 || instruction is SkipIfKey || instruction is SkipIfNotKey,
    ensures
        outcome(r, final(m)@) == spec_execute(
            old(m)@,
            instruction,
            pressed_keys@,
            last_pressed_keys@,
            n_instructions_executed,
            random,
            quirks,
        ),
        r is Err ==> final(m)@ == old(m)@,
        final(m).wf(),
{
    match instruction {
        Instruction::SkipConditional1(vx, nn) => {
            let cond = get_register(m, vx) == nn;
            skip_when(m, cond)
        },
        Instruction::SkipConditional2(vx, nn) => {
            let cond = get_register(m, vx) != nn;
            skip_when(m, cond)
        },
        Instruction::SkipConditional3(vx, vy) => {
            let cond = get_register(m, vx) == get_register(m, vy);
            skip_when(m, cond)
        },
        Instruction::SkipConditional4(vx, vy) => {
            let cond = get_register(m, vx) != get_register(m, vy);
            skip_when(m, cond)
        },
        Instruction::SkipIfKey(vx) => {
            let key = get_register(m, vx);
            match host_key_for(key) {
                Some(k) => {
                    let down = is_pressed(pressed_keys, k);
                    skip_when(m, down)
                },
                None => Ok(()),
            }
        },
        Instruction::SkipIfNotKey(vx) => {
            let key = get_register(m, vx);
            match host_key_for(key) {
                Some(k) => {
                    let down = is_pressed(pressed_keys, k);
                    skip_when(m, !down)
                },
                None => Err(Fault::UnmappedKey(key)),
            }
        },
        _ => Ok(()),
    }
}

/// The instructions that write a register: 6XNN, 7XNN, 8XYN, CXNN, FX07, FX0A, and the timer stores FX15 and FX18.
fn execute_registers(
    m: &mut Machine,
    instruction: Instruction,
    pressed_keys: &Vec<HostKey>,
    last_pressed_keys: &Vec<HostKey>,
    n_instructions_executed: u64,
    random: u8,
    quirks: Quirks,
) -> (r: Result<(), Fault>)
    requires
        old(m).wf(),
        instruction.wf(),
        instruction is SetRegister || instruction is Add || instruction is RegSet || instruction is Random || instruction is GetDelayTimer || instruction is GetKey || instruction is SetDelayTimer || instruction is SetSoundTimer || is_alu(instruction),
    ensures
        outcome(r, final(m)@) == spec_execute(
            old(m)@,
            instruction,
            pressed_keys@,
            last_pressed_keys@,
            n_instructions_executed,
            random,
            quirks,
        ),
        r is Err ==> final(m)@ == old(m)@,
        final(m).wf(),
{
    match instruction {
        Instruction::SetRegister(vx, nn) => {
            set_register(m, vx, nn);
            Ok(())
        },
        Instruction::Add(vx, nn) => {
            let v = ((get_register(m, vx) as u16 + nn as u16) % 256) as u8;
            set_register(m, vx, v);
            Ok(())
        },
        Instruction::RegSet(_, _) | Instruction::BinaryOr(_, _) | Instruction::BinaryAnd(_, _)
        | Instruction::BinaryXor(_, _) | Instruction::RegAdd(_, _) | Instruction::Subtract1(_, _)
        | Instruction::ShiftRight(_, _) | Instruction::Subtract2(_, _) | Instruction::ShiftLeft(
            _,
            _,
        ) => {
            execute_alu(m, instruction, quirks);
            Ok(())
        },
        Instruction::Random(vx, nn) => {
            set_register(m, vx, random & nn);
            Ok(())
        },
        Instruction::GetDelayTimer(vx) => {
            let t = get_delay_timer(m);
            set_register(m, vx, t);
            Ok(())
        },
        Instruction::GetKey(vx) => {
            match find_released(last_pressed_keys, pressed_keys) {
                Some(k) => set_register(m, vx, keypad_code(k)),
                None => rewind_pc(m),
            }
            Ok(())
        },
        Instruction::SetDelayTimer(vx) => {
            let v = get_register(m, vx);
            set_delay_timer(m, v);
            Ok(())
        },
        Instruction::SetSoundTimer(vx) => {
            let v = get_register(m, vx);
            set_sound_timer(m, v);
            Ok(())
        },
        _ => Ok(()),
    }
}

/// The instructions that use I: ANNN, FX1E, FX29, FX33, FX55, FX65 and DXYN.
fn execute_memory(
    m: &mut Machine,
    instruction: Instruction,
    pressed_keys: &Vec<HostKey>,
    last_pressed_keys: &Vec<HostKey>,
    n_instructions_executed: u64,
    random: u8,
    quirks: Quirks,
) -> (r: Result<(), Fault>)
    requires
        old(m).wf(),
        instruction.wf(),
        instruction is SetIndexRegister || instruction is AddToIndex || instruction is FontCharacter || instruction is BCD || instruction is StoreMemory || instruction is LoadMemory || instruction is Draw,
    ensures
        outcome(r, final(m)@) == spec_execute(
            old(m)@,
            instruction,
            pressed_keys@,
            last_pressed_keys@,
            n_instructions_executed,
            random,
            quirks,
        ),
        r is Err ==> final(m)@ == old(m)@,
        final(m).wf(),
{
    match instruction {
        Instruction::SetIndexRegister(nnn) => {
            set_i(m, nnn);
            Ok(())
        },
        Instruction::Draw(vx, vy, n) => execute_draw(m, vx, vy, n, n_instructions_executed),
        Instruction::AddToIndex(vx) => {
            let sum = get_i(m) as u32 + get_register(m, vx) as u32;
            if sum < 0x1000 {
                set_i(m, sum as u16);
                Ok(())
            } else {
                Err(Fault::AddressOverflow)
            }
        },
        Instruction::FontCharacter(vx) => {
            let addr = 0x50u16 + 5 * (get_register(m, vx) % 16) as u16;
            let i = get_i(m);
            if !quirks.font_writes_memory {
                set_i(m, addr);
                Ok(())
            } else if i + 1 < 0x1000 {
                set_memory_u16(m, i, addr);
                Ok(())
            } else {
                Err(Fault::AddressOverflow)
            }
        },
        Instruction::BCD(vx) => {
            let v = get_register(m, vx);
            let i = get_i(m);
            if i + 2 < 0x1000 {
                set_memory_u8(m, i, v / 100);
                set_memory_u8(m, i + 1, (v % 100) / 10);
                set_memory_u8(m, i + 2, v % 10);
                Ok(())
            } else {
                Err(Fault::AddressOverflow)
            }
        },
        Instruction::StoreMemory(x) => store_registers(m, x, quirks),
        Instruction::LoadMemory(x) => load_registers(m, x, quirks),
        _ => Ok(()),
    }
}

/// Executes one instruction. `pressed_keys` and `last_pressed_keys` are the current and the
/// previous keyboard samples, `n_instructions_executed` counts the instructions run before this
/// one (it gates drawing to vertical blanks), and `random` is the byte that CXNN masks. On a
/// fault the machine is left as it was.
pub fn execute(
    m: &mut Machine,
    instruction: Instruction,
    pressed_keys: &Vec<HostKey>,
    last_pressed_keys: &Vec<HostKey>,
    n_instructions_executed: u64,
    random: u8,
    quirks: Quirks,
) -> (r: Result<(), Fault>)
    requires
        old(m).wf(),
        instruction.wf(),
    ensures
        outcome(r, final(m)@) == spec_execute(
            old(m)@,
            instruction,
            pressed_keys@,
            last_pressed_keys@,
            n_instructions_executed,
            random,
            quirks,
        ),
        r is Err ==> final(m)@ == old(m)@,
        final(m).wf(),
{
    match instruction {
        Instruction::ExecuteMachineLanguageRoutine | Instruction::Clear
        | Instruction::SubroutineReturn | Instruction::Jump(_) | Instruction::SubroutineCall(_)
        | Instruction::JumpOffset(_) | Instruction::Db(_) => execute_flow(
            m,
            instruction,
            pressed_keys,
            last_pressed_keys,
            n_instructions_executed,
            random,
            quirks,
        ),
        Instruction::SkipConditional1(_, _) | Instruction::SkipConditional2(_, _)
        | Instruction::SkipConditional3(_, _) | Instruction::SkipConditional4(_, _)
        | Instruction::SkipIfKey(_) | Instruction::SkipIfNotKey(_) => execute_skip(
            m,
            instruction,
            pressed_keys,
            last_pressed_keys,
            n_instructions_executed,
            random,
            quirks,
        ),
        Instruction::SetIndexRegister(_) | Instruction::AddToIndex(_)
        | Instruction::FontCharacter(_) | Instruction::BCD(_) | Instruction::StoreMemory(_)
        | Instruction::LoadMemory(_) | Instruction::Draw(_, _, _) => execute_memory(
            m,
            instruction,
            pressed_keys,
            last_pressed_keys,
            n_instructions_executed,
            random,
            quirks,
        ),
        _ => execute_registers(
            m,
            instruction,
            pressed_keys,
            last_pressed_keys,
            n_instructions_executed,
            random,
            quirks,
        ),
    }
}

} // verus!
