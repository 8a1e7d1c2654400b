use vstd::prelude::*;

use crate::register::Register;

verus! {

/// Bytes of RAM.
pub const MEMORY_SIZE: usize = 4096;

/// Display width in pixels.
pub const DISPLAY_WIDTH: usize = 64;

/// Display height in pixels.
pub const DISPLAY_HEIGHT: usize = 32;

/// Number of pixels on the display.
pub const DISPLAY_PIXELS: usize = 2048;

/// Capacity of the call stack.
pub const STACK_SIZE: usize = 16;

/// Where the hex font glyphs start in memory.
pub const FONT_ADDRESS: u16 = 0x50;

/// Where programs are loaded and start running.
pub const PROGRAM_START: u16 = 0x200;

/// The largest program that fits between `PROGRAM_START` and the end of memory.
pub const MAX_ROM_SIZE: usize = 3584;

/// The whole machine as mathematical values.
pub struct MachineState {
    pub memory: Seq<u8>,
    /// Pixels in row-major order: the pixel (x, y) is at `y * 64 + x`.
    pub display: Seq<bool>,
    pub registers: Seq<u8>,
    pub i: u16,
    pub pc: u16,
    pub stack: Seq<u16>,
    pub delay_timer: u8,
    pub sound_timer: u8,
}

/// The position of pixel (x, y) in the display sequence.
pub open spec fn pixel_index(x: int, y: int) -> int {
    y * 64 + x
}

impl MachineState {
    /// Sizes are fixed and every address held (PC, I, stack entries) fits in 12 bits.
    pub open spec fn wf(self) -> bool {
        &&& self.memory.len() == 4096
        &&& self.display.len() == 2048
        &&& self.registers.len() == 16
        &&& self.i < 0x1000
        &&& self.pc < 0x1000
        &&& self.stack.len() <= 16
        &&& forall|k: int| 0 <= k < self.stack.len() ==> #[trigger] self.stack[k] < 0x1000
    }

    /// The value of a register.
    pub open spec fn reg(self, r: Register) -> u8 {
        self.registers[r.spec_index() as int]
    }

    /// The state with one register changed.
    pub open spec fn with_reg(self, r: Register, v: u8) -> MachineState {
        MachineState { registers: self.registers.update(r.spec_index() as int, v), ..self }
    }

    /// The state with the program counter changed.
    pub open spec fn with_pc(self, pc: u16) -> MachineState {
        MachineState { pc, ..self }
    }

    /// The pixel at (x, y).
    pub open spec fn pixel(self, x: int, y: int) -> bool {
        self.display[pixel_index(x, y)]
    }

    /// The big-endian word at `addr`.
    pub open spec fn word_at(self, addr: int) -> u16 {
        (self.memory[addr] as int * 256 + self.memory[addr + 1] as int) as u16
    }
}

/// The machine: memory, display, registers, index, program counter, stack and timers.
pub struct Machine {
    pub memory: Vec<u8>,
    pub display: Vec<bool>,
    pub registers: Vec<u8>,
    pub i: u16,
    pub pc: u16,
    pub stack: Vec<u16>,
    pub delay_timer: u8,
    pub sound_timer: u8,
}

impl View for Machine {
    type V = MachineState;

    open spec fn view(&self) -> MachineState {
        MachineState {
            memory: self.memory@,
            display: self.display@,
            registers: self.registers@,
            i: self.i,
            pc: self.pc,
            stack: self.stack@,
            delay_timer: self.delay_timer,
            sound_timer: self.sound_timer,
        }
    }
}

/// The conventional 4x5 hex digit glyphs, 0 through F, five bytes each.
pub open spec fn font_glyphs() -> Seq<u8> {
    seq![
        0xF0u8, 0x90, 0x90, 0x90, 0xF0, // 0
        0x20, 0x60, 0x20, 0x20, 0x70, // 1
        0xF0, 0x10, 0xF0, 0x80, 0xF0, // 2
        0xF0, 0x10, 0xF0, 0x10, 0xF0, // 3
        0x90, 0x90, 0xF0, 0x10, 0x10, // 4
        0xF0, 0x80, 0xF0, 0x10, 0xF0, // 5
        0xF0, 0x80, 0xF0, 0x90, 0xF0, // 6
        0xF0, 0x10, 0x20, 0x40, 0x40, // 7
        0xF0, 0x90, 0xF0, 0x90, 0xF0, // 8
        0xF0, 0x90, 0xF0, 0x10, 0xF0, // 9
        0xF0, 0x90, 0xF0, 0x90, 0x90, // A
        0xE0, 0x90, 0xE0, 0x90, 0xE0, // B
        0xF0, 0x80, 0x80, 0x80, 0xF0, // C
        0xE0, 0x90, 0x90, 0x90, 0xE0, // D
        0xF0, 0x80, 0xF0, 0x80, 0xF0, // E
        0xF0, 0x80, 0xF0, 0x80, 0x80, // F
    ]
}

/// The memory of a freshly started machine: font at 0x050, program at 0x200, zero elsewhere.
pub open spec fn initial_memory(rom: Seq<u8>) -> Seq<u8> {
    Seq::new(
        4096,
        |a: int|
            if 0x50 <= a < 0xA0 {
                font_glyphs()[a - 0x50]
            } else if 0x200 <= a < 0x200 + rom.len() {
                rom[a - 0x200]
            } else {
                0u8
            },
    )
}

/// A freshly started machine: everything zero but memory, and PC at 0x200.
pub open spec fn initial_state(rom: Seq<u8>) -> MachineState {
    MachineState {
        memory: initial_memory(rom),
        display: Seq::new(2048, |k: int| false),
        registers: Seq::new(16, |k: int| 0u8),
        i: 0,
        pc: 0x200,
        stack: Seq::empty(),
        delay_timer: 0,
        sound_timer: 0,
    }
}

impl Machine {
    pub open spec fn wf(&self) -> bool {
        self@.wf()
    }

    /// A machine with the font and the given program loaded, or `None` when the program does
    /// not fit in memory above 0x200.
    pub fn new(rom: &Vec<u8>) -> (r: Option<Machine>)
        ensures
            rom@.len() <= MAX_ROM_SIZE <==> r is Some,
            r matches Some(m) ==> m@ == initial_state(rom@) && m.wf(),
    {
        if rom.len() > MAX_ROM_SIZE {
            return None;
        }
        let font: Vec<u8> = vec![
            0xF0u8, 0x90, 0x90, 0x90, 0xF0, 0x20, 0x60, 0x20, 0x20, 0x70, 0xF0, 0x10, 0xF0, 0x80,
            0xF0, 0xF0, 0x10, 0xF0, 0x10, 0xF0, 0x90, 0x90, 0xF0, 0x10, 0x10, 0xF0, 0x80, 0xF0,
            0x10, 0xF0, 0xF0, 0x80, 0xF0, 0x90, 0xF0, 0xF0, 0x10, 0x20, 0x40, 0x40, 0xF0, 0x90,
            0xF0, 0x90, 0xF0, 0xF0, 0x90, 0xF0, 0x10, 0xF0, 0xF0, 0x90, 0xF0, 0x90, 0x90, 0xE0,
            0x90, 0xE0, 0x90, 0xE0, 0xF0, 0x80, 0x80, 0x80, 0xF0, 0xE0, 0x90, 0x90, 0x90, 0xE0,
            0xF0, 0x80, 0xF0, 0x80, 0xF0, 0xF0, 0x80, 0xF0, 0x80, 0x80,
        ];
        assert(font@ == font_glyphs());
        let mut memory: Vec<u8> = Vec::new();
        let mut a: usize = 0;
        while a < MEMORY_SIZE
            invariant
                a <= MEMORY_SIZE,
                memory@.len() == a,
                rom@.len() <= MAX_ROM_SIZE,
                font@ == font_glyphs(),
                forall|k: int| 0 <= k < a ==> memory@[k] == #[trigger] initial_memory(rom@)[k],
            decreases MEMORY_SIZE - a,
        {
            let b: u8 = if 0x50 <= a && a < 0xA0 {
                font[a - 0x50]
            } else if 0x200 <= a && a < 0x200 + rom.len() {
                rom[a - 0x200]
            } else {
                0
            };
            memory.push(b);
            a = a + 1;
        }
        assert(memory@ == initial_memory(rom@));
        let mut display: Vec<bool> = Vec::new();
        while display.len() < DISPLAY_PIXELS
            invariant
                display@.len() <= DISPLAY_PIXELS,
                forall|k: int| 0 <= k < display@.len() ==> !#[trigger] display@[k],
            decreases DISPLAY_PIXELS - display@.len(),
        {
            display.push(false);
        }
        let mut registers: Vec<u8> = Vec::new();
        while registers.len() < 16
            invariant
                registers@.len() <= 16,
                forall|k: int| 0 <= k < registers@.len() ==> #[trigger] registers@[k] == 0,
            decreases 16 - registers@.len(),
        {
            registers.push(0);
        }
        let m = Machine {
            memory,
            display,
            registers,
            i: 0,
            pc: PROGRAM_START,
            stack: Vec::new(),
            delay_timer: 0,
            sound_timer: 0,
        };
        assert(m@.display == initial_state(rom@).display);
        assert(m@.registers == initial_state(rom@).registers);
        assert(m@.stack == initial_state(rom@).stack);
        Some(m)
    }
}

/// The byte of memory at `addr`.
pub fn get_memory_u8(m: &Machine, addr: u16) -> (r: u8)
    requires
        m.wf(),
        addr < 0x1000,
    ensures
        r == m@.memory[addr as int],
{
    m.memory[addr as usize]
}

/// The big-endian word at `addr` and `addr + 1`.
pub fn get_memory_u16(m: &Machine, addr: u16) -> (r: u16)
    requires
        m.wf(),
        addr < 0x0FFF,
    ensures
        r == m@.word_at(addr as int),
        r as int == m@.memory[addr as int] as int * 256 + m@.memory[addr + 1] as int,
{
    let hi = m.memory[addr as usize] as u16;
    let lo = m.memory[addr as usize + 1] as u16;
    hi * 256 + lo
}

/// Writes one byte of memory.
pub fn set_memory_u8(m: &mut Machine, addr: u16, val: u8)
    requires
        old(m).wf(),
        addr < 0x1000,
    ensures
        final(m)@ == (MachineState { memory: old(m)@.memory.update(addr as int, val), ..old(m)@ }),
        final(m).wf(),
{
    m.memory.set(addr as usize, val);
}

/// Writes a big-endian word at `addr` and `addr + 1`.
pub fn set_memory_u16(m: &mut Machine, addr: u16, val: u16)
    requires
        old(m).wf(),
        addr < 0x0FFF,
    ensures
        final(m)@ == (MachineState {
            memory: old(m)@.memory.update(addr as int, (val / 256) as u8).update(
                addr + 1,
                (val % 256) as u8,
            ),
            ..old(m)@
        }),
        final(m).wf(),
{
    m.memory.set(addr as usize, (val / 256) as u8);
    m.memory.set(addr as usize + 1, (val % 256) as u8);
}

/// The pixel at (x, y).
pub fn get_display(m: &Machine, x: u8, y: u8) -> (r: bool)
    requires
        m.wf(),
        x < 64,
        y < 32,
    ensures
        r == m@.pixel(x as int, y as int),
{
    m.display[y as usize * DISPLAY_WIDTH + x as usize]
}

/// A copy of the whole display.
pub fn get_full_display(m: &Machine) -> (r: Vec<bool>)
    ensures
        r@ == m@.display,
{
    m.display.clone()
}

/// Sets the pixel at (x, y).
pub fn set_display(m: &mut Machine, x: u8, y: u8, val: bool)
    requires
        old(m).wf(),
        x < 64,
        y < 32,
    ensures
        final(m)@ == (MachineState {
            display: old(m)@.display.update(pixel_index(x as int, y as int), val),
            ..old(m)@
        }),
        final(m).wf(),
{
    m.display.set(y as usize * DISPLAY_WIDTH + x as usize, val);
}

pub fn get_pc(m: &Machine) -> (r: u16)
    ensures
        r == m@.pc,
{
    m.pc
}

/// Sets the program counter; it holds a 12-bit address.
pub fn set_pc(m: &mut Machine, val: u16)
    requires
        old(m).wf(),
        val < 0x1000,
    ensures
        final(m)@ == old(m)@.with_pc(val),
        final(m).wf(),
{
    m.pc = val;
}

pub fn get_i(m: &Machine) -> (r: u16)
    ensures
        r == m@.i,
{
    m.i
}

/// Sets the index register; it holds a 12-bit address.
pub fn set_i(m: &mut Machine, val: u16)
    requires
        old(m).wf(),
        val < 0x1000,
    ensures
        final(m)@ == (MachineState { i: val, ..old(m)@ }),
        final(m).wf(),
{
    m.i = val;
}

/// Pushes a 12-bit return address onto the call stack.
pub fn stack_push(m: &mut Machine, val: u16)
    requires
        old(m).wf(),
        old(m)@.stack.len() < STACK_SIZE,
        val < 0x1000,
    ensures
        final(m)@ == (MachineState { stack: old(m)@.stack.push(val), ..old(m)@ }),
        final(m).wf(),
{
    m.stack.push(val);
}

/// Pops the call stack; `None` when it is empty.
pub fn stack_pop(m: &mut Machine) -> (r: Option<u16>)
    requires
        old(m).wf(),
    ensures
        old(m)@.stack.len() == 0 ==> r is None && final(m)@ == old(m)@,
        old(m)@.stack.len() > 0 ==> r == Some(old(m)@.stack.last()) && final(m)@ == (MachineState {
            stack: old(m)@.stack.drop_last(),
            ..old(m)@
        }),
        final(m).wf(),
{
    let r = m.stack.pop();
    proof {
        if old(m)@.stack.len() > 0 {
            assert(m@.stack == old(m)@.stack.drop_last());
        }
    }
    r
}

/// A copy of the call stack, bottom first.
pub fn get_stack(m: &Machine) -> (r: Vec<u16>)
    ensures
        r@ == m@.stack,
{
    m.stack.clone()
}

/// The top of the call stack, if any.
pub fn peek_stack(m: &Machine) -> (r: Option<u16>)
    ensures
        m@.stack.len() == 0 ==> r is None,
        m@.stack.len() > 0 ==> r == Some(m@.stack.last()),
{
    let n = m.stack.len();
    if n > 0 {
        Some(m.stack[n - 1])
    } else {
        None
    }
}

pub fn get_delay_timer(m: &Machine) -> (r: u8)
    ensures
        r == m@.delay_timer,
{
    m.delay_timer
}

pub fn set_delay_timer(m: &mut Machine, val: u8)
    requires
        old(m).wf(),
    ensures
        final(m)@ == (MachineState { delay_timer: val, ..old(m)@ }),
        final(m).wf(),
{
    m.delay_timer = val;
}

/// Counts the delay timer down by one, stopping at zero.
pub fn decrement_delay_timer(m: &mut Machine)
    requires
        old(m).wf(),
    ensures
        final(m)@ == (MachineState {
            delay_timer: if old(m)@.delay_timer > 0 {
                (old(m)@.delay_timer - 1) as u8
            } else {
                0
            },
            ..old(m)@
        }),
        final(m).wf(),
{
    m.delay_timer = m.delay_timer.saturating_sub(1);
}

pub fn get_sound_timer(m: &Machine) -> (r: u8)
    ensures
        r == m@.sound_timer,
{
    m.sound_timer
}

pub fn set_sound_timer(m: &mut Machine, val: u8)
    requires
        old(m).wf(),
    ensures
        final(m)@ == (MachineState { sound_timer: val, ..old(m)@ }),
        final(m).wf(),
{
    m.sound_timer = val;
}

/// Counts the sound timer down by one, stopping at zero.
pub fn decrement_sound_timer(m: &mut Machine)
    requires
        old(m).wf(),
    ensures
        final(m)@ == (MachineState {
            sound_timer: if old(m)@.sound_timer > 0 {
                (old(m)@.sound_timer - 1) as u8
            } else {
                0
            },
            ..old(m)@
        }),
        final(m).wf(),
{
    m.sound_timer = m.sound_timer.saturating_sub(1);
}

/// A copy of V0..VF.
pub fn get_registers(m: &Machine) -> (r: Vec<u8>)
    ensures
        r@ == m@.registers,
{
    m.registers.clone()
}

pub fn get_register(m: &Machine, reg: Register) -> (r: u8)
    requires
        m.wf(),
    ensures
        r == m@.reg(reg),
{
    m.registers[reg.index() as usize]
}

pub fn set_register(m: &mut Machine, reg: Register, val: u8)
    requires
        old(m).wf(),
    ensures
        final(m)@ == old(m)@.with_reg(reg, val),
        final(m).wf(),
{
    m.registers.set(reg.index() as usize, val);
}

} // verus!
