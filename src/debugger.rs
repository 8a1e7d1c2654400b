use vstd::prelude::*;

use crate::register::Register;
use crate::system::{
    get_delay_timer, get_i, get_memory_u8, get_pc, get_register, get_sound_timer, set_delay_timer,
    set_i, set_memory_u8, set_pc, set_register, set_sound_timer, stack_pop, stack_push, Machine,
    MachineState, STACK_SIZE,
};

verus! {

/// The value of a digit character in bases up to 36; 36 for anything else.
pub open spec fn digit_value(c: char) -> int {
    if '0' <= c <= '9' {
        c as int - '0' as int
    } else if 'a' <= c <= 'z' {
        c as int - 'a' as int + 10
    } else if 'A' <= c <= 'Z' {
        c as int - 'A' as int + 10
    } else {
        36
    }
}

/// The value of a digit string in the given base.
pub open spec fn radix_value(ds: Seq<char>, radix: int) -> int
    decreases ds.len(),
{
    if ds.len() == 0 {
        0
    } else {
        radix_value(ds.drop_last(), radix) * radix + digit_value(ds.last())
    }
}

/// Whether every character is a digit of the base.
pub open spec fn all_digits(ds: Seq<char>, radix: int) -> bool {
    forall|j: int| 0 <= j < ds.len() ==> #[trigger] digit_value(ds[j]) < radix
}

/// The number written by a non-empty digit string in the given base, when it fits a `usize`.
pub open spec fn number_value(ds: Seq<char>, radix: int) -> Option<usize> {
    if ds.len() > 0 && all_digits(ds, radix) && radix_value(ds, radix) <= usize::MAX {
        Some(radix_value(ds, radix) as usize)
    } else {
        None
    }
}

/// A number as the debugger reads it: `0x7B` in hex, `0b1111011` in binary, `123` in decimal.
pub open spec fn spec_str_to_num(s: Seq<char>) -> Option<usize> {
    if s.len() >= 2 && s[0] == '0' && s[1] == 'x' {
        number_value(s.skip(2), 16)
    } else if s.len() >= 2 && s[0] == '0' && s[1] == 'b' {
        number_value(s.skip(2), 2)
    } else {
        number_value(s, 10)
    }
}

proof fn lemma_radix_grows(ds: Seq<char>, k: int, radix: int)
    requires
        0 <= k <= ds.len(),
        2 <= radix <= 36,
        all_digits(ds, radix),
    ensures
        radix_value(ds.take(k), radix) <= radix_value(ds, radix),
        0 <= radix_value(ds, radix),
    decreases ds.len(),
{
    if ds.len() > 0 {
        let p = ds.drop_last();
        assert(all_digits(p, radix)) by {
            assert forall|j: int| 0 <= j < p.len() implies #[trigger] digit_value(p[j]) < radix by {
                assert(p[j] == ds[j]);
            }
        }
        if k < ds.len() {
            lemma_radix_grows(p, k, radix);
            assert(p.take(k) == ds.take(k));
        } else {
            lemma_radix_grows(p, 0, radix);
            assert(ds.take(k) == ds);
        }
        assert(radix_value(p, radix) * radix >= radix_value(p, radix)) by (nonlinear_arith)
            requires
                radix_value(p, radix) >= 0,
                radix >= 2,
        ;
    }
}

/// The value of one digit character.
fn digit(c: char) -> (r: u32)
    ensures
        r == digit_value(c),
{
    if '0' <= c && c <= '9' {
        c as u32 - '0' as u32
    } else if 'a' <= c && c <= 'z' {
        c as u32 - 'a' as u32 + 10
    } else if 'A' <= c && c <= 'Z' {
        c as u32 - 'A' as u32 + 10
    } else {
        36
    }
}

/// The number written by `s[from..]` in the given base.
fn parse_radix(s: &str, from: usize, radix: u32) -> (r: Option<usize>)
    requires
        from <= s@.len() <= usize::MAX,
        2 <= radix <= 36,
    ensures
        r == number_value(s@.skip(from as int), radix as int),
{
    let n = s.unicode_len();
    let ghost ds = s@.skip(from as int);
    if from == n {
        return None;
    }
    let mut acc: usize = 0;
    let mut j = from;
    while j < n
        invariant
            from <= j <= n,
            n == s@.len(),
            2 <= radix <= 36,
            ds == s@.skip(from as int),
            all_digits(ds.take(j - from), radix as int),
            acc as int == radix_value(ds.take(j - from), radix as int),
        decreases n - j,
    {
        let c = s.get_char(j);
        assert(ds.take(j - from + 1).drop_last() == ds.take(j - from));
        assert(ds.take(j - from + 1).last() == c);
        let d = digit(c);
        if d >= radix {
            assert(!all_digits(ds, radix as int)) by {
                assert(ds[j - from] == c);
            }
            return None;
        }
        let next = match acc.checked_mul(radix as usize) {
            Some(t) => t.checked_add(d as usize),
            None => None,
        };
        match next {
            Some(v) => {
                acc = v;
            },
            None => {
                proof {
                    if all_digits(ds, radix as int) {
                        lemma_radix_grows(ds, j - from + 1, radix as int);
                    }
                }
                return None;
            },
        }
        j = j + 1;
    }
    assert(ds.take(j - from) == ds);
    Some(acc)
}

/// Reads a number written in decimal (`123`), hex (`0x7B`) or binary (`0b1111011`).
pub fn str_to_num(addr: &str) -> (r: Option<usize>)
    requires
        addr@.len() <= usize::MAX,
    ensures
        r == spec_str_to_num(addr@),
{
    let n = addr.unicode_len();
    if n >= 2 && addr.get_char(0) == '0' && addr.get_char(1) == 'x' {
        parse_radix(addr, 2, 16)
    } else if n >= 2 && addr.get_char(0) == '0' && addr.get_char(1) == 'b' {
        parse_radix(addr, 2, 2)
    } else {
        assert(addr@.skip(0) == addr@);
        parse_radix(addr, 0, 10)
    }
}

/// The set of addresses at which the debugger stops.
pub struct Breakpoints {
    /// `set[a]` tells whether address `a` is a breakpoint.
    set: Vec<bool>,
}

impl View for Breakpoints {
    type V = Set<u16>;

    closed spec fn view(&self) -> Set<u16> {
        Set::new(|a: u16| a < 0x1000 && self.set@[a as int])
    }
}

impl Breakpoints {
    pub closed spec fn wf(&self) -> bool {
        self.set@.len() == 0x1000
    }

    /// No breakpoints.
    pub fn new() -> (r: Breakpoints)
        ensures
            r.wf(),
            r@ == Set::<u16>::empty(),
    {
        let mut set: Vec<bool> = Vec::new();
        while set.len() < 0x1000
            invariant
                set@.len() <= 0x1000,
                forall|k: int| 0 <= k < set@.len() ==> !#[trigger] set@[k],
            decreases 0x1000 - set@.len(),
        {
            set.push(false);
        }
        let r = Breakpoints { set };
        assert(r@ =~= Set::<u16>::empty());
        r
    }

    /// Whether the debugger stops at `addr`.
    pub fn contains(&self, addr: u16) -> (r: bool)
        requires
            self.wf(),
        ensures
            r == self@.contains(addr),
    {
        addr < 0x1000 && self.set[addr as usize]
    }

    /// Adds a breakpoint; false when it was already there.
    pub fn insert(&mut self, addr: u16) -> (r: bool)
        requires
            old(self).wf(),
            addr < 0x1000,
        ensures
            final(self).wf(),
            final(self)@ == old(self)@.insert(addr),
            r == !old(self)@.contains(addr),
    {
        let was = self.set[addr as usize];
        self.set.set(addr as usize, true);
        assert(self@ =~= old(self)@.insert(addr));
        !was
    }

    /// Removes a breakpoint; false when there was none.
    pub fn remove(&mut self, addr: u16) -> (r: bool)
        requires
            old(self).wf(),
        ensures
            final(self).wf(),
            final(self)@ == old(self)@.remove(addr),
            r == old(self)@.contains(addr),
    {
        if addr >= 0x1000 {
            assert(self@ =~= old(self)@.remove(addr));
            return false;
        }
        let was = self.set[addr as usize];
        self.set.set(addr as usize, false);
        assert(self@ =~= old(self)@.remove(addr));
        was
    }

    /// All breakpoints in increasing order.
    pub fn list(&self) -> (r: Vec<u16>)
        requires
            self.wf(),
        ensures
            forall|a: u16| self@.contains(a) <==> r@.contains(a),
            forall|j: int, k: int| 0 <= j < k < r@.len() ==> r@[j] < r@[k],
    {
        let mut r: Vec<u16> = Vec::new();
        let mut a: u16 = 0;
        while a < 0x1000
            invariant
                a <= 0x1000,
                self.wf(),
                forall|b: u16| (b < a && self@.contains(b)) <==> r@.contains(b),
                forall|j: int| 0 <= j < r@.len() ==> r@[j] < a,
                forall|j: int, k: int| 0 <= j < k < r@.len() ==> r@[j] < r@[k],
            decreases 0x1000 - a,
        {
            let ghost prev = r@;
            if self.set[a as usize] {
                r.push(a);
            }
            proof {
                assert forall|b: u16| (b < a + 1 && self@.contains(b)) <==> r@.contains(b) by {
                    if self.set@[a as int] {
                        assert(r@ == prev.push(a));
                        if r@.contains(b) && b != a {
                            let j = choose|j: int| 0 <= j < r@.len() && r@[j] == b;
                            assert(prev[j] == b);
                        }
                        if prev.contains(b) {
                            let j = choose|j: int| 0 <= j < prev.len() && prev[j] == b;
                            assert(r@[j] == b);
                        }
                        if b == a {
                            assert(r@[r@.len() - 1] == a);
                        }
                    }
                }
            }
            a = a + 1;
        }
        r
    }
}

/// Whether two strings hold the same text.
pub fn same_text(a: &str, b: &str) -> (r: bool)
    requires
        a@.len() <= usize::MAX,
        b@.len() <= usize::MAX,
    ensures
        r == (a@ == b@),
{
    let n = a.unicode_len();
    if n != b.unicode_len() {
        return false;
    }
    let mut j: usize = 0;
    while j < n
        invariant
            j <= n,
            n == a@.len(),
            n == b@.len(),
            forall|t: int| 0 <= t < j ==> a@[t] == b@[t],
        decreases n - j,
    {
        if a.get_char(j) != b.get_char(j) {
            return false;
        }
        j = j + 1;
    }
    assert(a@ =~= b@);
    true
}

/// Whether `w` is one of two spellings of a command word.
pub open spec fn is_word(w: Seq<char>, short: Seq<char>, long: Seq<char>) -> bool {
    w == short || w == long
}

fn word_is(w: &String, short: &str, long: &str) -> (r: bool)
    requires
        w@.len() <= usize::MAX,
        short@.len() <= usize::MAX,
        long@.len() <= usize::MAX,
    ensures
        r == is_word(w@, short@, long@),
{
    same_text(w.as_str(), short) || same_text(w.as_str(), long)
}

/// Something the debugger can print or set.
#[derive(Debug, Clone, Copy, PartialEq, Eq, Structural)]
pub enum Target {
    Register(Register),
    Index,
    Pc,
    Delay,
    Sound,
    Memory(usize),
}

/// Why a command line was not understood.
#[derive(Debug, Clone, Copy, PartialEq, Eq, Structural)]
pub enum CommandError {
    /// The command takes no arguments.
    UnexpectedArguments,
    /// The command got the wrong number or kind of arguments.
    Usage,
    /// A number is not decimal, `0x` hex or `0b` binary.
    BadNumber,
    /// A register name is not V0..VF.
    BadRegister,
    /// No command has this name.
    Unknown,
}

/// A debugger command.
#[derive(Debug, Clone, Copy, PartialEq, Eq, Structural)]
pub enum Command {
    Help,
    Continue,
    Next,
    Jump(usize),
    Print(Target),
    Assign(Target, usize),
    Push(usize),
    Pop,
    BreakpointSet(usize),
    BreakpointList,
    BreakpointRemove(usize),
    Examine(usize, usize),
    /// A blank line: run the previous command again.
    Repeat,
    Invalid(CommandError),
}

/// The register named `Vx` or `vx` for a hex digit x.
pub open spec fn spec_register_name(w: Seq<char>) -> Option<Register> {
    if w.len() == 2 && (w[0] == 'v' || w[0] == 'V') && digit_value(w[1]) < 16 {
        Some(Register::spec_from_index(digit_value(w[1]) as u8))
    } else {
        None
    }
}

/// What a target word names: a register, a special register, or a memory address.
pub open spec fn spec_target(w: Seq<char>) -> Result<Target, CommandError> {
    if w.len() > 0 && (w[0] == 'v' || w[0] == 'V') {
        if w.len() != 2 {
            Err(CommandError::Usage)
        } else {
            match spec_register_name(w) {
                Some(r) => Ok(Target::Register(r)),
                None => Err(CommandError::BadRegister),
            }
        }
    } else if is_word(w, "i"@, "index"@) {
        Ok(Target::Index)
    } else if w == "pc"@ {
        Ok(Target::Pc)
    } else if is_word(w, "d"@, "delay"@) {
        Ok(Target::Delay)
    } else if is_word(w, "s"@, "sound"@) {
        Ok(Target::Sound)
    } else {
        match spec_str_to_num(w) {
            Some(a) => Ok(Target::Memory(a)),
            None => Err(CommandError::BadNumber),
        }
    }
}

/// A number argument, or the error for a bad one.
pub open spec fn number_or(w: Seq<char>, f: spec_fn(usize) -> Command) -> Command {
    match spec_str_to_num(w) {
        Some(v) => f(v),
        None => Command::Invalid(CommandError::BadNumber),
    }
}

/// The command written by the words of a line.
pub open spec fn spec_parse_command(args: Seq<Seq<char>>) -> Command {
    if args.len() == 0 {
        Command::Repeat
    } else {
        let w = args[0];
        if is_word(w, "h"@, "help"@) {
            if args.len() > 1 {
                Command::Invalid(CommandError::UnexpectedArguments)
            } else {
                Command::Help
            }
        } else if is_word(w, "c"@, "continue"@) {
            if args.len() > 1 {
                Command::Invalid(CommandError::UnexpectedArguments)
            } else {
                Command::Continue
            }
        } else if is_word(w, "n"@, "next"@) {
            if args.len() > 1 {
                Command::Invalid(CommandError::UnexpectedArguments)
            } else {
                Command::Next
            }
        } else if is_word(w, "j"@, "jump"@) {
            if args.len() != 2 {
                Command::Invalid(CommandError::Usage)
            } else {
                number_or(args[1], |v: usize| Command::Jump(v))
            }
        } else if is_word(w, "p"@, "print"@) {
            if args.len() != 2 {
                Command::Invalid(CommandError::Usage)
            } else {
                match spec_target(args[1]) {
                    Ok(t) => Command::Print(t),
                    Err(e) => Command::Invalid(e),
                }
            }
        } else if is_word(w, "s"@, "set"@) {
            if args.len() != 3 {
                Command::Invalid(CommandError::Usage)
            } else {
                match spec_str_to_num(args[2]) {
                    None => Command::Invalid(CommandError::BadNumber),
                    Some(v) => match spec_target(args[1]) {
                        Ok(t) => Command::Assign(t, v),
                        Err(e) => Command::Invalid(e),
                    },
                }
            }
        } else if w == "push"@ {
            if args.len() != 2 {
                Command::Invalid(CommandError::Usage)
            } else {
                number_or(args[1], |v: usize| Command::Push(v))
            }
        } else if w == "pop"@ {
            Command::Pop
        } else if is_word(w, "b"@, "breakpoint"@) {
            if args.len() < 2 {
                Command::Invalid(CommandError::Usage)
            } else if is_word(args[1], "l"@, "list"@) {
                if args.len() != 2 {
                    Command::Invalid(CommandError::Usage)
                } else {
                    Command::BreakpointList
                }
            } else if is_word(args[1], "r"@, "remove"@) {
                if args.len() != 3 {
                    Command::Invalid(CommandError::Usage)
                } else {
                    number_or(args[2], |v: usize| Command::BreakpointRemove(v))
                }
            } else if args.len() != 2 {
                Command::Invalid(CommandError::Usage)
            } else {
                number_or(args[1], |v: usize| Command::BreakpointSet(v))
            }
        } else if is_word(w, "x"@, "examine"@) {
            if args.len() != 3 {
                Command::Invalid(CommandError::Usage)
            } else {
                match (spec_str_to_num(args[1]), spec_str_to_num(args[2])) {
                    (Some(count), Some(addr)) => Command::Examine(count, addr),
                    _ => Command::Invalid(CommandError::BadNumber),
                }
            }
        } else {
            Command::Invalid(CommandError::Unknown)
        }
    }
}

/// Whether every word fits the machine's string lengths.
pub open spec fn words_fit(args: Seq<String>) -> bool {
    forall|k: int| 0 <= k < args.len() ==> #[trigger] args[k]@.len() <= usize::MAX
}

/// The register named by a word such as `V3` or `va`.
fn register_name(w: &String) -> (r: Option<Register>)
    requires
        w@.len() <= usize::MAX,
    ensures
        r == spec_register_name(w@),
{
    let s = w.as_str();
    if s.unicode_len() != 2 {
        return None;
    }
    let c = s.get_char(0);
    let d = digit(s.get_char(1));
    if (c == 'v' || c == 'V') && d < 16 {
        Some(Register::from_index(d as u8))
    } else {
        None
    }
}

fn parse_target(w: &String) -> (r: Result<Target, CommandError>)
    requires
        w@.len() <= usize::MAX,
    ensures
        r == spec_target(w@),
{
    proof {
        reveal_strlit("i");
        reveal_strlit("index");
        reveal_strlit("pc");
        reveal_strlit("d");
        reveal_strlit("delay");
        reveal_strlit("s");
        reveal_strlit("sound");
    }
    let s = w.as_str();
    let n = s.unicode_len();
    if n > 0 && (s.get_char(0) == 'v' || s.get_char(0) == 'V') {
        if n != 2 {
            return Err(CommandError::Usage);
        }
        return match register_name(w) {
            Some(r) => Ok(Target::Register(r)),
            None => Err(CommandError::BadRegister),
        };
    }
    if word_is(w, "i", "index") {
        Ok(Target::Index)
    } else if same_text(s, "pc") {
        Ok(Target::Pc)
    } else if word_is(w, "d", "delay") {
        Ok(Target::Delay)
    } else if word_is(w, "s", "sound") {
        Ok(Target::Sound)
    } else {
        match str_to_num(s) {
            Some(a) => Ok(Target::Memory(a)),
            None => Err(CommandError::BadNumber),
        }
    }
}

/// Reads the command that a line split into words spells.
pub fn parse_command(args: &Vec<String>) -> (r: Command)
    requires
        words_fit(args@),
    ensures
        r == spec_parse_command(args@.map_values(|s: String| s@)),
{
    proof {
        reveal_strlit("h");
        reveal_strlit("help");
        reveal_strlit("c");
        reveal_strlit("continue");
        reveal_strlit("n");
        reveal_strlit("next");
        reveal_strlit("j");
        reveal_strlit("jump");
        reveal_strlit("p");
        reveal_strlit("print");
        reveal_strlit("s");
        reveal_strlit("set");
        reveal_strlit("push");
        reveal_strlit("pop");
        reveal_strlit("b");
        reveal_strlit("breakpoint");
        reveal_strlit("l");
        reveal_strlit("list");
        reveal_strlit("r");
        reveal_strlit("remove");
        reveal_strlit("x");
        reveal_strlit("examine");
    }
    let ghost ws = args@.map_values(|s: String| s@);
    let n = args.len();
    if n == 0 {
        return Command::Repeat;
    }
    let w = &args[0];
    assert(ws[0] == w@);
    if n > 1 {
        assert(ws[1] == args@[1]@);
    }
    if n > 2 {
        assert(ws[2] == args@[2]@);
    }
    assert(words_fit(args@) ==> args@[0]@.len() <= usize::MAX);
    if word_is(w, "h", "help") {
        if n > 1 {
            Command::Invalid(CommandError::UnexpectedArguments)
        } else {
            Command::Help
        }
    } else if word_is(w, "c", "continue") {
        if n > 1 {
            Command::Invalid(CommandError::UnexpectedArguments)
        } else {
            Command::Continue
        }
    } else if word_is(w, "n", "next") {
        if n > 1 {
            Command::Invalid(CommandError::UnexpectedArguments)
        } else {
            Command::Next
        }
    } else if word_is(w, "j", "jump") {
        if n != 2 {
            Command::Invalid(CommandError::Usage)
        } else {
            match str_to_num(args[1].as_str()) {
                Some(v) => Command::Jump(v),
                None => Command::Invalid(CommandError::BadNumber),
            }
        }
    } else if word_is(w, "p", "print") {
        if n != 2 {
            Command::Invalid(CommandError::Usage)
        } else {
            match parse_target(&args[1]) {
                Ok(t) => Command::Print(t),
                Err(e) => Command::Invalid(e),
            }
        }
    } else if word_is(w, "s", "set") {
        if n != 3 {
            Command::Invalid(CommandError::Usage)
        } else {
            match str_to_num(args[2].as_str()) {
                None => Command::Invalid(CommandError::BadNumber),
                Some(v) => match parse_target(&args[1]) {
                    Ok(t) => Command::Assign(t, v),
                    Err(e) => Command::Invalid(e),
                },
            }
        }
    } else if same_text(w.as_str(), "push") {
        if n != 2 {
            Command::Invalid(CommandError::Usage)
        } else {
            match str_to_num(args[1].as_str()) {
                Some(v) => Command::Push(v),
                None => Command::Invalid(CommandError::BadNumber),
            }
        }
    } else if same_text(w.as_str(), "pop") {
        Command::Pop
    } else if word_is(w, "b", "breakpoint") {
        if n < 2 {
            Command::Invalid(CommandError::Usage)
        } else if word_is(&args[1], "l", "list") {
            if n != 2 {
                Command::Invalid(CommandError::Usage)
            } else {
                Command::BreakpointList
            }
        } else if word_is(&args[1], "r", "remove") {
            if n != 3 {
                Command::Invalid(CommandError::Usage)
            } else {
                match str_to_num(args[2].as_str()) {
                    Some(v) => Command::BreakpointRemove(v),
                    None => Command::Invalid(CommandError::BadNumber),
                }
            }
        } else if n != 2 {
            Command::Invalid(CommandError::Usage)
        } else {
            match str_to_num(args[1].as_str()) {
                Some(v) => Command::BreakpointSet(v),
                None => Command::Invalid(CommandError::BadNumber),
            }
        }
    } else if word_is(w, "x", "examine") {
        if n != 3 {
            Command::Invalid(CommandError::Usage)
        } else {
            match (str_to_num(args[1].as_str()), str_to_num(args[2].as_str())) {
                (Some(count), Some(addr)) => Command::Examine(count, addr),
                _ => Command::Invalid(CommandError::BadNumber),
            }
        }
    } else {
        Command::Invalid(CommandError::Unknown)
    }
}

/// Why a well-formed command was not carried out.
#[derive(Debug, Clone, Copy, PartialEq, Eq, Structural)]
pub enum Refusal {
    /// An address needs more than 12 bits, or a value more bits than its target holds.
    TooWide,
    /// The call stack already holds 16 entries.
    StackFull,
    /// The call stack is empty.
    StackEmpty,
}

/// What the debugger answers to a command.
#[derive(Debug, Clone, PartialEq, Eq)]
pub enum Reply {
    Help,
    Continue,
    Next,
    Repeat,
    Invalid(CommandError),
    /// The value that `print` asked for.
    Value(usize),
    /// The machine changed; the panel should be redrawn.
    Changed,
    Popped(u16),
    BreakpointAdded,
    AlreadyBreakpoint,
    BreakpointRemoved,
    NotBreakpoint,
    /// All breakpoints in increasing order.
    Breakpoints(Vec<u16>),
    /// The bytes that `examine` asked for.
    Bytes(Vec<u8>),
    Refused(Refusal),
}

/// Whether `v` fits `bits` bits.
pub open spec fn fits_bits(v: usize, bits: nat) -> bool {
    (bits == 8 && v < 0x100) || (bits == 12 && v < 0x1000)
}

/// Whether an assignment is carried out: the target exists and the value fits it.
pub open spec fn assignable(t: Target, v: usize) -> bool {
    match t {
        Target::Register(_) => v < 0x100,
        Target::Index => v < 0x1000,
        Target::Pc => v < 0x1000,
        Target::Delay => v < 0x100,
        Target::Sound => v < 0x100,
        Target::Memory(a) => a < 0x1000 && v < 0x100,
    }
}

/// The machine after an assignment that is carried out.
pub open spec fn assigned(s: MachineState, t: Target, v: usize) -> MachineState {
    match t {
        Target::Register(r) => s.with_reg(r, v as u8),
        Target::Index => MachineState { i: v as u16, ..s },
        Target::Pc => s.with_pc(v as u16),
        Target::Delay => MachineState { delay_timer: v as u8, ..s },
        Target::Sound => MachineState { sound_timer: v as u8, ..s },
        Target::Memory(a) => MachineState { memory: s.memory.update(a as int, v as u8), ..s },
    }
}

/// The machine after a command.
pub open spec fn command_state(s: MachineState, cmd: Command) -> MachineState {
    match cmd {
        Command::Jump(a) => if a < 0x1000 {
            s.with_pc(a as u16)
        } else {
            s
        },
        Command::Assign(t, v) => if assignable(t, v) {
            assigned(s, t, v)
        } else {
            s
        },
        Command::Push(v) => if v < 0x1000 && s.stack.len() < 16 {
            MachineState { stack: s.stack.push(v as u16), ..s }
        } else {
            s
        },
        Command::Pop => if s.stack.len() > 0 {
            MachineState { stack: s.stack.drop_last(), ..s }
        } else {
            s
        },
        _ => s,
    }
}

/// The breakpoints after a command.
pub open spec fn command_breakpoints(b: Set<u16>, cmd: Command) -> Set<u16> {
    match cmd {
        Command::BreakpointSet(a) => if a < 0x1000 {
            b.insert(a as u16)
        } else {
            b
        },
        Command::BreakpointRemove(a) => if a < 0x1000 {
            b.remove(a as u16)
        } else {
            b
        },
        _ => b,
    }
}

/// The value that `print` shows for a target that exists.
pub open spec fn printed(s: MachineState, t: Target) -> usize {
    match t {
        Target::Register(r) => s.reg(r) as usize,
        Target::Index => s.i as usize,
        Target::Pc => s.pc as usize,
        Target::Delay => s.delay_timer as usize,
        Target::Sound => s.sound_timer as usize,
        Target::Memory(a) => s.memory[a as int] as usize,
    }
}

/// Whether `r` is the debugger's answer to `cmd` on machine `s` with breakpoints `b`.
pub open spec fn is_reply(s: MachineState, b: Set<u16>, cmd: Command, r: Reply) -> bool {
    match cmd {
        Command::Help => r == Reply::Help,
        Command::Continue => r == Reply::Continue,
        Command::Next => r == Reply::Next,
        Command::Repeat => r == Reply::Repeat,
        Command::Invalid(e) => r == Reply::Invalid(e),
        Command::Jump(a) => r == if a < 0x1000 {
            Reply::Changed
        } else {
            Reply::Refused(Refusal::TooWide)
        },
        Command::Print(t) => r == if t matches Target::Memory(a) && a >= 0x1000 {
            Reply::Refused(Refusal::TooWide)
        } else {
            Reply::Value(printed(s, t))
        },
        Command::Assign(t, v) => r == if assignable(t, v) {
            Reply::Changed
        } else {
            Reply::Refused(Refusal::TooWide)
        },
        Command::Push(v) => r == if v >= 0x1000 {
            Reply::Refused(Refusal::TooWide)
        } else if s.stack.len() >= 16 {
            Reply::Refused(Refusal::StackFull)
        } else {
            Reply::Changed
        },
        Command::Pop => r == if s.stack.len() == 0 {
            Reply::Refused(Refusal::StackEmpty)
        } else {
            Reply::Popped(s.stack.last())
        },
        Command::BreakpointSet(a) => r == if a >= 0x1000 {
            Reply::Refused(Refusal::TooWide)
        } else if b.contains(a as u16) {
            Reply::AlreadyBreakpoint
        } else {
            Reply::BreakpointAdded
        },
        Command::BreakpointRemove(a) => r == if a < 0x1000 && b.contains(a as u16) {
            Reply::BreakpointRemoved
        } else {
            Reply::NotBreakpoint
        },
        Command::BreakpointList => match r {
            Reply::Breakpoints(v) => (forall|x: u16| b.contains(x) <==> v@.contains(x)) && (forall|
                j: int,
                k: int,
            | 0 <= j < k < v@.len() ==> v@[j] < v@[k]),
            _ => false,
        },
        Command::Examine(count, addr) => if addr as int + count as int <= 0x1000 {
            match r {
                Reply::Bytes(v) => v@ == s.memory.subrange(addr as int, addr + count),
                _ => false,
            }
        } else {
            r == Reply::Refused(Refusal::TooWide)
        },
    }
}

/// Reads the bytes `memory[addr..addr + count]`.
fn examine(m: &Machine, count: usize, addr: usize) -> (r: Vec<u8>)
    requires
        m.wf(),
        addr + count <= 0x1000,
    ensures
        r@ == m@.memory.subrange(addr as int, addr + count),
{
    let mut r: Vec<u8> = Vec::new();
    let mut k: usize = 0;
    while k < count
        invariant
            m.wf(),
            addr + count <= 0x1000,
            k <= count,
            r@ == m@.memory.subrange(addr as int, addr + k),
        decreases count - k,
    {
        r.push(get_memory_u8(m, (addr + k) as u16));
        k = k + 1;
        assert(r@ =~= m@.memory.subrange(addr as int, addr + k));
    }
    r
}

/// Carries out a debugger command on the machine and the breakpoints.
pub fn apply_command(m: &mut Machine, breakpoints: &mut Breakpoints, cmd: Command) -> (r: Reply)
    requires
        old(m).wf(),
        old(breakpoints).wf(),
    ensures
        final(m).wf(),
        final(breakpoints).wf(),
        final(m)@ == command_state(old(m)@, cmd),
        final(breakpoints)@ == command_breakpoints(old(breakpoints)@, cmd),
        is_reply(old(m)@, old(breakpoints)@, cmd, r),
{
    match cmd {
        Command::Help => Reply::Help,
        Command::Continue => Reply::Continue,
        Command::Next => Reply::Next,
        Command::Repeat => Reply::Repeat,
        Command::Invalid(e) => Reply::Invalid(e),
        Command::Jump(a) => {
            if a < 0x1000 {
                set_pc(m, a as u16);
                Reply::Changed
            } else {
                Reply::Refused(Refusal::TooWide)
            }
        },
        Command::Print(t) => match t {
            Target::Register(reg) => Reply::Value(get_register(m, reg) as usize),
            Target::Index => Reply::Value(get_i(m) as usize),
            Target::Pc => Reply::Value(get_pc(m) as usize),
            Target::Delay => Reply::Value(get_delay_timer(m) as usize),
            Target::Sound => Reply::Value(get_sound_timer(m) as usize),
            Target::Memory(a) => if a < 0x1000 {
                Reply::Value(get_memory_u8(m, a as u16) as usize)
            } else {
                Reply::Refused(Refusal::TooWide)
            },
        },
        Command::Assign(t, v) => match t {
            Target::Register(reg) => if v < 0x100 {
                set_register(m, reg, v as u8);
                Reply::Changed
            } else {
                Reply::Refused(Refusal::TooWide)
            },
            Target::Index => if v < 0x1000 {
                set_i(m, v as u16);
                Reply::Changed
            } else {
                Reply::Refused(Refusal::TooWide)
            },
            Target::Pc => if v < 0x1000 {
                set_pc(m, v as u16);
                Reply::Changed
            } else {
                Reply::Refused(Refusal::TooWide)
            },
            Target::Delay => if v < 0x100 {
                set_delay_timer(m, v as u8);
                Reply::Changed
            } else {
                Reply::Refused(Refusal::TooWide)
            },
            Target::Sound => if v < 0x100 {
                set_sound_timer(m, v as u8);
                Reply::Changed
            } else {
                Reply::Refused(Refusal::TooWide)
            },
            Target::Memory(a) => if a < 0x1000 && v < 0x100 {
                set_memory_u8(m, a as u16, v as u8);
                Reply::Changed
            } else {
                Reply::Refused(Refusal::TooWide)
            },
        },
        Command::Push(v) => {
            if v >= 0x1000 {
                Reply::Refused(Refusal::TooWide)
            } else if m.stack.len() >= STACK_SIZE {
                Reply::Refused(Refusal::StackFull)
            } else {
                stack_push(m, v as u16);
                Reply::Changed
            }
        },
        Command::Pop => match stack_pop(m) {
            Some(v) => Reply::Popped(v),
            None => Reply::Refused(Refusal::StackEmpty),
        },
        Command::BreakpointSet(a) => {
            if a >= 0x1000 {
                Reply::Refused(Refusal::TooWide)
            } else if breakpoints.insert(a as u16) {
                Reply::BreakpointAdded
            } else {
                Reply::AlreadyBreakpoint
            }
        },
        Command::BreakpointRemove(a) => {
            if a < 0x1000 && breakpoints.remove(a as u16) {
                Reply::BreakpointRemoved
            } else {
                Reply::NotBreakpoint
            }
        },
        Command::BreakpointList => Reply::Breakpoints(breakpoints.list()),
        Command::Examine(count, addr) => {
            if addr <= 0x1000 && count <= 0x1000 - addr {
                Reply::Bytes(examine(m, count, addr))
            } else {
                Reply::Refused(Refusal::TooWide)
            }
        },
    }
}

/// Appends a command line to the history unless it repeats the newest entry.
pub fn record_history(history: &mut Vec<String>, line: String)
    ensures
        old(history)@.len() > 0 && old(history)@.last()@ == line@ ==> final(history)@ == old(
            history,
        )@,
        !(old(history)@.len() > 0 && old(history)@.last()@ == line@) ==> final(history)@ == old(
            history,
        )@.push(line),
{
    let n = history.len();
    if n > 0 && history[n - 1] == line {
        return;
    }
    history.push(line);
}

/// The history cursor after Up: one entry further back, but no further than the oldest.
pub fn history_up(cursor: usize, len: usize) -> (r: usize)
    ensures
        r == if cursor < len {
            cursor + 1
        } else {
            len as int
        },
{
    if cursor < len {
        cursor + 1
    } else {
        len
    }
}

/// The history cursor after Down: one entry nearer the present, stopping at zero.
pub fn history_down(cursor: usize, len: usize) -> (r: usize)
    ensures
        r == if cursor > len {
            len as int
        } else if cursor > 0 {
            cursor - 1
        } else {
            0
        },
{
    if cursor > len {
        len
    } else if cursor > 0 {
        cursor - 1
    } else {
        0
    }
}

/// The entry that a cursor shows: the `cursor`-th newest, or none at cursor 0 or past the
/// oldest.
pub fn history_entry(history: &Vec<String>, cursor: usize) -> (r: Option<String>)
    ensures
        1 <= cursor <= history@.len() ==> (r matches Some(s) && s@ == history@[history@.len()
            - cursor]@),
        !(1 <= cursor <= history@.len()) ==> r is None,
{
    if 1 <= cursor && cursor <= history.len() {
        Some(history[history.len() - cursor].clone())
    } else {
        None
    }
}

} // verus!
