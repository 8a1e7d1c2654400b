use c8rs::compile::compile;
use c8rs::debugger::{
    apply_command, history_down, history_entry, history_up, parse_command, record_history,
    str_to_num, Breakpoints, Command, CommandError, Refusal, Reply, Target,
};
use c8rs::decode::decode;
use c8rs::disasm::{assemble, disassemble};
use c8rs::execute::Quirks;
use c8rs::instruction::Instruction;
use c8rs::lexer::{lex, LexError};
use c8rs::node::Expr;
use c8rs::parser::{parse, Expected};
use c8rs::register::Register;
use c8rs::render::{cell_kind, changed_registers, take_snapshot, Cell};
use c8rs::run::step;
use c8rs::system::{set_register, Machine};
use c8rs::token::{Keyword, Token, TokenInfo};

fn words(line: &str) -> Vec<String> {
    line.split_whitespace().map(String::from).collect()
}

fn machine() -> Machine {
    Machine::new(&vec![]).unwrap()
}

#[test]
fn every_decoded_word_encodes_back() {
    let mut decoded = 0u32;
    for w in 0..=0xFFFFu16 {
        if let Some(i) = decode(w) {
            assert_eq!(i.serialize(), w, "{:#06X}", w);
            decoded += 1;
        }
    }
    assert!(decoded > 40000);
}

#[test]
fn instructions_decode_from_their_encoding() {
    let all = [
        Instruction::Clear,
        Instruction::SubroutineReturn,
        Instruction::Jump(0xABC),
        Instruction::SubroutineCall(0x123),
        Instruction::SkipConditional1(Register::V3, 0x44),
        Instruction::SkipConditional2(Register::VE, 0x01),
        Instruction::SkipConditional3(Register::V1, Register::V2),
        Instruction::SetRegister(Register::VF, 0xFF),
        Instruction::Add(Register::V0, 0x80),
        Instruction::RegSet(Register::V4, Register::V5),
        Instruction::BinaryOr(Register::V4, Register::V5),
        Instruction::BinaryAnd(Register::V4, Register::V5),
        Instruction::BinaryXor(Register::V4, Register::V5),
        Instruction::RegAdd(Register::V4, Register::V5),
        Instruction::Subtract1(Register::V4, Register::V5),
        Instruction::ShiftRight(Register::V4, Register::V5),
        Instruction::Subtract2(Register::V4, Register::V5),
        Instruction::ShiftLeft(Register::V4, Register::V5),
        Instruction::SkipConditional4(Register::VA, Register::VB),
        Instruction::SetIndexRegister(0xFFF),
        Instruction::JumpOffset(0x000),
        Instruction::Random(Register::VC, 0x0F),
        Instruction::Draw(Register::V1, Register::V2, 0xF),
        Instruction::SkipIfKey(Register::V7),
        Instruction::SkipIfNotKey(Register::V8),
        Instruction::GetDelayTimer(Register::V9),
        Instruction::GetKey(Register::VA),
        Instruction::SetDelayTimer(Register::VB),
        Instruction::SetSoundTimer(Register::VC),
        Instruction::AddToIndex(Register::VD),
        Instruction::FontCharacter(Register::VE),
        Instruction::BCD(Register::VF),
        Instruction::StoreMemory(0xF),
        Instruction::LoadMemory(0x3),
    ];
    for i in all {
        assert_eq!(decode(i.serialize()), Some(i));
    }
    assert_eq!(Instruction::Draw(Register::V1, Register::V2, 0xF).serialize(), 0xD12F);
    assert_eq!(Instruction::ShiftLeft(Register::V4, Register::V5).serialize(), 0x845E);
    assert_eq!(Instruction::LoadMemory(3).serialize(), 0xF365);
    assert_eq!(Instruction::Db(0x1234).serialize(), 0x1234);
    assert_eq!(decode(0x0123), None);
    assert_eq!(decode(0x5121), None);
    assert_eq!(decode(0xE1FF), None);
}

#[test]
fn disassemble_then_assemble_gives_the_bytes() {
    let bytes: Vec<u8> = vec![0x00, 0xE0, 0x12, 0x0A, 0x00, 0x00, 0xFF, 0xFF, 0xA2, 0x2A];
    let ins = disassemble(&bytes);
    assert_eq!(ins.len(), 5);
    assert_eq!(ins[0], Instruction::Clear);
    assert_eq!(ins[2], Instruction::Db(0x0000));
    assert_eq!(ins[4], Instruction::SetIndexRegister(0x22A));
    assert_eq!(assemble(&ins), bytes);
    let odd = disassemble(&vec![0x60, 0x01, 0x7F]);
    assert_eq!(odd, vec![Instruction::SetRegister(Register::V0, 1), Instruction::Db(0x7F00)]);
}

#[test]
fn numbers_in_three_bases() {
    assert_eq!(str_to_num("123"), Some(123));
    assert_eq!(str_to_num("0x7B"), Some(0x7B));
    assert_eq!(str_to_num("0x7b"), Some(0x7B));
    assert_eq!(str_to_num("0b1111011"), Some(123));
    assert_eq!(str_to_num("0x"), None);
    assert_eq!(str_to_num(""), None);
    assert_eq!(str_to_num("12a"), None);
    assert_eq!(str_to_num("0b102"), None);
    assert_eq!(str_to_num("0xFFFFFFFFFFFFFFFFF"), None);
}

#[test]
fn commands_parse() {
    assert_eq!(parse_command(&words("")), Command::Repeat);
    assert_eq!(parse_command(&words("h")), Command::Help);
    assert_eq!(parse_command(&words("help me")), Command::Invalid(CommandError::UnexpectedArguments));
    assert_eq!(parse_command(&words("c")), Command::Continue);
    assert_eq!(parse_command(&words("next")), Command::Next);
    assert_eq!(parse_command(&words("j 0x300")), Command::Jump(0x300));
    assert_eq!(parse_command(&words("jump")), Command::Invalid(CommandError::Usage));
    assert_eq!(parse_command(&words("p VA")), Command::Print(Target::Register(Register::VA)));
    assert_eq!(parse_command(&words("p vz")), Command::Invalid(CommandError::BadRegister));
    assert_eq!(parse_command(&words("print pc")), Command::Print(Target::Pc));
    assert_eq!(parse_command(&words("p 0x10")), Command::Print(Target::Memory(0x10)));
    assert_eq!(parse_command(&words("s i 0x300")), Command::Assign(Target::Index, 0x300));
    assert_eq!(parse_command(&words("set d zz")), Command::Invalid(CommandError::BadNumber));
    assert_eq!(parse_command(&words("push 0x202")), Command::Push(0x202));
    assert_eq!(parse_command(&words("pop")), Command::Pop);
    assert_eq!(parse_command(&words("b 0x204")), Command::BreakpointSet(0x204));
    assert_eq!(parse_command(&words("b list")), Command::BreakpointList);
    assert_eq!(parse_command(&words("b r 0x204")), Command::BreakpointRemove(0x204));
    assert_eq!(parse_command(&words("x 8 0x200")), Command::Examine(8, 0x200));
    assert_eq!(parse_command(&words("frobnicate")), Command::Invalid(CommandError::Unknown));
}

#[test]
fn commands_change_the_machine() {
    let mut m = machine();
    let mut b = Breakpoints::new();
    assert_eq!(apply_command(&mut m, &mut b, Command::Jump(0x300)), Reply::Changed);
    assert_eq!(m.pc, 0x300);
    assert_eq!(apply_command(&mut m, &mut b, Command::Jump(0x1000)), Reply::Refused(Refusal::TooWide));
    assert_eq!(m.pc, 0x300);
    assert_eq!(
        apply_command(&mut m, &mut b, Command::Assign(Target::Register(Register::V2), 0x42)),
        Reply::Changed
    );
    assert_eq!(apply_command(&mut m, &mut b, Command::Print(Target::Register(Register::V2))), Reply::Value(0x42));
    assert_eq!(
        apply_command(&mut m, &mut b, Command::Assign(Target::Delay, 0x100)),
        Reply::Refused(Refusal::TooWide)
    );
    assert_eq!(apply_command(&mut m, &mut b, Command::Assign(Target::Memory(0x400), 7)), Reply::Changed);
    assert_eq!(apply_command(&mut m, &mut b, Command::Print(Target::Memory(0x400))), Reply::Value(7));
    assert_eq!(apply_command(&mut m, &mut b, Command::Pop), Reply::Refused(Refusal::StackEmpty));
    assert_eq!(apply_command(&mut m, &mut b, Command::Push(0x202)), Reply::Changed);
    assert_eq!(apply_command(&mut m, &mut b, Command::Pop), Reply::Popped(0x202));
    assert_eq!(
        apply_command(&mut m, &mut b, Command::Examine(3, 0x3FF)),
        Reply::Bytes(vec![0, 7, 0])
    );
    assert_eq!(
        apply_command(&mut m, &mut b, Command::Examine(2, 0xFFF)),
        Reply::Refused(Refusal::TooWide)
    );
}

#[test]
fn breakpoints_are_a_set() {
    let mut m = machine();
    let mut b = Breakpoints::new();
    assert_eq!(apply_command(&mut m, &mut b, Command::BreakpointSet(0x300)), Reply::BreakpointAdded);
    assert_eq!(apply_command(&mut m, &mut b, Command::BreakpointSet(0x204)), Reply::BreakpointAdded);
    assert_eq!(apply_command(&mut m, &mut b, Command::BreakpointSet(0x204)), Reply::AlreadyBreakpoint);
    assert_eq!(apply_command(&mut m, &mut b, Command::BreakpointList), Reply::Breakpoints(vec![0x204, 0x300]));
    assert_eq!(apply_command(&mut m, &mut b, Command::BreakpointRemove(0x300)), Reply::BreakpointRemoved);
    assert_eq!(apply_command(&mut m, &mut b, Command::BreakpointRemove(0x300)), Reply::NotBreakpoint);
    assert_eq!(
        apply_command(&mut m, &mut b, Command::BreakpointSet(0x1000)),
        Reply::Refused(Refusal::TooWide)
    );
    assert!(b.contains(0x204) && !b.contains(0x300));
}

#[test]
fn breakpoint_stops_before_the_instruction() {
    let rom = vec![0x60, 0x01, 0x61, 0x02, 0x62, 0x03, 0x12, 0x06];
    let mut m = Machine::new(&rom).unwrap();
    let mut b = Breakpoints::new();
    apply_command(&mut m, &mut b, parse_command(&words("b 0x204")));
    let mut stopped_at = None;
    for n in 0..10u64 {
        if b.contains(m.pc) {
            stopped_at = Some(m.pc);
            break;
        }
        step(&mut m, &vec![], &vec![], n, 0, Quirks::default()).unwrap();
    }
    assert_eq!(stopped_at, Some(0x204));
    assert_eq!(m.registers[1], 2);
    assert_eq!(m.registers[2], 0);
}

#[test]
fn history_skips_repeats_and_scrolls() {
    let mut h: Vec<String> = Vec::new();
    record_history(&mut h, "n".to_string());
    record_history(&mut h, "n".to_string());
    record_history(&mut h, "p pc".to_string());
    assert_eq!(h, vec!["n".to_string(), "p pc".to_string()]);
    let c = history_up(0, h.len());
    assert_eq!(history_entry(&h, c), Some("p pc".to_string()));
    let c = history_up(c, h.len());
    let c = history_up(c, h.len());
    assert_eq!(c, 2);
    assert_eq!(history_entry(&h, c), Some("n".to_string()));
    let c = history_down(history_down(c, h.len()), h.len());
    assert_eq!(c, 0);
    assert_eq!(history_entry(&h, c), None);
}

#[test]
fn panel_cells_and_register_changes() {
    assert_eq!(cell_kind(true, true), Cell::Lit);
    assert_eq!(cell_kind(true, false), Cell::NewlyLit);
    assert_eq!(cell_kind(false, true), Cell::NewlyDark);
    assert_eq!(cell_kind(false, false), Cell::Blank);
    let mut m = machine();
    let snap = take_snapshot(&m);
    set_register(&mut m, Register::V3, 9);
    let changed = changed_registers(&snap, &m);
    assert_eq!(changed.iter().filter(|c| **c).count(), 1);
    assert!(changed[3]);
}

#[test]
fn lexes_a_program() {
    let tokens = lex("int main() {\n    return 2;\n}").unwrap();
    let expected = vec![
        TokenInfo::new(Token::Keyword(Keyword::Int), 0),
        TokenInfo::new(Token::Identifier("main".to_string()), 0),
        TokenInfo::new(Token::OpenParenthesis, 0),
        TokenInfo::new(Token::CloseParenthesis, 0),
        TokenInfo::new(Token::OpenBrace, 0),
        TokenInfo::new(Token::Keyword(Keyword::Return), 1),
        TokenInfo::new(Token::IntegerLiteral(2), 1),
        TokenInfo::new(Token::Semicolon, 1),
        TokenInfo::new(Token::CloseBrace, 2),
    ];
    assert_eq!(tokens, expected);
}

#[test]
fn lexer_character_classes() {
    let tokens = lex("x_1 42~!\u{00A0}returned").unwrap();
    assert_eq!(tokens[0].token, Token::Identifier("x_1".to_string()));
    assert_eq!(tokens[1].token, Token::IntegerLiteral(42));
    assert_eq!(tokens[2].token, Token::BitwiseNot);
    assert_eq!(tokens[3].token, Token::LogicalNot);
    assert_eq!(tokens[4].token, Token::Identifier("returned".to_string()));
    assert_eq!(tokens.len(), 5);
    assert_eq!(lex("\u{0663}"), Err(LexError { line: 0 }));
    assert_eq!(lex("\n\n99999999999999999999999"), Err(LexError { line: 2 }));
    assert_eq!(lex("  \t\n "), Ok(vec![]));
}

#[test]
fn parses_and_compiles() {
    let program = parse(lex("int main() { return 7; }").unwrap()).unwrap();
    assert_eq!(program.func.id, "main");
    assert_eq!(program.func.statement.expr.value, Expr::Constant(7));
    let code = compile(&program);
    assert_eq!(
        code,
        vec![
            Instruction::SetRegister(Register::V0, 7),
            Instruction::FontCharacter(Register::V0),
            Instruction::SetRegister(Register::V0, 0),
            Instruction::SetRegister(Register::V1, 0),
            Instruction::Draw(Register::V0, Register::V1, 0xF),
            Instruction::Jump(0x20A),
        ]
    );
}

#[test]
fn parse_errors_name_the_place() {
    let e = parse(lex("int main( { return 7; }").unwrap()).unwrap_err();
    assert_eq!(e.index, 3);
    assert_eq!(e.expected, Expected::CloseParenthesis);
    let e = parse(lex("int main() {\n return x; }").unwrap()).unwrap_err();
    assert_eq!(e.expected, Expected::Expression);
    assert_eq!(e.line, 1);
    let e = parse(lex("int main()").unwrap()).unwrap_err();
    assert_eq!(e.index, 4);
    assert_eq!(e.expected, Expected::OpenBrace);
    let e = parse(vec![]).unwrap_err();
    assert_eq!((e.index, e.line, e.expected), (0, 0, Expected::Int));
}
