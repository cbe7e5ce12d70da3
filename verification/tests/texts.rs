use asen::assembly::{
    render, write_signed, write_unsigned, Directive, Instruction, Operand, Operation, Register,
    Width,
};
use asen::text::{chars_of, decimal_string, digit_of, digit_text, parse_decimal, range_is};
use asen::typing::same_texts;

#[test]
fn decimal_numerals() {
    assert_eq!(decimal_string(0), "0");
    assert_eq!(decimal_string(7), "7");
    assert_eq!(decimal_string(10), "10");
    assert_eq!(decimal_string(1234567890), "1234567890");
    assert_eq!(decimal_string(u128::MAX), "340282366920938463463374607431768211455");
}

#[test]
fn decimal_values() {
    assert_eq!(parse_decimal("0"), Some(0));
    assert_eq!(parse_decimal("42"), Some(42));
    assert_eq!(parse_decimal("0042"), Some(42));
    assert_eq!(parse_decimal("9223372036854775807"), Some(i64::MAX));
    assert_eq!(parse_decimal("9223372036854775808"), None);
    assert_eq!(parse_decimal("92233720368547758070"), None);
    assert_eq!(parse_decimal(""), None);
    assert_eq!(parse_decimal("12a"), None);
    assert_eq!(parse_decimal("a12"), None);
    assert_eq!(parse_decimal("-5"), None);
    assert_eq!(parse_decimal("+5"), None);
    assert_eq!(parse_decimal("1 2"), None);
}

#[test]
fn writing_and_reading_a_number_round_trips() {
    for n in [0u64, 1, 9, 10, 99, 100, 12345, 4294967296, 9223372036854775807] {
        assert_eq!(parse_decimal(&decimal_string(n as u128)), Some(n as i64));
    }
}

#[test]
fn digits() {
    for d in 0..10u8 {
        let text = digit_text(d);
        assert_eq!(text, d.to_string());
        assert_eq!(digit_of(text.chars().next().unwrap()), Some(d));
    }
    assert_eq!(digit_of('a'), None);
    assert_eq!(digit_of('/'), None);
    assert_eq!(digit_of(':'), None);
}

#[test]
fn characters_and_ranges() {
    let chars = chars_of("o tawa \u{e9}");
    assert_eq!(chars, vec!['o', ' ', 't', 'a', 'w', 'a', ' ', '\u{e9}']);
    assert!(range_is(&chars, 2, 6, "tawa"));
    assert!(!range_is(&chars, 2, 6, "tawo"));
    assert!(!range_is(&chars, 2, 5, "tawa"));
    assert!(!range_is(&chars, 2, 6, "taw"));
    assert!(range_is(&chars, 3, 3, ""));
    assert!(range_is(&chars, 7, 8, "\u{e9}"));
    assert_eq!(chars_of(""), Vec::<char>::new());
}

#[test]
fn lists_of_texts_compare_by_content() {
    let a = vec!["nanpa".to_string(), "linja".to_string()];
    assert!(same_texts(&a, &a.clone()));
    assert!(!same_texts(&a, &vec!["nanpa".to_string()]));
    assert!(!same_texts(&a, &vec!["nanpa".to_string(), "nanpa".to_string()]));
    assert!(same_texts(&vec![], &vec![]));
}

#[test]
fn signed_and_unsigned_numbers() {
    let mut out = String::from("x");
    write_signed(&mut out, -8);
    write_signed(&mut out, 0);
    write_signed(&mut out, 60);
    write_signed(&mut out, i64::MIN);
    write_unsigned(&mut out, 17);
    assert_eq!(out, "x-8060-922337203685477580817");
}

#[test]
fn widths_and_registers() {
    assert_eq!(Width::from_size(1), Some(Width::Byte));
    assert_eq!(Width::from_size(2), Some(Width::Word));
    assert_eq!(Width::from_size(4), Some(Width::Dword));
    assert_eq!(Width::from_size(8), Some(Width::Qword));
    assert_eq!(Width::from_size(0), None);
    assert_eq!(Width::from_size(3), None);
    assert_eq!(Width::from_size(16), None);
    assert_eq!(Width::Byte.name(), "byte");
    assert_eq!(Width::Word.name(), "word");
    assert_eq!(Width::Dword.name(), "dword");
    assert_eq!(Width::Qword.name(), "qword");
    let expected = ["rdi", "rsi", "rdx", "rcx", "r8", "r9", "r9", "r9"];
    for (index, name) in expected.iter().enumerate() {
        assert_eq!(Register::for_argument(index).name(), *name);
    }
    assert_eq!(Register::Rax.name(), "rax");
    assert_eq!(Register::Rbp.name(), "rbp");
    assert_eq!(Register::Rsp.name(), "rsp");
    assert_eq!(Register::Ecx.name(), "ecx");
}

#[test]
fn every_instruction_has_its_lines() {
    let r = Operand::Register;
    let cases = vec![
        (Instruction::Plain(Operation::Format), "format ELF64\n"),
        (Instruction::Plain(Operation::PushImmediate(-3)), "    mov r8, -3\n    push r8\n"),
        (Instruction::Plain(Operation::Push(Width::Qword, r(Register::Rbp))), "    push qword rbp\n"),
        (
            Instruction::Plain(Operation::Push(Width::Dword, Operand::Frame(24))),
            "    push dword [rbp - 24]\n",
        ),
        (Instruction::Plain(Operation::Pop(Width::Word, Register::Rsi)), "    pop word rsi\n"),
        (
            Instruction::Plain(Operation::Move(Operand::Frame(-8), Width::Byte, r(Register::R9))),
            "    mov [rbp - -8], byte r9\n",
        ),
        (
            Instruction::Plain(Operation::Move(
                r(Register::Rax),
                Width::Qword,
                Operand::Immediate(60),
            )),
            "    mov rax, qword 60\n",
        ),
        (Instruction::Plain(Operation::Zero(Register::Rdx)), "    xor rdx, rdx\n"),
        (Instruction::Plain(Operation::Add), "    add r8, r9\n"),
        (Instruction::Plain(Operation::Subtract), "    sub r8, r9\n"),
        (Instruction::Plain(Operation::Multiply), "    mul r9\n"),
        (Instruction::Plain(Operation::Divide), "    div r9\n"),
        (Instruction::Plain(Operation::Compare), "    cmp r8, r9\n"),
        (Instruction::Plain(Operation::SetIfZero), "    setz cl\n"),
        (Instruction::Plain(Operation::CompareZero), "    cmp rax, 0\n"),
        (Instruction::Plain(Operation::JumpIfEqual(12)), "    je .endif_12\n"),
        (Instruction::Plain(Operation::EndIf(12)), "  .endif_12:\n"),
        (Instruction::Plain(Operation::Allocate(8)), "    sub rsp, 8\n"),
        (Instruction::Plain(Operation::Release(16)), "    add rsp, 16\n"),
        (Instruction::Plain(Operation::SetFrame), "    mov rbp, rsp\n"),
        (Instruction::Plain(Operation::RestoreFrame), "    pop rbp\n"),
        (Instruction::Plain(Operation::Return), "    ret\n"),
        (Instruction::Plain(Operation::Syscall), "    syscall\n"),
        (Instruction::Named(Directive::Public, "wawa".to_string()), "public wawa\n"),
        (Instruction::Named(Directive::Label, "wawa".to_string()), "wawa:\n"),
        (Instruction::Named(Directive::Extern, "sitelen".to_string()), "extrn sitelen\n"),
        (Instruction::Named(Directive::Call, "add".to_string()), "    call add\n"),
    ];
    let mut all = Vec::new();
    let mut expected = String::new();
    for (instruction, text) in cases {
        let mut out = String::new();
        instruction.write(&mut out);
        assert_eq!(out, text);
        expected.push_str(text);
        all.push(instruction);
    }
    assert_eq!(render(&all), expected);
    assert_eq!(render(&vec![]), "");
}
