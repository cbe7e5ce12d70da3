use asen::abstracter::tokenize;
use asen::assembly::{render, Directive, Instruction, Operand, Operation, Register, Width};
use asen::ast::{
    Expression, LinjaExpression, NanpaExpression, NimiExpression, Node, OSinStatement,
    UnaryExpression,
};
use asen::driver::{compile, generate};
use asen::error::{CompileError, SemanticError};
use asen::generator::{emit, emit_named, Generator};
use asen::lexer::lex;
use asen::parser::parse;
use asen::scope::Scope;

fn nodes(source: &str) -> Vec<Node> {
    parse(tokenize(lex(source).unwrap()).unwrap()).unwrap()
}

fn code(source: &str) -> Result<Vec<Instruction>, SemanticError> {
    generate(nodes(source), &mut Scope::new())
}

fn lines(text: &[&str]) -> String {
    let mut out = String::new();
    for line in text {
        out.push_str(line);
        out.push('\n');
    }
    out
}

fn plain(code: &[Operation]) -> Vec<Instruction> {
    code.iter().map(|op| Instruction::Plain(*op)).collect()
}

fn effect(instruction: &Instruction) -> i128 {
    let bytes = |w: &Width| match w {
        Width::Byte => 1,
        Width::Word => 2,
        Width::Dword => 4,
        Width::Qword => 8,
    };
    match instruction {
        Instruction::Plain(Operation::PushImmediate(_)) => 8,
        Instruction::Plain(Operation::Push(w, _)) => bytes(w),
        Instruction::Plain(Operation::Pop(w, _)) => -bytes(w),
        Instruction::Plain(Operation::Allocate(n)) => *n as i128,
        Instruction::Plain(Operation::Release(n)) => -(*n as i128),
        _ => 0,
    }
}

fn nimi(name: &str) -> NimiExpression {
    NimiExpression { value: name.to_string() }
}

#[test]
fn argument_registers_follow_the_calling_convention() {
    let expected = ["rdi", "rsi", "rdx", "rcx", "r8", "r9", "r9", "r9"];
    for (index, name) in expected.iter().enumerate() {
        assert_eq!(Generator::get_argument_register(index), *name);
    }
    assert_eq!(Generator::get_argument_register(usize::MAX), "r9");
}

#[test]
fn size_words() {
    assert_eq!(Generator::get_word_from_size(1), "byte");
    assert_eq!(Generator::get_word_from_size(2), "word");
    assert_eq!(Generator::get_word_from_size(4), "dword");
    assert_eq!(Generator::get_word_from_size(8), "qword");
}

#[test]
fn generator_steps_through_its_statements() {
    let mut generator = Generator::new(nodes("o weka. o tawa wan. o weka e tu."));
    assert!(matches!(generator.next(), Some(Node::Otawa(_))));
    assert!(matches!(generator.next(), Some(Node::OWeka(_))));
    assert!(generator.next().is_none());
    assert!(generator.next().is_none());
}

#[test]
fn primitive_helpers_emit_and_account() {
    let mut scope = Scope::new();
    let mut writer = Vec::new();
    assert_eq!(Generator::push(7, &mut scope, &mut writer), Ok(()));
    assert_eq!(scope.get_environment().stack_pointer(), 8);
    assert_eq!(
        Generator::push_reg(Operand::Register(Register::Rax), 4, &mut scope, &mut writer),
        Ok(())
    );
    assert_eq!(scope.get_environment().stack_pointer(), 12);
    assert_eq!(Generator::pop_reg(Register::Rdi, 2, &mut scope, &mut writer), Ok(()));
    assert_eq!(scope.get_environment().stack_pointer(), 10);
    assert_eq!(
        Generator::mov(
            Operand::Frame(8),
            1,
            Operand::Register(Register::R9),
            &mut writer
        ),
        Ok(())
    );
    Generator::zero(Register::Rdx, &mut writer);
    emit(&mut writer, Operation::Syscall);
    emit_named(&mut writer, Directive::Call, &"f".to_string());
    assert_eq!(scope.get_environment().stack_pointer(), 10);
    assert_eq!(
        render(&writer),
        lines(&[
            "    mov r8, 7",
            "    push r8",
            "    push dword rax",
            "    pop word rdi",
            "    mov [rbp - 8], byte r9",
            "    xor rdx, rdx",
            "    syscall",
            "    call f",
        ])
    );
}

#[test]
fn primitive_helpers_refuse_bad_sizes_and_imbalance() {
    let mut scope = Scope::new();
    let mut writer = Vec::new();
    let rax = Operand::Register(Register::Rax);
    assert_eq!(Generator::push_reg(rax, 3, &mut scope, &mut writer), Err(SemanticError::UnsupportedSize));
    assert_eq!(
        Generator::pop_reg(Register::Rax, 0, &mut scope, &mut writer),
        Err(SemanticError::UnsupportedSize)
    );
    assert_eq!(Generator::mov(rax, 16, rax, &mut writer), Err(SemanticError::UnsupportedSize));
    assert_eq!(
        Generator::pop_reg(Register::Rax, 8, &mut scope, &mut writer),
        Err(SemanticError::StackUnderflow)
    );
    scope.grow(usize::MAX - 7).unwrap();
    assert_eq!(Generator::push(1, &mut scope, &mut writer), Err(SemanticError::LimitExceeded));
    assert_eq!(Generator::push_reg(rax, 8, &mut scope, &mut writer), Err(SemanticError::LimitExceeded));
    assert_eq!(Generator::push_reg(rax, 4, &mut scope, &mut writer), Ok(()));
}

#[test]
fn every_operator_has_its_code() {
    let operands = ["    mov r8, 1", "    push r8", "    mov r8, 2", "    push r8", "    pop qword r9", "    pop qword r8"];
    let cases: Vec<(&str, Vec<&str>)> = vec![
        ("+", vec!["    add r8, r9", "    push qword r8"]),
        ("-", vec!["    sub r8, r9", "    push qword r8"]),
        ("*", vec!["    mov rax, qword r8", "    mul r9", "    push qword rax"]),
        (
            "/",
            vec!["    xor rdx, rdx", "    mov rax, qword r8", "    div r9", "    push qword rax"],
        ),
        (
            "=",
            vec!["    xor ecx, ecx", "    cmp r8, r9", "    setz cl", "    push qword rcx"],
        ),
    ];
    for (operator, tail) in cases {
        let mut expected = vec!["format ELF64", "    sub rsp, 8"];
        expected.extend(operands.iter());
        expected.extend(tail.iter());
        expected.extend(["    pop qword r9", "    mov [rbp - 0], qword r9"].iter());
        let source = format!("o sin e nanpa x  x li kama sama wan {operator} tu");
        assert_eq!(render(&code(&source).unwrap()), lines(&expected), "{}", operator);
    }
}

#[test]
fn less_and_greater_emit_no_operator() {
    for operator in ["<", ">"] {
        let source = format!("o sin e nanpa x  o tawa wan {operator} tu.");
        assert_eq!(
            render(&code(&source).unwrap()),
            lines(&[
                "format ELF64",
                "    sub rsp, 8",
                "    mov r8, 1",
                "    push r8",
                "    mov r8, 2",
                "    push r8",
                "    pop qword r9",
                "    pop qword r8",
                "    pop qword rdi",
                "    mov rax, qword 60",
                "    syscall",
            ])
        );
        // with nothing else on the stack of the scope, the missing result shows
        let source = format!("o tawa wan {operator} tu.");
        assert_eq!(code(&source), Err(SemanticError::StackUnderflow));
    }
}

#[test]
fn arguments_are_evaluated_last_first_into_their_registers() {
    let source = "pali f li kepeken nanpa a en nanpa b en nanpa c en nanpa d en nanpa e1 en nanpa f1 en nanpa g. o f e 1 e 2 e 3 e 4 e 5 e 6 e 7 a.";
    let text = render(&code(source).unwrap());
    let mut expected = vec!["format ELF64".to_string(), "extrn f".to_string()];
    let registers = ["rdi", "rsi", "rdx", "rcx", "r8", "r9", "r9"];
    for index in (0..7).rev() {
        expected.push(format!("    mov r8, {}", index + 1));
        expected.push("    push r8".to_string());
        expected.push(format!("    pop qword {}", registers[index]));
    }
    expected.push("    call f".to_string());
    let expected: Vec<&str> = expected.iter().map(String::as_str).collect();
    assert_eq!(text, lines(&expected));
}

#[test]
fn call_statement_drops_the_returned_value() {
    let source = "pali f li pana e nanpa. o f a.";
    assert_eq!(
        render(&code(source).unwrap()),
        lines(&["format ELF64", "extrn f", "    call f", "    push qword rax", "    pop qword rax"])
    );
}

#[test]
fn function_can_call_itself() {
    let source = "pali f li pana e nanpa li pali e ni: o weka e o f a. o pini.";
    assert_eq!(
        render(&code(source).unwrap()),
        lines(&[
            "format ELF64",
            "public f",
            "f:",
            "    push qword rbp",
            "    mov rbp, rsp",
            "    call f",
            "    push qword rax",
            "    pop qword rax",
            "    mov rsp, qword rbp",
            "    pop rbp",
            "    ret",
        ])
    );
}

#[test]
fn parameters_and_locals_lie_below_the_frame_pointer() {
    let source = "pali f li kepeken nanpa p en nanpa q li pali e ni: o sin e nanpa x  x li kama sama q  o weka e x. o pini.";
    assert_eq!(
        render(&code(source).unwrap()),
        lines(&[
            "format ELF64",
            "public f",
            "f:",
            "    push qword rbp",
            "    mov rbp, rsp",
            "    push qword rdi",
            "    push qword rsi",
            "    sub rsp, 8",
            "    push qword [rbp - 16]",
            "    pop qword r9",
            "    mov [rbp - 24], qword r9",
            "    push qword [rbp - 24]",
            "    pop qword rax",
            "    mov rsp, qword rbp",
            "    pop rbp",
            "    ret",
        ])
    );
}

#[test]
fn block_releases_its_locals() {
    let source = "( o sin e nanpa x o sin e nanpa y  y li kama sama wan )";
    assert_eq!(
        render(&code(source).unwrap()),
        lines(&[
            "format ELF64",
            "    sub rsp, 8",
            "    sub rsp, 8",
            "    mov r8, 1",
            "    push r8",
            "    pop qword r9",
            "    mov [rbp - 8], qword r9",
            "    add rsp, 16",
        ])
    );
}

#[test]
fn block_goes_on_after_a_return_and_a_body_does_not() {
    assert_eq!(
        render(&code("( o weka. o sin e nanpa x )").unwrap()),
        lines(&[
            "format ELF64",
            "    mov rsp, qword rbp",
            "    pop rbp",
            "    ret",
            "    sub rsp, 8",
            "    add rsp, 8",
        ])
    );
    assert_eq!(
        render(&code("tenpo pi wan la o weka. o sin e nanpa x o pini").unwrap()),
        lines(&[
            "format ELF64",
            "    mov r8, 1",
            "    push r8",
            "    pop qword rax",
            "    cmp rax, 0",
            "    je .endif_1",
            "    mov rsp, qword rbp",
            "    pop rbp",
            "    ret",
            "    add rsp, 0",
            "  .endif_1:",
        ])
    );
    // at the top level too, nothing follows the first return
    assert_eq!(
        render(&code("o tawa wan. o tawa tu.").unwrap()),
        lines(&[
            "format ELF64",
            "    mov r8, 1",
            "    push r8",
            "    pop qword rdi",
            "    mov rax, qword 60",
            "    syscall",
        ])
    );
}

#[test]
fn labels_are_never_repeated() {
    let source = "tenpo pi wan la tenpo pi tu la o pini tenpo pi luka la o pini o pini tenpo pi wan la o pini";
    let code = code(source).unwrap();
    let mut labels = Vec::new();
    let mut jumps = Vec::new();
    for instruction in &code {
        match instruction {
            Instruction::Plain(Operation::EndIf(n)) => labels.push(*n),
            Instruction::Plain(Operation::JumpIfEqual(n)) => jumps.push(*n),
            _ => {}
        }
    }
    assert_eq!(jumps, vec![1, 2, 3, 4]);
    assert_eq!(labels, vec![2, 3, 1, 4]);
}

#[test]
fn label_counter_goes_on_where_the_scope_left_it() {
    let mut scope = Scope::new();
    scope.next_label().unwrap();
    scope.next_label().unwrap();
    let code = generate(nodes("tenpo pi wan la o pini"), &mut scope).unwrap();
    assert!(code.contains(&Instruction::Plain(Operation::EndIf(3))));
    assert_eq!(scope.next_label(), Ok(4));
}

#[test]
fn compile_time_stack_pointer_matches_the_emitted_code() {
    let sources = [
        "o sin e nanpa x  x li kama sama wan + tu * luka",
        "o sin e nanpa x ( o sin e nanpa y  y li kama sama x )  x li kama sama wan",
        "o sin e nanpa x tenpo pi x = wan la o sin e nanpa y o pini o sin e nanpa z",
        "pali f li pana e nanpa. o sin e nanpa x  x li kama sama o f a  o f a",
    ];
    for source in sources {
        let mut scope = Scope::new();
        let code = generate(nodes(source), &mut scope).unwrap();
        let total: i128 = code.iter().map(effect).sum();
        assert_eq!(total, scope.get_environment().stack_pointer() as i128, "{}", source);
    }
}

#[test]
fn body_of_a_conditional_does_not_move_the_stack_on_balance() {
    let source = "pali f li pali e ni: o sin e nanpa x tenpo pi x = wan la o sin e nanpa y o sin e nanpa z  z li kama sama x + y o pini o weka. o pini";
    let code = code(source).unwrap();
    let jump = code.iter().position(|i| *i == Instruction::Plain(Operation::JumpIfEqual(1))).unwrap();
    let label = code.iter().position(|i| *i == Instruction::Plain(Operation::EndIf(1))).unwrap();
    assert!(jump < label);
    let between: i128 = code[jump + 1..label].iter().map(effect).sum();
    assert_eq!(between, 0);
    assert_eq!(code[label - 1], Instruction::Plain(Operation::Release(16)));
}

fn leave() -> Vec<Instruction> {
    plain(&[
        Operation::Move(
            Operand::Register(Register::Rsp),
            Width::Qword,
            Operand::Register(Register::Rbp),
        ),
        Operation::RestoreFrame,
        Operation::Return,
    ])
}

#[test]
fn every_function_ends_in_ret() {
    let sources = [
        "pali f li pali e ni: o pini",
        "pali f li pali e ni: o sin e nanpa x tenpo pi x la o weka. o pini o pini",
        "pali f li pali e ni: o tawa wan. o pini",
        "pali f li pana e nanpa li pali e ni: o tawa wan. o weka e tu. o pini",
        "pali f li pali e ni: ( o tawa wan. ) o pini",
    ];
    for source in sources {
        let code = code(source).unwrap();
        assert_eq!(code[code.len() - 3..].to_vec(), leave(), "{}", source);
    }
}

#[test]
fn function_body_is_emitted_whole() {
    assert_eq!(
        render(&code("pali f li pali e ni: o weka. o tawa wan. o pini").unwrap()),
        lines(&[
            "format ELF64",
            "public f",
            "f:",
            "    push qword rbp",
            "    mov rbp, rsp",
            "    mov rsp, qword rbp",
            "    pop rbp",
            "    ret",
            "    mov r8, 1",
            "    push r8",
            "    pop qword rdi",
            "    mov rax, qword 60",
            "    syscall",
            "    mov rsp, qword rbp",
            "    pop rbp",
            "    ret",
        ])
    );
}

#[test]
fn semantic_errors() {
    assert_eq!(code("o f a."), Err(SemanticError::UnknownFunction));
    assert_eq!(code("o tawa o f a."), Err(SemanticError::UnknownFunction));
    assert_eq!(code("pali f li kepeken nanpa x. o f a."), Err(SemanticError::ArgumentMismatch));
    assert_eq!(code("pali f. o f e wan a."), Err(SemanticError::ArgumentMismatch));
    assert_eq!(
        code("pali f li kepeken nanpa x. o f e \"hi\" a."),
        Err(SemanticError::ArgumentMismatch)
    );
    assert_eq!(code("pali f. o tawa o f a."), Err(SemanticError::NoReturnValue));
    assert_eq!(code("o sin e linja s"), Err(SemanticError::UnknownType));
    assert_eq!(code("o tawa \"hi\"."), Err(SemanticError::UnknownType));
    assert_eq!(code("pali f li pana e linja. o f a"), Err(SemanticError::UnknownType));
    assert_eq!(code("o tawa wan + \"hi\"."), Err(SemanticError::TypeMismatch));
    assert_eq!(code("o tawa \"hi\" * tu."), Err(SemanticError::TypeMismatch));
    assert_eq!(code("o sin e nanpa x o sin e nanpa x"), Err(SemanticError::DuplicateVariable));
    assert_eq!(code("o tawa x."), Err(SemanticError::UnknownVariable));
    assert_eq!(code("( o sin e nanpa x ) o tawa x."), Err(SemanticError::UnknownVariable));
    assert_eq!(code("o weka e x."), Err(SemanticError::UnknownVariable));
    assert_eq!(
        compile("tenpo pi x la o pini"),
        Err(CompileError::Semantic(SemanticError::UnknownVariable))
    );
}

#[test]
fn registered_types_decide_sizes() {
    let mut scope = Scope::new();
    scope.add_type(&"linja".to_string(), 4);
    let code = generate(nodes("o sin e linja s  s li kama sama s"), &mut scope).unwrap();
    assert_eq!(
        render(&code),
        lines(&[
            "format ELF64",
            "    sub rsp, 4",
            "    push dword [rbp - 0]",
            "    pop dword r9",
            "    mov [rbp - 0], dword r9",
        ])
    );
    let mut scope = Scope::new();
    scope.add_type(&"linja".to_string(), 3);
    assert_eq!(
        generate(nodes("o sin e linja s  s li kama sama s"), &mut scope),
        Err(SemanticError::UnsupportedSize)
    );
    // a string literal has the type but no code
    let mut scope = Scope::new();
    scope.add_type(&"linja".to_string(), 8);
    assert_eq!(generate(nodes("o tawa \"hi\"."), &mut scope), Err(SemanticError::StackUnderflow));
}

#[test]
fn expression_types() {
    let mut scope = Scope::new();
    scope.bind(&"x".to_string(), 8, &"nanpa".to_string());
    let number = Expression::Unary(UnaryExpression::Nanpa(NanpaExpression { value: 1 }));
    let literal =
        Expression::Unary(UnaryExpression::Linja(LinjaExpression { value: "hi".to_string() }));
    let variable = Expression::Unary(UnaryExpression::Nimi(nimi("x")));
    let unknown = Expression::Unary(UnaryExpression::Nimi(nimi("y")));
    assert_eq!(number.get_type(&scope), Ok("nanpa".to_string()));
    assert_eq!(literal.get_type(&scope), Ok("linja".to_string()));
    assert_eq!(variable.get_type(&scope), Ok("nanpa".to_string()));
    assert_eq!(unknown.get_type(&scope), Err(SemanticError::UnknownVariable));
    assert_eq!(number.get_size(&scope), Ok(8));
    assert_eq!(literal.get_size(&scope), Err(SemanticError::UnknownType));
    match &nodes("o tawa x + wan * x")[0] {
        Node::Otawa(statement) => {
            assert_eq!(statement.expr.get_type(&scope), Ok("nanpa".to_string()));
            match &statement.expr {
                Expression::Binary(binary) => {
                    assert_eq!(binary.get_type(&scope), Ok("nanpa".to_string()))
                }
                _ => unreachable!(),
            }
        }
        _ => unreachable!(),
    }
    match &nodes("o tawa x + \"hi\"")[0] {
        Node::Otawa(statement) => {
            assert_eq!(statement.expr.get_type(&scope), Err(SemanticError::TypeMismatch))
        }
        _ => unreachable!(),
    }
    let number = UnaryExpression::Nanpa(NanpaExpression { value: 1 });
    assert_eq!(number.get_type(&scope), Ok("nanpa".to_string()));
}

#[test]
fn single_statements_can_be_generated() {
    let mut scope = Scope::new();
    let mut writer = Vec::new();
    let declaration = OSinStatement { var_type: "nanpa".to_string(), name: nimi("x") };
    assert_eq!(Generator::generate_o_sin(&declaration, &mut scope, &mut writer), Ok(()));
    assert_eq!(
        Generator::generate_o_sin(&declaration, &mut scope, &mut writer),
        Err(SemanticError::DuplicateVariable)
    );
    assert_eq!(
        Generator::generate_nimi_new(&nimi("y"), &"nanpa".to_string(), &mut scope, &mut writer),
        Ok(())
    );
    assert_eq!(Generator::generate_nimi_expression(&nimi("y"), &mut scope, &mut writer), Ok(()));
    assert_eq!(Generator::generate_nimi_recieve_stack(&nimi("x"), &mut scope, &mut writer), Ok(()));
    assert_eq!(
        Generator::generate_nanpa_expression(&NanpaExpression { value: 9 }, &mut scope, &mut writer),
        Ok(())
    );
    assert_eq!(
        Generator::generate_parameter(&("nanpa".to_string(), nimi("p")), &mut scope, 2, &mut writer),
        Ok(())
    );
    assert_eq!(
        scope.add_variable(&"q".to_string(), &"nanpa".to_string(), Some(Register::Rax), &mut writer),
        Ok(())
    );
    Generator::new_scope(&mut scope);
    assert_eq!(scope.get_environment().stack_pointer(), 0);
    Generator::end_scope(&mut scope);
    assert_eq!(scope.get_environment().stack_pointer(), 40);
    Generator::new(vec![]).generate_prelude(&mut writer);
    assert_eq!(
        render(&writer),
        lines(&[
            "    sub rsp, 8",
            "    sub rsp, 8",
            "    push qword [rbp - 8]",
            "    pop qword r9",
            "    mov [rbp - 0], qword r9",
            "    mov r8, 9",
            "    push r8",
            "    push qword rdx",
            "    push qword rax",
            "format ELF64",
        ])
    );
    assert_eq!(scope.get_variable(&"p".to_string()).map(|v| v.1), Ok(24));
    assert_eq!(scope.get_variable(&"q".to_string()).map(|v| v.1), Ok(32));
}
