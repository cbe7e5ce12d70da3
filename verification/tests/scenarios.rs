use asen::driver::compile;
use asen::error::{
    CompileError, LexError, ParseError, PhraseError, SemanticError,
};
use asen::word::Keyword;

fn lines(text: &[&str]) -> String {
    let mut out = String::new();
    for line in text {
        out.push_str(line);
        out.push('\n');
    }
    out
}

#[test]
fn returns_six_from_the_program() {
    let text = compile("o tawa wan luka.").unwrap();
    assert_eq!(
        text,
        lines(&[
            "format ELF64",
            "    mov r8, 6",
            "    push r8",
            "    pop qword rdi",
            "    mov rax, qword 60",
            "    syscall",
        ])
    );
}

#[test]
fn declares_assigns_and_returns_a_variable() {
    let text = compile("o sin e nanpa x  x li kama sama tu tu  o tawa x.").unwrap();
    assert_eq!(
        text,
        lines(&[
            "format ELF64",
            "    sub rsp, 8",
            "    mov r8, 4",
            "    push r8",
            "    pop qword r9",
            "    mov [rbp - 0], qword r9",
            "    push qword [rbp - 0]",
            "    pop qword rdi",
            "    mov rax, qword 60",
            "    syscall",
        ])
    );
}

#[test]
fn multiplication_binds_tighter_than_addition() {
    let text = compile("o tawa wan + tu * luka.").unwrap();
    assert_eq!(
        text,
        lines(&[
            "format ELF64",
            "    mov r8, 1",
            "    push r8",
            "    mov r8, 2",
            "    push r8",
            "    mov r8, 5",
            "    push r8",
            "    pop qword r9",
            "    pop qword r8",
            "    mov rax, qword r8",
            "    mul r9",
            "    push qword rax",
            "    pop qword r9",
            "    pop qword r8",
            "    add r8, r9",
            "    push qword r8",
            "    pop qword rdi",
            "    mov rax, qword 60",
            "    syscall",
        ])
    );
}

#[test]
fn function_with_parameters_and_return_type() {
    let source = "pali add li pana e nanpa li kepeken nanpa a en nanpa b li pali e ni: o weka e a + b. o pini.  pali wawa li pali e ni: o tawa o add e tu e luka a. o pini.";
    let text = compile(source).unwrap();
    assert_eq!(
        text,
        lines(&[
            "format ELF64",
            "public add",
            "add:",
            "    push qword rbp",
            "    mov rbp, rsp",
            "    push qword rdi",
            "    push qword rsi",
            "    push qword [rbp - 8]",
            "    push qword [rbp - 16]",
            "    pop qword r9",
            "    pop qword r8",
            "    add r8, r9",
            "    push qword r8",
            "    pop qword rax",
            "    mov rsp, qword rbp",
            "    pop rbp",
            "    ret",
            "public wawa",
            "wawa:",
            "    push qword rbp",
            "    mov rbp, rsp",
            "    mov r8, 5",
            "    push r8",
            "    pop qword rsi",
            "    mov r8, 2",
            "    push r8",
            "    pop qword rdi",
            "    call add",
            "    push qword rax",
            "    pop qword rdi",
            "    mov rax, qword 60",
            "    syscall",
            "    mov rsp, qword rbp",
            "    pop rbp",
            "    ret",
        ])
    );
}

#[test]
fn conditional_skips_its_body_through_a_label() {
    let source = "pali wawa li pali e ni: o sin e nanpa x  x li kama sama tu + tu  tenpo pi x = luka la o tawa wan. o pini. o tawa tu. o pini.";
    let text = compile(source).unwrap();
    assert_eq!(
        text,
        lines(&[
            "format ELF64",
            "public wawa",
            "wawa:",
            "    push qword rbp",
            "    mov rbp, rsp",
            "    sub rsp, 8",
            "    mov r8, 2",
            "    push r8",
            "    mov r8, 2",
            "    push r8",
            "    pop qword r9",
            "    pop qword r8",
            "    add r8, r9",
            "    push qword r8",
            "    pop qword r9",
            "    mov [rbp - 8], qword r9",
            "    push qword [rbp - -8]",
            "    mov r8, 5",
            "    push r8",
            "    pop qword r9",
            "    pop qword r8",
            "    xor ecx, ecx",
            "    cmp r8, r9",
            "    setz cl",
            "    push qword rcx",
            "    pop qword rax",
            "    cmp rax, 0",
            "    je .endif_1",
            "    mov r8, 1",
            "    push r8",
            "    pop qword rdi",
            "    mov rax, qword 60",
            "    syscall",
            "    add rsp, 0",
            "  .endif_1:",
            "    mov r8, 2",
            "    push r8",
            "    pop qword rdi",
            "    mov rax, qword 60",
            "    syscall",
            "    mov rsp, qword rbp",
            "    pop rbp",
            "    ret",
        ])
    );
}

#[test]
fn external_function_is_declared_and_called() {
    let source = "pali sitelen li kepeken nanpa c a. pali wawa li pali e ni: o sitelen e luka a. o pini.";
    let text = compile(source).unwrap();
    assert_eq!(
        text,
        lines(&[
            "format ELF64",
            "extrn sitelen",
            "public wawa",
            "wawa:",
            "    push qword rbp",
            "    mov rbp, rsp",
            "    mov r8, 5",
            "    push r8",
            "    pop qword rdi",
            "    call sitelen",
            "    mov rsp, qword rbp",
            "    pop rbp",
            "    ret",
        ])
    );
}

#[test]
fn malformed_o_sin_is_a_phrase_error() {
    assert_eq!(
        compile("o sin nanpa x"),
        Err(CompileError::Phrase(PhraseError::MissingParticle {
            particle: Keyword::E,
            position: 2
        }))
    );
}

#[test]
fn call_without_closing_a_is_a_parse_error() {
    assert_eq!(
        compile("pali f. o f e wan."),
        Err(CompileError::Parse(ParseError::MissingA { position: 7 }))
    );
}

#[test]
fn adding_a_number_and_a_string_is_a_type_mismatch() {
    assert_eq!(
        compile("o tawa wan + \"hi\"."),
        Err(CompileError::Semantic(SemanticError::TypeMismatch))
    );
}

#[test]
fn declaring_a_variable_twice_in_one_scope_is_an_error() {
    assert_eq!(
        compile("o sin e nanpa x o sin e nanpa x"),
        Err(CompileError::Semantic(SemanticError::DuplicateVariable))
    );
}

#[test]
fn shadowing_in_an_inner_scope_is_allowed() {
    assert!(compile("o sin e nanpa x ( o sin e nanpa x )").is_ok());
}

#[test]
fn unknown_variable_is_an_error() {
    assert_eq!(
        compile("o tawa x."),
        Err(CompileError::Semantic(SemanticError::UnknownVariable))
    );
    assert_eq!(
        compile("x li kama sama wan"),
        Err(CompileError::Semantic(SemanticError::UnknownVariable))
    );
}

#[test]
fn unknown_character_is_a_lexical_error() {
    assert_eq!(
        compile("o tawa wan!"),
        Err(CompileError::Lexical(LexError { character: '!', position: 10 }))
    );
}

#[test]
fn compiling_twice_gives_the_same_text() {
    let source = "pali wawa li pali e ni: o sin e nanpa x  x li kama sama tu + tu  tenpo pi x = luka la o tawa wan. o pini. o tawa tu. o pini.";
    assert_eq!(compile(source), compile(source));
    assert_eq!(compile("o tawa #"), compile("o tawa #"));
}

#[test]
fn every_error_has_a_message() {
    let errors = vec![
        CompileError::Lexical(LexError { character: '#', position: 0 }),
        CompileError::Phrase(PhraseError::UnknownPhrase { position: 1 }),
        CompileError::Phrase(PhraseError::StrayWord { position: 1 }),
        CompileError::Parse(ParseError::UnexpectedToken { position: 0 }),
        CompileError::Parse(ParseError::MissingLa { position: 3 }),
        CompileError::Semantic(SemanticError::UnknownFunction),
        CompileError::Semantic(SemanticError::StackUnderflow),
    ];
    for error in errors {
        assert!(!error.message().is_empty());
    }
    assert_eq!(
        CompileError::Semantic(SemanticError::ArgumentMismatch).message(),
        "caller arguments do not match function parameters"
    );
}

#[test]
fn lines_and_tabs_do_not_change_the_program() {
    let flat = "pali wawa li pali e ni: o sin e nanpa x  x li kama sama tu  o tawa x. o pini.";
    let spread =
        "pali wawa li pali e ni:\n\to sin e nanpa x\n\tx li kama sama tu\n\to tawa x.\no pini.\n";
    assert!(compile(flat).is_ok());
    assert_eq!(compile(flat), compile(spread));
}

#[test]
fn empty_source_compiles_to_the_format_line() {
    assert_eq!(compile(""), Ok("format ELF64\n".to_string()));
    assert_eq!(compile(" \n\t\n. :"), Ok("format ELF64\n".to_string()));
}
