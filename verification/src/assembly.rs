//! The assembly that the generator emits: a small set of x86-64
//! instructions and FASM directives, and their text.

use vstd::prelude::*;
use vstd::string::*;
use crate::text::{decimal, decimal_string};

verus! {

/// The registers that the emitted code names.
#[derive(Clone, Copy, Debug, PartialEq, Eq, Structural)]
pub enum Register {
    Rax,
    Rcx,
    Rdx,
    Rdi,
    Rsi,
    Rbp,
    Rsp,
    R8,
    R9,
    Ecx,
}

/// The operand sizes that have a size word.
#[derive(Clone, Copy, Debug, PartialEq, Eq, Structural)]
pub enum Width {
    Byte,
    Word,
    Dword,
    Qword,
}

/// What an instruction reads or writes.
#[derive(Clone, Copy, Debug, PartialEq, Eq, Structural)]
pub enum Operand {
    Register(Register),
    /// The memory at `[rbp - k]`.
    Frame(i64),
    Immediate(i64),
}

/// An instruction or directive that carries no name.
#[derive(Clone, Copy, Debug, PartialEq, Eq, Structural)]
pub enum Operation {
    /// `format ELF64`
    Format,
    /// `mov r8, i` and `push r8`
    PushImmediate(i64),
    /// `push <size> <operand>`
    Push(Width, Operand),
    /// `pop <size> <register>`
    Pop(Width, Register),
    /// `mov <to>, <size> <from>`
    Move(Operand, Width, Operand),
    /// `xor <register>, <register>`
    Zero(Register),
    /// `add r8, r9`
    Add,
    /// `sub r8, r9`
    Subtract,
    /// `mul r9`
    Multiply,
    /// `div r9`
    Divide,
    /// `cmp r8, r9`
    Compare,
    /// `setz cl`
    SetIfZero,
    /// `cmp rax, 0`
    CompareZero,
    /// `je .endif_<n>`
    JumpIfEqual(usize),
    /// `.endif_<n>:`
    EndIf(usize),
    /// `sub rsp, <n>`
    Allocate(usize),
    /// `add rsp, <n>`
    Release(usize),
    /// `mov rbp, rsp`
    SetFrame,
    /// `pop rbp`
    RestoreFrame,
    /// `ret`
    Return,
    /// `syscall`
    Syscall,
}

/// The instructions and directives that carry a name.
#[derive(Clone, Copy, Debug, PartialEq, Eq, Structural)]
pub enum Directive {
    /// `public <name>`
    Public,
    /// `<name>:`
    Label,
    /// `extrn <name>`
    Extern,
    /// `call <name>`
    Call,
}

/// One line, or one fixed pair of lines, of assembly.
#[derive(Clone, Debug, PartialEq, Eq)]
pub enum Instruction {
    Named(Directive, String),
    Plain(Operation),
}

/// The mathematical value of an [`Instruction`].
pub enum InstructionView {
    Named(Directive, Seq<char>),
    Plain(Operation),
}

impl View for Instruction {
    type V = InstructionView;

    open spec fn view(&self) -> InstructionView {
        match self {
            Instruction::Named(d, name) => InstructionView::Named(*d, name@),
            Instruction::Plain(op) => InstructionView::Plain(*op),
        }
    }
}

/// The views of a vector of instructions, in order.
pub open spec fn code_view(code: Seq<Instruction>) -> Seq<InstructionView> {
    Seq::new(code.len(), |i: int| code[i]@)
}

impl Width {
    /// The number of bytes of an operand of this size.
    pub open spec fn bytes(self) -> nat {
        match self {
            Width::Byte => 1,
            Width::Word => 2,
            Width::Dword => 4,
            Width::Qword => 8,
        }
    }

    /// The size that a number of bytes names, if it is 1, 2, 4 or 8.
    pub open spec fn of(size: nat) -> Option<Width> {
        if size == 1 {
            Some(Width::Byte)
        } else if size == 2 {
            Some(Width::Word)
        } else if size == 4 {
            Some(Width::Dword)
        } else if size == 8 {
            Some(Width::Qword)
        } else {
            None
        }
    }

    /// The size word.
    pub open spec fn text(self) -> Seq<char> {
        match self {
            Width::Byte => "byte"@,
            Width::Word => "word"@,
            Width::Dword => "dword"@,
            Width::Qword => "qword"@,
        }
    }

    /// Finds the size for a number of bytes.
    pub fn from_size(size: usize) -> (r: Option<Width>)
        ensures
            r == Width::of(size as nat),
            r matches Some(w) ==> w.bytes() == size,
    {
        if size == 1 {
            Some(Width::Byte)
        } else if size == 2 {
            Some(Width::Word)
        } else if size == 4 {
            Some(Width::Dword)
        } else if size == 8 {
            Some(Width::Qword)
        } else {
            None
        }
    }

    /// The size word, as text.
    pub fn name(&self) -> (r: &'static str)
        ensures
            r@ == self.text(),
    {
        match self {
            Width::Byte => "byte",
            Width::Word => "word",
            Width::Dword => "dword",
            Width::Qword => "qword",
        }
    }
}

impl Register {
    /// The name of the register.
    pub open spec fn text(self) -> Seq<char> {
        match self {
            Register::Rax => "rax"@,
            Register::Rcx => "rcx"@,
            Register::Rdx => "rdx"@,
            Register::Rdi => "rdi"@,
            Register::Rsi => "rsi"@,
            Register::Rbp => "rbp"@,
            Register::Rsp => "rsp"@,
            Register::R8 => "r8"@,
            Register::R9 => "r9"@,
            Register::Ecx => "ecx"@,
        }
    }

    /// The register that carries the argument at index `arg` of a call:
    /// `rdi`, `rsi`, `rdx`, `rcx`, `r8`, `r9` for the first six, and `r9`
    /// again for every further one.
    pub open spec fn argument(arg: nat) -> Register {
        if arg == 0 {
            Register::Rdi
        } else if arg == 1 {
            Register::Rsi
        } else if arg == 2 {
            Register::Rdx
        } else if arg == 3 {
            Register::Rcx
        } else if arg == 4 {
            Register::R8
        } else {
            Register::R9
        }
    }

    /// Finds the register for the argument at index `arg`.
    pub fn for_argument(arg: usize) -> (r: Register)
        ensures
            r == Register::argument(arg as nat),
    {
        if arg == 0 {
            Register::Rdi
        } else if arg == 1 {
            Register::Rsi
        } else if arg == 2 {
            Register::Rdx
        } else if arg == 3 {
            Register::Rcx
        } else if arg == 4 {
            Register::R8
        } else {
            Register::R9
        }
    }

    /// The name of the register, as text.
    pub fn name(&self) -> (r: &'static str)
        ensures
            r@ == self.text(),
    {
        match self {
            Register::Rax => "rax",
            Register::Rcx => "rcx",
            Register::Rdx => "rdx",
            Register::Rdi => "rdi",
            Register::Rsi => "rsi",
            Register::Rbp => "rbp",
            Register::Rsp => "rsp",
            Register::R8 => "r8",
            Register::R9 => "r9",
            Register::Ecx => "ecx",
        }
    }
}

/// An integer in decimal, with a minus sign in front if it is negative.
pub open spec fn signed_decimal(i: int) -> Seq<char> {
    if i < 0 {
        "-"@ + decimal((-i) as nat)
    } else {
        decimal(i as nat)
    }
}

/// Appends an integer in decimal.
pub fn write_signed(out: &mut String, i: i64)
    ensures
        final(out)@ == old(out)@ + signed_decimal(i as int),
{
    if i < 0 {
        out.append("-");
        let magnitude: u128 = (-(i as i128)) as u128;
        out.append(decimal_string(magnitude).as_str());
    } else {
        out.append(decimal_string(i as u128).as_str());
    }
}

/// Appends a natural number in decimal.
pub fn write_unsigned(out: &mut String, n: usize)
    ensures
        final(out)@ == old(out)@ + decimal(n as nat),
{
    out.append(decimal_string(n as u128).as_str());
}

impl Operand {
    /// The operand as it is written.
    pub open spec fn text(self) -> Seq<char> {
        match self {
            Operand::Register(r) => r.text(),
            Operand::Frame(k) => "[rbp - "@ + signed_decimal(k as int) + "]"@,
            Operand::Immediate(i) => signed_decimal(i as int),
        }
    }

    /// Appends the operand.
    pub fn write(&self, out: &mut String)
        ensures
            final(out)@ == old(out)@ + self.text(),
    {
        match self {
            Operand::Register(r) => {
                out.append(r.name());
            },
            Operand::Frame(k) => {
                out.append("[rbp - ");
                write_signed(out, *k);
                out.append("]");
            },
            Operand::Immediate(i) => {
                write_signed(out, *i);
            },
        }
    }
}

impl Operation {
    /// The number of bytes by which the operation lowers the stack
    /// pointer: positive for a push or an allocation, negative for a pop or
    /// a release, zero for everything else.
    pub open spec fn stack_effect(self) -> int {
        match self {
            Operation::PushImmediate(_) => 8,
            Operation::Push(w, _) => w.bytes() as int,
            Operation::Pop(w, _) => -(w.bytes() as int),
            Operation::Allocate(n) => n as int,
            Operation::Release(n) => -(n as int),
            _ => 0,
        }
    }

    /// The lines of the operation.
    pub open spec fn text(self) -> Seq<char> {
        match self {
            Operation::Format => "format ELF64\n"@,
            Operation::PushImmediate(i) => "    mov r8, "@ + signed_decimal(i as int)
                + "\n    push r8\n"@,
            Operation::Push(w, o) => "    push "@ + w.text() + " "@ + o.text() + "\n"@,
            Operation::Pop(w, r) => "    pop "@ + w.text() + " "@ + r.text() + "\n"@,
            Operation::Move(to, w, from) => "    mov "@ + to.text() + ", "@ + w.text() + " "@
                + from.text() + "\n"@,
            Operation::Zero(r) => "    xor "@ + r.text() + ", "@ + r.text() + "\n"@,
            Operation::Add => "    add r8, r9\n"@,
            Operation::Subtract => "    sub r8, r9\n"@,
            Operation::Multiply => "    mul r9\n"@,
            Operation::Divide => "    div r9\n"@,
            Operation::Compare => "    cmp r8, r9\n"@,
            Operation::SetIfZero => "    setz cl\n"@,
            Operation::CompareZero => "    cmp rax, 0\n"@,
            Operation::JumpIfEqual(n) => "    je .endif_"@ + decimal(n as nat) + "\n"@,
            Operation::EndIf(n) => "  .endif_"@ + decimal(n as nat) + ":\n"@,
            Operation::Allocate(n) => "    sub rsp, "@ + decimal(n as nat) + "\n"@,
            Operation::Release(n) => "    add rsp, "@ + decimal(n as nat) + "\n"@,
            Operation::SetFrame => "    mov rbp, rsp\n"@,
            Operation::RestoreFrame => "    pop rbp\n"@,
            Operation::Return => "    ret\n"@,
            Operation::Syscall => "    syscall\n"@,
        }
    }

    /// Appends the lines of the operation.
    pub fn write(&self, out: &mut String)
        ensures
            final(out)@ == old(out)@ + self.text(),
    {
        match self {
            Operation::Format => {
                out.append("format ELF64\n");
            },
            Operation::PushImmediate(i) => {
                out.append("    mov r8, ");
                write_signed(out, *i);
                out.append("\n    push r8\n");
            },
            Operation::Push(w, o) => {
                out.append("    push ");
                out.append(w.name());
                out.append(" ");
                o.write(out);
                out.append("\n");
            },
            Operation::Pop(w, r) => {
                out.append("    pop ");
                out.append(w.name());
                out.append(" ");
                out.append(r.name());
                out.append("\n");
            },
            Operation::Move(to, w, from) => {
                out.append("    mov ");
                to.write(out);
                out.append(", ");
                out.append(w.name());
                out.append(" ");
                from.write(out);
                out.append("\n");
            },
            Operation::Zero(r) => {
                out.append("    xor ");
                out.append(r.name());
                out.append(", ");
                out.append(r.name());
                out.append("\n");
            },
            Operation::Add => {
                out.append("    add r8, r9\n");
            },
            Operation::Subtract => {
                out.append("    sub r8, r9\n");
            },
            Operation::Multiply => {
                out.append("    mul r9\n");
            },
            Operation::Divide => {
                out.append("    div r9\n");
            },
            Operation::Compare => {
                out.append("    cmp r8, r9\n");
            },
            Operation::SetIfZero => {
                out.append("    setz cl\n");
            },
            Operation::CompareZero => {
                out.append("    cmp rax, 0\n");
            },
            Operation::JumpIfEqual(n) => {
                out.append("    je .endif_");
                write_unsigned(out, *n);
                out.append("\n");
            },
            Operation::EndIf(n) => {
                out.append("  .endif_");
                write_unsigned(out, *n);
                out.append(":\n");
            },
            Operation::Allocate(n) => {
                out.append("    sub rsp, ");
                write_unsigned(out, *n);
                out.append("\n");
            },
            Operation::Release(n) => {
                out.append("    add rsp, ");
                write_unsigned(out, *n);
                out.append("\n");
            },
            Operation::SetFrame => {
                out.append("    mov rbp, rsp\n");
            },
            Operation::RestoreFrame => {
                out.append("    pop rbp\n");
            },
            Operation::Return => {
                out.append("    ret\n");
            },
            Operation::Syscall => {
                out.append("    syscall\n");
            },
        }
    }
}

impl InstructionView {
    /// The number of bytes by which the instruction lowers the stack
    /// pointer.
    pub open spec fn stack_effect(self) -> int {
        match self {
            InstructionView::Named(_, _) => 0,
            InstructionView::Plain(op) => op.stack_effect(),
        }
    }

    /// The lines of the instruction.
    pub open spec fn text(self) -> Seq<char> {
        match self {
            InstructionView::Named(Directive::Public, name) => "public "@ + name + "\n"@,
            InstructionView::Named(Directive::Label, name) => name + ":\n"@,
            InstructionView::Named(Directive::Extern, name) => "extrn "@ + name + "\n"@,
            InstructionView::Named(Directive::Call, name) => "    call "@ + name + "\n"@,
            InstructionView::Plain(op) => op.text(),
        }
    }
}

impl Instruction {
    /// Appends the lines of the instruction.
    pub fn write(&self, out: &mut String)
        ensures
            final(out)@ == old(out)@ + self@.text(),
    {
        match self {
            Instruction::Named(Directive::Public, name) => {
                out.append("public ");
                out.append(name.as_str());
                out.append("\n");
            },
            Instruction::Named(Directive::Label, name) => {
                out.append(name.as_str());
                out.append(":\n");
            },
            Instruction::Named(Directive::Extern, name) => {
                out.append("extrn ");
                out.append(name.as_str());
                out.append("\n");
            },
            Instruction::Named(Directive::Call, name) => {
                out.append("    call ");
                out.append(name.as_str());
                out.append("\n");
            },
            Instruction::Plain(op) => {
                op.write(out);
            },
        }
    }
}

/// The text of a sequence of instructions: their lines, one after another.
pub open spec fn program_text(code: Seq<InstructionView>) -> Seq<char>
    decreases code.len(),
{
    if code.len() == 0 {
        Seq::empty()
    } else {
        program_text(code.drop_last()) + code.last().text()
    }
}

/// Writes a sequence of instructions as text.
pub fn render(code: &Vec<Instruction>) -> (text: String)
    ensures
        text@ == program_text(code_view(code@)),
{
    let mut text = String::new();
    let mut i: usize = 0;
    while i < code.len()
        invariant
            i <= code.len(),
            text@ == program_text(code_view(code@).take(i as int)),
        decreases code.len() - i,
    {
        code[i].write(&mut text);
        proof {
            let all = code_view(code@);
            assert(all.take(i + 1).drop_last() =~= all.take(i as int));
        }
        i += 1;
    }
    assert(code_view(code@).take(code.len() as int) =~= code_view(code@));
    text
}

} // verus!
