//! The code of the syntax tree in assembly, as functions on the
//! state of the generator: the scope and the code emitted so far.

use vstd::prelude::*;
use crate::assembly::{Directive, InstructionView, Operand, Operation, Register, Width};
use crate::ast::{ExpressionView, NodeView};
use crate::error::SemanticError;
use crate::precedence::BinaryExpressionType;
use crate::scope::{FunctionView, ScopeView, parameter_types};

verus! {

/// The state that the generator threads through its walk of the tree.
pub struct Emission {
    pub scope: ScopeView,
    /// The code emitted so far.
    pub code: Seq<InstructionView>,
}

/// A state, or the first fault.
pub type Emitted = Result<Emission, SemanticError>;

/// The type of an expression. A number is a `nanpa`, a string literal a
/// `linja`. A variable has its declared type, a call the return type of the
/// function. The two sides of a binary expression must have one type, which
/// is the type of the whole.
pub open spec fn type_of(e: ExpressionView, scope: ScopeView) -> Result<Seq<char>, SemanticError>
    decreases e,
{
    match e {
        ExpressionView::Number(_) => Ok("nanpa"@),
        ExpressionView::Text(_) => Ok("linja"@),
        ExpressionView::Variable(name) => match scope.variable(name) {
            Ok((variable, _)) => Ok(variable.var_type),
            Err(e) => Err(e),
        },
        ExpressionView::Call { name, .. } => match scope.function(name) {
            Ok(function) => match function.return_type {
                Some(t) => Ok(t),
                None => Err(SemanticError::NoReturnValue),
            },
            Err(e) => Err(e),
        },
        ExpressionView::Binary { lhs, rhs, .. } => match type_of(*lhs, scope) {
            Err(e) => Err(e),
            Ok(left) => match type_of(*rhs, scope) {
                Err(e) => Err(e),
                Ok(right) => if left == right {
                    Ok(right)
                } else {
                    Err(SemanticError::TypeMismatch)
                },
            },
        },
    }
}

/// The size, in bytes, of the values of an expression.
pub open spec fn size_of_value(e: ExpressionView, scope: ScopeView) -> Result<nat, SemanticError> {
    match type_of(e, scope) {
        Ok(t) => scope.size_of(t),
        Err(e) => Err(e),
    }
}

/// The types of the first `upto` expressions of a list, or the first
/// fault in finding them.
pub open spec fn types_of(args: Seq<ExpressionView>, upto: int, scope: ScopeView) -> Result<
    Seq<Seq<char>>,
    SemanticError,
>
    decreases upto,
{
    if upto <= 0 || upto > args.len() {
        Ok(Seq::empty())
    } else {
        match types_of(args, upto - 1, scope) {
            Err(e) => Err(e),
            Ok(types) => match type_of(args[upto - 1], scope) {
                Err(e) => Err(e),
                Ok(t) => Ok(types.push(t)),
            },
        }
    }
}

impl Emission {
    /// The state after one more instruction.
    pub open spec fn emit(self, op: Operation) -> Emission {
        Emission { code: self.code.push(InstructionView::Plain(op)), ..self }
    }

    /// The state after one more instruction or directive that carries a
    /// name.
    pub open spec fn emit_named(self, directive: Directive, name: Seq<char>) -> Emission {
        Emission { code: self.code.push(InstructionView::Named(directive, name)), ..self }
    }

    /// The state with another scope.
    pub open spec fn with_scope(self, scope: ScopeView) -> Emission {
        Emission { scope, ..self }
    }

    /// Pushes an integer: 8 more bytes in the current environment.
    pub open spec fn push(self, i: int) -> Emitted {
        match self.emit(Operation::PushImmediate(i as i64)).scope.grow(8) {
            Ok(scope) => Ok(self.emit(Operation::PushImmediate(i as i64)).with_scope(scope)),
            Err(e) => Err(e),
        }
    }

    /// Pushes an operand of `size` bytes.
    pub open spec fn push_reg(self, operand: Operand, size: nat) -> Emitted {
        match Width::of(size) {
            None => Err(SemanticError::UnsupportedSize),
            Some(width) => match self.scope.grow(size) {
                Ok(scope) => Ok(self.emit(Operation::Push(width, operand)).with_scope(scope)),
                Err(e) => Err(e),
            },
        }
    }

    /// Pops `size` bytes into a register.
    pub open spec fn pop_reg(self, register: Register, size: nat) -> Emitted {
        match Width::of(size) {
            None => Err(SemanticError::UnsupportedSize),
            Some(width) => match self.scope.shrink(size) {
                Ok(scope) => Ok(self.emit(Operation::Pop(width, register)).with_scope(scope)),
                Err(e) => Err(e),
            },
        }
    }

    /// Moves `size` bytes from one operand to another.
    pub open spec fn mov(self, to: Operand, size: nat, from: Operand) -> Emitted {
        match Width::of(size) {
            None => Err(SemanticError::UnsupportedSize),
            Some(width) => Ok(self.emit(Operation::Move(to, width, from))),
        }
    }

    /// Opens a fresh environment.
    pub open spec fn new_scope(self) -> Emission {
        self.with_scope(self.scope.enter())
    }

    /// Closes the current environment.
    pub open spec fn end_scope(self) -> Emission {
        self.with_scope(self.scope.leave())
    }

    /// Gives back the stack of the current environment and closes the
    /// environment.
    pub open spec fn release_scope(self) -> Emission {
        self.emit(Operation::Release(self.scope.top().stack_pointer as usize)).end_scope()
    }

    /// Declares a variable: binds `name` at the current stack pointer of
    /// the current environment, and makes room for its value, by pushing
    /// `register` where one is given and by lowering the stack pointer
    /// otherwise.
    pub open spec fn add_variable(
        self,
        name: Seq<char>,
        var_type: Seq<char>,
        register: Option<Register>,
    ) -> Emitted {
        match self.scope.size_of(var_type) {
            Err(e) => Err(e),
            Ok(size) => {
                let bound = self.with_scope(self.scope.bind(name, var_type));
                match register {
                    Some(r) => bound.push_reg(Operand::Register(r), size),
                    None => match bound.scope.grow(size) {
                        Ok(scope) => Ok(
                            bound.emit(Operation::Allocate(size as usize)).with_scope(scope),
                        ),
                        Err(e) => Err(e),
                    },
                }
            },
        }
    }

    /// Binds the parameters from index `from` on, each pushed from the
    /// register of its index.
    pub open spec fn parameters(self, parameters: Seq<(Seq<char>, Seq<char>)>, from: int) -> Emitted
        decreases parameters.len() - from,
    {
        if from < 0 || from >= parameters.len() {
            Ok(self)
        } else {
            match self.add_variable(
                parameters[from].1,
                parameters[from].0,
                Some(Register::argument(from as nat)),
            ) {
                Err(e) => Err(e),
                Ok(next) => next.parameters(parameters, from + 1),
            }
        }
    }

    /// The code of the operator of a binary expression, once its
    /// operands are in `r8` and `r9`: the operation, and a push of the
    /// result. For `<` and `>` there is none.
    pub open spec fn operator(self, kind: BinaryExpressionType, size: nat) -> Emitted {
        match kind {
            BinaryExpressionType::Add => self.emit(Operation::Add).push_reg(
                Operand::Register(Register::R8),
                size,
            ),
            BinaryExpressionType::Subtract => self.emit(Operation::Subtract).push_reg(
                Operand::Register(Register::R8),
                size,
            ),
            BinaryExpressionType::Multiply => match self.mov(
                Operand::Register(Register::Rax),
                size,
                Operand::Register(Register::R8),
            ) {
                Err(e) => Err(e),
                Ok(t) => t.emit(Operation::Multiply).push_reg(
                    Operand::Register(Register::Rax),
                    size,
                ),
            },
            BinaryExpressionType::Divide => match self.emit(Operation::Zero(Register::Rdx)).mov(
                Operand::Register(Register::Rax),
                size,
                Operand::Register(Register::R8),
            ) {
                Err(e) => Err(e),
                Ok(t) => t.emit(Operation::Divide).push_reg(
                    Operand::Register(Register::Rax),
                    size,
                ),
            },
            BinaryExpressionType::Equals => self.emit(Operation::Zero(Register::Ecx)).emit(
                Operation::Compare,
            ).emit(Operation::SetIfZero).push_reg(Operand::Register(Register::Rcx), size),
            BinaryExpressionType::GreaterThan | BinaryExpressionType::LessThan => Ok(self),
        }
    }

    /// What follows the operands of the binary expression `whole`: the
    /// check that both sides have one type, the pops of the right side into
    /// `r9` and of the left side into `r8`, and the operator.
    pub open spec fn binary_tail(self, whole: ExpressionView, kind: BinaryExpressionType) -> Emitted {
        match size_of_value(whole, self.scope) {
            Err(e) => Err(e),
            Ok(size) => match self.pop_reg(Register::R9, size) {
                Err(e) => Err(e),
                Ok(a) => match a.pop_reg(Register::R8, size) {
                    Err(e) => Err(e),
                    Ok(b) => b.operator(kind, size),
                },
            },
        }
    }

    /// What follows the arguments of a call: the call, and a push of
    /// `rax` where the function returns a value.
    pub open spec fn call_tail(self, name: Seq<char>, function: FunctionView) -> Emitted {
        let called = self.emit_named(Directive::Call, name);
        match function.return_type {
            None => Ok(called),
            Some(t) => match called.scope.size_of(t) {
                Err(e) => Err(e),
                Ok(size) => called.push_reg(Operand::Register(Register::Rax), size),
            },
        }
    }

    /// The code of an expression, which leaves the value on the stack: a
    /// push of a number, a push of the stack slot of a variable, the two
    /// sides of a binary expression and what follows them, or a call. A
    /// string literal has no code.
    pub open spec fn expression(self, e: ExpressionView) -> Emitted
        decreases e, 0nat,
    {
        match e {
            ExpressionView::Number(i) => self.push(i),
            ExpressionView::Variable(name) => match self.scope.variable(name) {
                Err(e) => Err(e),
                Ok((variable, offset)) => match self.scope.size_of(variable.var_type) {
                    Err(e) => Err(e),
                    Ok(size) => self.push_reg(Operand::Frame(offset as i64), size),
                },
            },
            ExpressionView::Text(_) => Ok(self),
            ExpressionView::Call { name, arguments } => match self.scope.function(name) {
                Err(e) => Err(e),
                Ok(function) => match types_of(arguments, arguments.len() as int, self.scope) {
                    Err(e) => Err(e),
                    Ok(types) => if types != function.parameter_types {
                        Err(SemanticError::ArgumentMismatch)
                    } else {
                        match self.arguments(arguments, arguments.len() as int) {
                            Err(e) => Err(e),
                            Ok(t) => t.call_tail(name, function),
                        }
                    },
                },
            },
            ExpressionView::Binary { kind, lhs, rhs } => match self.expression(*lhs) {
                Err(e) => Err(e),
                Ok(a) => match a.expression(*rhs) {
                    Err(e) => Err(e),
                    Ok(b) => b.binary_tail(e, kind),
                },
            },
        }
    }

    /// The code of the first `count` arguments of a call, last argument
    /// first: each is evaluated and popped into the register of its index.
    pub open spec fn arguments(self, args: Seq<ExpressionView>, count: int) -> Emitted
        decreases args, count,
    {
        if count <= 0 || count > args.len() {
            Ok(self)
        } else {
            match self.expression(args[count - 1]) {
                Err(e) => Err(e),
                Ok(a) => match size_of_value(args[count - 1], a.scope) {
                    Err(e) => Err(e),
                    Ok(size) => match a.pop_reg(Register::argument((count - 1) as nat), size) {
                        Err(e) => Err(e),
                        Ok(b) => b.arguments(args, count - 1),
                    },
                },
            }
        }
    }

    /// The end of a function: the stack pointer goes back to the frame
    /// pointer, the frame pointer of the caller is restored, and control
    /// returns.
    pub open spec fn leave_function(self) -> Emission {
        self.emit(
            Operation::Move(
                Operand::Register(Register::Rsp),
                Width::Qword,
                Operand::Register(Register::Rbp),
            ),
        ).emit(Operation::RestoreFrame).emit(Operation::Return)
    }

    /// A return from the program: the value goes into `rdi`, and the
    /// exit system call, number 60, is made.
    pub open spec fn exit(self, value: ExpressionView) -> Emitted {
        match self.expression(value) {
            Err(e) => Err(e),
            Ok(a) => match size_of_value(value, a.scope) {
                Err(e) => Err(e),
                Ok(size) => match a.pop_reg(Register::Rdi, size) {
                    Err(e) => Err(e),
                    Ok(b) => match b.mov(
                        Operand::Register(Register::Rax),
                        size,
                        Operand::Immediate(60),
                    ) {
                        Err(e) => Err(e),
                        Ok(c) => Ok(c.emit(Operation::Syscall)),
                    },
                },
            },
        }
    }

    /// A declaration: the name must be new in the current environment; it
    /// is bound there, and the stack pointer is lowered by the size of the
    /// type.
    pub open spec fn declare(self, var_type: Seq<char>, name: Seq<char>) -> Emitted {
        if self.scope.top().names.contains_key(name) {
            Err(SemanticError::DuplicateVariable)
        } else {
            self.add_variable(name, var_type, None)
        }
    }

    /// The store of the value on top of the stack into the variable
    /// `name`: a pop into `r9` and a move into the stack slot.
    pub open spec fn receive(self, name: Seq<char>) -> Emitted {
        match self.scope.variable(name) {
            Err(e) => Err(e),
            Ok((variable, offset)) => match self.scope.size_of(variable.var_type) {
                Err(e) => Err(e),
                Ok(size) => match self.pop_reg(Register::R9, size) {
                    Err(e) => Err(e),
                    Ok(a) => a.mov(
                        Operand::Frame(offset as i64),
                        size,
                        Operand::Register(Register::R9),
                    ),
                },
            },
        }
    }

    /// An assignment: the value is evaluated and stored.
    pub open spec fn assign(self, name: Seq<char>, value: ExpressionView) -> Emitted {
        match self.expression(value) {
            Err(e) => Err(e),
            Ok(a) => a.receive(name),
        }
    }

    /// A return from a function: a value, if there is one, goes into
    /// `rax`.
    pub open spec fn return_from(self, value: Option<ExpressionView>) -> Emitted {
        match value {
            None => Ok(self.leave_function()),
            Some(e) => match size_of_value(e, self.scope) {
                Err(e) => Err(e),
                Ok(size) => match self.expression(e) {
                    Err(e) => Err(e),
                    Ok(a) => match a.pop_reg(Register::Rax, size) {
                        Err(e) => Err(e),
                        Ok(b) => Ok(b.leave_function()),
                    },
                },
            },
        }
    }

    /// A call that stands as a statement: the call, and a pop of the
    /// value it returns, if any, into `rax`.
    pub open spec fn call_statement(self, name: Seq<char>, arguments: Seq<ExpressionView>) -> Emitted {
        match self.expression(ExpressionView::Call { name, arguments }) {
            Err(e) => Err(e),
            Ok(a) => match a.scope.function(name) {
                Err(e) => Err(e),
                Ok(function) => match function.return_type {
                    None => Ok(a),
                    Some(t) => match a.scope.size_of(t) {
                        Err(e) => Err(e),
                        Ok(size) => a.pop_reg(Register::Rax, size),
                    },
                },
            },
        }
    }

    /// The head of a conditional: a fresh label and a fresh environment,
    /// the condition, and a jump to the label if the condition is zero.
    /// Gives the state and the label.
    pub open spec fn condition(self, condition: ExpressionView) -> Result<
        (Emission, usize),
        SemanticError,
    > {
        match self.scope.next_label() {
            Err(e) => Err(e),
            Ok((scope, label)) => match self.with_scope(scope).new_scope().expression(condition) {
                Err(e) => Err(e),
                Ok(a) => match size_of_value(condition, a.scope) {
                    Err(e) => Err(e),
                    Ok(size) => match a.pop_reg(Register::Rax, size) {
                        Err(e) => Err(e),
                        Ok(b) => Ok(
                            (
                                b.emit(Operation::CompareZero).emit(
                                    Operation::JumpIfEqual(label as usize),
                                ),
                                label as usize,
                            ),
                        ),
                    },
                },
            },
        }
    }

    /// The head of a function definition: the function is made known,
    /// so that its body can call it; its name is made public and becomes a
    /// label; a fresh environment is opened; the frame pointer of the
    /// caller is pushed and the frame pointer set; and the parameters are
    /// bound.
    pub open spec fn prologue(
        self,
        name: Seq<char>,
        parameters: Seq<(Seq<char>, Seq<char>)>,
        return_type: Option<Seq<char>>,
    ) -> Emitted {
        match self.with_scope(
            self.scope.with_function(
                name,
                FunctionView { return_type, parameter_types: parameter_types(parameters) },
            ),
        ).emit_named(Directive::Public, name).emit_named(Directive::Label, name).new_scope().push_reg(
            Operand::Register(Register::Rbp),
            8,
        ) {
            Err(e) => Err(e),
            Ok(a) => a.emit(Operation::SetFrame).parameters(parameters, 0),
        }
    }

    /// The declaration of an external function: the function is made
    /// known, and its name declared external.
    pub open spec fn external(
        self,
        name: Seq<char>,
        parameters: Seq<(Seq<char>, Seq<char>)>,
        return_type: Option<Seq<char>>,
    ) -> Emission {
        self.with_scope(
            self.scope.with_function(
                name,
                FunctionView { return_type, parameter_types: parameter_types(parameters) },
            ),
        ).emit_named(Directive::Extern, name)
    }

    /// The code of a statement, and whether the statement ends the run of
    /// statements it stands in, as a return from the program or from a
    /// function does. A function definition and a block have the code of
    /// every statement they hold; a conditional has the code of its body up
    /// to and with the first statement that ends the run.
    pub open spec fn node(self, n: NodeView) -> Result<(Emission, bool), SemanticError>
        decreases n, 0nat,
    {
        match n {
            NodeView::Exit(value) => match self.exit(value) {
                Err(e) => Err(e),
                Ok(t) => Ok((t, true)),
            },
            NodeView::Declare { var_type, name } => match self.declare(var_type, name) {
                Err(e) => Err(e),
                Ok(t) => Ok((t, false)),
            },
            NodeView::Assign { name, value } => match self.assign(name, value) {
                Err(e) => Err(e),
                Ok(t) => Ok((t, false)),
            },
            NodeView::Function { name, parameters, return_type, body } => match self.prologue(
                name,
                parameters,
                return_type,
            ) {
                Err(e) => Err(e),
                Ok(a) => match a.block(body, 0) {
                    Err(e) => Err(e),
                    Ok(b) => Ok((b.end_scope(), false)),
                },
            },
            NodeView::External { name, parameters, return_type } => Ok(
                (self.external(name, parameters, return_type), false),
            ),
            NodeView::Call { name, arguments } => match self.call_statement(name, arguments) {
                Err(e) => Err(e),
                Ok(t) => Ok((t, false)),
            },
            NodeView::If { condition, body } => match self.condition(condition) {
                Err(e) => Err(e),
                Ok((a, label)) => match a.body(body, 0) {
                    Err(e) => Err(e),
                    Ok(b) => Ok((b.release_scope().emit(Operation::EndIf(label)), false)),
                },
            },
            NodeView::Return(value) => match self.return_from(value) {
                Err(e) => Err(e),
                Ok(t) => Ok((t, true)),
            },
            NodeView::Block(body) => match self.new_scope().block(body, 0) {
                Err(e) => Err(e),
                Ok(a) => Ok((a.release_scope(), false)),
            },
        }
    }

    /// The code of the statements from index `from` on, up to and with
    /// the first that ends the run.
    pub open spec fn body(self, nodes: Seq<NodeView>, from: int) -> Emitted
        decreases nodes, nodes.len() - from,
    {
        if from < 0 || from >= nodes.len() {
            Ok(self)
        } else {
            match self.node(nodes[from]) {
                Err(e) => Err(e),
                Ok((next, ends)) => if ends {
                    Ok(next)
                } else {
                    next.body(nodes, from + 1)
                },
            }
        }
    }

    /// The code of all statements from index `from` on.
    pub open spec fn block(self, nodes: Seq<NodeView>, from: int) -> Emitted
        decreases nodes, nodes.len() - from,
    {
        if from < 0 || from >= nodes.len() {
            Ok(self)
        } else {
            match self.node(nodes[from]) {
                Err(e) => Err(e),
                Ok((next, _)) => next.block(nodes, from + 1),
            }
        }
    }

    /// The state that a compilation starts in: the given scope and no
    /// code.
    pub open spec fn start(scope: ScopeView) -> Emission {
        Emission { scope, code: Seq::empty() }
    }

    /// The code of a program: the format line, and the code of its
    /// statements up to and with the first that ends the run.
    pub open spec fn program(self, nodes: Seq<NodeView>) -> Emitted {
        self.emit(Operation::Format).body(nodes, 0)
    }
}

} // verus!
