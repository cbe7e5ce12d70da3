//! The code generator: a walk of the syntax tree that emits assembly and
//! keeps the scope in step.

use vstd::prelude::*;
use vstd::string::*;
use crate::assembly::{
    Directive, Instruction, InstructionView, Operand, Operation, Register, Width, code_view,
};
use crate::ast::{
    BinaryExpression, Expression, ExpressionView, LiKamaSamaStatement, NanpaExpression, NimiExpression, Node,
    NodeView, OExpression, OSinStatement, OWekaStatement, OtawaStatement, PaliDeclaration,
    PaliStatement, Parenthesis, TenpoStatement, UnaryExpression, expressions_view, nodes_view,
    optional_text, parameters_view,
};
use crate::error::SemanticError;
use crate::invariants::{ends_in_return, function_head, lemma_function_shape};
use crate::precedence::BinaryExpressionType;
use crate::scope::{FunctionView, Scope, ScopeView, clone_optional, texts_view};
use crate::emission::{Emitted, Emission, types_of};
use crate::typing::same_texts;

verus! {

/// The state of a generation: the view of the scope, and the views of the
/// instructions written so far.
pub open spec fn state(scope: &Scope, writer: &Vec<Instruction>) -> Emission {
    Emission { scope: scope@, code: code_view(writer@) }
}

/// Whether `r` and the state `after` are what `expected` asks for: on
/// success that state, on failure the same error.
pub open spec fn reaches(r: Result<(), SemanticError>, after: Emission, expected: Emitted) -> bool {
    match expected {
        Ok(t) => r is Ok && after == t,
        Err(e) => r is Err && r->Err_0 == e,
    }
}

/// Writes one instruction.
pub fn emit(writer: &mut Vec<Instruction>, op: Operation)
    ensures
        code_view(final(writer)@) == code_view(old(writer)@).push(InstructionView::Plain(op)),
{
    writer.push(Instruction::Plain(op));
}

/// Writes one instruction or directive that carries a name.
pub fn emit_named(writer: &mut Vec<Instruction>, directive: Directive, name: &String)
    ensures
        code_view(final(writer)@) == code_view(old(writer)@).push(
            InstructionView::Named(directive, name@),
        ),
{
    writer.push(Instruction::Named(directive, name.clone()));
    assert(code_view(writer@) =~= code_view(old(writer)@).push(
        InstructionView::Named(directive, name@),
    ));
}

impl Scope {
    /// Declares a variable in the current environment and makes room for
    /// its value: by pushing `reg` where one is given, by lowering the stack
    /// pointer otherwise.
    pub fn add_variable(
        &mut self,
        name: &String,
        variable_type: &String,
        reg: Option<Register>,
        writer: &mut Vec<Instruction>,
    ) -> (r: Result<(), SemanticError>)
        requires
            old(self)@.wf(),
        ensures
            reaches(
                r,
                state(final(self), final(writer)),
                state(old(self), old(writer)).add_variable(name@, variable_type@, reg),
            ),
            r is Ok ==> final(self)@.envs.len() == old(self)@.envs.len(),
    {
        let size = self.size_of(variable_type)?;
        self.bind(name, size, variable_type);
        match reg {
            Some(register) => Generator::push_reg(Operand::Register(register), size, self, writer),
            None => {
                self.grow(size)?;
                emit(writer, Operation::Allocate(size));
                Ok(())
            },
        }
    }
}

/// A walk over the statements of a program.
pub struct Generator {
    nodes: Vec<Node>,
    current_node: usize,
}

impl Generator {
    /// The statements to generate code for.
    pub closed spec fn nodes(&self) -> Seq<NodeView> {
        nodes_view(self.nodes@)
    }

    /// The index of the current statement.
    pub closed spec fn position(&self) -> nat {
        self.current_node as nat
    }

    /// A generator at the first of `nodes`.
    pub fn new(nodes: Vec<Node>) -> (g: Generator)
        ensures
            g.nodes() == nodes_view(nodes@),
            g.position() == 0,
    {
        Generator { nodes, current_node: 0 }
    }

    /// Steps to the next statement and hands it out, if there is one.
    pub fn next(&mut self) -> (r: Option<&Node>)
        requires
            old(self).position() < usize::MAX,
        ensures
            final(self).nodes() == old(self).nodes(),
            final(self).position() == old(self).position() + 1,
            match r {
                Some(node) => final(self).position() < final(self).nodes().len() && node@
                    == final(self).nodes()[final(self).position() as int],
                None => final(self).position() >= final(self).nodes().len(),
            },
    {
        self.current_node += 1;
        if self.current_node < self.nodes.len() {
            Some(&self.nodes[self.current_node])
        } else {
            None
        }
    }

    /// The name of the register that carries the argument at index `arg`
    /// of a call.
    pub fn get_argument_register(arg: usize) -> (r: String)
        ensures
            r@ == Register::argument(arg as nat).text(),
    {
        Register::for_argument(arg).name().to_owned()
    }

    /// The size word for a size of 1, 2, 4 or 8 bytes.
    pub fn get_word_from_size(size: usize) -> (r: String)
        requires
            Width::of(size as nat) is Some,
        ensures
            r@ == Width::of(size as nat)->Some_0.text(),
    {
        match Width::from_size(size) {
            Some(width) => width.name().to_owned(),
            None => vstd::pervasive::unreached(),
        }
    }

    /// Pushes an integer.
    pub fn push(i: i64, scope: &mut Scope, writer: &mut Vec<Instruction>) -> (r: Result<
        (),
        SemanticError,
    >)
        requires
            old(scope)@.wf(),
        ensures
            reaches(r, state(final(scope), final(writer)), state(old(scope), old(writer)).push(i as int)),
            r is Ok ==> final(scope)@.envs.len() == old(scope)@.envs.len(),
    {
        emit(writer, Operation::PushImmediate(i));
        scope.grow(8)
    }

    /// Pushes an operand of `size` bytes.
    pub fn push_reg(reg: Operand, size: usize, scope: &mut Scope, writer: &mut Vec<Instruction>) -> (r:
        Result<(), SemanticError>)
        requires
            old(scope)@.wf(),
        ensures
            reaches(
                r,
                state(final(scope), final(writer)),
                state(old(scope), old(writer)).push_reg(reg, size as nat),
            ),
            r is Ok ==> final(scope)@.envs.len() == old(scope)@.envs.len(),
    {
        let width = match Width::from_size(size) {
            Some(width) => width,
            None => {
                return Err(SemanticError::UnsupportedSize);
            },
        };
        scope.grow(size)?;
        emit(writer, Operation::Push(width, reg));
        Ok(())
    }

    /// Pops `size` bytes into a register.
    pub fn pop_reg(reg: Register, size: usize, scope: &mut Scope, writer: &mut Vec<Instruction>) -> (r:
        Result<(), SemanticError>)
        requires
            old(scope)@.wf(),
        ensures
            reaches(
                r,
                state(final(scope), final(writer)),
                state(old(scope), old(writer)).pop_reg(reg, size as nat),
            ),
            r is Ok ==> final(scope)@.envs.len() == old(scope)@.envs.len(),
    {
        let width = match Width::from_size(size) {
            Some(width) => width,
            None => {
                return Err(SemanticError::UnsupportedSize);
            },
        };
        scope.shrink(size)?;
        emit(writer, Operation::Pop(width, reg));
        Ok(())
    }

    /// Moves `size` bytes from one operand to another.
    pub fn mov(to: Operand, size: usize, from: Operand, writer: &mut Vec<Instruction>) -> (r: Result<
        (),
        SemanticError,
    >)
        ensures
            match Width::of(size as nat) {
                Some(width) => r is Ok && code_view(final(writer)@) == code_view(old(writer)@).push(
                    InstructionView::Plain(Operation::Move(to, width, from)),
                ),
                None => r is Err && r->Err_0 == SemanticError::UnsupportedSize,
            },
    {
        match Width::from_size(size) {
            Some(width) => {
                emit(writer, Operation::Move(to, width, from));
                Ok(())
            },
            None => Err(SemanticError::UnsupportedSize),
        }
    }

    /// Clears a register.
    pub fn zero(reg: Register, writer: &mut Vec<Instruction>)
        ensures
            code_view(final(writer)@) == code_view(old(writer)@).push(
                InstructionView::Plain(Operation::Zero(reg)),
            ),
    {
        emit(writer, Operation::Zero(reg));
    }

    /// Pushes the value of a number.
    pub fn generate_nanpa_expression(
        nanpa_expression: &NanpaExpression,
        scope: &mut Scope,
        writer: &mut Vec<Instruction>,
    ) -> (r: Result<(), SemanticError>)
        requires
            old(scope)@.wf(),
        ensures
            reaches(
                r,
                state(final(scope), final(writer)),
                state(old(scope), old(writer)).expression(nanpa_expression@),
            ),
            r is Ok ==> final(scope)@.envs.len() == old(scope)@.envs.len(),
    {
        Generator::push(nanpa_expression.value, scope, writer)
    }

    /// Pushes the value of a variable from its stack slot.
    pub fn generate_nimi_expression(
        nimi_expression: &NimiExpression,
        scope: &mut Scope,
        writer: &mut Vec<Instruction>,
    ) -> (r: Result<(), SemanticError>)
        requires
            old(scope)@.wf(),
        ensures
            reaches(
                r,
                state(final(scope), final(writer)),
                state(old(scope), old(writer)).expression(nimi_expression@),
            ),
            r is Ok ==> final(scope)@.envs.len() == old(scope)@.envs.len(),
    {
        let (offset, size) = {
            let (variable, offset) = scope.get_variable(&nimi_expression.value)?;
            (offset, scope.size_of(&variable.var_type)?)
        };
        Generator::push_reg(Operand::Frame(offset), size, scope, writer)
    }

    /// Emits the code of an expression without an operator at its top.
    pub fn generate_unary_expression(
        unary: &UnaryExpression,
        scope: &mut Scope,
        writer: &mut Vec<Instruction>,
    ) -> (r: Result<(), SemanticError>)
        requires
            old(scope)@.wf(),
        ensures
            reaches(
                r,
                state(final(scope), final(writer)),
                state(old(scope), old(writer)).expression(unary@),
            ),
            r is Ok ==> final(scope)@.envs.len() == old(scope)@.envs.len(),
        decreases unary,
    {
        match unary {
            UnaryExpression::Nanpa(nanpa) => Generator::generate_nanpa_expression(
                nanpa,
                scope,
                writer,
            ),
            UnaryExpression::Nimi(nimi) => Generator::generate_nimi_expression(nimi, scope, writer),
            UnaryExpression::O(o) => Generator::generate_o(o, scope, writer),
            UnaryExpression::Linja(_) => Ok(()),
        }
    }

    /// Emits the code of the operator of a binary expression, once the
    /// operands are in `r8` and `r9`.
    fn generate_operator(
        kind: BinaryExpressionType,
        size: usize,
        scope: &mut Scope,
        writer: &mut Vec<Instruction>,
    ) -> (r: Result<(), SemanticError>)
        requires
            old(scope)@.wf(),
        ensures
            reaches(
                r,
                state(final(scope), final(writer)),
                state(old(scope), old(writer)).operator(kind, size as nat),
            ),
            r is Ok ==> final(scope)@.envs.len() == old(scope)@.envs.len(),
    {
        match kind {
            BinaryExpressionType::Add => {
                emit(writer, Operation::Add);
                Generator::push_reg(Operand::Register(Register::R8), size, scope, writer)
            },
            BinaryExpressionType::Subtract => {
                emit(writer, Operation::Subtract);
                Generator::push_reg(Operand::Register(Register::R8), size, scope, writer)
            },
            BinaryExpressionType::Multiply => {
                Generator::mov(
                    Operand::Register(Register::Rax),
                    size,
                    Operand::Register(Register::R8),
                    writer,
                )?;
                emit(writer, Operation::Multiply);
                Generator::push_reg(Operand::Register(Register::Rax), size, scope, writer)
            },
            BinaryExpressionType::Divide => {
                Generator::zero(Register::Rdx, writer);
                Generator::mov(
                    Operand::Register(Register::Rax),
                    size,
                    Operand::Register(Register::R8),
                    writer,
                )?;
                emit(writer, Operation::Divide);
                Generator::push_reg(Operand::Register(Register::Rax), size, scope, writer)
            },
            BinaryExpressionType::Equals => {
                Generator::zero(Register::Ecx, writer);
                emit(writer, Operation::Compare);
                emit(writer, Operation::SetIfZero);
                Generator::push_reg(Operand::Register(Register::Rcx), size, scope, writer)
            },
            BinaryExpressionType::GreaterThan | BinaryExpressionType::LessThan => Ok(()),
        }
    }

    /// Emits the code of a binary expression: the left side, the right
    /// side, the pops of both into `r9` and `r8`, and the operator with a
    /// push of the result. Both sides must have one type. For `<` and `>`
    /// no operator and no push is emitted.
    pub fn generate_binary_expression(
        binary: &BinaryExpression,
        scope: &mut Scope,
        writer: &mut Vec<Instruction>,
    ) -> (r: Result<(), SemanticError>)
        requires
            old(scope)@.wf(),
        ensures
            reaches(
                r,
                state(final(scope), final(writer)),
                state(old(scope), old(writer)).expression(binary@),
            ),
            r is Ok ==> final(scope)@.envs.len() == old(scope)@.envs.len(),
        decreases binary,
    {
        Generator::generate_expression(&binary.lhs, scope, writer)?;
        Generator::generate_expression(&binary.rhs, scope, writer)?;
        let size = {
            let t = binary.get_type(scope)?;
            scope.size_of(&t)?
        };
        Generator::pop_reg(Register::R9, size, scope, writer)?;
        Generator::pop_reg(Register::R8, size, scope, writer)?;
        Generator::generate_operator(binary.kind, size, scope, writer)
    }

    /// Emits the code of an expression, which leaves the value on the
    /// stack.
    pub fn generate_expression(
        expression: &Expression,
        scope: &mut Scope,
        writer: &mut Vec<Instruction>,
    ) -> (r: Result<(), SemanticError>)
        requires
            old(scope)@.wf(),
        ensures
            reaches(
                r,
                state(final(scope), final(writer)),
                state(old(scope), old(writer)).expression(expression@),
            ),
            r is Ok ==> final(scope)@.envs.len() == old(scope)@.envs.len(),
        decreases expression,
    {
        match expression {
            Expression::Unary(unary) => Generator::generate_unary_expression(unary, scope, writer),
            Expression::Binary(binary) => Generator::generate_binary_expression(
                binary,
                scope,
                writer,
            ),
        }
    }

    /// The types of the arguments of a call, in order.
    fn argument_types(params: &Vec<Expression>, scope: &Scope) -> (r: Result<
        Vec<String>,
        SemanticError,
    >)
        ensures
            match types_of(expressions_view(params@), params@.len() as int, scope@) {
                Ok(types) => r is Ok && texts_view(r->Ok_0@) == types,
                Err(e) => r is Err && r->Err_0 == e,
            },
    {
        let mut types: Vec<String> = Vec::new();
        let mut i: usize = 0;
        assert(texts_view(types@) =~= Seq::empty());
        while i < params.len()
            invariant
                i <= params.len(),
                types_of(expressions_view(params@), i as int, scope@) == Ok::<
                    Seq<Seq<char>>,
                    SemanticError,
                >(texts_view(types@)),
            decreases params.len() - i,
        {
            let ghost before = texts_view(types@);
            let t = match params[i].get_type(scope) {
                Ok(t) => t,
                Err(e) => {
                    proof {
                        lemma_types_of_fails(
                            expressions_view(params@),
                            i as int + 1,
                            params@.len() as int,
                            scope@,
                        );
                    }
                    return Err(e);
                },
            };
            types.push(t);
            assert(texts_view(types@) =~= before.push(t@));
            i += 1;
        }
        Ok(types)
    }

    /// Emits the code of a call: the arguments, last first, each popped
    /// into the register of its index; the call; and a push of `rax` where
    /// the function returns a value. The function must be known, and the
    /// types of the arguments must be the types of its parameters.
    pub fn generate_o(o: &OExpression, scope: &mut Scope, writer: &mut Vec<Instruction>) -> (r:
        Result<(), SemanticError>)
        requires
            old(scope)@.wf(),
        ensures
            reaches(r, state(final(scope), final(writer)), state(old(scope), old(writer)).expression(o@)),
            r is Ok ==> final(scope)@.envs.len() == old(scope)@.envs.len(),
        decreases o,
    {
        let ghost args = expressions_view(o.params@);
        let ghost first = state(old(scope), old(writer));
        let return_type = {
            let func = scope.get_function(&o.nimi.value)?;
            let types = Generator::argument_types(&o.params, scope)?;
            if !same_texts(&types, &func.parameter_types) {
                return Err(SemanticError::ArgumentMismatch);
            }
            clone_optional(&func.return_type)
        };
        let ghost function = first.scope.function(o.nimi.value@)->Ok_0;
        let ghost goal = first.arguments(args, args.len() as int);
        let mut index = o.params.len();
        while index > 0
            invariant
                index <= o.params.len(),
                scope@.wf(),
                scope@.envs.len() == old(scope)@.envs.len(),
                args == expressions_view(o.params@),
                decreases_to!(o => o.params),
                state(scope, writer).arguments(args, index as int) == goal,
                goal == first.arguments(args, args.len() as int),
                first == state(old(scope), old(writer)),
                first.scope.function(o.nimi.value@) == Ok::<FunctionView, SemanticError>(function),
                types_of(args, args.len() as int, first.scope) == Ok::<
                    Seq<Seq<char>>,
                    SemanticError,
                >(function.parameter_types),
            decreases index,
        {
            index -= 1;
            let expr = &o.params[index];
            proof {
                vstd::std_specs::vec::axiom_vec_index_decreases(o.params, index as int);
            }
            Generator::generate_expression(expr, scope, writer)?;
            let size = expr.get_size(scope)?;
            Generator::pop_reg(Register::for_argument(index), size, scope, writer)?;
        }
        emit_named(writer, Directive::Call, &o.nimi.value);
        match return_type {
            Some(t) => {
                let size = scope.size_of(&t)?;
                Generator::push_reg(Operand::Register(Register::Rax), size, scope, writer)
            },
            None => Ok(()),
        }
    }

    /// Emits the code of a return from the program: the value goes into
    /// `rdi`, and the exit system call is made.
    pub fn generate_otawa(otawa: &OtawaStatement, scope: &mut Scope, writer: &mut Vec<Instruction>) -> (r:
        Result<(), SemanticError>)
        requires
            old(scope)@.wf(),
        ensures
            reaches(
                r,
                state(final(scope), final(writer)),
                state(old(scope), old(writer)).exit(otawa.expr@),
            ),
            r is Ok ==> final(scope)@.envs.len() == old(scope)@.envs.len(),
    {
        Generator::generate_expression(&otawa.expr, scope, writer)?;
        let size = otawa.expr.get_size(scope)?;
        Generator::pop_reg(Register::Rdi, size, scope, writer)?;
        Generator::mov(Operand::Register(Register::Rax), size, Operand::Immediate(60), writer)?;
        emit(writer, Operation::Syscall);
        Ok(())
    }

    /// Declares a new variable. The name must not be bound in the current
    /// environment.
    pub fn generate_nimi_new(
        nimi_expression: &NimiExpression,
        variable_type: &String,
        scope: &mut Scope,
        writer: &mut Vec<Instruction>,
    ) -> (r: Result<(), SemanticError>)
        requires
            old(scope)@.wf(),
        ensures
            reaches(
                r,
                state(final(scope), final(writer)),
                state(old(scope), old(writer)).declare(variable_type@, nimi_expression.value@),
            ),
            r is Ok ==> final(scope)@.envs.len() == old(scope)@.envs.len(),
    {
        if scope.get_environment().get_variable(&nimi_expression.value).is_ok() {
            return Err(SemanticError::DuplicateVariable);
        }
        scope.add_variable(&nimi_expression.value, variable_type, None, writer)
    }

    /// Stores the value on top of the stack into a variable.
    pub fn generate_nimi_recieve_stack(
        nimi_expression: &NimiExpression,
        scope: &mut Scope,
        writer: &mut Vec<Instruction>,
    ) -> (r: Result<(), SemanticError>)
        requires
            old(scope)@.wf(),
        ensures
            reaches(
                r,
                state(final(scope), final(writer)),
                state(old(scope), old(writer)).receive(nimi_expression.value@),
            ),
            r is Ok ==> final(scope)@.envs.len() == old(scope)@.envs.len(),
    {
        let (offset, size) = {
            let (variable, offset) = scope.get_variable(&nimi_expression.value)?;
            (offset, scope.size_of(&variable.var_type)?)
        };
        Generator::pop_reg(Register::R9, size, scope, writer)?;
        Generator::mov(Operand::Frame(offset), size, Operand::Register(Register::R9), writer)
    }

    /// Emits the code of a variable declaration.
    pub fn generate_o_sin(osin: &OSinStatement, scope: &mut Scope, writer: &mut Vec<Instruction>) -> (r:
        Result<(), SemanticError>)
        requires
            old(scope)@.wf(),
        ensures
            reaches(
                r,
                state(final(scope), final(writer)),
                state(old(scope), old(writer)).declare(osin.var_type@, osin.name.value@),
            ),
            r is Ok ==> final(scope)@.envs.len() == old(scope)@.envs.len(),
    {
        Generator::generate_nimi_new(&osin.name, &osin.var_type, scope, writer)
    }

    /// Emits the code of an assignment: the value is evaluated and
    /// stored.
    pub fn generate_li_kama_sama_statement(
        kama_sama: &LiKamaSamaStatement,
        scope: &mut Scope,
        writer: &mut Vec<Instruction>,
    ) -> (r: Result<(), SemanticError>)
        requires
            old(scope)@.wf(),
        ensures
            reaches(
                r,
                state(final(scope), final(writer)),
                state(old(scope), old(writer)).assign(
                    kama_sama.nimi.value@,
                    kama_sama.expression@,
                ),
            ),
            r is Ok ==> final(scope)@.envs.len() == old(scope)@.envs.len(),
    {
        Generator::generate_expression(&kama_sama.expression, scope, writer)?;
        Generator::generate_nimi_recieve_stack(&kama_sama.nimi, scope, writer)
    }

    /// Binds the parameter at index `offset` of a function: pushes the
    /// register that carries it.
    pub fn generate_parameter(
        param: &(String, NimiExpression),
        scope: &mut Scope,
        offset: usize,
        writer: &mut Vec<Instruction>,
    ) -> (r: Result<(), SemanticError>)
        requires
            old(scope)@.wf(),
        ensures
            reaches(
                r,
                state(final(scope), final(writer)),
                state(old(scope), old(writer)).add_variable(
                    param.1.value@,
                    param.0@,
                    Some(Register::argument(offset as nat)),
                ),
            ),
            r is Ok ==> final(scope)@.envs.len() == old(scope)@.envs.len(),
    {
        scope.add_variable(&param.1.value, &param.0, Some(Register::for_argument(offset)), writer)
    }

    /// Emits the code of a return from a function: a value, if there is
    /// one, goes into `rax`; the stack pointer goes back to the frame
    /// pointer; the frame pointer of the caller is restored; and control
    /// returns.
    pub fn generate_o_weka(oweka: &OWekaStatement, scope: &mut Scope, writer: &mut Vec<Instruction>) -> (r:
        Result<(), SemanticError>)
        requires
            old(scope)@.wf(),
        ensures
            reaches(
                r,
                state(final(scope), final(writer)),
                state(old(scope), old(writer)).return_from(
                    match oweka.expr {
                        Some(e) => Some(e@),
                        None => None,
                    },
                ),
            ),
            r is Ok ==> final(scope)@.envs.len() == old(scope)@.envs.len(),
    {
        match &oweka.expr {
            None => {},
            Some(expr) => {
                let size = expr.get_size(scope)?;
                Generator::generate_expression(expr, scope, writer)?;
                Generator::pop_reg(Register::Rax, size, scope, writer)?;
            },
        }
        emit(
            writer,
            Operation::Move(
                Operand::Register(Register::Rsp),
                Width::Qword,
                Operand::Register(Register::Rbp),
            ),
        );
        emit(writer, Operation::RestoreFrame);
        emit(writer, Operation::Return);
        Ok(())
    }

    /// Opens a fresh environment.
    pub fn new_scope(scope: &mut Scope)
        ensures
            final(scope)@ == old(scope)@.enter(),
    {
        scope.enter();
    }

    /// Closes the current environment.
    pub fn end_scope(scope: &mut Scope)
        requires
            old(scope)@.wf(),
        ensures
            final(scope)@ == old(scope)@.leave(),
    {
        scope.leave();
    }

    /// Gives back the stack of the current environment and closes the
    /// environment.
    fn release_scope(scope: &mut Scope, writer: &mut Vec<Instruction>)
        requires
            old(scope)@.wf(),
        ensures
            state(final(scope), final(writer)) == state(old(scope), old(writer)).release_scope(),
    {
        emit(writer, Operation::Release(scope.get_environment().stack_pointer()));
        Generator::end_scope(scope);
    }

    /// Emits the code of the statements of a body, up to and with the
    /// first that ends the run.
    fn generate_body(nodes: &Vec<Node>, scope: &mut Scope, writer: &mut Vec<Instruction>) -> (r:
        Result<(), SemanticError>)
        requires
            old(scope)@.wf(),
        ensures
            reaches(
                r,
                state(final(scope), final(writer)),
                state(old(scope), old(writer)).body(nodes_view(nodes@), 0),
            ),
            r is Ok ==> final(scope)@.envs.len() == old(scope)@.envs.len(),
        decreases nodes,
    {
        let ghost all = nodes_view(nodes@);
        let ghost goal = state(old(scope), old(writer)).body(all, 0);
        let mut i: usize = 0;
        while i < nodes.len()
            invariant_except_break
                state(scope, writer).body(all, i as int) == goal,
            invariant
                i <= nodes.len(),
                scope@.wf(),
                scope@.envs.len() == old(scope)@.envs.len(),
                all == nodes_view(nodes@),
                goal == state(old(scope), old(writer)).body(all, 0),
            ensures
                scope@.envs.len() == old(scope)@.envs.len(),
                goal == Ok::<Emission, SemanticError>(state(scope, writer)),
            decreases nodes.len() - i,
        {
            proof {
                vstd::std_specs::vec::axiom_vec_index_decreases(*nodes, i as int);
            }
            if Generator::generate_node(&nodes[i], scope, writer)? {
                break ;
            }
            i += 1;
        }
        Ok(())
    }

    /// Emits the code of all statements of a list, one after another.
    fn generate_all(nodes: &Vec<Node>, scope: &mut Scope, writer: &mut Vec<Instruction>) -> (r:
        Result<(), SemanticError>)
        requires
            old(scope)@.wf(),
        ensures
            reaches(
                r,
                state(final(scope), final(writer)),
                state(old(scope), old(writer)).block(nodes_view(nodes@), 0),
            ),
            r is Ok ==> final(scope)@.envs.len() == old(scope)@.envs.len(),
        decreases nodes,
    {
        let ghost all = nodes_view(nodes@);
        let ghost goal = state(old(scope), old(writer)).block(all, 0);
        let mut i: usize = 0;
        while i < nodes.len()
            invariant
                i <= nodes.len(),
                scope@.wf(),
                scope@.envs.len() == old(scope)@.envs.len(),
                all == nodes_view(nodes@),
                state(scope, writer).block(all, i as int) == goal,
                goal == state(old(scope), old(writer)).block(all, 0),
            decreases nodes.len() - i,
        {
            proof {
                vstd::std_specs::vec::axiom_vec_index_decreases(*nodes, i as int);
            }
            Generator::generate_node(&nodes[i], scope, writer)?;
            i += 1;
        }
        Ok(())
    }

    /// Emits the code of a conditional: a fresh label and environment,
    /// the condition, a jump to the label if the condition is zero, the
    /// body, the release of the environment, and the label.
    pub fn generate_tenpo(tenpo: &TenpoStatement, scope: &mut Scope, writer: &mut Vec<Instruction>) -> (r:
        Result<(), SemanticError>)
        requires
            old(scope)@.wf(),
        ensures
            match state(old(scope), old(writer)).node(tenpo@) {
                Ok((t, _)) => r is Ok && state(final(scope), final(writer)) == t,
                Err(e) => r is Err && r->Err_0 == e,
            },
            r is Ok ==> final(scope)@.envs.len() == old(scope)@.envs.len(),
        decreases tenpo,
    {
        let label_index = scope.next_label()?;
        Generator::new_scope(scope);
        Generator::generate_expression(&tenpo.expr, scope, writer)?;
        let size = tenpo.expr.get_size(scope)?;
        Generator::pop_reg(Register::Rax, size, scope, writer)?;
        emit(writer, Operation::CompareZero);
        emit(writer, Operation::JumpIfEqual(label_index));
        Generator::generate_body(&tenpo.nodes, scope, writer)?;
        Generator::release_scope(scope, writer);
        emit(writer, Operation::EndIf(label_index));
        Ok(())
    }

    /// Emits the declaration of an external function, and makes the
    /// function known.
    pub fn generate_pali_declaration(
        pali: &PaliDeclaration,
        scope: &mut Scope,
        writer: &mut Vec<Instruction>,
    )
        ensures
            state(final(scope), final(writer)) == state(old(scope), old(writer)).external(
                pali.nimi.value@,
                parameters_view(pali.params@),
                optional_text(pali.retval),
            ),
    {
        scope.declare_function(pali);
        emit_named(writer, Directive::Extern, &pali.nimi.value);
    }

    /// Emits the code of a function definition: the function is made
    /// known; its name is made public and becomes a label; in a fresh
    /// environment the frame pointer is pushed and set and the parameters
    /// are bound; the code of every statement of the body follows. What
    /// was written before stays, the function is known afterwards, and a
    /// body that ends in a return from the function, as every body does
    /// that the parser has made, gives code that ends in
    /// `mov rsp, qword rbp`, `pop rbp` and `ret`.
    pub fn generate_pali(pali: &PaliStatement, scope: &mut Scope, writer: &mut Vec<Instruction>) -> (r:
        Result<(), SemanticError>)
        requires
            old(scope)@.wf(),
        ensures
            match state(old(scope), old(writer)).node(pali@) {
                Ok((t, _)) => r is Ok && state(final(scope), final(writer)) == t,
                Err(e) => r is Err && r->Err_0 == e,
            },
            r is Ok ==> final(scope)@.envs.len() == old(scope)@.envs.len(),
            r is Ok ==> final(scope)@.functions.contains_key(pali.nimi.value@),
            r is Ok ==> code_view(final(writer)@).take(old(writer)@.len() as int) == code_view(
                old(writer)@,
            ),
            r is Ok ==> function_head(
                code_view(final(writer)@),
                old(writer)@.len() as int,
                pali.nimi.value@,
            ),
            r is Ok && pali.nodes@.len() > 0 && pali.nodes@.last() is OWeka ==> ends_in_return(
                code_view(final(writer)@),
            ),
        decreases pali,
    {
        proof {
            scope.lemma_bounded();
            lemma_function_shape(
                state(scope, writer),
                pali.nimi.value@,
                parameters_view(pali.params@),
                optional_text(pali.retval),
                nodes_view(pali.nodes@),
            );
        }
        scope.add_function(pali);
        emit_named(writer, Directive::Public, &pali.nimi.value);
        emit_named(writer, Directive::Label, &pali.nimi.value);
        Generator::new_scope(scope);
        Generator::push_reg(Operand::Register(Register::Rbp), 8, scope, writer)?;
        emit(writer, Operation::SetFrame);
        let ghost params = parameters_view(pali.params@);
        let ghost goal = state(scope, writer).parameters(params, 0);
        let mut offset: usize = 0;
        while offset < pali.params.len()
            invariant
                offset <= pali.params.len(),
                scope@.wf(),
                scope@.envs.len() == old(scope)@.envs.len() + 1,
                params == parameters_view(pali.params@),
                state(scope, writer).parameters(params, offset as int) == goal,
                goal == state(old(scope), old(writer)).prologue(
                    pali.nimi.value@,
                    params,
                    optional_text(pali.retval),
                ),
            decreases pali.params.len() - offset,
        {
            match Generator::generate_parameter(&pali.params[offset], scope, offset, writer) {
                Ok(()) => {},
                Err(e) => {
                    return Err(e);
                },
            }
            offset += 1;
        }
        Generator::generate_all(&pali.nodes, scope, writer)?;
        Generator::end_scope(scope);
        Ok(())
    }

    /// Emits the code of a block between parentheses: all its statements
    /// in a fresh environment, and the release of the environment.
    pub fn generate_parenthesis(paren: &Parenthesis, scope: &mut Scope, writer: &mut Vec<Instruction>) -> (r:
        Result<(), SemanticError>)
        requires
            old(scope)@.wf(),
        ensures
            match state(old(scope), old(writer)).node(paren@) {
                Ok((t, _)) => r is Ok && state(final(scope), final(writer)) == t,
                Err(e) => r is Err && r->Err_0 == e,
            },
            r is Ok ==> final(scope)@.envs.len() == old(scope)@.envs.len(),
        decreases paren,
    {
        Generator::new_scope(scope);
        Generator::generate_all(&paren.nodes, scope, writer)?;
        Generator::release_scope(scope, writer);
        Ok(())
    }

    /// Emits the code of a statement. Says whether the statement ends the
    /// run of statements it stands in, as a return from the program or from
    /// a function does.
    pub fn generate_node(node: &Node, scope: &mut Scope, writer: &mut Vec<Instruction>) -> (r: Result<
        bool,
        SemanticError,
    >)
        requires
            old(scope)@.wf(),
        ensures
            match state(old(scope), old(writer)).node(node@) {
                Ok((t, ends)) => r == Ok::<bool, SemanticError>(ends) && state(
                    final(scope),
                    final(writer),
                ) == t,
                Err(e) => r is Err && r->Err_0 == e,
            },
            r is Ok ==> final(scope)@.envs.len() == old(scope)@.envs.len(),
        decreases node,
    {
        match node {
            Node::Otawa(otawa) => {
                Generator::generate_otawa(otawa, scope, writer)?;
                Ok(true)
            },
            Node::Tenpo(tenpo) => {
                Generator::generate_tenpo(tenpo, scope, writer)?;
                Ok(false)
            },
            Node::OSin(osin) => {
                Generator::generate_o_sin(osin, scope, writer)?;
                Ok(false)
            },
            Node::LiKamaSama(kamasama) => {
                Generator::generate_li_kama_sama_statement(kamasama, scope, writer)?;
                Ok(false)
            },
            Node::Pali(pali) => {
                Generator::generate_pali(pali, scope, writer)?;
                Ok(false)
            },
            Node::PaliDeclaration(pali) => {
                Generator::generate_pali_declaration(pali, scope, writer);
                Ok(false)
            },
            Node::OWeka(oweka) => {
                Generator::generate_o_weka(oweka, scope, writer)?;
                Ok(true)
            },
            Node::O(o) => {
                Generator::generate_o(o, scope, writer)?;
                let size = {
                    let func = scope.get_function(&o.nimi.value)?;
                    match &func.return_type {
                        Some(t) => Some(scope.size_of(t)?),
                        None => None,
                    }
                };
                match size {
                    Some(size) => {
                        Generator::pop_reg(Register::Rax, size, scope, writer)?;
                    },
                    None => {},
                }
                Ok(false)
            },
            Node::Parenthesis(paren) => {
                Generator::generate_parenthesis(paren, scope, writer)?;
                Ok(false)
            },
        }
    }

    /// Emits the line that opens every program.
    pub fn generate_prelude(&self, writer: &mut Vec<Instruction>)
        ensures
            code_view(final(writer)@) == code_view(old(writer)@).push(
                InstructionView::Plain(Operation::Format),
            ),
    {
        emit(writer, Operation::Format);
    }

    /// Emits the code of the program: the format line, and the code of
    /// the statements up to and with the first that ends the run.
    pub fn generate(&self, scope: &mut Scope, writer: &mut Vec<Instruction>) -> (r: Result<
        (),
        SemanticError,
    >)
        requires
            old(scope)@.wf(),
        ensures
            reaches(
                r,
                state(final(scope), final(writer)),
                state(old(scope), old(writer)).program(self.nodes()),
            ),
            r is Ok ==> final(scope)@.envs.len() == old(scope)@.envs.len(),
    {
        self.generate_prelude(writer);
        Generator::generate_body(&self.nodes, scope, writer)
    }
}

/// If the types of the first `upto` expressions cannot be found, neither
/// can those of more.
pub proof fn lemma_types_of_fails(args: Seq<ExpressionView>, upto: int, more: int, scope: ScopeView)
    requires
        0 <= upto <= more <= args.len(),
        types_of(args, upto, scope) is Err,
    ensures
        types_of(args, more, scope) == types_of(args, upto, scope),
    decreases more - upto,
{
    if upto < more {
        lemma_types_of_fails(args, upto, more - 1, scope);
    }
}

} // verus!
