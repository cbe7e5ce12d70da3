//! What holds of all generated code: the code only grows, labels are fresh
//! and never repeat, and the stack accounting of the scope moves in step
//! with the pushes, pops and stack adjustments that are emitted.

use vstd::prelude::*;
use crate::assembly::{Directive, InstructionView, Operand, Operation, Register, Width};
use crate::ast::{ExpressionView, NodeView};
use crate::emission::{Emission, size_of_value, type_of};
use crate::error::SemanticError;
use crate::grammar::{function, lemma_function_body_returns};
use crate::precedence::BinaryExpressionType;
use crate::scope::{EnvironmentView, FunctionView, ScopeView, innermost, stack_below};
use crate::token::TokenView;

verus! {

/// The number of bytes by which a run of instructions lowers the stack
/// pointer, counting pushes, pops and adjustments of `rsp` one after
/// another.
pub open spec fn effect(code: Seq<InstructionView>) -> int
    decreases code.len(),
{
    if code.len() == 0 {
        0
    } else {
        effect(code.drop_last()) + code.last().stack_effect()
    }
}

/// The label instruction `.endif_<k>:`.
pub open spec fn label(k: usize) -> InstructionView {
    InstructionView::Plain(Operation::EndIf(k))
}

/// Whether state `b` can follow state `a`: the environments are as many,
/// and all but the current one have the stack they had; the label counter
/// has not gone back; the code of `a` is the start of the code of `b`; and
/// the labels in the code that was added are larger than the counter of `a`,
/// at most the counter of `b`, and all different.
pub open spec fn steps(a: Emission, b: Emission) -> bool {
    &&& b.scope.envs.len() == a.scope.envs.len()
    &&& below_kept(a.scope, b.scope, a.scope.envs.len() - 1)
    &&& grows(a, b)
}

/// Whether the first `count` environments of `b` have the stack that
/// those of `a` have.
pub open spec fn below_kept(a: ScopeView, b: ScopeView, count: int) -> bool {
    forall|i: int|
        0 <= i < count ==> (#[trigger] b.envs[i]).stack_pointer == a.envs[i].stack_pointer
}

/// [`steps`] without the clause on the number of environments. A state
/// that follows one whose stacks fit a machine word has such stacks too,
/// and knows every function that the other knew.
pub open spec fn grows(a: Emission, b: Emission) -> bool {
    &&& a.scope.bounded() ==> b.scope.bounded()
    &&& forall|name: Seq<char>| #[trigger]
        a.scope.functions.contains_key(name) ==> b.scope.functions.contains_key(name)
    &&& a.scope.label_counter <= b.scope.label_counter
    &&& a.code.len() <= b.code.len()
    &&& forall|i: int| 0 <= i < a.code.len() ==> b.code[i] == a.code[i]
    &&& forall|i: int, k: usize|
        a.code.len() <= i < b.code.len() && #[trigger] b.code[i] == #[trigger] label(k)
            ==> a.scope.label_counter < k <= b.scope.label_counter
    &&& forall|i: int, j: int|
        a.code.len() <= i < j < b.code.len() && (exists|k: usize| #[trigger] b.code[i] == label(k))
            ==> #[trigger] b.code[j] != b.code[i]
}

/// Whether the stack accounting moved in step with the code from state
/// `a` to state `b`: the bytes that the added code takes from the stack are
/// the bytes by which the compile-time stack pointer went up.
pub open spec fn balanced(a: Emission, b: Emission) -> bool {
    effect(b.code) - effect(a.code) == b.scope.total_stack() - a.scope.total_stack()
}

/// Whether the scope of state `b` is the scope of state `a` but for the
/// stack of the current environment.
pub open spec fn keeps(a: Emission, b: Emission) -> bool {
    b.scope == a.scope.restack(b.scope.top().stack_pointer)
}

/// Setting the stack of the current environment twice is setting it
/// once; setting it to what it is changes nothing.
pub proof fn lemma_restack(s: ScopeView, x: nat, y: nat)
    requires
        s.wf(),
    ensures
        s.restack(x).restack(y) == s.restack(y),
        s.restack(s.top().stack_pointer) == s,
        s.restack(x).wf(),
        s.restack(x).top().stack_pointer == x,
{
    assert(s.restack(x).restack(y).envs =~= s.restack(y).envs);
    assert(s.restack(s.top().stack_pointer).envs =~= s.envs);
}

/// Two lists of environments that hold the same names below `upto` give
/// the same innermost environment for a name, and it lies below `upto`.
pub proof fn lemma_innermost_agrees(
    a: Seq<EnvironmentView>,
    b: Seq<EnvironmentView>,
    name: Seq<char>,
    upto: int,
)
    requires
        0 <= upto <= a.len(),
        upto <= b.len(),
        forall|i: int| 0 <= i < upto ==> (#[trigger] a[i]).names == b[i].names,
    ensures
        innermost(a, name, upto) == innermost(b, name, upto),
        innermost(a, name, upto) matches Some(found) ==> 0 <= found < upto,
    decreases upto,
{
    if upto > 0 {
        lemma_innermost_agrees(a, b, name, upto - 1);
    }
}

/// The stack of the current environment decides nothing about a
/// variable: neither which environment holds it nor its offset.
pub proof fn lemma_restack_variable(s: ScopeView, x: nat, name: Seq<char>)
    requires
        s.wf(),
    ensures
        s.restack(x).variable(name) == s.variable(name),
{
    let r = s.restack(x);
    lemma_innermost_agrees(s.envs, r.envs, name, s.envs.len() as int);
    match innermost(s.envs, name, s.envs.len() as int) {
        Some(found) => {
            lemma_stack_below_agrees(s.envs, r.envs, found);
            lemma_stack_below_agrees(s.envs, r.envs, s.envs.len() - 1);
        },
        None => {},
    }
}

/// The stack of the current environment decides nothing about the type
/// or the size of an expression.
pub proof fn lemma_restack_type(e: ExpressionView, s: ScopeView, x: nat)
    requires
        s.wf(),
    ensures
        type_of(e, s.restack(x)) == type_of(e, s),
        size_of_value(e, s.restack(x)) == size_of_value(e, s),
    decreases e,
{
    match e {
        ExpressionView::Variable(name) => {
            lemma_restack_variable(s, x, name);
        },
        ExpressionView::Binary { lhs, rhs, .. } => {
            lemma_restack_type(*lhs, s, x);
            lemma_restack_type(*rhs, s, x);
        },
        _ => {},
    }
}

/// One more instruction adds its effect.
pub proof fn lemma_effect_push(code: Seq<InstructionView>, i: InstructionView)
    ensures
        effect(code.push(i)) == effect(code) + i.stack_effect(),
{
    assert(code.push(i).drop_last() =~= code);
}

/// Every state can follow itself.
pub proof fn lemma_steps_same(a: Emission)
    ensures
        steps(a, a),
        balanced(a, a),
        a.scope.wf() ==> keeps(a, a),
{
    if a.scope.wf() {
        lemma_restack(a.scope, 0, 0);
    }
}

/// Growing is transitive.
pub proof fn lemma_grows_chain(a: Emission, b: Emission, c: Emission)
    requires
        grows(a, b),
        grows(b, c),
    ensures
        grows(a, c),
{
    assert forall|name: Seq<char>| #[trigger]
        a.scope.functions.contains_key(name) implies c.scope.functions.contains_key(name) by {
        assert(b.scope.functions.contains_key(name));
    }
}

/// Following is transitive, and so is balance.
pub proof fn lemma_steps_chain(a: Emission, b: Emission, c: Emission)
    requires
        steps(a, b),
        steps(b, c),
    ensures
        steps(a, c),
        balanced(a, b) && balanced(b, c) ==> balanced(a, c),
        a.scope.wf() && keeps(a, b) && keeps(b, c) ==> keeps(a, c),
{
    if a.scope.wf() && keeps(a, b) && keeps(b, c) {
        lemma_restack(a.scope, b.scope.top().stack_pointer, c.scope.top().stack_pointer);
    }
}

/// One more instruction that is no label can follow.
pub proof fn lemma_emit(a: Emission, op: Operation)
    requires
        !(op is EndIf),
    ensures
        steps(a, a.emit(op)),
        effect(a.emit(op).code) == effect(a.code) + op.stack_effect(),
        a.emit(op).scope == a.scope,
        a.scope.wf() ==> keeps(a, a.emit(op)),
{
    lemma_effect_push(a.code, InstructionView::Plain(op));
    if a.scope.wf() {
        lemma_restack(a.scope, 0, 0);
    }
}

/// One more named instruction can follow.
pub proof fn lemma_emit_named(a: Emission, directive: Directive, name: Seq<char>)
    ensures
        steps(a, a.emit_named(directive, name)),
        balanced(a, a.emit_named(directive, name)),
        a.emit_named(directive, name).scope == a.scope,
        a.scope.wf() ==> keeps(a, a.emit_named(directive, name)),
{
    lemma_effect_push(a.code, InstructionView::Named(directive, name));
    if a.scope.wf() {
        lemma_restack(a.scope, 0, 0);
    }
}

/// Two lists of environments that agree below `upto` have the same stack
/// below `upto`.
pub proof fn lemma_stack_below_agrees(
    a: Seq<EnvironmentView>,
    b: Seq<EnvironmentView>,
    upto: int,
)
    requires
        0 <= upto <= a.len(),
        upto <= b.len(),
        forall|i: int| 0 <= i < upto ==> a[i].stack_pointer == b[i].stack_pointer,
    ensures
        stack_below(a, upto) == stack_below(b, upto),
    decreases upto,
{
    if upto > 0 {
        lemma_stack_below_agrees(a, b, upto - 1);
    }
}

/// Another current environment changes the compile-time stack pointer by
/// the difference of the two.
pub proof fn lemma_with_top(scope: ScopeView, env: EnvironmentView)
    requires
        scope.wf(),
    ensures
        scope.with_top(env).total_stack() == scope.total_stack() - scope.top().stack_pointer
            + env.stack_pointer,
        scope.with_top(env).envs.len() == scope.envs.len(),
        scope.with_top(env).top() == env,
{
    lemma_stack_below_agrees(scope.envs, scope.with_top(env).envs, scope.envs.len() - 1);
}

/// A fresh environment leaves the compile-time stack pointer as it is;
/// closing the current one takes its stack away.
pub proof fn lemma_enter_leave(scope: ScopeView)
    ensures
        scope.enter().total_stack() == scope.total_stack(),
        scope.enter().envs.len() == scope.envs.len() + 1,
        scope.enter().leave() == scope,
        scope.wf() ==> scope.leave().total_stack() == scope.total_stack()
            - scope.top().stack_pointer,
{
    lemma_stack_below_agrees(scope.envs, scope.enter().envs, scope.envs.len() as int);
    assert(scope.enter().envs.drop_last() =~= scope.envs);
    if scope.wf() {
        lemma_stack_below_agrees(scope.envs, scope.leave().envs, scope.envs.len() - 1);
    }
}

/// A push of an integer can follow, in balance.
pub proof fn lemma_push(a: Emission, i: int)
    requires
        a.scope.wf(),
    ensures
        a.push(i) matches Ok(b) ==> steps(a, b) && balanced(a, b) && keeps(a, b),
{
    lemma_emit(a, Operation::PushImmediate(i as i64));
    lemma_with_top(
        a.scope,
        EnvironmentView { stack_pointer: a.scope.top().stack_pointer + 8, ..a.scope.top() },
    );
}

/// A push of an operand can follow, in balance.
pub proof fn lemma_push_reg(a: Emission, operand: Operand, size: nat)
    requires
        a.scope.wf(),
    ensures
        a.push_reg(operand, size) matches Ok(b) ==> steps(a, b) && balanced(a, b) && keeps(a, b),
{
    match Width::of(size) {
        Some(width) => {
            lemma_emit(a, Operation::Push(width, operand));
            lemma_with_top(
                a.scope,
                EnvironmentView {
                    stack_pointer: a.scope.top().stack_pointer + size,
                    ..a.scope.top()
                },
            );
        },
        None => {},
    }
}

/// A pop into a register can follow, in balance.
pub proof fn lemma_pop_reg(a: Emission, register: Register, size: nat)
    requires
        a.scope.wf(),
    ensures
        a.pop_reg(register, size) matches Ok(b) ==> steps(a, b) && balanced(a, b) && keeps(a, b),
{
    match Width::of(size) {
        Some(width) => {
            lemma_emit(a, Operation::Pop(width, register));
            lemma_with_top(
                a.scope,
                EnvironmentView {
                    stack_pointer: (a.scope.top().stack_pointer - size) as nat,
                    ..a.scope.top()
                },
            );
        },
        None => {},
    }
}

/// A move can follow, in balance.
pub proof fn lemma_mov(a: Emission, to: Operand, size: nat, from: Operand)
    ensures
        a.mov(to, size, from) matches Ok(b) ==> steps(a, b) && balanced(a, b) && b.scope == a.scope
            && (a.scope.wf() ==> keeps(a, b)),
{
    match Width::of(size) {
        Some(width) => {
            lemma_emit(a, Operation::Move(to, width, from));
        },
        None => {},
    }
}

/// A declaration can follow, in balance.
pub proof fn lemma_add_variable(
    a: Emission,
    name: Seq<char>,
    var_type: Seq<char>,
    register: Option<Register>,
)
    requires
        a.scope.wf(),
    ensures
        a.add_variable(name, var_type, register) matches Ok(b) ==> steps(a, b) && balanced(a, b),
{
    match a.scope.size_of(var_type) {
        Ok(size) => {
            let bound = a.with_scope(a.scope.bind(name, var_type));
            lemma_with_top(
                a.scope,
                EnvironmentView {
                    names: a.scope.top().names.insert(
                        name,
                        crate::scope::VariableView {
                            var_type,
                            stack_pos: a.scope.top().stack_pointer,
                        },
                    ),
                    ..a.scope.top()
                },
            );
            match register {
                Some(r) => {
                    lemma_push_reg(bound, Operand::Register(r), size);
                },
                None => {
                    match bound.scope.grow(size) {
                        Ok(scope) => {
                            lemma_emit(bound, Operation::Allocate(size as usize));
                            lemma_with_top(
                                bound.scope,
                                EnvironmentView {
                                    stack_pointer: bound.scope.top().stack_pointer + size,
                                    ..bound.scope.top()
                                },
                            );
                        },
                        Err(_) => {},
                    }
                },
            }
        },
        Err(_) => {},
    }
}

/// The binding of parameters can follow, in balance.
pub proof fn lemma_parameters(a: Emission, parameters: Seq<(Seq<char>, Seq<char>)>, from: int)
    requires
        a.scope.wf(),
    ensures
        a.parameters(parameters, from) matches Ok(b) ==> steps(a, b) && balanced(a, b),
    decreases parameters.len() - from,
{
    if 0 <= from < parameters.len() {
        let register = Some(Register::argument(from as nat));
        lemma_add_variable(a, parameters[from].1, parameters[from].0, register);
        match a.add_variable(parameters[from].1, parameters[from].0, register) {
            Ok(next) => {
                lemma_parameters(next, parameters, from + 1);
            },
            Err(_) => {},
        }
    }
}

/// The code of an operator can follow, in balance.
pub proof fn lemma_operator(a: Emission, kind: BinaryExpressionType, size: nat)
    requires
        a.scope.wf(),
    ensures
        a.operator(kind, size) matches Ok(b) ==> steps(a, b) && balanced(a, b) && keeps(a, b),
{
    let r8 = Operand::Register(Register::R8);
    let rax = Operand::Register(Register::Rax);
    match kind {
        BinaryExpressionType::Add => {
            lemma_emit(a, Operation::Add);
            let t = a.emit(Operation::Add);
            lemma_push_reg(t, r8, size);
        },
        BinaryExpressionType::Subtract => {
            lemma_emit(a, Operation::Subtract);
            let t = a.emit(Operation::Subtract);
            lemma_push_reg(t, r8, size);
        },
        BinaryExpressionType::Multiply => {
            lemma_mov(a, rax, size, r8);
            match a.mov(rax, size, r8) {
                Ok(t) => {
                    lemma_emit(t, Operation::Multiply);
                    let u = t.emit(Operation::Multiply);
                    lemma_push_reg(u, rax, size);
                },
                Err(_) => {},
            }
        },
        BinaryExpressionType::Divide => {
            lemma_emit(a, Operation::Zero(Register::Rdx));
            let z = a.emit(Operation::Zero(Register::Rdx));
            lemma_mov(z, rax, size, r8);
            match z.mov(rax, size, r8) {
                Ok(t) => {
                    lemma_emit(t, Operation::Divide);
                    let u = t.emit(Operation::Divide);
                    lemma_push_reg(u, rax, size);
                },
                Err(_) => {},
            }
        },
        BinaryExpressionType::Equals => {
            lemma_emit(a, Operation::Zero(Register::Ecx));
            let z = a.emit(Operation::Zero(Register::Ecx));
            lemma_emit(z, Operation::Compare);
            let c = z.emit(Operation::Compare);
            lemma_emit(c, Operation::SetIfZero);
            let u = c.emit(Operation::SetIfZero);
            lemma_push_reg(u, Operand::Register(Register::Rcx), size);
        },
        BinaryExpressionType::GreaterThan | BinaryExpressionType::LessThan => {
            lemma_steps_same(a);
        },
    }
}

/// What follows the operands of a binary expression can follow, in
/// balance.
pub proof fn lemma_binary_tail(a: Emission, whole: ExpressionView, kind: BinaryExpressionType)
    requires
        a.scope.wf(),
    ensures
        a.binary_tail(whole, kind) matches Ok(b) ==> steps(a, b) && balanced(a, b) && keeps(a, b),
{
    match size_of_value(whole, a.scope) {
        Ok(size) => {
            lemma_pop_reg(a, Register::R9, size);
            match a.pop_reg(Register::R9, size) {
                Ok(p) => {
                    lemma_pop_reg(p, Register::R8, size);
                    match p.pop_reg(Register::R8, size) {
                        Ok(q) => {
                            lemma_steps_chain(a, p, q);
                            lemma_operator(q, kind, size);
                            match q.operator(kind, size) {
                                Ok(b) => {
                                    lemma_steps_chain(a, q, b);
                                },
                                Err(_) => {},
                            }
                        },
                        Err(_) => {},
                    }
                },
                Err(_) => {},
            }
        },
        Err(_) => {},
    }
}

/// What follows the arguments of a call can follow, in balance.
pub proof fn lemma_call_tail(a: Emission, name: Seq<char>, function: FunctionView)
    requires
        a.scope.wf(),
    ensures
        a.call_tail(name, function) matches Ok(b) ==> steps(a, b) && balanced(a, b) && keeps(a, b),
{
    lemma_emit_named(a, Directive::Call, name);
    let called = a.emit_named(Directive::Call, name);
    match function.return_type {
        Some(t) => match called.scope.size_of(t) {
            Ok(size) => {
                lemma_push_reg(called, Operand::Register(Register::Rax), size);
            },
            Err(_) => {},
        },
        None => {},
    }
}

/// The code of an expression can follow, in balance.
pub proof fn lemma_expression(a: Emission, e: ExpressionView)
    requires
        a.scope.wf(),
    ensures
        a.expression(e) matches Ok(b) ==> steps(a, b) && balanced(a, b) && keeps(a, b),
    decreases e, 0nat,
{
    match e {
        ExpressionView::Number(i) => {
            lemma_push(a, i);
        },
        ExpressionView::Variable(name) => match a.scope.variable(name) {
            Ok((variable, offset)) => match a.scope.size_of(variable.var_type) {
                Ok(size) => {
                    lemma_push_reg(a, Operand::Frame(offset as i64), size);
                },
                Err(_) => {},
            },
            Err(_) => {},
        },
        ExpressionView::Text(_) => {
            lemma_steps_same(a);
        },
        ExpressionView::Call { name, arguments } => match a.scope.function(name) {
            Ok(function) => {
                lemma_arguments(a, arguments, arguments.len() as int);
                match a.arguments(arguments, arguments.len() as int) {
                    Ok(t) => {
                        lemma_call_tail(t, name, function);
                        match t.call_tail(name, function) {
                            Ok(b) => {
                                lemma_steps_chain(a, t, b);
                            },
                            Err(_) => {},
                        }
                    },
                    Err(_) => {},
                }
            },
            Err(_) => {},
        },
        ExpressionView::Binary { kind, lhs, rhs } => {
            lemma_expression(a, *lhs);
            match a.expression(*lhs) {
                Ok(l) => {
                    lemma_expression(l, *rhs);
                    match l.expression(*rhs) {
                        Ok(r) => {
                            lemma_steps_chain(a, l, r);
                            lemma_binary_tail(r, e, kind);
                            match r.binary_tail(e, kind) {
                                Ok(b) => {
                                    lemma_steps_chain(a, r, b);
                                },
                                Err(_) => {},
                            }
                        },
                        Err(_) => {},
                    }
                },
                Err(_) => {},
            }
        },
    }
}

/// The code of the arguments of a call can follow, in balance.
pub proof fn lemma_arguments(a: Emission, args: Seq<ExpressionView>, count: int)
    requires
        a.scope.wf(),
    ensures
        a.arguments(args, count) matches Ok(b) ==> steps(a, b) && balanced(a, b) && keeps(a, b),
    decreases args, count,
{
    if 0 < count <= args.len() {
        lemma_expression(a, args[count - 1]);
        match a.expression(args[count - 1]) {
            Ok(t) => match size_of_value(args[count - 1], t.scope) {
                Ok(size) => {
                    lemma_pop_reg(t, Register::argument((count - 1) as nat), size);
                    match t.pop_reg(Register::argument((count - 1) as nat), size) {
                        Ok(u) => {
                            lemma_steps_chain(a, t, u);
                            lemma_arguments(u, args, count - 1);
                            match u.arguments(args, count - 1) {
                                Ok(b) => {
                                    lemma_steps_chain(a, u, b);
                                },
                                Err(_) => {},
                            }
                        },
                        Err(_) => {},
                    }
                },
                Err(_) => {},
            },
            Err(_) => {},
        }
    } else {
        lemma_steps_same(a);
    }
}

/// Whether numbers have 8 bytes in a scope, as they have in the initial
/// one: a push of a number always takes 8 bytes.
pub open spec fn numbers_fit(scope: ScopeView) -> bool {
    scope.size_of("nanpa"@) == Ok::<nat, SemanticError>(8)
}

/// Where numbers have 8 bytes, the code of an expression leaves at most
/// the value of the expression on the stack of the current environment.
pub proof fn lemma_expression_surplus(a: Emission, e: ExpressionView)
    requires
        a.scope.wf(),
        numbers_fit(a.scope),
    ensures
        a.expression(e) matches Ok(b) ==> (size_of_value(e, b.scope) matches Ok(size)
            ==> b.scope.top().stack_pointer <= a.scope.top().stack_pointer + size),
    decreases e, 0nat,
{
    lemma_expression(a, e);
    match a.expression(e) {
        Ok(b) => {
            // The scope of `b` differs from that of `a` in the stack of the
            // current environment only, so `e` has the same size in both.
            lemma_restack_type(e, a.scope, b.scope.top().stack_pointer);
            match e {
                ExpressionView::Call { name, arguments } => {
                    // The arguments leave nothing; the call pushes what it
                    // returns.
                    lemma_arguments(a, arguments, arguments.len() as int);
                    lemma_arguments_surplus(a, arguments, arguments.len() as int);
                    assert(a.scope.function(name) is Ok);
                    assert(a.arguments(arguments, arguments.len() as int) is Ok);
                },
                ExpressionView::Binary { kind, lhs, rhs } => {
                    // Each side leaves at most its value, both values are
                    // popped, and the operator pushes at most one.
                    let l = a.expression(*lhs)->Ok_0;
                    let r = l.expression(*rhs)->Ok_0;
                    lemma_expression(a, *lhs);
                    lemma_expression(l, *rhs);
                    lemma_expression_surplus(a, *lhs);
                    lemma_expression_surplus(l, *rhs);
                    lemma_restack_type(*lhs, a.scope, l.scope.top().stack_pointer);
                    let size = size_of_value(e, r.scope)->Ok_0;
                    assert(r.pop_reg(Register::R9, size) is Ok);
                },
                _ => {},
            }
        },
        Err(_) => {},
    }
}

/// Where numbers have 8 bytes, the code of the arguments of a call
/// leaves nothing on the stack of the current environment.
pub proof fn lemma_arguments_surplus(a: Emission, args: Seq<ExpressionView>, count: int)
    requires
        a.scope.wf(),
        numbers_fit(a.scope),
    ensures
        a.arguments(args, count) matches Ok(b) ==> b.scope.top().stack_pointer
            <= a.scope.top().stack_pointer,
    decreases args, count,
{
    if 0 < count <= args.len() {
        lemma_expression(a, args[count - 1]);
        lemma_expression_surplus(a, args[count - 1]);
        match a.expression(args[count - 1]) {
            Ok(t) => match size_of_value(args[count - 1], t.scope) {
                Ok(size) => {
                    let register = Register::argument((count - 1) as nat);
                    match t.pop_reg(register, size) {
                        Ok(u) => {
                            lemma_restack(
                                t.scope,
                                (t.scope.top().stack_pointer - size) as nat,
                                0,
                            );
                            lemma_arguments_surplus(u, args, count - 1);
                        },
                        Err(_) => {},
                    }
                },
                Err(_) => {},
            },
            Err(_) => {},
        }
    }
}

/// Where numbers have 8 bytes, the head of a conditional leaves nothing
/// on the stack of the environment that it opens: the value of the
/// condition is popped again.
pub proof fn lemma_condition_empty(a: Emission, condition: ExpressionView)
    requires
        a.scope.wf(),
        numbers_fit(a.scope),
    ensures
        a.condition(condition) matches Ok((b, _)) ==> b.scope.top().stack_pointer == 0,
{
    match a.scope.next_label() {
        Ok((scope, l)) => {
            let opened = a.with_scope(scope).new_scope();
            lemma_expression(opened, condition);
            lemma_expression_surplus(opened, condition);
            match opened.expression(condition) {
                Ok(t) => match size_of_value(condition, t.scope) {
                    Ok(size) => {},
                    Err(_) => {},
                },
                Err(_) => {},
            }
        },
        Err(_) => {},
    }
}

/// Whether a statement holds no function definition, at any depth.
pub open spec fn flat(n: NodeView) -> bool
    decreases n, 0nat,
{
    match n {
        NodeView::Function { .. } => false,
        NodeView::If { body, .. } => all_flat(body, 0),
        NodeView::Block(body) => all_flat(body, 0),
        _ => true,
    }
}

/// Whether the statements from index `from` on hold no function
/// definition.
pub open spec fn all_flat(nodes: Seq<NodeView>, from: int) -> bool
    decreases nodes, nodes.len() - from,
{
    if from < 0 || from >= nodes.len() {
        true
    } else {
        flat(nodes[from]) && all_flat(nodes, from + 1)
    }
}

/// The end of a function can follow, in balance: it is no push and no
/// pop that is counted.
pub proof fn lemma_leave_function(a: Emission)
    ensures
        steps(a, a.leave_function()),
        balanced(a, a.leave_function()),
{
    let rsp = Operand::Register(Register::Rsp);
    let rbp = Operand::Register(Register::Rbp);
    let m = Operation::Move(rsp, Width::Qword, rbp);
    lemma_emit(a, m);
    lemma_emit(a.emit(m), Operation::RestoreFrame);
    lemma_emit(a.emit(m).emit(Operation::RestoreFrame), Operation::Return);
}

/// A return from the program can follow, in balance.
pub proof fn lemma_exit(a: Emission, value: ExpressionView)
    requires
        a.scope.wf(),
    ensures
        a.exit(value) matches Ok(b) ==> steps(a, b) && balanced(a, b),
{
    lemma_expression(a, value);
    match a.expression(value) {
        Ok(t) => match size_of_value(value, t.scope) {
            Ok(size) => {
                lemma_pop_reg(t, Register::Rdi, size);
                match t.pop_reg(Register::Rdi, size) {
                    Ok(u) => {
                        let rax = Operand::Register(Register::Rax);
                        lemma_mov(u, rax, size, Operand::Immediate(60));
                        match u.mov(rax, size, Operand::Immediate(60)) {
                            Ok(v) => {
                                lemma_emit(v, Operation::Syscall);
                            },
                            Err(_) => {},
                        }
                    },
                    Err(_) => {},
                }
            },
            Err(_) => {},
        },
        Err(_) => {},
    }
}

/// A store into a variable can follow, in balance.
pub proof fn lemma_receive(a: Emission, name: Seq<char>)
    requires
        a.scope.wf(),
    ensures
        a.receive(name) matches Ok(b) ==> steps(a, b) && balanced(a, b),
{
    match a.scope.variable(name) {
        Ok((variable, offset)) => match a.scope.size_of(variable.var_type) {
            Ok(size) => {
                lemma_pop_reg(a, Register::R9, size);
                match a.pop_reg(Register::R9, size) {
                    Ok(t) => {
                        let r9 = Operand::Register(Register::R9);
                        lemma_mov(t, Operand::Frame(offset as i64), size, r9);
                    },
                    Err(_) => {},
                }
            },
            Err(_) => {},
        },
        Err(_) => {},
    }
}

/// A return from a function can follow, in balance.
pub proof fn lemma_return_from(a: Emission, value: Option<ExpressionView>)
    requires
        a.scope.wf(),
    ensures
        a.return_from(value) matches Ok(b) ==> steps(a, b) && balanced(a, b),
{
    match value {
        None => {
            lemma_leave_function(a);
        },
        Some(e) => match size_of_value(e, a.scope) {
            Ok(size) => {
                lemma_expression(a, e);
                match a.expression(e) {
                    Ok(t) => {
                        lemma_pop_reg(t, Register::Rax, size);
                        match t.pop_reg(Register::Rax, size) {
                            Ok(u) => {
                                lemma_leave_function(u);
                            },
                            Err(_) => {},
                        }
                    },
                    Err(_) => {},
                }
            },
            Err(_) => {},
        },
    }
}

/// A call that stands as a statement can follow, in balance.
pub proof fn lemma_call_statement(a: Emission, name: Seq<char>, arguments: Seq<ExpressionView>)
    requires
        a.scope.wf(),
    ensures
        a.call_statement(name, arguments) matches Ok(b) ==> steps(a, b) && balanced(a, b),
{
    let call = ExpressionView::Call { name, arguments };
    lemma_expression(a, call);
    match a.expression(call) {
        Ok(t) => match t.scope.function(name) {
            Ok(function) => match function.return_type {
                Some(ty) => match t.scope.size_of(ty) {
                    Ok(size) => {
                        lemma_pop_reg(t, Register::Rax, size);
                    },
                    Err(_) => {},
                },
                None => {},
            },
            Err(_) => {},
        },
        Err(_) => {},
    }
}

/// The head of a conditional opens one environment and takes the next
/// label; no label stands in its code; and it is in balance.
pub proof fn lemma_condition(a: Emission, condition: ExpressionView)
    requires
        a.scope.wf(),
    ensures
        a.condition(condition) matches Ok((b, l)) ==> {
            &&& l == a.scope.label_counter + 1
            &&& b.scope.envs.len() == a.scope.envs.len() + 1
            &&& below_kept(a.scope, b.scope, a.scope.envs.len() as int)
            &&& grows(a.with_scope(ScopeView { label_counter: l as nat, ..a.scope }), b)
            &&& balanced(a, b)
        },
{
    match a.scope.next_label() {
        Ok((scope, l)) => {
            let taken = a.with_scope(scope);
            let opened = taken.new_scope();
            lemma_enter_leave(scope);
            lemma_expression(opened, condition);
            match opened.expression(condition) {
                Ok(t) => match size_of_value(condition, t.scope) {
                    Ok(size) => {
                        lemma_pop_reg(t, Register::Rax, size);
                        match t.pop_reg(Register::Rax, size) {
                            Ok(u) => {
                                lemma_emit(u, Operation::CompareZero);
                                let c = u.emit(Operation::CompareZero);
                                lemma_emit(c, Operation::JumpIfEqual(l as usize));
                            },
                            Err(_) => {},
                        }
                    },
                    Err(_) => {},
                },
                Err(_) => {},
            }
        },
        Err(_) => {},
    }
}

/// The head of a function definition opens one environment; it is in
/// balance.
pub proof fn lemma_prologue(
    a: Emission,
    name: Seq<char>,
    parameters: Seq<(Seq<char>, Seq<char>)>,
    return_type: Option<Seq<char>>,
)
    ensures
        a.prologue(name, parameters, return_type) matches Ok(b) ==> {
            &&& b.scope.envs.len() == a.scope.envs.len() + 1
            &&& below_kept(a.scope, b.scope, a.scope.envs.len() as int)
            &&& grows(a, b)
            &&& balanced(a, b)
        },
{
    let known = a.with_scope(
        a.scope.with_function(
            name,
            FunctionView { return_type, parameter_types: crate::scope::parameter_types(parameters) },
        ),
    );
    lemma_emit_named(known, Directive::Public, name);
    let public = known.emit_named(Directive::Public, name);
    lemma_emit_named(public, Directive::Label, name);
    let labelled = public.emit_named(Directive::Label, name);
    let opened = labelled.new_scope();
    lemma_enter_leave(labelled.scope);
    let rbp = Operand::Register(Register::Rbp);
    lemma_push_reg(opened, rbp, 8);
    match opened.push_reg(rbp, 8) {
        Ok(p) => {
            lemma_emit(p, Operation::SetFrame);
            let f = p.emit(Operation::SetFrame);
            lemma_parameters(f, parameters, 0);
            match f.parameters(parameters, 0) {
                Ok(b) => {
                    assert(grows(a, known));
                    lemma_grows_chain(a, known, public);
                    lemma_grows_chain(a, public, labelled);
                    assert(grows(labelled, opened));
                    lemma_grows_chain(a, labelled, opened);
                    lemma_grows_chain(a, opened, p);
                    lemma_grows_chain(a, p, f);
                    lemma_grows_chain(a, f, b);
                },
                Err(_) => {},
            }
        },
        Err(_) => {},
    }
}

/// The release of the current environment closes it, in balance.
pub proof fn lemma_release_scope(a: Emission)
    requires
        a.scope.envs.len() >= 2,
        a.scope.bounded(),
    ensures
        a.release_scope().scope.envs.len() == a.scope.envs.len() - 1,
        below_kept(a.scope, a.release_scope().scope, a.scope.envs.len() - 1),
        grows(a, a.release_scope()),
        balanced(a, a.release_scope()),
{
    let op = Operation::Release(a.scope.top().stack_pointer as usize);
    lemma_emit(a, op);
    lemma_enter_leave(a.scope);
}

/// The code of a statement can follow; and it is in balance if the
/// statement holds no function definition.
pub proof fn lemma_node(a: Emission, n: NodeView)
    requires
        a.scope.wf(),
        a.scope.bounded(),
    ensures
        a.node(n) matches Ok((b, _)) ==> steps(a, b) && (flat(n) ==> balanced(a, b)),
    decreases n, 0nat,
{
    match n {
        NodeView::Exit(value) => {
            lemma_exit(a, value);
        },
        NodeView::Declare { var_type, name } => {
            lemma_add_variable(a, name, var_type, None);
        },
        NodeView::Assign { name, value } => {
            lemma_expression(a, value);
            match a.expression(value) {
                Ok(t) => {
                    lemma_receive(t, name);
                },
                Err(_) => {},
            }
        },
        NodeView::Function { name, parameters, return_type, body } => {
            lemma_prologue(a, name, parameters, return_type);
            match a.prologue(name, parameters, return_type) {
                Ok(p) => {
                    lemma_block(p, body, 0);
                },
                Err(_) => {},
            }
        },
        NodeView::External { name, parameters, return_type } => {
            let known = a.with_scope(
                a.scope.with_function(
                    name,
                    FunctionView {
                        return_type,
                        parameter_types: crate::scope::parameter_types(parameters),
                    },
                ),
            );
            lemma_emit_named(known, Directive::Extern, name);
        },
        NodeView::Call { name, arguments } => {
            lemma_call_statement(a, name, arguments);
        },
        NodeView::If { condition, body } => {
            lemma_condition(a, condition);
            match a.condition(condition) {
                Ok((c, l)) => {
                    lemma_body(c, body, 0);
                    match c.body(body, 0) {
                        Ok(d) => {
                            lemma_release_scope(d);
                            let e = d.release_scope();
                            lemma_effect_push(e.code, label(l));
                        },
                        Err(_) => {},
                    }
                },
                Err(_) => {},
            }
        },
        NodeView::Return(value) => {
            lemma_return_from(a, value);
        },
        NodeView::Block(body) => {
            let opened = a.new_scope();
            lemma_enter_leave(a.scope);
            lemma_block(opened, body, 0);
            match opened.block(body, 0) {
                Ok(d) => {
                    lemma_release_scope(d);
                },
                Err(_) => {},
            }
        },
    }
}

/// The code of a body can follow; and it is in balance if the body holds
/// no function definition.
pub proof fn lemma_body(a: Emission, nodes: Seq<NodeView>, from: int)
    requires
        a.scope.wf(),
        a.scope.bounded(),
    ensures
        a.body(nodes, from) matches Ok(b) ==> steps(a, b) && (all_flat(nodes, from) ==> balanced(
            a,
            b,
        )),
    decreases nodes, nodes.len() - from,
{
    if 0 <= from < nodes.len() {
        lemma_node(a, nodes[from]);
        match a.node(nodes[from]) {
            Ok((next, ends)) => {
                if !ends {
                    lemma_body(next, nodes, from + 1);
                }
            },
            Err(_) => {},
        }
    }
}

/// The code of a block can follow; and it is in balance if the block
/// holds no function definition.
pub proof fn lemma_block(a: Emission, nodes: Seq<NodeView>, from: int)
    requires
        a.scope.wf(),
        a.scope.bounded(),
    ensures
        a.block(nodes, from) matches Ok(b) ==> steps(a, b) && (all_flat(nodes, from) ==> balanced(
            a,
            b,
        )),
    decreases nodes, nodes.len() - from,
{
    if 0 <= from < nodes.len() {
        lemma_node(a, nodes[from]);
        match a.node(nodes[from]) {
            Ok((next, _)) => {
                lemma_block(next, nodes, from + 1);
            },
            Err(_) => {},
        }
    }
}

/// The label counter is monotonic, and labels are unique: in the code of
/// a program no label is defined twice, every label is larger than the
/// counter was at the start and at most what the counter is at the end, and
/// the counter never goes back.
pub proof fn lemma_labels_unique(scope: ScopeView, nodes: Seq<NodeView>)
    requires
        scope.wf(),
        scope.bounded(),
    ensures
        Emission::start(scope).program(nodes) matches Ok(t) ==> {
            &&& scope.label_counter <= t.scope.label_counter
            &&& forall|i: int, k: usize|
                0 <= i < t.code.len() && #[trigger] t.code[i] == #[trigger] label(k)
                    ==> scope.label_counter < k <= t.scope.label_counter
            &&& forall|i: int, j: int, k: usize|
                0 <= i < j < t.code.len() && #[trigger] t.code[i] == #[trigger] label(k)
                    ==> #[trigger] t.code[j] != label(k)
        },
{
    let start = Emission::start(scope);
    let first = start.emit(Operation::Format);
    lemma_body(first, nodes, 0);
}

/// Stack accounting: the compile-time stack pointer moves in step with
/// the emitted code. For every statement that holds no function
/// definition, and so for every run of such statements, the change of the
/// sum of the stack pointers of all environments equals the number of bytes
/// by which the pushes, pops and adjustments of `rsp` in the code of the
/// statement lower the stack pointer.
pub proof fn lemma_statement_stack(a: Emission, n: NodeView)
    requires
        a.scope.wf(),
        a.scope.bounded(),
        flat(n),
    ensures
        a.node(n) matches Ok((b, _)) ==> b.scope.total_stack() - a.scope.total_stack() == effect(
            b.code,
        ) - effect(a.code),
{
    lemma_node(a, n);
}

/// Stack accounting in a function: at the boundary behind each of the
/// first statements of the body of a function, as long as they hold no
/// function definition, the compile-time stack pointer has gone up, since
/// the entry of the function, by exactly the bytes by which the code emitted
/// since then lowers `rsp`. The boundary behind the first `k` statements is
/// the state in which the body cut to `k` statements leaves the generator.
pub proof fn lemma_function_stack(
    a: Emission,
    name: Seq<char>,
    parameters: Seq<(Seq<char>, Seq<char>)>,
    return_type: Option<Seq<char>>,
    body: Seq<NodeView>,
    k: int,
)
    requires
        a.scope.wf(),
        a.scope.bounded(),
        0 <= k <= body.len(),
        all_flat(body.take(k), 0),
    ensures
        a.prologue(name, parameters, return_type) matches Ok(p) ==> (p.block(body.take(k), 0) matches Ok(
            t,
        ) ==> t.scope.total_stack() - a.scope.total_stack() == effect(t.code) - effect(a.code)),
{
    lemma_prologue(a, name, parameters, return_type);
    match a.prologue(name, parameters, return_type) {
        Ok(p) => {
            lemma_block(p, body.take(k), 0);
        },
        Err(_) => {},
    }
}

/// Stack accounting on both paths of a conditional: where numbers have 8
/// bytes and the body holds no function definition, the code between the
/// jump of a conditional and its label, which is the body and the release
/// of its environment, does not move the stack pointer on balance. So the
/// stack pointer at the label is the same whether the body was run or
/// skipped, and the accounting at the boundary behind the conditional holds
/// on both paths.
pub proof fn lemma_conditional_paths(a: Emission, condition: ExpressionView, body: Seq<NodeView>)
    requires
        a.scope.wf(),
        a.scope.bounded(),
        numbers_fit(a.scope),
        all_flat(body, 0),
    ensures
        a.condition(condition) matches Ok((c, _)) ==> (c.body(body, 0) matches Ok(d) ==> effect(
            d.release_scope().code,
        ) == effect(c.code)),
{
    lemma_condition(a, condition);
    lemma_condition_empty(a, condition);
    match a.condition(condition) {
        Ok((c, _)) => {
            lemma_body(c, body, 0);
            match c.body(body, 0) {
                Ok(d) => {
                    let n = a.scope.envs.len() as int;
                    lemma_stack_below_agrees(c.scope.envs, d.scope.envs, n);
                    lemma_release_scope(d);
                    lemma_enter_leave(d.scope);
                },
                Err(_) => {},
            }
        },
        Err(_) => {},
    }
}

/// Whether a run of instructions ends in the three that leave a
/// function: `mov rsp, qword rbp`, `pop rbp` and `ret`.
pub open spec fn ends_in_return(code: Seq<InstructionView>) -> bool {
    &&& code.len() >= 3
    &&& code[code.len() - 3] == InstructionView::Plain(
        Operation::Move(
            Operand::Register(Register::Rsp),
            Width::Qword,
            Operand::Register(Register::Rbp),
        ),
    )
    &&& code[code.len() - 2] == InstructionView::Plain(Operation::RestoreFrame)
    &&& code[code.len() - 1] == InstructionView::Plain(Operation::Return)
}

/// The code of a return from a function ends in the three instructions
/// that leave the function.
pub proof fn lemma_return_ends(a: Emission, value: Option<ExpressionView>)
    ensures
        a.return_from(value) matches Ok(b) ==> ends_in_return(b.code),
{
}

/// The code of a list of statements whose last is a return from a
/// function ends in the three instructions that leave the function.
pub proof fn lemma_block_ends(a: Emission, nodes: Seq<NodeView>, from: int)
    requires
        a.scope.wf(),
        a.scope.bounded(),
        0 <= from < nodes.len(),
        nodes.last() is Return,
    ensures
        a.block(nodes, from) matches Ok(b) ==> ends_in_return(b.code),
    decreases nodes.len() - from,
{
    lemma_node(a, nodes[from]);
    match a.node(nodes[from]) {
        Ok((next, _)) => {
            if from < nodes.len() - 1 {
                lemma_block_ends(next, nodes, from + 1);
            } else {
                lemma_return_ends(a, nodes[from]->Return_0);
            }
        },
        Err(_) => {},
    }
}

/// The head of a function definition adds the two lines that name the
/// function, the push of the frame pointer of the caller and the setting of
/// the frame pointer, in that order, and then the code that binds the
/// parameters.
pub proof fn lemma_prologue_head(
    a: Emission,
    name: Seq<char>,
    parameters: Seq<(Seq<char>, Seq<char>)>,
    return_type: Option<Seq<char>>,
)
    ensures
        a.prologue(name, parameters, return_type) matches Ok(p) ==> function_head(
            p.code,
            a.code.len() as int,
            name,
        ) && p.scope.functions.contains_key(name),
{
    let known = a.with_scope(
        a.scope.with_function(
            name,
            FunctionView { return_type, parameter_types: crate::scope::parameter_types(parameters) },
        ),
    );
    let opened = known.emit_named(Directive::Public, name).emit_named(
        Directive::Label,
        name,
    ).new_scope();
    let rbp = Operand::Register(Register::Rbp);
    match opened.push_reg(rbp, 8) {
        Ok(pushed) => {
            let framed = pushed.emit(Operation::SetFrame);
            lemma_push_reg(opened, rbp, 8);
            lemma_emit(pushed, Operation::SetFrame);
            lemma_parameters(framed, parameters, 0);
            assert(opened.code.len() == a.code.len() + 2);
            assert(opened.code[a.code.len() as int] == InstructionView::Named(
                Directive::Public,
                name,
            ));
            assert(opened.code[a.code.len() as int + 1] == InstructionView::Named(
                Directive::Label,
                name,
            ));
            assert(function_head(framed.code, a.code.len() as int, name));
            assert(framed.scope.functions.contains_key(name));
        },
        Err(_) => {},
    }
}

/// Whether the four instructions that open a function named `name` stand
/// in `code` from index `at` on: `public <name>`, `<name>:`,
/// `push qword rbp` and `mov rbp, rsp`.
pub open spec fn function_head(code: Seq<InstructionView>, at: int, name: Seq<char>) -> bool {
    &&& 0 <= at
    &&& at + 4 <= code.len()
    &&& code[at] == InstructionView::Named(Directive::Public, name)
    &&& code[at + 1] == InstructionView::Named(Directive::Label, name)
    &&& code[at + 2] == InstructionView::Plain(
        Operation::Push(Width::Qword, Operand::Register(Register::Rbp)),
    )
    &&& code[at + 3] == InstructionView::Plain(Operation::SetFrame)
}

/// The shape of the code of a function definition: what was written
/// before stays; the four instructions that open the function follow; the
/// function is known afterwards; the environments are as many as before;
/// and where the body ends in a return from the function, the code ends in
/// `mov rsp, qword rbp`, `pop rbp` and `ret`.
pub proof fn lemma_function_shape(
    a: Emission,
    name: Seq<char>,
    parameters: Seq<(Seq<char>, Seq<char>)>,
    return_type: Option<Seq<char>>,
    body: Seq<NodeView>,
)
    requires
        a.scope.wf(),
        a.scope.bounded(),
    ensures
        a.node(NodeView::Function { name, parameters, return_type, body }) matches Ok((b, _)) ==> {
            &&& steps(a, b)
            &&& function_head(b.code, a.code.len() as int, name)
            &&& b.scope.functions.contains_key(name)
            &&& body.len() > 0 && body.last() is Return ==> ends_in_return(b.code)
        },
{
    lemma_node(a, NodeView::Function { name, parameters, return_type, body });
    lemma_prologue(a, name, parameters, return_type);
    lemma_prologue_head(a, name, parameters, return_type);
    match a.prologue(name, parameters, return_type) {
        Ok(p) => {
            lemma_block(p, body, 0);
            if body.len() > 0 && body.last() is Return {
                lemma_block_ends(p, body, 0);
            }
        },
        Err(_) => {},
    }
}

/// Every function ends in `ret`: the code of the definition of a function
/// whose body ends in a return from the function, as every body does that
/// the parser has made, ends in `mov rsp, qword rbp`, `pop rbp` and `ret`.
/// The code of every statement of the body is emitted, so the return at the
/// end of the body is the end of the code.
pub proof fn lemma_function_ends(
    a: Emission,
    name: Seq<char>,
    parameters: Seq<(Seq<char>, Seq<char>)>,
    return_type: Option<Seq<char>>,
    body: Seq<NodeView>,
)
    requires
        a.scope.wf(),
        a.scope.bounded(),
        body.len() > 0,
        body.last() is Return,
    ensures
        a.node(NodeView::Function { name, parameters, return_type, body }) matches Ok((b, _))
            ==> ends_in_return(b.code),
{
    lemma_prologue(a, name, parameters, return_type);
    match a.prologue(name, parameters, return_type) {
        Ok(p) => {
            lemma_block_ends(p, body, 0);
        },
        Err(_) => {},
    }
}

/// Every accepted function ends in `ret`: whatever function definition the
/// grammar reads from tokens, its code ends in `mov rsp, qword rbp`,
/// `pop rbp` and `ret`.
pub proof fn lemma_parsed_function_ends(ts: Seq<TokenView>, pos: int, a: Emission)
    requires
        a.scope.wf(),
        a.scope.bounded(),
    ensures
        function(ts, pos) matches Ok((NodeView::Function { name, parameters, return_type, body }, _))
            ==> (a.node(NodeView::Function { name, parameters, return_type, body }) matches Ok(
            (b, _),
        ) ==> ends_in_return(b.code)),
{
    lemma_function_body_returns(ts, pos);
    match function(ts, pos) {
        Ok((NodeView::Function { name, parameters, return_type, body }, _)) => {
            lemma_function_ends(a, name, parameters, return_type, body);
        },
        _ => {},
    }
}

} // verus!
