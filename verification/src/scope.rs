//! The compile-time state of the generator: the lexical environments with
//! their variables and stack accounting, the known functions and types, and
//! the label counter.

use vstd::prelude::*;
use vstd::string::*;
use crate::ast::{NimiExpression, PaliDeclaration, PaliStatement, optional_text, parameters_view};
use crate::error::SemanticError;
use crate::table::Table;

verus! {

/// The mathematical value of a [`Variable`].
pub struct VariableView {
    pub var_type: Seq<char>,
    pub stack_pos: nat,
}

/// The mathematical value of a [`Function`].
pub struct FunctionView {
    pub return_type: Option<Seq<char>>,
    pub parameter_types: Seq<Seq<char>>,
}

/// The mathematical value of an [`Environment`].
pub struct EnvironmentView {
    pub names: Map<Seq<char>, VariableView>,
    pub stack_pointer: nat,
    /// The depth of the tabs that open the lines of the scope. It is kept
    /// and decides nothing.
    pub tab_depth: nat,
}

/// The mathematical value of a [`Type`].
pub struct TypeView {
    pub name: Seq<char>,
    /// The size of a value of the type, in bytes.
    pub size: nat,
}

/// The mathematical value of a [`Scope`].
pub struct ScopeView {
    /// The environments, innermost last.
    pub envs: Seq<EnvironmentView>,
    pub functions: Map<Seq<char>, FunctionView>,
    /// The types, each under its name.
    pub types: Map<Seq<char>, TypeView>,
    pub label_counter: nat,
}

/// The bytes that the environments below index `upto` have on the stack.
pub open spec fn stack_below(envs: Seq<EnvironmentView>, upto: int) -> nat
    decreases upto,
{
    if upto <= 0 || upto > envs.len() {
        0
    } else {
        stack_below(envs, upto - 1) + envs[upto - 1].stack_pointer
    }
}

/// The index of the innermost environment below index `upto` that holds
/// `name`.
pub open spec fn innermost(envs: Seq<EnvironmentView>, name: Seq<char>, upto: int) -> Option<int>
    decreases upto,
{
    if upto <= 0 || upto > envs.len() {
        None
    } else if envs[upto - 1].names.contains_key(name) {
        Some(upto - 1)
    } else {
        innermost(envs, name, upto - 1)
    }
}

/// The types of a parameter list.
pub open spec fn parameter_types(parameters: Seq<(Seq<char>, Seq<char>)>) -> Seq<Seq<char>> {
    Seq::new(parameters.len(), |i: int| parameters[i].0)
}

impl ScopeView {
    /// There is a current environment.
    pub open spec fn wf(self) -> bool {
        self.envs.len() > 0
    }

    /// Every environment has a stack that a machine word can count, as the
    /// view of every [`Scope`] has.
    pub open spec fn bounded(self) -> bool {
        forall|i: int| 0 <= i < self.envs.len() ==> (#[trigger] self.envs[i]).stack_pointer <= usize::MAX
    }

    /// Every type is registered under its own name, as in the initial
    /// scope and after every registration of a type.
    pub open spec fn named(self) -> bool {
        forall|name: Seq<char>| #[trigger]
            self.types.contains_key(name) ==> self.types[name].name == name
    }

    /// The scope that a compilation starts with: one empty environment, no
    /// functions, the type `nanpa` of 8 bytes, and no label handed out.
    pub open spec fn initial() -> ScopeView {
        ScopeView {
            envs: seq![EnvironmentView { names: Map::empty(), stack_pointer: 0, tab_depth: 0 }],
            functions: Map::empty(),
            types: Map::empty().insert("nanpa"@, TypeView { name: "nanpa"@, size: 8 }),
            label_counter: 0,
        }
    }

    /// The current environment: the innermost one.
    pub open spec fn top(self) -> EnvironmentView {
        self.envs.last()
    }

    /// The scope with another current environment.
    pub open spec fn with_top(self, env: EnvironmentView) -> ScopeView {
        ScopeView { envs: self.envs.update(self.envs.len() - 1, env), ..self }
    }

    /// The scope with `bytes` bytes on the stack of the current
    /// environment, and all else as it is.
    pub open spec fn restack(self, bytes: nat) -> ScopeView {
        self.with_top(EnvironmentView { stack_pointer: bytes, ..self.top() })
    }

    /// The compile-time stack pointer: the bytes that all environments
    /// together have on the stack.
    pub open spec fn total_stack(self) -> nat {
        stack_below(self.envs, self.envs.len() as int)
    }

    /// The scope after `n` more bytes went onto the stack in the current
    /// environment.
    pub open spec fn grow(self, n: nat) -> Result<ScopeView, SemanticError> {
        if self.top().stack_pointer + n > usize::MAX {
            Err(SemanticError::LimitExceeded)
        } else {
            Ok(self.restack(self.top().stack_pointer + n))
        }
    }

    /// The scope after `n` bytes came off the stack in the current
    /// environment.
    pub open spec fn shrink(self, n: nat) -> Result<ScopeView, SemanticError> {
        if self.top().stack_pointer < n {
            Err(SemanticError::StackUnderflow)
        } else {
            Ok(self.restack((self.top().stack_pointer - n) as nat))
        }
    }

    /// The scope with a fresh, empty environment as the current one.
    pub open spec fn enter(self) -> ScopeView {
        ScopeView {
            envs: self.envs.push(
                EnvironmentView { names: Map::empty(), stack_pointer: 0, tab_depth: 0 },
            ),
            ..self
        }
    }

    /// The scope without its current environment.
    pub open spec fn leave(self) -> ScopeView {
        ScopeView { envs: self.envs.drop_last(), ..self }
    }

    /// The scope with `name` bound, in the current environment, to a
    /// variable of type `var_type` at the current stack pointer of that
    /// environment.
    pub open spec fn bind(self, name: Seq<char>, var_type: Seq<char>) -> ScopeView {
        self.with_top(
            EnvironmentView {
                names: self.top().names.insert(
                    name,
                    VariableView { var_type, stack_pos: self.top().stack_pointer },
                ),
                ..self.top()
            },
        )
    }

    /// The scope with `name` known as a function.
    pub open spec fn with_function(self, name: Seq<char>, function: FunctionView) -> ScopeView {
        ScopeView { functions: self.functions.insert(name, function), ..self }
    }

    /// The scope with `name` known as a type of `size` bytes.
    pub open spec fn with_type(self, name: Seq<char>, size: nat) -> ScopeView {
        ScopeView { types: self.types.insert(name, TypeView { name, size }), ..self }
    }

    /// The variable that `name` refers to, and its offset `k` in
    /// `[rbp - k]`. The innermost environment that holds the name wins. The
    /// offset is the stack of the environments below that one, plus the
    /// position of the variable in its environment, minus the stack of all
    /// environments but the current one.
    pub open spec fn variable(self, name: Seq<char>) -> Result<(VariableView, int), SemanticError> {
        match innermost(self.envs, name, self.envs.len() as int) {
            None => Err(SemanticError::UnknownVariable),
            Some(found) => {
                let variable = self.envs[found].names[name];
                let start = stack_below(self.envs, found) + variable.stack_pos;
                let base = stack_below(self.envs, self.envs.len() - 1);
                if start > i64::MAX || base > i64::MAX {
                    Err(SemanticError::LimitExceeded)
                } else {
                    Ok((variable, start - base))
                }
            },
        }
    }

    /// The function that `name` refers to.
    pub open spec fn function(self, name: Seq<char>) -> Result<FunctionView, SemanticError> {
        if self.functions.contains_key(name) {
            Ok(self.functions[name])
        } else {
            Err(SemanticError::UnknownFunction)
        }
    }

    /// The size of the type `name`, in bytes.
    pub open spec fn size_of(self, name: Seq<char>) -> Result<nat, SemanticError> {
        if self.types.contains_key(name) {
            Ok(self.types[name].size)
        } else {
            Err(SemanticError::UnknownType)
        }
    }

    /// The scope after one more label was handed out, and that label.
    pub open spec fn next_label(self) -> Result<(ScopeView, nat), SemanticError> {
        if self.label_counter + 1 > usize::MAX {
            Err(SemanticError::LimitExceeded)
        } else {
            Ok(
                (
                    ScopeView { label_counter: self.label_counter + 1, ..self },
                    self.label_counter + 1,
                ),
            )
        }
    }
}

/// A variable: its type and where it lies in the stack of its
/// environment.
#[derive(Debug, PartialEq, Eq)]
pub struct Variable {
    pub var_type: String,
    pub stack_pos: usize,
}

impl View for Variable {
    type V = VariableView;

    open spec fn view(&self) -> VariableView {
        VariableView { var_type: self.var_type@, stack_pos: self.stack_pos as nat }
    }
}

/// A function: what it returns and what it takes.
#[derive(Debug, PartialEq, Eq)]
pub struct Function {
    pub return_type: Option<String>,
    pub parameter_types: Vec<String>,
}

/// The views of a vector of texts, in order.
pub open spec fn texts_view(texts: Seq<String>) -> Seq<Seq<char>> {
    Seq::new(texts.len(), |i: int| texts[i]@)
}

impl View for Function {
    type V = FunctionView;

    open spec fn view(&self) -> FunctionView {
        FunctionView {
            return_type: optional_text(self.return_type),
            parameter_types: texts_view(self.parameter_types@),
        }
    }
}

/// What a name in an environment stands for.
#[derive(Debug, PartialEq, Eq)]
pub enum EnvironmentName {
    Variable(Variable),
}

impl View for EnvironmentName {
    type V = VariableView;

    open spec fn view(&self) -> VariableView {
        match self {
            EnvironmentName::Variable(v) => v@,
        }
    }
}

/// A type: a name and a size in bytes.
#[derive(Debug, PartialEq, Eq)]
pub struct Type {
    pub size: usize,
    pub name: String,
}

impl View for Type {
    type V = TypeView;

    open spec fn view(&self) -> TypeView {
        TypeView { name: self.name@, size: self.size as nat }
    }
}

/// One lexical scope: its variables, and the bytes it has on the stack.
#[derive(Debug)]
pub struct Environment {
    names: Table<EnvironmentName>,
    stack_pointer: usize,
    tab_depth: usize,
}

impl View for Environment {
    type V = EnvironmentView;

    closed spec fn view(&self) -> EnvironmentView {
        EnvironmentView {
            names: self.names@,
            stack_pointer: self.stack_pointer as nat,
            tab_depth: self.tab_depth as nat,
        }
    }
}

impl Environment {
    /// An empty environment with nothing on the stack.
    pub fn new() -> (env: Environment)
        ensures
            env@ == (EnvironmentView { names: Map::empty(), stack_pointer: 0, tab_depth: 0 }),
    {
        Environment { names: Table::new(), stack_pointer: 0, tab_depth: 0 }
    }

    /// The bytes that the environment has on the stack.
    pub fn stack_pointer(&self) -> (r: usize)
        ensures
            r == self@.stack_pointer,
    {
        self.stack_pointer
    }

    /// Binds `name` to a variable of type `variable_type` at the current
    /// stack pointer of the environment, and hands the new entry back. An
    /// earlier binding of the name is replaced.
    pub fn add_name(&mut self, name: &String, size: usize, variable_type: &String) -> (r:
        &EnvironmentName)
        ensures
            final(self)@ == (EnvironmentView {
                names: old(self)@.names.insert(
                    name@,
                    VariableView {
                        var_type: variable_type@,
                        stack_pos: old(self)@.stack_pointer,
                    },
                ),
                ..old(self)@
            }),
            r@ == (VariableView { var_type: variable_type@, stack_pos: old(self)@.stack_pointer }),
    {
        self.names.insert(
            name.clone(),
            EnvironmentName::Variable(
                Variable { var_type: variable_type.clone(), stack_pos: self.stack_pointer },
            ),
        );
        match self.names.get(name) {
            Some(entry) => entry,
            None => vstd::pervasive::unreached(),
        }
    }

    /// What `name` stands for in this environment, if anything.
    pub fn get_name(&self, name: &String) -> (r: Option<&EnvironmentName>)
        ensures
            match r {
                Some(entry) => self@.names.contains_key(name@) && self@.names[name@] == entry@,
                None => !self@.names.contains_key(name@),
            },
    {
        self.names.get(name)
    }

    /// The variable that `name` stands for in this environment.
    pub fn get_variable(&self, name: &String) -> (r: Result<&Variable, SemanticError>)
        ensures
            match r {
                Ok(variable) => self@.names.contains_key(name@) && self@.names[name@]
                    == variable@,
                Err(e) => e == SemanticError::UnknownVariable && !self@.names.contains_key(name@),
            },
    {
        match self.get_name(name) {
            None => Err(SemanticError::UnknownVariable),
            Some(EnvironmentName::Variable(variable)) => Ok(variable),
        }
    }
}

/// The views of a vector of environments, in order.
pub open spec fn environments_view(envs: Seq<Environment>) -> Seq<EnvironmentView> {
    Seq::new(envs.len(), |i: int| envs[i]@)
}

/// The state of a compilation.
#[derive(Debug)]
pub struct Scope {
    functions: Table<Function>,
    types: Table<Type>,
    envs: Vec<Environment>,
    label_counter: usize,
}

impl View for Scope {
    type V = ScopeView;

    closed spec fn view(&self) -> ScopeView {
        ScopeView {
            envs: environments_view(self.envs@),
            functions: self.functions@,
            types: self.types@,
            label_counter: self.label_counter as nat,
        }
    }
}

/// Whether `r` and the scope `after` are what `expected` asks for.
pub open spec fn becomes(
    after: ScopeView,
    r: Result<(), SemanticError>,
    expected: Result<ScopeView, SemanticError>,
) -> bool {
    match expected {
        Ok(scope) => r is Ok && after == scope,
        Err(e) => r == Err::<(), SemanticError>(e),
    }
}

/// The types of the parameters of a function, in order.
pub fn types_of(params: &Vec<(String, NimiExpression)>) -> (r: Vec<String>)
    ensures
        texts_view(r@) == parameter_types(parameters_view(params@)),
{
    let mut types: Vec<String> = Vec::new();
    let mut i: usize = 0;
    while i < params.len()
        invariant
            i <= params.len(),
            types.len() == i,
            forall|j: int| 0 <= j < i ==> types@[j]@ == params@[j].0@,
        decreases params.len() - i,
    {
        types.push(params[i].0.clone());
        i += 1;
    }
    types
}

/// Copies an optional piece of text.
pub fn clone_optional(text: &Option<String>) -> (r: Option<String>)
    ensures
        optional_text(r) == optional_text(*text),
{
    match text {
        Some(s) => Some(s.clone()),
        None => None,
    }
}

impl Scope {
    /// The stack of every environment of a scope fits a machine word.
    pub proof fn lemma_bounded(&self)
        ensures
            self@.bounded(),
    {
    }

    /// The scope that a compilation starts with: one empty environment,
    /// no functions, the type `nanpa` of 8 bytes, and no label handed out.
    pub fn new() -> (scope: Scope)
        ensures
            scope@ == ScopeView::initial(),
            scope@.named(),
    {
        let mut types: Table<Type> = Table::new();
        types.insert("nanpa".to_owned(), Type { size: 8, name: "nanpa".to_owned() });
        let mut envs: Vec<Environment> = Vec::new();
        envs.push(Environment::new());
        let scope = Scope { functions: Table::new(), types, envs, label_counter: 0 };
        assert(scope@.envs =~= ScopeView::initial().envs);
        scope
    }

    /// Registers a type under its name.
    pub fn add_type(&mut self, name: &String, size: usize)
        ensures
            final(self)@ == old(self)@.with_type(name@, size as nat),
            old(self)@.named() ==> final(self)@.named(),
    {
        self.types.insert(name.clone(), Type { size, name: name.clone() });
        proof {
            if old(self)@.named() {
                assert forall|key: Seq<char>| #[trigger]
                    self@.types.contains_key(key) implies self@.types[key].name == key by {
                    if key != name@ {
                        assert(old(self)@.types.contains_key(key));
                    }
                }
            }
        }
    }

    /// The current environment.
    pub fn get_environment(&self) -> (env: &Environment)
        requires
            self@.wf(),
        ensures
            env@ == self@.top(),
    {
        &self.envs[self.envs.len() - 1]
    }

    /// The current environment, to change it.
    pub fn get_environment_mut(&mut self) -> (env: &mut Environment)
        requires
            old(self)@.wf(),
        ensures
            env@ == old(self)@.top(),
            final(self)@ == old(self)@.with_top(final(env)@),
    {
        let last = self.envs.len() - 1;
        let env = &mut self.envs[last];
        proof {
            assert(environments_view(old(self).envs@.update(last as int, *final(env)))
                =~= old(self)@.with_top(final(env)@).envs);
        }
        env
    }

    /// The type registered under `name`, if any: its name and its size.
    pub fn get_type(&self, name: &String) -> (r: Option<&Type>)
        ensures
            match r {
                Some(t) => self@.types.contains_key(name@) && t@ == self@.types[name@]
                    && self@.size_of(name@) == Ok::<nat, SemanticError>(t.size as nat),
                None => !self@.types.contains_key(name@) && self@.size_of(name@) is Err,
            },
            self@.named() ==> (r matches Some(t) ==> t.name@ == name@),
    {
        self.types.get(name)
    }

    /// The size of the type registered under `name`.
    pub fn size_of(&self, name: &String) -> (r: Result<usize, SemanticError>)
        ensures
            match self@.size_of(name@) {
                Ok(size) => r == Ok::<usize, SemanticError>(size as usize) && size <= usize::MAX,
                Err(e) => r == Err::<usize, SemanticError>(e),
            },
    {
        match self.get_type(name) {
            Some(t) => Ok(t.size),
            None => Err(SemanticError::UnknownType),
        }
    }

    /// Makes a function definition known under its name, with its return
    /// type and the types of its parameters.
    pub fn add_function(&mut self, pali: &PaliStatement)
        ensures
            final(self)@ == old(self)@.with_function(
                pali.nimi.value@,
                FunctionView {
                    return_type: optional_text(pali.retval),
                    parameter_types: parameter_types(parameters_view(pali.params@)),
                },
            ),
    {
        self.functions.insert(
            pali.nimi.value.clone(),
            Function {
                return_type: clone_optional(&pali.retval),
                parameter_types: types_of(&pali.params),
            },
        );
    }

    /// Makes the declaration of an external function known under its
    /// name.
    pub fn declare_function(&mut self, pali: &PaliDeclaration)
        ensures
            final(self)@ == old(self)@.with_function(
                pali.nimi.value@,
                FunctionView {
                    return_type: optional_text(pali.retval),
                    parameter_types: parameter_types(parameters_view(pali.params@)),
                },
            ),
    {
        self.functions.insert(
            pali.nimi.value.clone(),
            Function {
                return_type: clone_optional(&pali.retval),
                parameter_types: types_of(&pali.params),
            },
        );
    }

    /// The function known under `name`.
    pub fn get_function(&self, name: &String) -> (r: Result<&Function, SemanticError>)
        ensures
            match self@.function(name@) {
                Ok(function) => r is Ok && r->Ok_0@ == function,
                Err(e) => r is Err && r->Err_0 == e,
            },
    {
        match self.functions.get(name) {
            Some(function) => Ok(function),
            None => Err(SemanticError::UnknownFunction),
        }
    }

    /// The bytes that the environments below index `upto` have on the
    /// stack.
    fn stack_below(&self, upto: usize) -> (r: u128)
        requires
            upto <= self@.envs.len(),
        ensures
            r == stack_below(self@.envs, upto as int),
            r <= upto * 0x1_0000_0000_0000_0000,
    {
        let mut total: u128 = 0;
        let mut i: usize = 0;
        while i < upto
            invariant
                i <= upto <= self.envs.len(),
                total == stack_below(self@.envs, i as int),
                total <= i * 0x1_0000_0000_0000_0000,
            decreases upto - i,
        {
            total = total + self.envs[i].stack_pointer as u128;
            i += 1;
        }
        total
    }

    /// The variable that `name` refers to, and its offset `k` in
    /// `[rbp - k]`. The innermost environment that holds the name wins.
    pub fn get_variable(&self, name: &String) -> (r: Result<(&Variable, i64), SemanticError>)
        ensures
            match self@.variable(name@) {
                Ok((variable, offset)) => r is Ok && r->Ok_0.0@ == variable && r->Ok_0.1 == offset,
                Err(e) => r is Err && r->Err_0 == e,
            },
    {
        let n = self.envs.len();
        let mut i = n;
        while i > 0
            invariant
                i <= n == self.envs.len(),
                innermost(self@.envs, name@, n as int) == innermost(self@.envs, name@, i as int),
            decreases i,
        {
            i -= 1;
            match self.envs[i].get_variable(name) {
                Err(_) => {},
                Ok(variable) => {
                    let start = self.stack_below(i) + variable.stack_pos as u128;
                    let base = self.stack_below(n - 1);
                    if start > i64::MAX as u128 || base > i64::MAX as u128 {
                        return Err(SemanticError::LimitExceeded);
                    }
                    return Ok((variable, start as i64 - base as i64));
                },
            }
        }
        Err(SemanticError::UnknownVariable)
    }

    /// Opens a fresh environment.
    pub fn enter(&mut self)
        ensures
            final(self)@ == old(self)@.enter(),
    {
        self.envs.push(Environment::new());
        assert(self@.envs =~= old(self)@.enter().envs);
    }

    /// Closes the current environment.
    pub fn leave(&mut self)
        requires
            old(self)@.wf(),
        ensures
            final(self)@ == old(self)@.leave(),
    {
        self.envs.pop();
        assert(self@.envs =~= old(self)@.leave().envs);
    }

    /// Counts `n` more bytes on the stack of the current environment.
    pub fn grow(&mut self, n: usize) -> (r: Result<(), SemanticError>)
        requires
            old(self)@.wf(),
        ensures
            becomes(final(self)@, r, old(self)@.grow(n as nat)),
            final(self)@.wf(),
    {
        let last = self.envs.len() - 1;
        if self.envs[last].stack_pointer > usize::MAX - n {
            return Err(SemanticError::LimitExceeded);
        }
        let mut env = self.envs.pop().unwrap();
        env.stack_pointer = env.stack_pointer + n;
        self.envs.push(env);
        assert(self@.envs =~= old(self)@.grow(n as nat)->Ok_0.envs);
        Ok(())
    }

    /// Counts `n` bytes fewer on the stack of the current environment.
    pub fn shrink(&mut self, n: usize) -> (r: Result<(), SemanticError>)
        requires
            old(self)@.wf(),
        ensures
            becomes(final(self)@, r, old(self)@.shrink(n as nat)),
            final(self)@.wf(),
    {
        let last = self.envs.len() - 1;
        if self.envs[last].stack_pointer < n {
            return Err(SemanticError::StackUnderflow);
        }
        let mut env = self.envs.pop().unwrap();
        env.stack_pointer = env.stack_pointer - n;
        self.envs.push(env);
        assert(self@.envs =~= old(self)@.shrink(n as nat)->Ok_0.envs);
        Ok(())
    }

    /// Binds `name`, in the current environment, to a variable of type
    /// `variable_type` at the current stack pointer of that environment.
    pub fn bind(&mut self, name: &String, size: usize, variable_type: &String)
        requires
            old(self)@.wf(),
        ensures
            final(self)@ == old(self)@.bind(name@, variable_type@),
    {
        let mut env = self.envs.pop().unwrap();
        env.add_name(name, size, variable_type);
        self.envs.push(env);
        assert(self@.envs =~= old(self)@.bind(name@, variable_type@).envs);
    }

    /// Hands out the next label.
    pub fn next_label(&mut self) -> (r: Result<usize, SemanticError>)
        ensures
            match old(self)@.next_label() {
                Ok((scope, label)) => r == Ok::<usize, SemanticError>(label as usize)
                    && final(self)@ == scope && label <= usize::MAX,
                Err(e) => r == Err::<usize, SemanticError>(e),
            },
    {
        if self.label_counter == usize::MAX {
            return Err(SemanticError::LimitExceeded);
        }
        self.label_counter += 1;
        Ok(self.label_counter)
    }
}

} // verus!
