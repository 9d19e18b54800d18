//! Runtime values, function values, and the signal that a statement ends with.

use vstd::prelude::*;
use crate::ast::{
    clone_parameters, clone_stmts, parameters_view, stmts_view, Literal, LiteralView, Parameter,
    ParameterView, Stmt, StmtView,
};
use crate::number::Number;
use crate::span::Span;

verus! {

/// A function value: its name, parameters and body, held by value. It
/// captures no scope.
#[derive(Debug, PartialEq)]
pub struct Function {
    pub name: String,
    pub params: Vec<Parameter>,
    pub body: Vec<Stmt>,
    pub span: Span,
}

/// The mathematical model of a [`Function`].
pub struct FunctionView {
    pub name: Seq<char>,
    pub params: Seq<ParameterView>,
    pub body: Seq<StmtView>,
    pub span: Span,
}

impl View for Function {
    type V = FunctionView;

    open spec fn view(&self) -> FunctionView {
        FunctionView {
            name: self.name@,
            params: parameters_view(self.params@),
            body: stmts_view(self.body@),
            span: self.span,
        }
    }
}

impl Function {
    /// The function value with these parts.
    pub fn new(name: String, params: Vec<Parameter>, body: Vec<Stmt>, span: Span) -> (f: Function)
        ensures
            f == (Function { name, params, body, span }),
    {
        Function { name, params, body, span }
    }

    /// The number of declared parameters.
    pub fn arity(&self) -> (n: usize)
        ensures
            n == self@.params.len(),
    {
        self.params.len()
    }
}

impl Clone for Function {
    fn clone(&self) -> (copy: Function)
        ensures
            copy@ == self@,
    {
        Function {
            name: self.name.clone(),
            params: clone_parameters(&self.params),
            body: clone_stmts(&self.body),
            span: self.span,
        }
    }
}

/// A runtime value.
#[derive(Debug, PartialEq)]
pub enum Value {
    String(String),
    Number(Number),
    Bool(bool),
    Function(Function),
    Null,
}

/// The mathematical model of a [`Value`].
pub enum ValueView {
    String(Seq<char>),
    Number(Number),
    Bool(bool),
    Function(FunctionView),
    Null,
}

impl View for Value {
    type V = ValueView;

    open spec fn view(&self) -> ValueView {
        match *self {
            Value::String(s) => ValueView::String(s@),
            Value::Number(n) => ValueView::Number(n),
            Value::Bool(b) => ValueView::Bool(b),
            Value::Function(f) => ValueView::Function(f@),
            Value::Null => ValueView::Null,
        }
    }
}

impl Clone for Value {
    fn clone(&self) -> (copy: Value)
        ensures
            copy@ == self@,
    {
        match self {
            Value::String(s) => Value::String(s.clone()),
            Value::Number(n) => Value::Number(*n),
            Value::Bool(b) => Value::Bool(*b),
            Value::Function(f) => Value::Function(f.clone()),
            Value::Null => Value::Null,
        }
    }
}

/// The value that a literal denotes.
pub open spec fn literal_value(lit: LiteralView) -> ValueView {
    match lit {
        LiteralView::String(s) => ValueView::String(s),
        LiteralView::Number(n) => ValueView::Number(n),
        LiteralView::Bool(b) => ValueView::Bool(b),
        LiteralView::Null => ValueView::Null,
    }
}

impl From<Literal> for Value {
    fn from(lit: Literal) -> (value: Value)
        ensures
            value@ == literal_value(lit@),
    {
        match lit {
            Literal::String(s) => Value::String(s),
            Literal::Number(n) => Value::Number(n),
            Literal::Bool(b) => Value::Bool(b),
            Literal::Null => Value::Null,
        }
    }
}

impl vstd::std_specs::convert::FromSpecImpl<Literal> for Value {
    open spec fn obeys_from_spec() -> bool {
        true
    }

    open spec fn from_spec(lit: Literal) -> Value {
        match lit {
            Literal::String(s) => Value::String(s),
            Literal::Number(n) => Value::Number(n),
            Literal::Bool(b) => Value::Bool(b),
            Literal::Null => Value::Null,
        }
    }
}

/// The models of a list of values, one by one.
pub open spec fn values_view(list: Seq<Value>) -> Seq<ValueView> {
    Seq::new(list.len(), |i: int| list[i]@)
}

/// How the execution of a statement or a block ended.
#[derive(Debug)]
pub enum ControlFlow {
    /// It ran to its end, with this value.
    Normal(Value),
    /// A `return` was reached, with this value.
    Return(Value),
    /// A `break` was reached.
    Break,
    /// A `continue` was reached.
    Continue,
}

/// The mathematical model of a [`ControlFlow`].
pub enum ControlFlowView {
    Normal(ValueView),
    Return(ValueView),
    Break,
    Continue,
}

impl View for ControlFlow {
    type V = ControlFlowView;

    open spec fn view(&self) -> ControlFlowView {
        match *self {
            ControlFlow::Normal(v) => ControlFlowView::Normal(v@),
            ControlFlow::Return(v) => ControlFlowView::Return(v@),
            ControlFlow::Break => ControlFlowView::Break,
            ControlFlow::Continue => ControlFlowView::Continue,
        }
    }
}

impl ControlFlow {
    /// Normal completion with `value`.
    pub fn normal(value: Value) -> (flow: ControlFlow)
        ensures
            flow == ControlFlow::Normal(value),
    {
        ControlFlow::Normal(value)
    }

    /// A return that carries `value`.
    pub fn return_value(value: Value) -> (flow: ControlFlow)
        ensures
            flow == ControlFlow::Return(value),
    {
        ControlFlow::Return(value)
    }

    /// The value of a normal completion.
    pub fn unwrap_normal(self) -> (value: Value)
        requires
            self is Normal,
        ensures
            self == ControlFlow::Normal(value),
    {
        match self {
            ControlFlow::Normal(value) => value,
            _ => Value::Null,
        }
    }

    /// The value of a return.
    pub fn unwrap_return(self) -> (value: Value)
        requires
            self is Return,
        ensures
            self == ControlFlow::Return(value),
    {
        match self {
            ControlFlow::Return(value) => value,
            _ => Value::Null,
        }
    }
}

impl Clone for ControlFlow {
    fn clone(&self) -> (copy: ControlFlow)
        ensures
            copy@ == self@,
    {
        match self {
            ControlFlow::Normal(v) => ControlFlow::Normal(v.clone()),
            ControlFlow::Return(v) => ControlFlow::Return(v.clone()),
            ControlFlow::Break => ControlFlow::Break,
            ControlFlow::Continue => ControlFlow::Continue,
        }
    }
}

} // verus!
