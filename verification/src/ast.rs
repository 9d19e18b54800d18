//! The syntax tree: literals, expressions, statements, and their models.

use vstd::prelude::*;
use crate::number::Number;
use crate::token::{TokenKind, TokenKindView};

verus! {

/// A declared type: a name, kept and never checked.
#[derive(Debug, PartialEq)]
pub struct Type {
    pub name: String,
}

/// The mathematical model of a [`Type`].
pub struct TypeView {
    pub name: Seq<char>,
}

impl View for Type {
    type V = TypeView;

    open spec fn view(&self) -> TypeView {
        TypeView { name: self.name@ }
    }
}

impl Clone for Type {
    fn clone(&self) -> (copy: Type)
        ensures
            copy@ == self@,
    {
        Type { name: self.name.clone() }
    }
}

/// The model of an optional declared type.
pub open spec fn type_option_view(ty: Option<Type>) -> Option<TypeView> {
    match ty {
        Some(t) => Some(t@),
        None => None,
    }
}

/// A copy of an optional declared type.
pub fn clone_type_option(ty: &Option<Type>) -> (copy: Option<Type>)
    ensures
        type_option_view(copy) == type_option_view(*ty),
{
    match ty {
        Some(t) => Some(t.clone()),
        None => None,
    }
}

/// A parameter of a function: its name and its declared type, if any.
#[derive(Debug, PartialEq)]
pub struct Parameter {
    pub name: String,
    pub ty: Option<Type>,
}

/// The mathematical model of a [`Parameter`].
pub struct ParameterView {
    pub name: Seq<char>,
    pub ty: Option<TypeView>,
}

impl View for Parameter {
    type V = ParameterView;

    open spec fn view(&self) -> ParameterView {
        ParameterView { name: self.name@, ty: type_option_view(self.ty) }
    }
}

impl Clone for Parameter {
    fn clone(&self) -> (copy: Parameter)
        ensures
            copy@ == self@,
    {
        Parameter { name: self.name.clone(), ty: clone_type_option(&self.ty) }
    }
}

/// The models of a list of parameters, one by one.
pub open spec fn parameters_view(params: Seq<Parameter>) -> Seq<ParameterView> {
    Seq::new(params.len(), |i: int| params[i]@)
}

/// A copy of a list of parameters.
pub fn clone_parameters(params: &Vec<Parameter>) -> (copy: Vec<Parameter>)
    ensures
        parameters_view(copy@) == parameters_view(params@),
{
    let mut copy: Vec<Parameter> = Vec::new();
    let mut i: usize = 0;
    while i < params.len()
        invariant
            i <= params.len(),
            copy.len() == i,
            forall|j: int| 0 <= j < i ==> copy[j]@ == params[j]@,
        decreases params.len() - i,
    {
        copy.push(params[i].clone());
        i += 1;
    }
    assert(parameters_view(copy@) =~= parameters_view(params@));
    copy
}

/// A literal value written in the source.
#[derive(Debug, PartialEq)]
pub enum Literal {
    String(String),
    Number(Number),
    Bool(bool),
    Null,
}

/// The mathematical model of a [`Literal`].
pub enum LiteralView {
    String(Seq<char>),
    Number(Number),
    Bool(bool),
    Null,
}

impl View for Literal {
    type V = LiteralView;

    open spec fn view(&self) -> LiteralView {
        match *self {
            Literal::String(s) => LiteralView::String(s@),
            Literal::Number(n) => LiteralView::Number(n),
            Literal::Bool(b) => LiteralView::Bool(b),
            Literal::Null => LiteralView::Null,
        }
    }
}

impl Clone for Literal {
    fn clone(&self) -> (copy: Literal)
        ensures
            copy@ == self@,
    {
        match self {
            Literal::String(s) => Literal::String(s.clone()),
            Literal::Number(n) => Literal::Number(*n),
            Literal::Bool(b) => Literal::Bool(*b),
            Literal::Null => Literal::Null,
        }
    }
}

/// An expression. The tree owns its parts: nothing is shared.
#[derive(Debug, PartialEq)]
pub enum Expr {
    Literal(Literal),
    Binary { left: Box<Expr>, op: TokenKind, right: Box<Expr> },
    Variable(String),
    Call { callee: Box<Expr>, args: Vec<Expr> },
    Unary { op: TokenKind, right: Box<Expr> },
    Assign { name: String, value: Box<Expr> },
    /// Property access, which the parser does not read and the executor
    /// refuses.
    Get { object: Box<Expr>, name: String },
}

/// The mathematical model of an [`Expr`].
pub enum ExprView {
    Literal(LiteralView),
    Binary { left: Box<ExprView>, op: TokenKindView, right: Box<ExprView> },
    Variable(Seq<char>),
    Call { callee: Box<ExprView>, args: Seq<ExprView> },
    Unary { op: TokenKindView, right: Box<ExprView> },
    Assign { name: Seq<char>, value: Box<ExprView> },
    Get { object: Box<ExprView>, name: Seq<char> },
}

/// The model of an expression.
pub open spec fn expr_view(e: Expr) -> ExprView
    decreases e, 1nat,
{
    match e {
        Expr::Literal(lit) => ExprView::Literal(lit@),
        Expr::Binary { left, op, right } => ExprView::Binary {
            left: Box::new(expr_view(*left)),
            op: op@,
            right: Box::new(expr_view(*right)),
        },
        Expr::Variable(name) => ExprView::Variable(name@),
        Expr::Call { callee, args } => ExprView::Call {
            callee: Box::new(expr_view(*callee)),
            args: exprs_view(args@),
        },
        Expr::Unary { op, right } => ExprView::Unary {
            op: op@,
            right: Box::new(expr_view(*right)),
        },
        Expr::Assign { name, value } => ExprView::Assign {
            name: name@,
            value: Box::new(expr_view(*value)),
        },
        Expr::Get { object, name } => ExprView::Get {
            object: Box::new(expr_view(*object)),
            name: name@,
        },
    }
}

/// The models of a list of expressions, one by one.
pub open spec fn exprs_view(list: Seq<Expr>) -> Seq<ExprView>
    decreases list, 0nat,
{
    Seq::new(
        list.len(),
        |i: int|
            if 0 <= i < list.len() {
                expr_view(list[i])
            } else {
                arbitrary()
            },
    )
}

impl View for Expr {
    type V = ExprView;

    open spec fn view(&self) -> ExprView {
        expr_view(*self)
    }
}

impl Clone for Expr {
    fn clone(&self) -> (copy: Expr)
        ensures
            copy@ == self@,
        decreases *self, 1nat,
    {
        match self {
            Expr::Literal(lit) => Expr::Literal(lit.clone()),
            Expr::Binary { left, op, right } => Expr::Binary {
                left: Box::new((&**left).clone()),
                op: op.clone(),
                right: Box::new((&**right).clone()),
            },
            Expr::Variable(name) => Expr::Variable(name.clone()),
            Expr::Call { callee, args } => Expr::Call {
                callee: Box::new((&**callee).clone()),
                args: clone_exprs(args),
            },
            Expr::Unary { op, right } => Expr::Unary {
                op: op.clone(),
                right: Box::new((&**right).clone()),
            },
            Expr::Assign { name, value } => Expr::Assign {
                name: name.clone(),
                value: Box::new((&**value).clone()),
            },
            Expr::Get { object, name } => Expr::Get {
                object: Box::new((&**object).clone()),
                name: name.clone(),
            },
        }
    }
}

/// A copy of a list of expressions.
pub fn clone_exprs(list: &Vec<Expr>) -> (copy: Vec<Expr>)
    ensures
        exprs_view(copy@) == exprs_view(list@),
    decreases *list, 0nat,
{
    let mut copy: Vec<Expr> = Vec::new();
    let mut i: usize = 0;
    while i < list.len()
        invariant
            i <= list.len(),
            copy.len() == i,
            forall|j: int| 0 <= j < i ==> copy[j]@ == list[j]@,
        decreases list.len() - i,
    {
        copy.push(list[i].clone());
        i += 1;
    }
    assert(exprs_view(copy@) =~= exprs_view(list@));
    copy
}

/// A statement.
#[derive(Debug, PartialEq)]
pub enum Stmt {
    VarDecl { name: String, ty: Option<Type>, initializer: Expr },
    FuncDecl { name: String, params: Vec<Parameter>, return_ty: Option<Type>, body: Vec<Stmt> },
    If { condition: Expr, then_branch: Vec<Stmt>, else_branch: Option<Vec<Stmt>> },
    While { condition: Expr, body: Vec<Stmt> },
    For { variable: String, start: Expr, end: Expr, body: Vec<Stmt> },
    Break,
    Continue,
    Return(Expr),
    ExprStmt(Expr),
}

/// The mathematical model of a [`Stmt`].
pub enum StmtView {
    VarDecl { name: Seq<char>, ty: Option<TypeView>, initializer: ExprView },
    FuncDecl {
        name: Seq<char>,
        params: Seq<ParameterView>,
        return_ty: Option<TypeView>,
        body: Seq<StmtView>,
    },
    If { condition: ExprView, then_branch: Seq<StmtView>, else_branch: Option<Seq<StmtView>> },
    While { condition: ExprView, body: Seq<StmtView> },
    For { variable: Seq<char>, start: ExprView, end: ExprView, body: Seq<StmtView> },
    Break,
    Continue,
    Return(ExprView),
    ExprStmt(ExprView),
}

/// The model of a statement.
pub open spec fn stmt_view(s: Stmt) -> StmtView
    decreases s, 1nat,
{
    match s {
        Stmt::VarDecl { name, ty, initializer } => StmtView::VarDecl {
            name: name@,
            ty: type_option_view(ty),
            initializer: initializer@,
        },
        Stmt::FuncDecl { name, params, return_ty, body } => StmtView::FuncDecl {
            name: name@,
            params: parameters_view(params@),
            return_ty: type_option_view(return_ty),
            body: stmts_view(body@),
        },
        Stmt::If { condition, then_branch, else_branch } => StmtView::If {
            condition: condition@,
            then_branch: stmts_view(then_branch@),
            else_branch: match else_branch {
                Some(block) => Some(stmts_view(block@)),
                None => None,
            },
        },
        Stmt::While { condition, body } => StmtView::While {
            condition: condition@,
            body: stmts_view(body@),
        },
        Stmt::For { variable, start, end, body } => StmtView::For {
            variable: variable@,
            start: start@,
            end: end@,
            body: stmts_view(body@),
        },
        Stmt::Break => StmtView::Break,
        Stmt::Continue => StmtView::Continue,
        Stmt::Return(e) => StmtView::Return(e@),
        Stmt::ExprStmt(e) => StmtView::ExprStmt(e@),
    }
}

/// The models of a list of statements, one by one.
pub open spec fn stmts_view(list: Seq<Stmt>) -> Seq<StmtView>
    decreases list, 0nat,
{
    Seq::new(
        list.len(),
        |i: int|
            if 0 <= i < list.len() {
                stmt_view(list[i])
            } else {
                arbitrary()
            },
    )
}

impl View for Stmt {
    type V = StmtView;

    open spec fn view(&self) -> StmtView {
        stmt_view(*self)
    }
}

impl Clone for Stmt {
    fn clone(&self) -> (copy: Stmt)
        ensures
            copy@ == self@,
        decreases *self, 1nat,
    {
        match self {
            Stmt::VarDecl { name, ty, initializer } => Stmt::VarDecl {
                name: name.clone(),
                ty: clone_type_option(ty),
                initializer: initializer.clone(),
            },
            Stmt::FuncDecl { name, params, return_ty, body } => Stmt::FuncDecl {
                name: name.clone(),
                params: clone_parameters(params),
                return_ty: clone_type_option(return_ty),
                body: clone_stmts(body),
            },
            Stmt::If { condition, then_branch, else_branch } => Stmt::If {
                condition: condition.clone(),
                then_branch: clone_stmts(then_branch),
                else_branch: match else_branch {
                    Some(block) => Some(clone_stmts(block)),
                    None => None,
                },
            },
            Stmt::While { condition, body } => Stmt::While {
                condition: condition.clone(),
                body: clone_stmts(body),
            },
            Stmt::For { variable, start, end, body } => Stmt::For {
                variable: variable.clone(),
                start: start.clone(),
                end: end.clone(),
                body: clone_stmts(body),
            },
            Stmt::Break => Stmt::Break,
            Stmt::Continue => Stmt::Continue,
            Stmt::Return(e) => Stmt::Return(e.clone()),
            Stmt::ExprStmt(e) => Stmt::ExprStmt(e.clone()),
        }
    }
}

/// A copy of a list of statements.
pub fn clone_stmts(list: &Vec<Stmt>) -> (copy: Vec<Stmt>)
    ensures
        stmts_view(copy@) == stmts_view(list@),
    decreases *list, 0nat,
{
    let mut copy: Vec<Stmt> = Vec::new();
    let mut i: usize = 0;
    while i < list.len()
        invariant
            i <= list.len(),
            copy.len() == i,
            forall|j: int| 0 <= j < i ==> copy[j]@ == list[j]@,
        decreases list.len() - i,
    {
        copy.push(list[i].clone());
        i += 1;
    }
    assert(stmts_view(copy@) =~= stmts_view(list@));
    copy
}

} // verus!
