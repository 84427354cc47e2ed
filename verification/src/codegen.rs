use vstd::prelude::*;
use vstd::string::StrSliceExecFns;

use crate::ast::{Expr, Literal, Node};

verus! {

/// The failure code of a program without a node to compile.
pub const NOTHING_COMPILED: i8 = -1;

/// The failure code of a variable that is read before it is declared.
pub const UNDECLARED_VAR: i8 = 1;

/// The failure code of an operation on operands it does not take.
pub const INVALID_OPERANDS: i8 = 2;

/// What the native backend does with a node.
pub enum Step {
    /// Build the object of an integer constant.
    IntObject(i32),
    /// Build the object of a floating-point constant, given by its bits.
    FloatObject(u32),
    /// Load the variable of this name, or fail with `UNDECLARED_VAR`.
    LoadVar(String),
    /// Compile the left operand, then the right one, then apply the operator.
    Binary { op: String, left: Box<Node>, right: Box<Node> },
    /// Nothing: the backend does not compile this shape.
    Unsupported(Expr),
}

/// The step that the native backend takes for `node`: it compiles integer
/// and floating-point literals, identifiers and binary expressions, and no
/// other shape.
pub fn next_step(node: Node) -> (step: Step)
    ensures
        step == match node.expr {
            Expr::Literal(Literal::Int(n)) => Step::IntObject(n),
            Expr::Literal(Literal::Float(bits)) => Step::FloatObject(bits),
            Expr::Ident(id) => Step::LoadVar(id.name),
            Expr::BinaryExpr { op, left, right } => Step::Binary { op, left, right },
            other => Step::Unsupported(other),
        },
{
    match node.expr {
        Expr::Literal(Literal::Int(n)) => Step::IntObject(n),
        Expr::Literal(Literal::Float(bits)) => Step::FloatObject(bits),
        Expr::Ident(id) => Step::LoadVar(id.name),
        Expr::BinaryExpr { op, left, right } => Step::Binary { op, left, right },
        other => Step::Unsupported(other),
    }
}

/// The kind of a compiled integer value.
pub const INT_KIND: u8 = 0;

/// The kind of a compiled floating-point value.
pub const FLOAT_KIND: u8 = 1;

/// Which operand of a binary operation the native backend converts from
/// integer to floating point before it applies the operator.
#[derive(Debug, Clone, Copy, PartialEq, Eq, Structural)]
pub enum Promotion {
    Neither,
    Left,
    Right,
}

/// An integer operand beside a floating-point one is promoted; operands of
/// one kind, and kinds other than these two, are left alone.
pub open spec fn promotion_of(lhs_kind: u8, rhs_kind: u8) -> Promotion {
    if lhs_kind == INT_KIND && rhs_kind == FLOAT_KIND {
        Promotion::Left
    } else if lhs_kind == FLOAT_KIND && rhs_kind == INT_KIND {
        Promotion::Right
    } else {
        Promotion::Neither
    }
}

/// The promotion that operands of the kinds `lhs_kind` and `rhs_kind` need.
pub fn promotion(lhs_kind: u8, rhs_kind: u8) -> (p: Promotion)
    ensures
        p == promotion_of(lhs_kind, rhs_kind),
{
    if lhs_kind != rhs_kind {
        if lhs_kind == INT_KIND && rhs_kind == FLOAT_KIND {
            return Promotion::Left;
        } else if lhs_kind == FLOAT_KIND && rhs_kind == INT_KIND {
            return Promotion::Right;
        }
    }
    Promotion::Neither
}

/// The arithmetic operations that the native backend builds.
#[derive(Debug, Clone, Copy, PartialEq, Eq, Structural)]
pub enum ArithOp {
    Add,
    Sub,
    Mul,
    Div,
}

/// The operation that a spelling stands for.
pub open spec fn arith_op_of(op: Seq<char>) -> Option<ArithOp> {
    if op == seq!['+'] {
        Some(ArithOp::Add)
    } else if op == seq!['-'] {
        Some(ArithOp::Sub)
    } else if op == seq!['*'] {
        Some(ArithOp::Mul)
    } else if op == seq!['/'] {
        Some(ArithOp::Div)
    } else {
        None
    }
}

/// The operation that `op` spells, if the native backend builds it.
pub fn arith_op(op: &str) -> (r: Option<ArithOp>)
    ensures
        r == arith_op_of(op@),
{
    if op.unicode_len() != 1 {
        return None;
    }
    let c = op.get_char(0);
    assert(op@ =~= seq![c]);
    if c == '+' {
        Some(ArithOp::Add)
    } else if c == '-' {
        Some(ArithOp::Sub)
    } else if c == '*' {
        Some(ArithOp::Mul)
    } else if c == '/' {
        Some(ArithOp::Div)
    } else {
        None
    }
}

} // verus!
