use vstd::prelude::*;

use crate::ast::{idents_view, Expr, Ident, Node};
use crate::environment::{declare, declares, Scope, Scopes, SymbolView};
use crate::ir::{agree, const_of, reconciled, ret_tags, ConstType, Instr};
use crate::types::{to_const_type, AtomType, BasicType};

verus! {

/// The failure code of a tree shape, or of an operator, that the engine does
/// not lower.
pub const UNSUPPORTED: u8 = 1;

/// The failure code of a declaration whose name the open scope already holds.
pub const REDECLARED: u8 = 2;

/// The binary operators of the source language.
#[derive(Debug, Clone, Copy, PartialEq, Eq, Structural)]
pub enum BinOp {
    Add,
    Sub,
    Mul,
    Div,
    Mod,
    Greater,
    Less,
    GreaterEq,
    LessEq,
    Equal,
    And,
    Or,
}

/// The operator that a spelling stands for.
pub open spec fn binop_of(op: Seq<char>) -> Option<BinOp> {
    if op == seq!['+'] {
        Some(BinOp::Add)
    } else if op == seq!['-'] {
        Some(BinOp::Sub)
    } else if op == seq!['*'] {
        Some(BinOp::Mul)
    } else if op == seq!['/'] {
        Some(BinOp::Div)
    } else if op == seq!['%'] {
        Some(BinOp::Mod)
    } else if op == seq!['>'] {
        Some(BinOp::Greater)
    } else if op == seq!['<'] {
        Some(BinOp::Less)
    } else if op == seq!['>', '='] {
        Some(BinOp::GreaterEq)
    } else if op == seq!['<', '='] {
        Some(BinOp::LessEq)
    } else if op == seq!['=', '='] {
        Some(BinOp::Equal)
    } else if op == seq!['&', '&'] {
        Some(BinOp::And)
    } else if op == seq!['|', '|'] {
        Some(BinOp::Or)
    } else {
        None
    }
}

/// The instruction of an operator. The instruction set has no less-than:
/// `<` and `<=` use the instructions of `>` and `>=`, on swapped operands.
pub open spec fn binop_instr(op: BinOp, ty: ConstType) -> Instr {
    match op {
        BinOp::Add => Instr::Add(ty),
        BinOp::Sub => Instr::Sub(ty),
        BinOp::Mul => Instr::Mul(ty),
        BinOp::Div => Instr::Div(ty),
        BinOp::Mod => Instr::Mod(ty),
        BinOp::Greater | BinOp::Less => Instr::Comp,
        BinOp::GreaterEq | BinOp::LessEq => Instr::EComp,
        BinOp::Equal => Instr::Eq,
        BinOp::And => Instr::And,
        BinOp::Or => Instr::Or,
    }
}

/// Whether the operand groups of an operator change places.
pub open spec fn swaps_operands(op: BinOp) -> bool {
    op == BinOp::Less || op == BinOp::LessEq
}

/// What lowering gives: the instructions or a failure code, and the scopes
/// as lowering leaves them.
pub struct Lowered {
    pub code: Result<Seq<Instr>, u8>,
    pub env: Scopes,
}

/// The instructions of a binary expression whose operands are lowered: the
/// group of the right operand, then that of the left one, for `<` and `<=`
/// the other way round, then the operator.
pub open spec fn binary_code(op: Seq<char>, ty: ConstType, left: Seq<Instr>, right: Seq<Instr>)
    -> Result<Seq<Instr>, u8> {
    match binop_of(op) {
        None => Err(UNSUPPORTED),
        Some(binop) => if swaps_operands(binop) {
            Ok(left + right + seq![binop_instr(binop, ty)])
        } else {
            Ok(right + left + seq![binop_instr(binop, ty)])
        },
    }
}

/// The symbol that a declaration of `name` with type `ty` registers.
pub open spec fn declared_symbol(name: Seq<char>, ty: AtomType) -> SymbolView {
    SymbolView { name, ty, refers_to_atom: false, value: None, expected: ty }
}

/// One deallocation for each symbol of a scope, in the order in which they
/// were declared.
pub open spec fn deallocs(scope: Scope) -> Seq<Instr> {
    Seq::new(scope.len(), |i: int| Instr::Dealloc(to_const_type(scope[i].ty), scope[i].name))
}

/// The scopes after the parameters were bound in the open scope, one after
/// the other, with `None` in front. Where the open scope already held the
/// name of one of them, `Some(REDECLARED)` stands in front, with the scopes
/// as they were when that showed: the parameters before it are bound, it and
/// those after it are not.
pub open spec fn bind_params(params: Seq<Ident>, env: Scopes) -> (Option<u8>, Scopes)
    decreases params.len(),
{
    if params.len() == 0 {
        (None, env)
    } else {
        let (failure, bound) = bind_params(params.drop_last(), env);
        let param = params.last();
        if failure is Some {
            (failure, bound)
        } else if declares(bound.last(), param.name@) {
            (Some(REDECLARED), bound)
        } else {
            (None, declare(bound, declared_symbol(param.name@, param.ty)))
        }
    }
}

/// The function definition that wraps a lowered body: the body reconciled,
/// under the declared return type where the body's returns agree or there
/// is none, under `Dynamic` where two of them disagree.
pub open spec fn def_instr(ret: AtomType, name: Seq<char>, params: Seq<Ident>, body: Seq<Instr>)
    -> Instr {
    let tag = if agree(ret_tags(body)) {
        to_const_type(ret)
    } else {
        ConstType::Dynamic
    };
    Instr::Def(tag, name, idents_view(params), reconciled(body))
}

/// Lowering of one node of the tree, from the scopes `env`. Instructions
/// carry the tag of the node's type unless said otherwise; the parts of a
/// node are lowered in the order given, each from the scopes that the one
/// before left, and the first failure is the node's failure.
///
/// - A literal gives one constant, an identifier one load, position
///   metadata nothing; an import and a declaration of an outside function
///   give one descriptor each, the latter under the type of its name.
/// - A binary expression lowers its right operand, then its left one; see
///   `binary_code` for the instructions.
/// - A declaration: see `lower_var_declare`. An assignment lowers its
///   target, then its value, and ends in one assignment tagged with the
///   value's type.
/// - A list lowers its items and holds one group for each in one list
///   instruction.
/// - A member access lowers the parent and ends in one member load; an index
///   access lowers the parent, then the index, and ends in one index load
///   tagged with the index's type.
/// - A call lowers its arguments, then the callee, and ends in one call that
///   carries the number of arguments.
/// - A return ends in one return tagged with the type of what is returned; a
///   conversion in one conversion from the type of what is converted; a
///   discard in one pop, unless what is discarded is void.
/// - A block is lowered in a scope of its own: see `lower_scope`. A
///   conditional lowers its condition and ends in one instruction that holds
///   both branches, each lowered in a scope of its own; a loop lowers its
///   condition, once, and ends in one instruction that holds the body,
///   lowered in a scope of its own.
/// - A function definition: see `lower_func`.
/// - A tagged identifier is not lowered: it fails with `UNSUPPORTED`.
pub open spec fn lower(node: Node, env: Scopes) -> Lowered
    decreases node, 0nat,
{
    let ty = to_const_type(node.ty);
    match node.expr {
        Expr::Import { module, name, params } => Lowered {
            code: Ok(seq![Instr::Import(ty, module@, name@, idents_view(params@))]),
            env,
        },
        Expr::Func { ret, name, args, body } => lower_func(name@, args@, ret, body@, env),
        Expr::Extern { name, params } => Lowered {
            code: Ok(seq![Instr::Extern(to_const_type(name.ty), name.name@, idents_view(params@))]),
            env,
        },
        Expr::Literal(lit) => Lowered { code: Ok(seq![Instr::Const(ty, const_of(lit@))]), env },
        Expr::BinaryExpr { op, left, right } => {
            let r = lower(*right, env);
            match r.code {
                Err(e) => r,
                Ok(right_code) => {
                    let l = lower(*left, r.env);
                    match l.code {
                        Err(e) => l,
                        Ok(left_code) => Lowered {
                            code: binary_code(op@, ty, left_code, right_code),
                            env: l.env,
                        },
                    }
                },
            }
        },
        Expr::VarDeclare { name, val } => lower_var_declare(name.name@, *val, env),
        Expr::VarAssign { name, val } => {
            let target = lower(*name, env);
            match target.code {
                Err(e) => target,
                Ok(target_code) => {
                    let value = lower(*val, target.env);
                    match value.code {
                        Err(e) => value,
                        Ok(value_code) => Lowered {
                            code: Ok(
                                target_code + value_code + seq![
                                    Instr::Assign(to_const_type(val.ty)),
                                ],
                            ),
                            env: value.env,
                        },
                    }
                },
            }
        },
        Expr::Ident(id) => Lowered { code: Ok(seq![Instr::Load(ty, id.name@)]), env },
        Expr::TaggedIdent(_, _) => Lowered { code: Err(UNSUPPORTED), env },
        Expr::ListExpr(items) => {
            let groups = lower_items(items@, env);
            match groups.0 {
                Err(e) => Lowered { code: Err(e), env: groups.1 },
                Ok(gs) => Lowered { code: Ok(seq![Instr::List(ty, gs)]), env: groups.1 },
            }
        },
        Expr::MemberExpr { parent, child } => {
            let p = lower(*parent, env);
            match p.code {
                Err(e) => p,
                Ok(parent_code) => Lowered {
                    code: Ok(parent_code + seq![Instr::LoadProp(ty, child@)]),
                    env: p.env,
                },
            }
        },
        Expr::IndexExpr { parent, index } => {
            let p = lower(*parent, env);
            match p.code {
                Err(e) => p,
                Ok(parent_code) => {
                    let i = lower(*index, p.env);
                    match i.code {
                        Err(e) => i,
                        Ok(index_code) => Lowered {
                            code: Ok(
                                parent_code + index_code + seq![
                                    Instr::LoadIdx(to_const_type(index.ty)),
                                ],
                            ),
                            env: i.env,
                        },
                    }
                },
            }
        },
        Expr::FnCall { name, args } => {
            let a = lower_all(args@, env);
            match a.code {
                Err(e) => a,
                Ok(args_code) => {
                    let callee = lower(*name, a.env);
                    match callee.code {
                        Err(e) => callee,
                        Ok(callee_code) => Lowered {
                            code: Ok(
                                args_code + callee_code + seq![Instr::Call(ty, args@.len())],
                            ),
                            env: callee.env,
                        },
                    }
                },
            }
        },
        Expr::RetExpr(inner) => {
            let i = lower(*inner, env);
            match i.code {
                Err(e) => i,
                Ok(code) => Lowered {
                    code: Ok(code + seq![Instr::Ret(to_const_type(inner.ty))]),
                    env: i.env,
                },
            }
        },
        Expr::As(inner) => {
            let i = lower(*inner, env);
            match i.code {
                Err(e) => i,
                Ok(code) => Lowered {
                    code: Ok(code + seq![Instr::Conv(ty, to_const_type(inner.ty))]),
                    env: i.env,
                },
            }
        },
        Expr::PosInfo(_, _, _) => Lowered { code: Ok(Seq::empty()), env },
        Expr::Discard(inner) => {
            let i = lower(*inner, env);
            match i.code {
                Err(e) => i,
                Ok(code) => Lowered {
                    code: Ok(
                        if inner.ty == AtomType::Basic(BasicType::Void) {
                            code
                        } else {
                            code + seq![Instr::Pop]
                        },
                    ),
                    env: i.env,
                },
            }
        },
        Expr::IfExpr { condition, body, alt } => {
            let c = lower(*condition, env);
            match c.code {
                Err(e) => c,
                Ok(cond_code) => {
                    let t = lower_scope(body@, c.env);
                    match t.code {
                        Err(e) => t,
                        Ok(then_code) => {
                            let e = match alt {
                                Some(else_body) => lower_scope(else_body@, t.env),
                                None => Lowered { code: Ok(Seq::empty()), env: t.env },
                            };
                            match e.code {
                                Err(_) => e,
                                Ok(else_code) => Lowered {
                                    code: Ok(cond_code + seq![Instr::If(ty, then_code, else_code)]),
                                    env: e.env,
                                },
                            }
                        },
                    }
                },
            }
        },
        Expr::Block(body) => lower_scope(body@, env),
        Expr::WhileExpr { condition, body } => {
            let c = lower(*condition, env);
            match c.code {
                Err(e) => c,
                Ok(cond_code) => {
                    let b = lower_scope(body@, c.env);
                    match b.code {
                        Err(e) => b,
                        Ok(body_code) => Lowered {
                            code: Ok(cond_code + seq![Instr::While(body_code)]),
                            env: b.env,
                        },
                    }
                },
            }
        },
    }
}

/// Lowering of a variable declaration: the allocation, then the initializer,
/// lowered with the variable already declared, then the store. The variable
/// has the initializer's type. It fails where the open scope already
/// declares the name.
pub open spec fn lower_var_declare(name: Seq<char>, val: Node, env: Scopes) -> Lowered
    decreases val, 1nat,
{
    let ty = to_const_type(val.ty);
    if declares(env.last(), name) {
        Lowered { code: Err(REDECLARED), env }
    } else {
        let init = lower(val, declare(env, declared_symbol(name, val.ty)));
        match init.code {
            Err(e) => init,
            Ok(code) => Lowered {
                code: Ok(seq![Instr::Alloc(ty, name)] + code + seq![Instr::Store(ty, name)]),
                env: init.env,
            },
        }
    }
}

/// Lowering of a function definition: the parameters are bound in the open
/// scope, the statements lowered in order, and the reconciled body wrapped
/// into one definition: see `def_instr`.
pub open spec fn lower_func(
    name: Seq<char>,
    params: Seq<Ident>,
    ret: AtomType,
    body: Seq<Node>,
    env: Scopes,
) -> Lowered
    decreases body, 2nat,
{
    let (failure, bound) = bind_params(params, env);
    match failure {
        Some(e) => Lowered { code: Err(e), env: bound },
        None => {
            let b = lower_all(body, bound);
            match b.code {
                Err(e) => b,
                Ok(code) => Lowered { code: Ok(seq![def_instr(ret, name, params, code)]), env: b.env },
            }
        },
    }
}

/// Lowering of statements in order, each from the scopes that the one before
/// left, up to the first that fails.
pub open spec fn lower_all(nodes: Seq<Node>, env: Scopes) -> Lowered
    decreases nodes, 1nat,
{
    if nodes.len() == 0 {
        Lowered { code: Ok(Seq::empty()), env }
    } else {
        let front = lower_all(nodes.drop_last(), env);
        match front.code {
            Err(e) => front,
            Ok(front_code) => {
                let last = lower(nodes.last(), front.env);
                match last.code {
                    Err(e) => last,
                    Ok(last_code) => Lowered { code: Ok(front_code + last_code), env: last.env },
                }
            },
        }
    }
}

/// Lowering of the items of a list in order: one group of instructions for
/// each item.
pub open spec fn lower_items(nodes: Seq<Node>, env: Scopes) -> (Result<Seq<Seq<Instr>>, u8>, Scopes)
    decreases nodes, 1nat,
{
    if nodes.len() == 0 {
        (Ok(Seq::empty()), env)
    } else {
        let front = lower_items(nodes.drop_last(), env);
        match front.0 {
            Err(e) => front,
            Ok(groups) => {
                let last = lower(nodes.last(), front.1);
                match last.code {
                    Err(e) => (Err(e), last.env),
                    Ok(code) => (Ok(groups.push(code)), last.env),
                }
            },
        }
    }
}

/// Lowering of the statements of a block, a branch or a loop body: a scope
/// is opened, the statements are lowered, one deallocation follows for each
/// symbol of that scope, and the scope is closed, also when a statement
/// fails.
pub open spec fn lower_scope(nodes: Seq<Node>, env: Scopes) -> Lowered
    decreases nodes, 2nat,
{
    let inner = lower_all(nodes, env.push(Scope::empty()));
    match inner.code {
        Err(e) => Lowered { code: Err(e), env: inner.env.drop_last() },
        Ok(code) => Lowered {
            code: Ok(code + deallocs(inner.env.last())),
            env: inner.env.drop_last(),
        },
    }
}

/// Lowering of a binary expression of type `ty`: the right operand is
/// lowered first, then the left one.
pub open spec fn lower_binary(ty: ConstType, op: Seq<char>, left: Node, right: Node, env: Scopes)
    -> Lowered {
    let r = lower(right, env);
    match r.code {
        Err(e) => r,
        Ok(right_code) => {
            let l = lower(left, r.env);
            match l.code {
                Err(e) => l,
                Ok(left_code) => Lowered {
                    code: binary_code(op, ty, left_code, right_code),
                    env: l.env,
                },
            }
        },
    }
}

/// Lowering of an assignment: the target is lowered first, then the value,
/// then one instruction with the value's type.
pub open spec fn lower_var_assign(target: Node, val: Node, env: Scopes) -> Lowered {
    let t = lower(target, env);
    match t.code {
        Err(e) => t,
        Ok(target_code) => {
            let value = lower(val, t.env);
            match value.code {
                Err(e) => value,
                Ok(value_code) => Lowered {
                    code: Ok(target_code + value_code + seq![Instr::Assign(to_const_type(val.ty))]),
                    env: value.env,
                },
            }
        },
    }
}

/// Lowering of the top-level nodes of a program in order. A node that fails
/// adds no instruction; the next one is lowered from the scopes it left.
pub open spec fn lower_prog(nodes: Seq<Node>, env: Scopes) -> (Seq<Instr>, Scopes)
    decreases nodes.len(),
{
    if nodes.len() == 0 {
        (Seq::empty(), env)
    } else {
        let front = lower_prog(nodes.drop_last(), env);
        let last = lower(nodes.last(), front.1);
        match last.code {
            Err(_) => (front.0, last.env),
            Ok(code) => (front.0 + code, last.env),
        }
    }
}

} // verus!
