use vstd::prelude::*;

use crate::ast::{idents_view, Expr, Ident, Node};
use crate::environment::{declare, Scope, Scopes};
use crate::ir::laws::{lemma_lower_all_grows, lemma_lower_grows, lemma_lower_scope_restores};
use crate::ir::lowering::{
    bind_params, binary_code, binop_instr, binop_of, deallocs, declared_symbol, def_instr, lower,
    lower_all, lower_func, lower_items, lower_scope, lower_var_declare,
};
use crate::ir::{const_of, widen, widen_groups, widen_instr, ConstType, Instr};
use crate::types::{to_const_type, AtomType};

verus! {

/// The number of deallocations in an instruction: one if it is one, and
/// those in the bodies it holds.
pub open spec fn instr_dealloc_count(instr: Instr) -> nat
    decreases instr, 0nat,
{
    match instr {
        Instr::Dealloc(_, _) => 1,
        Instr::Def(_, _, _, body) => dealloc_count(body),
        Instr::If(_, then_body, else_body) => dealloc_count(then_body) + dealloc_count(else_body),
        Instr::While(body) => dealloc_count(body),
        Instr::List(_, groups) => groups_dealloc_count(groups),
        _ => 0,
    }
}

/// The number of deallocations in a sequence of instructions, nested bodies
/// included.
pub open spec fn dealloc_count(code: Seq<Instr>) -> nat
    decreases code, 1nat,
{
    if code.len() == 0 {
        0
    } else {
        dealloc_count(code.drop_last()) + instr_dealloc_count(code.last())
    }
}

/// The number of deallocations in the item groups of a list.
pub open spec fn groups_dealloc_count(groups: Seq<Seq<Instr>>) -> nat
    decreases groups, 1nat,
{
    if groups.len() == 0 {
        0
    } else {
        groups_dealloc_count(groups.drop_last()) + dealloc_count(groups.last())
    }
}

/// The number of declarations in a tree: its variable declarations and the
/// parameters of its function definitions.
pub open spec fn declarations(node: Node) -> nat
    decreases node, 0nat,
{
    match node.expr {
        Expr::Func { args, body, .. } => args@.len() + all_declarations(body@),
        Expr::BinaryExpr { left, right, .. } => declarations(*left) + declarations(*right),
        Expr::VarDeclare { val, .. } => 1 + declarations(*val),
        Expr::VarAssign { name, val } => declarations(*name) + declarations(*val),
        Expr::ListExpr(items) => all_declarations(items@),
        Expr::MemberExpr { parent, .. } => declarations(*parent),
        Expr::IndexExpr { parent, index } => declarations(*parent) + declarations(*index),
        Expr::FnCall { name, args } => all_declarations(args@) + declarations(*name),
        Expr::RetExpr(inner) => declarations(*inner),
        Expr::As(inner) => declarations(*inner),
        Expr::Discard(inner) => declarations(*inner),
        Expr::IfExpr { condition, body, alt } => declarations(*condition) + all_declarations(body@)
            + match alt {
            Some(else_body) => all_declarations(else_body@),
            None => 0,
        },
        Expr::Block(body) => all_declarations(body@),
        Expr::WhileExpr { condition, body } => declarations(*condition) + all_declarations(body@),
        _ => 0,
    }
}

/// The number of declarations in a list of trees.
pub open spec fn all_declarations(nodes: Seq<Node>) -> nat
    decreases nodes, 1nat,
{
    if nodes.len() == 0 {
        0
    } else {
        all_declarations(nodes.drop_last()) + declarations(nodes.last())
    }
}

proof fn lemma_count_add(front: Seq<Instr>, back: Seq<Instr>)
    ensures
        dealloc_count(front + back) == dealloc_count(front) + dealloc_count(back),
    decreases back.len(),
{
    if back.len() > 0 {
        lemma_count_add(front, back.drop_last());
        assert((front + back).drop_last() =~= front + back.drop_last());
    }
}

proof fn lemma_count_one(instr: Instr)
    ensures
        dealloc_count(seq![instr]) == instr_dealloc_count(instr),
{
    let one = seq![instr];
    assert(dealloc_count(one.drop_last()) == 0);
}

proof fn lemma_count_push(code: Seq<Instr>, instr: Instr)
    ensures
        dealloc_count(code + seq![instr]) == dealloc_count(code) + instr_dealloc_count(instr),
{
    lemma_count_add(code, seq![instr]);
    lemma_count_one(instr);
}

proof fn lemma_count_deallocs(scope: Scope)
    ensures
        dealloc_count(deallocs(scope)) == scope.len(),
    decreases scope.len(),
{
    if scope.len() > 0 {
        lemma_count_deallocs(scope.drop_last());
        assert(deallocs(scope).drop_last() =~= deallocs(scope.drop_last()));
        assert(instr_dealloc_count(deallocs(scope).last()) == 1);
    }
}

proof fn lemma_count_widen_instr(instr: Instr)
    ensures
        instr_dealloc_count(widen_instr(instr)) == instr_dealloc_count(instr),
    decreases instr, 0nat,
{
    match instr {
        Instr::If(_, then_body, else_body) => {
            lemma_count_widen(then_body);
            lemma_count_widen(else_body);
        },
        Instr::While(body) => {
            lemma_count_widen(body);
        },
        Instr::List(_, groups) => {
            lemma_count_widen_groups(groups);
        },
        _ => {},
    }
}

proof fn lemma_count_widen(code: Seq<Instr>)
    ensures
        dealloc_count(widen(code)) == dealloc_count(code),
    decreases code, 1nat,
{
    if code.len() > 0 {
        lemma_count_widen(code.drop_last());
        lemma_count_widen_instr(code.last());
        assert(widen(code).drop_last() =~= widen(code.drop_last()));
    }
}

proof fn lemma_count_widen_groups(groups: Seq<Seq<Instr>>)
    ensures
        groups_dealloc_count(widen_groups(groups)) == groups_dealloc_count(groups),
    decreases groups, 1nat,
{
    if groups.len() > 0 {
        lemma_count_widen_groups(groups.drop_last());
        lemma_count_widen(groups.last());
        assert(widen_groups(groups).drop_last() =~= widen_groups(groups.drop_last()));
    }
}

proof fn lemma_count_binary(op: Seq<char>, ty: ConstType, left: Seq<Instr>, right: Seq<Instr>)
    ensures
        binary_code(op, ty, left, right) matches Ok(code) ==> dealloc_count(code) == dealloc_count(
            left,
        ) + dealloc_count(right),
{
    if binary_code(op, ty, left, right) is Ok {
        let binop = binop_of(op)->Some_0;
        let instr = binop_instr(binop, ty);
        lemma_count_add(left, right);
        lemma_count_add(right, left);
        lemma_count_push(left + right, instr);
        lemma_count_push(right + left, instr);
    }
}

proof fn lemma_bound_params(params: Seq<Ident>, env: Scopes)
    requires
        env.len() >= 1,
    ensures
        bind_params(params, env).0 is None ==> bind_params(params, env).1.last().len()
            == env.last().len() + params.len(),
        bind_params(params, env).1.len() == env.len(),
    decreases params.len(),
{
    if params.len() > 0 {
        lemma_bound_params(params.drop_last(), env);
    }
}

/// What came into the open scope and what was deallocated add up to what was
/// declared: where a tree lowers, the deallocations in its instructions and
/// the symbols it left in the open scope are together as many as the
/// declarations in the tree.
pub proof fn lemma_lower_accounts(node: Node, env: Scopes)
    requires
        env.len() >= 1,
    ensures
        lower(node, env).code matches Ok(code) ==> dealloc_count(code) + lower(
            node,
            env,
        ).env.last().len() == env.last().len() + declarations(node),
    decreases node, 0nat,
{
    let ty = to_const_type(node.ty);
    match node.expr {
        Expr::Import { module, name, params } => {
            lemma_count_one(
                Instr::Import(ty, module@, name@, idents_view(params@)),
            );
        },
        Expr::Func { ret, name, args, body } => {
            lemma_lower_func_accounts(name@, args@, ret, body@, env);
        },
        Expr::Extern { name, params } => {
            lemma_count_one(
                Instr::Extern(
                    to_const_type(name.ty),
                    name.name@,
                    idents_view(params@),
                ),
            );
        },
        Expr::Literal(lit) => {
            lemma_count_one(Instr::Const(ty, const_of(lit@)));
        },
        Expr::BinaryExpr { op, left, right } => {
            lemma_lower_accounts(*right, env);
            lemma_lower_grows(*right, env);
            let r = lower(*right, env);
            if r.code is Ok {
                lemma_lower_accounts(*left, r.env);
                let l = lower(*left, r.env);
                if l.code is Ok {
                    lemma_count_binary(op@, ty, l.code->Ok_0, r.code->Ok_0);
                }
            }
        },
        Expr::VarDeclare { name, val } => {
            lemma_lower_var_declare_accounts(name.name@, *val, env);
        },
        Expr::VarAssign { name, val } => {
            lemma_lower_accounts(*name, env);
            lemma_lower_grows(*name, env);
            let t = lower(*name, env);
            if t.code is Ok {
                lemma_lower_accounts(*val, t.env);
                let v = lower(*val, t.env);
                if v.code is Ok {
                    lemma_count_add(t.code->Ok_0, v.code->Ok_0);
                    lemma_count_push(
                        t.code->Ok_0 + v.code->Ok_0,
                        Instr::Assign(to_const_type(val.ty)),
                    );
                }
            }
        },
        Expr::Ident(id) => {
            lemma_count_one(Instr::Load(ty, id.name@));
        },
        Expr::TaggedIdent(_, _) => {},
        Expr::ListExpr(items) => {
            lemma_lower_items_accounts(items@, env);
            let groups = lower_items(items@, env);
            if groups.0 is Ok {
                lemma_count_one(Instr::List(ty, groups.0->Ok_0));
            }
        },
        Expr::MemberExpr { parent, child } => {
            lemma_lower_accounts(*parent, env);
            let p = lower(*parent, env);
            if p.code is Ok {
                lemma_count_push(p.code->Ok_0, Instr::LoadProp(ty, child@));
            }
        },
        Expr::IndexExpr { parent, index } => {
            lemma_lower_accounts(*parent, env);
            lemma_lower_grows(*parent, env);
            let p = lower(*parent, env);
            if p.code is Ok {
                lemma_lower_accounts(*index, p.env);
                let i = lower(*index, p.env);
                if i.code is Ok {
                    lemma_count_add(p.code->Ok_0, i.code->Ok_0);
                    lemma_count_push(
                        p.code->Ok_0 + i.code->Ok_0,
                        Instr::LoadIdx(to_const_type(index.ty)),
                    );
                }
            }
        },
        Expr::FnCall { name, args } => {
            lemma_lower_all_accounts(args@, env);
            lemma_lower_all_grows(args@, env);
            let a = lower_all(args@, env);
            if a.code is Ok {
                lemma_lower_accounts(*name, a.env);
                let f = lower(*name, a.env);
                if f.code is Ok {
                    lemma_count_add(a.code->Ok_0, f.code->Ok_0);
                    lemma_count_push(a.code->Ok_0 + f.code->Ok_0, Instr::Call(ty, args@.len()));
                }
            }
        },
        Expr::RetExpr(inner) => {
            lemma_lower_accounts(*inner, env);
            let i = lower(*inner, env);
            if i.code is Ok {
                lemma_count_push(i.code->Ok_0, Instr::Ret(to_const_type(inner.ty)));
            }
        },
        Expr::As(inner) => {
            lemma_lower_accounts(*inner, env);
            let i = lower(*inner, env);
            if i.code is Ok {
                lemma_count_push(
                    i.code->Ok_0,
                    Instr::Conv(ty, to_const_type(inner.ty)),
                );
            }
        },
        Expr::PosInfo(_, _, _) => {},
        Expr::Discard(inner) => {
            lemma_lower_accounts(*inner, env);
            let i = lower(*inner, env);
            if i.code is Ok {
                lemma_count_push(i.code->Ok_0, Instr::Pop);
            }
        },
        Expr::IfExpr { condition, body, alt } => {
            lemma_lower_accounts(*condition, env);
            lemma_lower_grows(*condition, env);
            let c = lower(*condition, env);
            if c.code is Ok {
                lemma_scope_accounts(body@, c.env);
                let t = lower_scope(body@, c.env);
                if t.code is Ok {
                    match alt {
                        Some(else_body) => {
                            lemma_scope_accounts(else_body@, t.env);
                            let e = lower_scope(else_body@, t.env);
                            if e.code is Ok {
                                lemma_count_push(
                                    c.code->Ok_0,
                                    Instr::If(ty, t.code->Ok_0, e.code->Ok_0),
                                );
                            }
                        },
                        None => {
                            lemma_count_push(
                                c.code->Ok_0,
                                Instr::If(ty, t.code->Ok_0, Seq::empty()),
                            );
                        },
                    }
                }
            }
        },
        Expr::Block(body) => {
            lemma_scope_accounts(body@, env);
        },
        Expr::WhileExpr { condition, body } => {
            lemma_lower_accounts(*condition, env);
            lemma_lower_grows(*condition, env);
            let c = lower(*condition, env);
            if c.code is Ok {
                lemma_scope_accounts(body@, c.env);
                let b = lower_scope(body@, c.env);
                if b.code is Ok {
                    lemma_count_push(c.code->Ok_0, Instr::While(b.code->Ok_0));
                }
            }
        },
    }
}

proof fn lemma_lower_var_declare_accounts(name: Seq<char>, val: Node, env: Scopes)
    requires
        env.len() >= 1,
    ensures
        lower_var_declare(name, val, env).code matches Ok(code) ==> dealloc_count(code)
            + lower_var_declare(name, val, env).env.last().len() == env.last().len() + 1
            + declarations(val),
    decreases val, 1nat,
{
    let ty = to_const_type(val.ty);
    let declared = declare(env, declared_symbol(name, val.ty));
    lemma_lower_accounts(val, declared);
    let init = lower(val, declared);
    if init.code is Ok {
        let code = init.code->Ok_0;
        lemma_count_one(Instr::Alloc(ty, name));
        lemma_count_add(seq![Instr::Alloc(ty, name)], code);
        lemma_count_push(seq![Instr::Alloc(ty, name)] + code, Instr::Store(ty, name));
    }
}

proof fn lemma_lower_func_accounts(
    name: Seq<char>,
    params: Seq<Ident>,
    ret: AtomType,
    body: Seq<Node>,
    env: Scopes,
)
    requires
        env.len() >= 1,
    ensures
        lower_func(name, params, ret, body, env).code matches Ok(code) ==> dealloc_count(code)
            + lower_func(name, params, ret, body, env).env.last().len() == env.last().len()
            + params.len() + all_declarations(body),
    decreases body, 2nat,
{
    lemma_bound_params(params, env);
    let (failure, bound) = bind_params(params, env);
    if failure is None {
        lemma_lower_all_accounts(body, bound);
        let b = lower_all(body, bound);
        if b.code is Ok {
            let code = b.code->Ok_0;
            lemma_count_widen(code);
            lemma_count_one(def_instr(ret, name, params, code));
        }
    }
}

/// The same account for statements lowered in order.
pub proof fn lemma_lower_all_accounts(nodes: Seq<Node>, env: Scopes)
    requires
        env.len() >= 1,
    ensures
        lower_all(nodes, env).code matches Ok(code) ==> dealloc_count(code) + lower_all(
            nodes,
            env,
        ).env.last().len() == env.last().len() + all_declarations(nodes),
    decreases nodes, 1nat,
{
    if nodes.len() > 0 {
        lemma_lower_all_accounts(nodes.drop_last(), env);
        lemma_lower_all_grows(nodes.drop_last(), env);
        let front = lower_all(nodes.drop_last(), env);
        if front.code is Ok {
            lemma_lower_accounts(nodes.last(), front.env);
            let last = lower(nodes.last(), front.env);
            if last.code is Ok {
                lemma_count_add(front.code->Ok_0, last.code->Ok_0);
            }
        }
    }
}

proof fn lemma_lower_items_accounts(nodes: Seq<Node>, env: Scopes)
    requires
        env.len() >= 1,
    ensures
        lower_items(nodes, env).0 matches Ok(groups) ==> groups_dealloc_count(groups) + lower_items(
            nodes,
            env,
        ).1.last().len() == env.last().len() + all_declarations(nodes),
        lower_items(nodes, env).1.len() == env.len(),
    decreases nodes, 1nat,
{
    if nodes.len() > 0 {
        lemma_lower_items_accounts(nodes.drop_last(), env);
        let front = lower_items(nodes.drop_last(), env);
        if front.0 is Ok {
            lemma_lower_accounts(nodes.last(), front.1);
            lemma_lower_grows(nodes.last(), front.1);
            let last = lower(nodes.last(), front.1);
            if last.code is Ok {
                let groups = front.0->Ok_0.push(last.code->Ok_0);
                assert(groups.drop_last() =~= front.0->Ok_0);
            }
        }
    }
}

/// Deep scope balance. Where a block, a branch or a loop body lowers, its
/// instructions hold exactly as many deallocations as symbols were declared
/// while its scope was open, those of the scopes nested in it included.
pub proof fn lemma_scope_accounts(nodes: Seq<Node>, env: Scopes)
    requires
        env.len() >= 1,
    ensures
        lower_scope(nodes, env).env == env,
        lower_scope(nodes, env).code matches Ok(code) ==> dealloc_count(code) == all_declarations(
            nodes,
        ),
    decreases nodes, 2nat,
{
    lemma_lower_scope_restores(nodes, env);
    let opened = env.push(Scope::empty());
    lemma_lower_all_accounts(nodes, opened);
    let inner = lower_all(nodes, opened);
    if inner.code is Ok {
        lemma_count_add(inner.code->Ok_0, deallocs(inner.env.last()));
        lemma_count_deallocs(inner.env.last());
    }
}

} // verus!
