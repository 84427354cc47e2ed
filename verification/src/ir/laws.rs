use vstd::prelude::*;

use crate::ast::{idents_view, same_tree, same_trees, Expr, Ident, Node};
use crate::environment::{
    declare, declares, distinct_names, well_scoped, Scope, Scopes, SymbolView,
};
use crate::ir::lowering::{
    bind_params, binop_of, deallocs, declared_symbol, lower, lower_all, lower_binary, lower_func,
    lower_items, lower_prog, lower_scope, lower_var_declare, BinOp,
};
use crate::ir::{agree, ret_tags, widen, ConstType, Instr};
use crate::types::{to_const_type, AtomType, BasicType};

verus! {

proof fn lemma_same_params_bind(a: Seq<Ident>, b: Seq<Ident>, env: Scopes)
    requires
        idents_view(a) == idents_view(b),
    ensures
        bind_params(a, env) == bind_params(b, env),
    decreases a.len(),
{
    assert(a.len() == idents_view(a).len());
    if a.len() > 0 {
        assert(idents_view(a.drop_last()) =~= idents_view(a).drop_last());
        assert(idents_view(b.drop_last()) =~= idents_view(b).drop_last());
        lemma_same_params_bind(a.drop_last(), b.drop_last(), env);
        assert(a.last()@ == idents_view(a).last());
    }
}

proof fn lemma_same_tree_type(a: Node, b: Node)
    requires
        same_tree(a, b),
    ensures
        a.ty == b.ty,
{
}

/// Lowering does not read where a node stood in the source.
pub proof fn lemma_position_is_ignored(node: Node, line: u32, column: u32, env: Scopes)
    ensures
        lower(Node { expr: node.expr, ty: node.ty, line, column }, env) == lower(node, env),
{
}

/// Determinism. Lowering is a function of the tree and of the scopes it
/// starts from: two trees that are the same in every part lower, from the
/// same scopes, to the same instructions or the same failure, and leave the
/// same scopes.
pub proof fn lemma_same_tree_lowers_alike(a: Node, b: Node, env: Scopes)
    requires
        same_tree(a, b),
    ensures
        lower(a, env) == lower(b, env),
    decreases a, 0nat,
{
    match a.expr {
        Expr::Func { ret, name, args, body } => {
            let body2 = b.expr->Func_body;
            let args2 = b.expr->Func_args;
            lemma_same_params_bind(args@, args2@, env);
            lemma_same_trees_lower_all(body@, body2@, bind_params(args@, env).1);
            assert(lower_func(name@, args@, ret, body@, env) == lower_func(
                b.expr->Func_name@,
                args2@,
                b.expr->Func_ret,
                body2@,
                env,
            ));
        },
        Expr::BinaryExpr { op, left, right } => {
            let left2 = *b.expr->BinaryExpr_left;
            let right2 = *b.expr->BinaryExpr_right;
            lemma_same_tree_lowers_alike(*right, right2, env);
            lemma_same_tree_lowers_alike(*left, left2, lower(*right, env).env);
        },
        Expr::VarDeclare { name, val } => {
            let val2 = *b.expr->VarDeclare_val;
            lemma_same_tree_type(*val, val2);
            lemma_same_tree_lowers_alike(
                *val,
                val2,
                declare(env, declared_symbol(name.name@, val.ty)),
            );
            assert(lower_var_declare(name.name@, *val, env) == lower_var_declare(
                name.name@,
                val2,
                env,
            ));
        },
        Expr::VarAssign { name, val } => {
            let name2 = *b.expr->VarAssign_name;
            let val2 = *b.expr->VarAssign_val;
            lemma_same_tree_type(*val, val2);
            lemma_same_tree_lowers_alike(*name, name2, env);
            lemma_same_tree_lowers_alike(*val, val2, lower(*name, env).env);
        },
        Expr::ListExpr(items) => {
            lemma_same_trees_lower_items(items@, b.expr->ListExpr_0@, env);
        },
        Expr::MemberExpr { parent, child } => {
            lemma_same_tree_lowers_alike(*parent, *b.expr->MemberExpr_parent, env);
        },
        Expr::IndexExpr { parent, index } => {
            lemma_same_tree_type(*index, *b.expr->IndexExpr_index);
            lemma_same_tree_lowers_alike(*parent, *b.expr->IndexExpr_parent, env);
            lemma_same_tree_lowers_alike(*index, *b.expr->IndexExpr_index, lower(*parent, env).env);
        },
        Expr::FnCall { name, args } => {
            assert(same_trees(args@, b.expr->FnCall_args@));
            lemma_same_trees_lower_all(args@, b.expr->FnCall_args@, env);
            lemma_same_tree_lowers_alike(*name, *b.expr->FnCall_name, lower_all(args@, env).env);
        },
        Expr::RetExpr(inner) => {
            lemma_same_tree_type(*inner, *b.expr->RetExpr_0);
            lemma_same_tree_lowers_alike(*inner, *b.expr->RetExpr_0, env);
        },
        Expr::As(inner) => {
            lemma_same_tree_type(*inner, *b.expr->As_0);
            lemma_same_tree_lowers_alike(*inner, *b.expr->As_0, env);
        },
        Expr::Discard(inner) => {
            lemma_same_tree_type(*inner, *b.expr->Discard_0);
            lemma_same_tree_lowers_alike(*inner, *b.expr->Discard_0, env);
        },
        Expr::IfExpr { condition, body, alt } => {
            lemma_same_tree_lowers_alike(*condition, *b.expr->IfExpr_condition, env);
            let c = lower(*condition, env);
            lemma_same_trees_lower_scope(body@, b.expr->IfExpr_body@, c.env);
            let t = lower_scope(body@, c.env);
            match alt {
                Some(else_body) => {
                    lemma_same_trees_lower_scope(else_body@, b.expr->IfExpr_alt->Some_0@, t.env);
                },
                None => {},
            }
        },
        Expr::Block(body) => {
            lemma_same_trees_lower_scope(body@, b.expr->Block_0@, env);
        },
        Expr::WhileExpr { condition, body } => {
            lemma_same_tree_lowers_alike(*condition, *b.expr->WhileExpr_condition, env);
            lemma_same_trees_lower_scope(
                body@,
                b.expr->WhileExpr_body@,
                lower(*condition, env).env,
            );
        },
        _ => {},
    }
}

/// Lists of the same trees lower, as statements in order, alike.
pub proof fn lemma_same_trees_lower_all(a: Seq<Node>, b: Seq<Node>, env: Scopes)
    requires
        same_trees(a, b),
    ensures
        lower_all(a, env) == lower_all(b, env),
    decreases a, 1nat,
{
    if a.len() > 0 {
        lemma_same_trees_lower_all(a.drop_last(), b.drop_last(), env);
        lemma_same_tree_lowers_alike(a.last(), b.last(), lower_all(a.drop_last(), env).env);
    }
}

proof fn lemma_same_trees_lower_items(a: Seq<Node>, b: Seq<Node>, env: Scopes)
    requires
        same_trees(a, b),
    ensures
        lower_items(a, env) == lower_items(b, env),
    decreases a, 1nat,
{
    if a.len() > 0 {
        lemma_same_trees_lower_items(a.drop_last(), b.drop_last(), env);
        lemma_same_tree_lowers_alike(a.last(), b.last(), lower_items(a.drop_last(), env).1);
    }
}

proof fn lemma_same_trees_lower_scope(a: Seq<Node>, b: Seq<Node>, env: Scopes)
    requires
        same_trees(a, b),
    ensures
        lower_scope(a, env) == lower_scope(b, env),
    decreases a, 2nat,
{
    lemma_same_trees_lower_all(a, b, env.push(Scope::empty()));
}

/// Programs of the same trees lower alike.
pub proof fn lemma_same_trees_lower_prog(a: Seq<Node>, b: Seq<Node>, env: Scopes)
    requires
        same_trees(a, b),
    ensures
        lower_prog(a, env) == lower_prog(b, env),
    decreases a.len(),
{
    if a.len() > 0 {
        lemma_same_trees_lower_prog(a.drop_last(), b.drop_last(), env);
        lemma_same_tree_lowers_alike(a.last(), b.last(), lower_prog(a.drop_last(), env).1);
    }
}

/// Whether `after` is `before` with nothing changed but symbols added at
/// the end of the open scope, and none of them under a name that the scope
/// then held: where no scope of `before` declares a name twice, none of
/// `after` does.
pub open spec fn grown(before: Scopes, after: Scopes) -> bool {
    &&& after.len() == before.len()
    &&& after.drop_last() == before.drop_last()
    &&& before.last().len() <= after.last().len()
    &&& after.last().take(before.last().len() as int) == before.last()
    &&& well_scoped(before) ==> well_scoped(after)
}

proof fn lemma_grown_refl(env: Scopes)
    ensures
        grown(env, env),
{
    assert(env.last().take(env.last().len() as int) =~= env.last());
}

proof fn lemma_grown_trans(a: Scopes, b: Scopes, c: Scopes)
    requires
        grown(a, b),
        grown(b, c),
    ensures
        grown(a, c),
{
    let n = a.last().len() as int;
    let m = b.last().len() as int;
    assert(c.last().take(n) =~= c.last().take(m).take(n));
}

proof fn lemma_declare_grows(env: Scopes, symbol: SymbolView)
    requires
        env.len() >= 1,
        !declares(env.last(), symbol.name),
    ensures
        grown(env, declare(env, symbol)),
{
    let after = declare(env, symbol);
    assert(after.drop_last() =~= env.drop_last());
    assert(after.last().take(env.last().len() as int) =~= env.last());
    if well_scoped(env) {
        assert forall|k: int| 0 <= k < after.len() implies distinct_names(#[trigger] after[k]) by {
            if k < after.len() - 1 {
                assert(after[k] == env[k]);
            } else {
                assert(distinct_names(env[k]));
                assert(after[k] == env[k].push(symbol));
            }
        }
    }
}

proof fn lemma_scope_closes(env: Scopes, inner: Scopes)
    requires
        grown(env.push(Scope::empty()), inner),
    ensures
        inner.drop_last() == env,
{
    assert(env.push(Scope::empty()).drop_last() =~= env);
}

proof fn lemma_bind_params_grows(params: Seq<Ident>, env: Scopes)
    requires
        env.len() >= 1,
    ensures
        grown(env, bind_params(params, env).1),
    decreases params.len(),
{
    if params.len() == 0 {
        lemma_grown_refl(env);
    } else {
        lemma_bind_params_grows(params.drop_last(), env);
        let (failure, bound) = bind_params(params.drop_last(), env);
        let param = params.last();
        if failure is None && !declares(bound.last(), param.name@) {
            let symbol = declared_symbol(param.name@, param.ty);
            lemma_declare_grows(bound, symbol);
            lemma_grown_trans(env, bound, declare(bound, symbol));
        }
    }
}

/// Lowering a node leaves every enclosing scope as it was and only adds
/// symbols at the end of the open one, whether it succeeds or fails; and it
/// never brings a name into a scope twice.
pub proof fn lemma_lower_grows(node: Node, env: Scopes)
    requires
        env.len() >= 1,
    ensures
        grown(env, lower(node, env).env),
    decreases node, 0nat,
{
    lemma_grown_refl(env);
    match node.expr {
        Expr::Func { ret, name, args, body } => {
            lemma_lower_func_grows(name@, args@, ret, body@, env);
        },
        Expr::BinaryExpr { op, left, right } => {
            lemma_lower_grows(*right, env);
            let r = lower(*right, env);
            if r.code is Ok {
                lemma_lower_grows(*left, r.env);
                lemma_grown_trans(env, r.env, lower(*left, r.env).env);
            }
        },
        Expr::VarDeclare { name, val } => {
            lemma_lower_var_declare_grows(name.name@, *val, env);
        },
        Expr::VarAssign { name, val } => {
            lemma_lower_grows(*name, env);
            let t = lower(*name, env);
            if t.code is Ok {
                lemma_lower_grows(*val, t.env);
                lemma_grown_trans(env, t.env, lower(*val, t.env).env);
            }
        },
        Expr::ListExpr(items) => {
            lemma_lower_items_grows(items@, env);
        },
        Expr::MemberExpr { parent, child } => {
            lemma_lower_grows(*parent, env);
        },
        Expr::IndexExpr { parent, index } => {
            lemma_lower_grows(*parent, env);
            let p = lower(*parent, env);
            if p.code is Ok {
                lemma_lower_grows(*index, p.env);
                lemma_grown_trans(env, p.env, lower(*index, p.env).env);
            }
        },
        Expr::FnCall { name, args } => {
            lemma_lower_all_grows(args@, env);
            let a = lower_all(args@, env);
            if a.code is Ok {
                lemma_lower_grows(*name, a.env);
                lemma_grown_trans(env, a.env, lower(*name, a.env).env);
            }
        },
        Expr::RetExpr(inner) => {
            lemma_lower_grows(*inner, env);
        },
        Expr::As(inner) => {
            lemma_lower_grows(*inner, env);
        },
        Expr::Discard(inner) => {
            lemma_lower_grows(*inner, env);
        },
        Expr::IfExpr { condition, body, alt } => {
            lemma_lower_grows(*condition, env);
            let c = lower(*condition, env);
            if c.code is Ok {
                lemma_lower_scope_restores(body@, c.env);
                match alt {
                    Some(else_body) => {
                        lemma_lower_scope_restores(else_body@, c.env);
                    },
                    None => {},
                }
            }
        },
        Expr::Block(body) => {
            lemma_lower_scope_restores(body@, env);
        },
        Expr::WhileExpr { condition, body } => {
            lemma_lower_grows(*condition, env);
            let c = lower(*condition, env);
            if c.code is Ok {
                lemma_lower_scope_restores(body@, c.env);
            }
        },
        _ => {},
    }
}

proof fn lemma_lower_var_declare_grows(name: Seq<char>, val: Node, env: Scopes)
    requires
        env.len() >= 1,
    ensures
        grown(env, lower_var_declare(name, val, env).env),
    decreases val, 1nat,
{
    lemma_grown_refl(env);
    if !declares(env.last(), name) {
        let declared = declare(env, declared_symbol(name, val.ty));
        lemma_declare_grows(env, declared_symbol(name, val.ty));
        lemma_lower_grows(val, declared);
        lemma_grown_trans(env, declared, lower(val, declared).env);
    }
}

proof fn lemma_lower_func_grows(
    name: Seq<char>,
    params: Seq<Ident>,
    ret: AtomType,
    body: Seq<Node>,
    env: Scopes,
)
    requires
        env.len() >= 1,
    ensures
        grown(env, lower_func(name, params, ret, body, env).env),
    decreases body, 2nat,
{
    lemma_bind_params_grows(params, env);
    let (failure, bound) = bind_params(params, env);
    if failure is None {
        lemma_lower_all_grows(body, bound);
        lemma_grown_trans(env, bound, lower_all(body, bound).env);
    }
}

/// Lowering statements in order leaves every enclosing scope as it was and
/// only adds symbols at the end of the open one.
pub proof fn lemma_lower_all_grows(nodes: Seq<Node>, env: Scopes)
    requires
        env.len() >= 1,
    ensures
        grown(env, lower_all(nodes, env).env),
    decreases nodes, 1nat,
{
    if nodes.len() == 0 {
        lemma_grown_refl(env);
    } else {
        lemma_lower_all_grows(nodes.drop_last(), env);
        let front = lower_all(nodes.drop_last(), env);
        if front.code is Ok {
            lemma_lower_grows(nodes.last(), front.env);
            lemma_grown_trans(env, front.env, lower(nodes.last(), front.env).env);
        }
    }
}

proof fn lemma_lower_items_grows(nodes: Seq<Node>, env: Scopes)
    requires
        env.len() >= 1,
    ensures
        grown(env, lower_items(nodes, env).1),
    decreases nodes, 1nat,
{
    if nodes.len() == 0 {
        lemma_grown_refl(env);
    } else {
        lemma_lower_items_grows(nodes.drop_last(), env);
        let front = lower_items(nodes.drop_last(), env);
        if front.0 is Ok {
            lemma_lower_grows(nodes.last(), front.1);
            lemma_grown_trans(env, front.1, lower(nodes.last(), front.1).env);
        }
    }
}

/// Lowering a block, a branch or a loop body leaves the scopes exactly as it
/// found them, whether it succeeds or fails.
pub proof fn lemma_lower_scope_restores(nodes: Seq<Node>, env: Scopes)
    requires
        env.len() >= 1,
    ensures
        lower_scope(nodes, env).env == env,
    decreases nodes, 2nat,
{
    let opened = env.push(Scope::empty());
    lemma_lower_all_grows(nodes, opened);
    lemma_scope_closes(env, lower_all(nodes, opened).env);
}

/// Scope balance. Where the statements of a block, a branch or a loop body
/// lower to `body`, the block lowers to `body` followed by exactly one
/// deallocation for each symbol that was declared in the block's own scope,
/// in the order of their declaration, and nothing else; the scopes are then
/// as they were before the block. Where a statement fails, its failure is
/// the block's and the scopes are as they were before the block.
pub proof fn lemma_scope_balance(nodes: Seq<Node>, env: Scopes)
    requires
        env.len() >= 1,
    ensures
        lower_scope(nodes, env).env == env,
        ({
            let inner = lower_all(nodes, env.push(Scope::empty()));
            let symbols = inner.env.last();
            &&& inner.env.len() == env.len() + 1
            &&& inner.env.drop_last() == env
            &&& inner.code matches Ok(body) ==> {
                &&& lower_scope(nodes, env).code == Ok::<Seq<Instr>, u8>(body + deallocs(symbols))
                &&& deallocs(symbols).len() == symbols.len()
                &&& forall|i: int|
                    0 <= i < symbols.len() ==> #[trigger] deallocs(symbols)[i] == Instr::Dealloc(
                        to_const_type(symbols[i].ty),
                        symbols[i].name,
                    )
            }
            &&& inner.code matches Err(e) ==> lower_scope(nodes, env).code == Err::<Seq<Instr>, u8>(e)
        }),
{
    lemma_lower_scope_restores(nodes, env);
    let opened = env.push(Scope::empty());
    lemma_lower_all_grows(nodes, opened);
    lemma_scope_closes(env, lower_all(nodes, opened).env);
}

/// A block lowers to its scope's instructions; a conditional to the
/// condition's instructions and one instruction that holds the two
/// branches, each lowered in a scope of its own (an absent else-branch is
/// empty); a loop to the condition's instructions, once, and one
/// instruction that holds the body, lowered in a scope of its own.
pub proof fn lemma_scoped_constructs(node: Node, env: Scopes)
    ensures
        node.expr matches Expr::Block(body) ==> lower(node, env) == lower_scope(body@, env),
        node.expr matches Expr::WhileExpr { condition, body } ==> {
            let c = lower(*condition, env);
            let b = lower_scope(body@, c.env);
            c.code matches Ok(cond) ==> (b.code matches Ok(code) ==> lower(node, env).code == Ok::<
                Seq<Instr>,
                u8,
            >(cond + seq![Instr::While(code)]))
        },
        node.expr matches Expr::IfExpr { condition, body, alt } ==> {
            let c = lower(*condition, env);
            let t = lower_scope(body@, c.env);
            c.code matches Ok(cond) ==> (t.code matches Ok(then_code) ==> match alt {
                Some(else_body) => lower_scope(else_body@, t.env).code matches Ok(else_code)
                    ==> lower(node, env).code == Ok::<Seq<Instr>, u8>(
                    cond + seq![Instr::If(to_const_type(node.ty), then_code, else_code)],
                ),
                None => lower(node, env).code == Ok::<Seq<Instr>, u8>(
                    cond + seq![Instr::If(to_const_type(node.ty), then_code, Seq::empty())],
                ),
            })
        },
{
}

/// A binary expression node lowers as its operator, operands and type say.
pub proof fn lemma_binary_node(node: Node, env: Scopes)
    ensures
        node.expr matches Expr::BinaryExpr { op, left, right } ==> lower(node, env) == lower_binary(
            to_const_type(node.ty),
            op@,
            *left,
            *right,
            env,
        ),
{
}

/// Comparison canonicalization. `a < b` lowers to the operand groups of
/// `a > b` in the other order, followed by the same greater-than
/// instruction; `a <= b` relates to `a >= b` in the same way. The operands
/// themselves are lowered in the same order for all four, the right one
/// first, so the four fail alike and leave the same scopes.
pub proof fn lemma_less_swaps_greater(ty: ConstType, a: Node, b: Node, env: Scopes)
    ensures
        ({
            let right = lower(b, env);
            let left = lower(a, right.env);
            let lt = lower_binary(ty, seq!['<'], a, b, env);
            let gt = lower_binary(ty, seq!['>'], a, b, env);
            let le = lower_binary(ty, seq!['<', '='], a, b, env);
            let ge = lower_binary(ty, seq!['>', '='], a, b, env);
            &&& lt.env == gt.env && le.env == ge.env && lt.env == le.env
            &&& right.code matches Ok(rc) ==> left.code matches Ok(lc) ==> {
                &&& gt.code == Ok::<Seq<Instr>, u8>(rc + lc + seq![Instr::Comp])
                &&& lt.code == Ok::<Seq<Instr>, u8>(lc + rc + seq![Instr::Comp])
                &&& ge.code == Ok::<Seq<Instr>, u8>(rc + lc + seq![Instr::EComp])
                &&& le.code == Ok::<Seq<Instr>, u8>(lc + rc + seq![Instr::EComp])
            }
            &&& (right.code is Err || left.code is Err) ==> {
                &&& gt.code is Err
                &&& lt.code == gt.code
                &&& ge.code == gt.code
                &&& le.code == gt.code
            }
        }),
{
    lemma_operator_spellings();
}

/// Where both operands lower, and lower independently of each other (each
/// to the same instructions whether it comes before or after the other, and
/// the two to the same scopes in either order), `a < b` lowers to exactly
/// what `b > a` lowers to, and `a <= b` to what `b >= a` lowers to.
pub proof fn lemma_less_mirrors_greater(ty: ConstType, a: Node, b: Node, env: Scopes)
    requires
        lower(a, env).code is Ok,
        lower(b, env).code is Ok,
        lower(a, lower(b, env).env).code == lower(a, env).code,
        lower(b, lower(a, env).env).code == lower(b, env).code,
        lower(a, lower(b, env).env).env == lower(b, lower(a, env).env).env,
    ensures
        lower_binary(ty, seq!['<'], a, b, env) == lower_binary(ty, seq!['>'], b, a, env),
        lower_binary(ty, seq!['<', '='], a, b, env) == lower_binary(ty, seq!['>', '='], b, a, env),
{
    lemma_operator_spellings();
}

proof fn lemma_operator_spellings()
    ensures
        binop_of(seq!['<']) == Some(BinOp::Less),
        binop_of(seq!['>']) == Some(BinOp::Greater),
        binop_of(seq!['<', '=']) == Some(BinOp::LessEq),
        binop_of(seq!['>', '=']) == Some(BinOp::GreaterEq),
{
    let lt = seq!['<'];
    let gt = seq!['>'];
    let le = seq!['<', '='];
    let ge = seq!['>', '='];
    assert(lt[0] == '<' && gt[0] == '>' && le[0] == '<' && ge[0] == '>');
    assert(lt.len() == 1 && gt.len() == 1 && le.len() == 2 && ge.len() == 2);
}

/// Call ordering. A call lowers to the instructions of its arguments in
/// source order, then those of the callee, then one call instruction that
/// carries the number of arguments. With two arguments `x` and `y` and the
/// callee `f` that is: `x`, then `y`, then `f`, then the call with count 2,
/// each lowered from the scopes that the one before left.
pub proof fn lemma_call_order(call: Node, env: Scopes)
    requires
        call.expr is FnCall,
    ensures
        ({
            let args = call.expr->FnCall_args@;
            let callee = *call.expr->FnCall_name;
            let a = lower_all(args, env);
            let f = lower(callee, a.env);
            &&& a.code matches Ok(args_code) ==> f.code matches Ok(callee_code) ==> {
                &&& lower(call, env).code == Ok::<Seq<Instr>, u8>(
                    args_code + callee_code + seq![
                        Instr::Call(to_const_type(call.ty), args.len()),
                    ],
                )
                &&& lower(call, env).env == f.env
            }
            &&& a.code is Err ==> lower(call, env) == a
            &&& (a.code is Ok && f.code is Err) ==> lower(call, env) == f
            &&& args.len() == 2 ==> {
                let x = lower(args[0], env);
                let y = lower(args[1], x.env);
                let g = lower(callee, y.env);
                x.code matches Ok(xc) ==> y.code matches Ok(yc) ==> g.code matches Ok(fc)
                    ==> lower(call, env).code == Ok::<Seq<Instr>, u8>(
                    xc + yc + fc + seq![Instr::Call(to_const_type(call.ty), 2)],
                )
            }
        }),
{
    if call.expr->FnCall_args@.len() == 2 {
        reveal_with_fuel(lower_all, 3);
    }
}

/// The definition of a function. Where the parameters are bound and the
/// statements of the body lower, in order, to `code`, the function lowers to
/// exactly one definition with the name and the parameters as given. Where
/// the returns of `code` agree, or there is none, it carries the declared
/// return type and holds `code` as it is; where two of them disagree, it
/// carries `Dynamic` and holds `code` with every return retagged `Dynamic`.
/// Where a parameter cannot be bound or a statement fails, that failure is
/// the function's.
pub proof fn lemma_function_definition(
    name: Seq<char>,
    params: Seq<Ident>,
    ret: AtomType,
    body: Seq<Node>,
    env: Scopes,
)
    ensures
        ({
            let (failure, bound) = bind_params(params, env);
            let b = lower_all(body, bound);
            let f = lower_func(name, params, ret, body, env);
            &&& failure matches Some(e) ==> f.code == Err::<Seq<Instr>, u8>(e) && f.env == bound
            &&& failure is None ==> f.env == b.env
            &&& failure is None && b.code is Err ==> f.code == b.code
            &&& b.code matches Ok(code) ==> (failure is None ==> f.code == Ok::<Seq<Instr>, u8>(
                seq![
                    if agree(ret_tags(code)) {
                        Instr::Def(to_const_type(ret), name, idents_view(params), code)
                    } else {
                        Instr::Def(ConstType::Dynamic, name, idents_view(params), widen(code))
                    },
                ],
            ))
        }),
{
}

/// Failure short-circuit. Where the right operand of a binary expression
/// fails, the expression fails with the same code, and the scopes are as the
/// right operand left them: the left operand was not lowered.
pub proof fn lemma_right_failure(ty: ConstType, op: Seq<char>, left: Node, right: Node, env: Scopes)
    requires
        lower(right, env).code is Err,
    ensures
        lower_binary(ty, op, left, right, env) == lower(right, env),
{
}

/// Any failure inside a binary expression is the expression's failure: no
/// instructions come back with it.
pub proof fn lemma_operand_failure(ty: ConstType, op: Seq<char>, left: Node, right: Node, env: Scopes)
    ensures
        lower(right, env).code is Ok && lower(left, lower(right, env).env).code is Err
            ==> lower_binary(ty, op, left, right, env) == lower(left, lower(right, env).env),
{
}

/// Void discard. A discarded expression lowers to its own instructions,
/// followed by one pop unless its type is void.
pub proof fn lemma_discard(node: Node, env: Scopes)
    requires
        node.expr is Discard,
    ensures
        ({
            let inner = *node.expr->Discard_0;
            let i = lower(inner, env);
            &&& lower(node, env).env == i.env
            &&& i.code is Err ==> lower(node, env).code == i.code
            &&& i.code matches Ok(code) ==> lower(node, env).code == Ok::<Seq<Instr>, u8>(
                if inner.ty == AtomType::Basic(BasicType::Void) {
                    code
                } else {
                    code + seq![Instr::Pop]
                },
            )
        }),
{
}

} // verus!
