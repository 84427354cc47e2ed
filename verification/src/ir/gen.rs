use vstd::prelude::*;
use vstd::string::StrSliceExecFns;

use crate::ast::{idents_view, Expr, Ident, Literal, Node};
use crate::environment::{symbols_view, Scope, Scopes, Symbol};
use crate::ir::laws::lemma_lower_all_grows;
use crate::ir::lowering::{
    bind_params, binop_instr, binop_of, deallocs, declared_symbol, def_instr, lower, lower_all,
    lower_binary, lower_func, lower_items, lower_prog, lower_scope, lower_var_assign,
    lower_var_declare, swaps_operands, BinOp, REDECLARED, UNSUPPORTED,
};
use crate::ir::{
    const_of, groups_view, lemma_ops_view_add, lemma_ops_view_push, ops_view, reconcile, Codegen,
    Const, ConstType, IROp, Instr,
};
use crate::types::{to_const_type, AtomType};

verus! {

pub type IR = Vec<IROp>;

pub type IRRes = Result<IR, u8>;

/// What a result of lowering holds.
pub open spec fn result_view(r: IRRes) -> Result<Seq<Instr>, u8> {
    match r {
        Ok(ops) => Ok(ops_view(ops@)),
        Err(e) => Err(e),
    }
}

/// A measure of a tree of which each of its subtrees has less: the measure
/// by which lowering descends.
pub open spec fn node_size(node: Node) -> nat
    decreases node, 0nat,
{
    2 + match node.expr {
        Expr::Func { body, .. } => nodes_size(body@),
        Expr::BinaryExpr { left, right, .. } => node_size(*left) + node_size(*right),
        Expr::VarDeclare { val, .. } => node_size(*val),
        Expr::VarAssign { name, val } => node_size(*name) + node_size(*val),
        Expr::ListExpr(items) => nodes_size(items@),
        Expr::MemberExpr { parent, .. } => node_size(*parent),
        Expr::IndexExpr { parent, index } => node_size(*parent) + node_size(*index),
        Expr::FnCall { name, args } => node_size(*name) + nodes_size(args@),
        Expr::RetExpr(inner) => node_size(*inner),
        Expr::As(inner) => node_size(*inner),
        Expr::Discard(inner) => node_size(*inner),
        Expr::IfExpr { condition, body, alt } => node_size(*condition) + nodes_size(body@) + match alt {
            Some(else_body) => 1 + nodes_size(else_body@),
            None => 0,
        },
        Expr::Block(body) => nodes_size(body@),
        Expr::WhileExpr { condition, body } => node_size(*condition) + nodes_size(body@),
        _ => 0,
    }
}

/// The measures of a list of trees, summed up.
pub open spec fn nodes_size(nodes: Seq<Node>) -> nat
    decreases nodes, 1nat,
{
    if nodes.len() == 0 {
        0
    } else {
        nodes_size(nodes.drop_last()) + node_size(nodes.last())
    }
}

proof fn lemma_size_index(nodes: Seq<Node>, i: int)
    requires
        0 <= i < nodes.len(),
    ensures
        node_size(nodes[i]) <= nodes_size(nodes),
    decreases nodes.len(),
{
    if i < nodes.len() - 1 {
        lemma_size_index(nodes.drop_last(), i);
    }
}

/// A failure among the first `k` statements is the failure of them all.
proof fn lemma_lower_all_failure(nodes: Seq<Node>, env: Scopes, k: int)
    requires
        0 <= k <= nodes.len(),
        lower_all(nodes.take(k), env).code is Err,
    ensures
        lower_all(nodes, env) == lower_all(nodes.take(k), env),
    decreases nodes.len(),
{
    if k == nodes.len() {
        assert(nodes.take(k) =~= nodes);
    } else {
        assert(nodes.drop_last().take(k) =~= nodes.take(k));
        lemma_lower_all_failure(nodes.drop_last(), env, k);
    }
}

/// A failure among the first `k` items is the failure of them all.
proof fn lemma_lower_items_failure(nodes: Seq<Node>, env: Scopes, k: int)
    requires
        0 <= k <= nodes.len(),
        lower_items(nodes.take(k), env).0 is Err,
    ensures
        lower_items(nodes, env) == lower_items(nodes.take(k), env),
    decreases nodes.len(),
{
    if k == nodes.len() {
        assert(nodes.take(k) =~= nodes);
    } else {
        assert(nodes.drop_last().take(k) =~= nodes.take(k));
        lemma_lower_items_failure(nodes.drop_last(), env, k);
    }
}

/// A name that is taken among the first `k` parameters fails them all.
proof fn lemma_bind_params_failure(params: Seq<Ident>, env: Scopes, k: int)
    requires
        0 <= k <= params.len(),
        bind_params(params.take(k), env).0 is Some,
    ensures
        bind_params(params, env) == bind_params(params.take(k), env),
    decreases params.len(),
{
    if k == params.len() {
        assert(params.take(k) =~= params);
    } else {
        assert(params.drop_last().take(k) =~= params.take(k));
        lemma_bind_params_failure(params.drop_last(), env, k);
    }
}

/// The operator that `op` spells, if it spells one.
pub fn parse_binop(op: &str) -> (r: Option<BinOp>)
    ensures
        r == binop_of(op@),
{
    let n: usize = op.unicode_len();
    if n == 1 {
        let c = op.get_char(0);
        assert(op@ =~= seq![c]);
        if c == '+' {
            Some(BinOp::Add)
        } else if c == '-' {
            Some(BinOp::Sub)
        } else if c == '*' {
            Some(BinOp::Mul)
        } else if c == '/' {
            Some(BinOp::Div)
        } else if c == '%' {
            Some(BinOp::Mod)
        } else if c == '>' {
            Some(BinOp::Greater)
        } else if c == '<' {
            Some(BinOp::Less)
        } else {
            None
        }
    } else if n == 2 {
        let c = op.get_char(0);
        let d = op.get_char(1);
        assert(op@ =~= seq![c, d]);
        if c == '>' && d == '=' {
            Some(BinOp::GreaterEq)
        } else if c == '<' && d == '=' {
            Some(BinOp::LessEq)
        } else if c == '=' && d == '=' {
            Some(BinOp::Equal)
        } else if c == '&' && d == '&' {
            Some(BinOp::And)
        } else if c == '|' && d == '|' {
            Some(BinOp::Or)
        } else {
            None
        }
    } else {
        None
    }
}

impl BinOp {
    /// The instruction of this operator on operands of type `ty`.
    pub fn instr(self, ty: ConstType) -> (op: IROp)
        ensures
            op@ == binop_instr(self, ty),
    {
        match self {
            BinOp::Add => IROp::Add(ty),
            BinOp::Sub => IROp::Sub(ty),
            BinOp::Mul => IROp::Mul(ty),
            BinOp::Div => IROp::Div(ty),
            BinOp::Mod => IROp::Mod(ty),
            BinOp::Greater | BinOp::Less => IROp::Comp,
            BinOp::GreaterEq | BinOp::LessEq => IROp::EComp,
            BinOp::Equal => IROp::Eq,
            BinOp::And => IROp::And,
            BinOp::Or => IROp::Or,
        }
    }

    /// Whether the operand groups of this operator change places.
    pub fn swaps(self) -> (r: bool)
        ensures
            r == swaps_operands(self),
    {
        match self {
            BinOp::Less | BinOp::LessEq => true,
            _ => false,
        }
    }
}

/// The constant that a literal becomes.
fn const_from(lit: Literal) -> (c: Const)
    ensures
        c@ == const_of(lit@),
{
    match lit {
        Literal::Int(n) => Const::Int(n),
        Literal::Float(bits) => Const::Float(bits),
        Literal::Str(s) => Const::Str(s),
        Literal::Bool(b) => Const::Bool(b),
    }
}

/// A sequence of one instruction.
fn single(op: IROp) -> (ops: Vec<IROp>)
    ensures
        ops@ == seq![op],
        ops_view(ops@) == seq![op@],
{
    let mut ops: Vec<IROp> = Vec::new();
    ops.push(op);
    ops
}

/// Appends one instruction.
fn push_op(ops: &mut Vec<IROp>, op: IROp)
    ensures
        final(ops)@ == old(ops)@.push(op),
        ops_view(final(ops)@) == ops_view(old(ops)@) + seq![op@],
{
    ops.push(op);
    proof {
        lemma_ops_view_push(old(ops)@, op);
    }
}

/// Appends the instructions of `more`.
fn append_ops(ops: &mut Vec<IROp>, more: Vec<IROp>)
    ensures
        final(ops)@ == old(ops)@ + more@,
        ops_view(final(ops)@) == ops_view(old(ops)@) + ops_view(more@),
{
    let mut more = more;
    let ghost added = more@;
    ops.append(&mut more);
    proof {
        lemma_ops_view_add(old(ops)@, added);
    }
}

/// The lowering engine: it turns typed syntax trees into instructions and
/// keeps the scopes of the symbols that the trees declare.
pub trait IRGen {
    /// The scopes that the engine holds.
    spec fn scopes(&self) -> Scopes;

    /// Lowers the top-level nodes of a program in order and leaves out those
    /// that fail.
    fn gen_prog(&mut self, exprs: Vec<Node>) -> (ir: IR)
        ensures
            ops_view(ir@) == lower_prog(exprs@, old(self).scopes()).0,
            final(self).scopes() == lower_prog(exprs@, old(self).scopes()).1,
    ;

    /// Lowers the definition of the function `name`: binds the parameters in
    /// the open scope, lowers the statements of the body in order, reconciles
    /// the return tags of what came out and wraps it into one definition,
    /// under the declared return type, or under `Dynamic` where two returns
    /// of the body disagreed.
    fn gen_func(&mut self, name: String, params: Vec<Ident>, ret: AtomType, body: Vec<Node>) -> (r:
        IRRes)
        ensures
            result_view(r) == lower_func(name@, params@, ret, body@, old(self).scopes()).code,
            final(self).scopes() == lower_func(name@, params@, ret, body@, old(self).scopes()).env,
    ;

    /// Lowers the declaration of a function that is defined elsewhere.
    fn gen_extern(&mut self, name: String, params: Vec<Ident>, ret: AtomType) -> (r: IRRes)
        ensures
            result_view(r) == Ok::<Seq<Instr>, u8>(
                seq![Instr::Extern(to_const_type(ret), name@, idents_view(params@))],
            ),
            final(self).scopes() == old(self).scopes(),
    ;

    /// Lowers one node of the tree.
    fn gen_expr(&mut self, expr: Node) -> (r: IRRes)
        ensures
            result_view(r) == lower(expr, old(self).scopes()).code,
            final(self).scopes() == lower(expr, old(self).scopes()).env,
    ;

    /// Lowers the declaration of the variable `name` with the initializer
    /// `expr`.
    fn gen_var_declare(&mut self, name: String, expr: Node) -> (r: IRRes)
        ensures
            result_view(r) == lower_var_declare(name@, expr, old(self).scopes()).code,
            final(self).scopes() == lower_var_declare(name@, expr, old(self).scopes()).env,
    ;

    /// Lowers the assignment of `expr` to the target `name`.
    fn gen_var_assign(&mut self, name: Node, expr: Node) -> (r: IRRes)
        ensures
            result_view(r) == lower_var_assign(name, expr, old(self).scopes()).code,
            final(self).scopes() == lower_var_assign(name, expr, old(self).scopes()).env,
    ;

    /// Lowers the binary expression `left op right` of type `ty`.
    fn gen_binary_expr(&mut self, ty: AtomType, op: String, left: Node, right: Node) -> (r: IRRes)
        ensures
            result_view(r) == lower_binary(to_const_type(ty), op@, left, right, old(self).scopes()).code,
            final(self).scopes() == lower_binary(
                to_const_type(ty),
                op@,
                left,
                right,
                old(self).scopes(),
            ).env,
    ;
}

impl Codegen {
    /// Lowers statements in order, up to the first that fails.
    fn gen_all(&mut self, nodes: Vec<Node>) -> (r: IRRes)
        ensures
            result_view(r) == lower_all(nodes@, old(self).env@).code,
            final(self).env@ == lower_all(nodes@, old(self).env@).env,
        decreases 1 + nodes_size(nodes@), 0nat,
    {
        let ghost env0 = self.env@;
        let ghost all = nodes@;
        let mut out: Vec<IROp> = Vec::new();
        assert(ops_view(out@) =~= Seq::<Instr>::empty());
        for node in it: nodes
            invariant
                it.seq() == all,
                all == nodes@,
                env0 == old(self).env@,
                lower_all(all.take(it.index()), env0).code == Ok::<Seq<Instr>, u8>(ops_view(out@)),
                lower_all(all.take(it.index()), env0).env == self.env@,
        {
            let ghost k = it.index();
            proof {
                lemma_size_index(all, k);
                assert(all.take(k + 1).drop_last() =~= all.take(k));
            }
            match self.gen_expr(node) {
                Ok(code) => {
                    append_ops(&mut out, code);
                },
                Err(e) => {
                    proof {
                        lemma_lower_all_failure(all, env0, k + 1);
                    }
                    return Err(e);
                },
            }
        }
        assert(all.take(all.len() as int) =~= all);
        Ok(out)
    }

    /// Lowers the items of a list in order, up to the first that fails.
    fn gen_items(&mut self, nodes: Vec<Node>) -> (r: Result<Vec<Vec<IROp>>, u8>)
        ensures
            match r {
                Ok(groups) => lower_items(nodes@, old(self).env@).0 == Ok::<Seq<Seq<Instr>>, u8>(
                    groups_view(groups@),
                ),
                Err(e) => lower_items(nodes@, old(self).env@).0 == Err::<Seq<Seq<Instr>>, u8>(e),
            },
            final(self).env@ == lower_items(nodes@, old(self).env@).1,
        decreases 1 + nodes_size(nodes@), 0nat,
    {
        let ghost env0 = self.env@;
        let ghost all = nodes@;
        let mut groups: Vec<Vec<IROp>> = Vec::new();
        assert(groups_view(groups@) =~= Seq::<Seq<Instr>>::empty());
        for node in it: nodes
            invariant
                it.seq() == all,
                all == nodes@,
                env0 == old(self).env@,
                lower_items(all.take(it.index()), env0).0 == Ok::<Seq<Seq<Instr>>, u8>(
                    groups_view(groups@),
                ),
                lower_items(all.take(it.index()), env0).1 == self.env@,
        {
            let ghost k = it.index();
            let ghost before = groups@;
            proof {
                lemma_size_index(all, k);
                assert(all.take(k + 1).drop_last() =~= all.take(k));
            }
            match self.gen_expr(node) {
                Ok(code) => {
                    groups.push(code);
                    assert(groups_view(groups@) =~= groups_view(before).push(ops_view(code@)));
                },
                Err(e) => {
                    proof {
                        lemma_lower_items_failure(all, env0, k + 1);
                    }
                    return Err(e);
                },
            }
        }
        assert(all.take(all.len() as int) =~= all);
        Ok(groups)
    }

    /// Appends one deallocation for each symbol of the open scope, in the
    /// order in which they were declared.
    fn push_deallocs(&self, code: &mut Vec<IROp>)
        ensures
            ops_view(final(code)@) == ops_view(old(code)@) + deallocs(self.env@.last()),
    {
        let symbols = self.env.symbols();
        let ghost scope = symbols_view(symbols@);
        let mut i: usize = 0;
        while i < symbols.len()
            invariant
                i <= symbols.len(),
                scope == symbols_view(symbols@),
                ops_view(code@) == ops_view(old(code)@) + deallocs(scope).take(i as int),
            decreases symbols.len() - i,
        {
            let symbol = &symbols[i];
            let op = IROp::Dealloc(symbol.ty.const_type(), symbol.name.clone());
            push_op(code, op);
            i += 1;
        }
    }

    /// Lowers the statements of a block, a branch or a loop body in a scope
    /// of their own.
    fn gen_scope(&mut self, body: Vec<Node>) -> (r: IRRes)
        ensures
            result_view(r) == lower_scope(body@, old(self).env@).code,
            final(self).env@ == lower_scope(body@, old(self).env@).env,
        decreases 1 + nodes_size(body@), 1nat,
    {
        proof {
            self.env.lemma_has_scope();
            lemma_lower_all_grows(body@, self.env@.push(Scope::empty()));
        }
        self.env.enter_scope();
        let lowered = self.gen_all(body);
        let r = match lowered {
            Ok(code) => {
                let mut code = code;
                self.push_deallocs(&mut code);
                Ok(code)
            },
            Err(e) => Err(e),
        };
        // The scope entered above is the open one again: closing it succeeds.
        let closed = self.env.exit_scope();
        assert(closed is Ok);
        r
    }
}

impl IRGen for Codegen {
    open spec fn scopes(&self) -> Scopes {
        self.env@
    }

    fn gen_prog(&mut self, exprs: Vec<Node>) -> (ir: IR) {
        let ghost env0 = self.env@;
        let ghost all = exprs@;
        let mut out: Vec<IROp> = Vec::new();
        for expr in it: exprs
            invariant
                it.seq() == all,
                lower_prog(all.take(it.index()), env0).0 == ops_view(out@),
                lower_prog(all.take(it.index()), env0).1 == self.env@,
        {
            let ghost k = it.index();
            proof {
                assert(all.take(k + 1).drop_last() =~= all.take(k));
            }
            match self.gen_expr(expr) {
                Ok(code) => {
                    append_ops(&mut out, code);
                },
                Err(_) => {},
            }
        }
        assert(all.take(all.len() as int) =~= all);
        out
    }

    fn gen_func(&mut self, name: String, params: Vec<Ident>, ret: AtomType, body: Vec<Node>) -> (r:
        IRRes)
        decreases 1 + nodes_size(body@), 1nat,
    {
        let ghost env0 = self.env@;
        let mut i: usize = 0;
        while i < params.len()
            invariant
                i <= params.len(),
                env0 == old(self).env@,
                bind_params(params@.take(i as int), env0) == (None::<u8>, self.env@),
            decreases params.len() - i,
        {
            let param = &params[i];
            let symbol = Symbol {
                name: param.name.clone(),
                ty: param.ty.clone(),
                refers_to_atom: false,
                value: None,
                expected: param.ty.clone(),
            };
            proof {
                assert(params@.take(i + 1).drop_last() =~= params@.take(i as int));
            }
            match self.env.add(symbol) {
                Ok(()) => {},
                Err(_) => {
                    proof {
                        lemma_bind_params_failure(params@, env0, i + 1);
                    }
                    return Err(REDECLARED);
                },
            }
            i += 1;
        }
        assert(params@.take(i as int) =~= params@);
        let mut code = self.gen_all(body)?;
        let (_, agreed) = reconcile(&mut code);
        let tag = if agreed {
            ret.const_type()
        } else {
            ConstType::Dynamic
        };
        let def = IROp::Def(tag, name, params, code);
        Ok(single(def))
    }

    fn gen_extern(&mut self, name: String, params: Vec<Ident>, ret: AtomType) -> (r: IRRes) {
        Ok(single(IROp::Extern(ret.const_type(), name, params)))
    }

    fn gen_expr(&mut self, expr: Node) -> (r: IRRes)
        decreases node_size(expr), 0nat,
    {
        let ty = expr.ty.const_type();
        match expr.expr {
            Expr::Import { module, name, params } => Ok(single(IROp::Import(ty, module, name, params))),
            Expr::Func { ret, name, args, body } => self.gen_func(name, args, ret, body),
            Expr::Extern { name, params } => self.gen_extern(name.name, params, name.ty),
            Expr::Literal(lit) => Ok(single(IROp::Const(ty, const_from(lit)))),
            Expr::BinaryExpr { op, left, right } => self.gen_binary_expr(expr.ty, op, *left, *right),
            Expr::VarDeclare { name, val } => self.gen_var_declare(name.name, *val),
            Expr::VarAssign { name, val } => self.gen_var_assign(*name, *val),
            Expr::Ident(id) => Ok(single(IROp::Load(ty, id.name))),
            Expr::TaggedIdent(_, _) => Err(UNSUPPORTED),
            Expr::ListExpr(items) => {
                let groups = self.gen_items(items)?;
                Ok(single(IROp::List(ty, groups)))
            },
            Expr::MemberExpr { parent, child } => {
                let mut res = self.gen_expr(*parent)?;
                push_op(&mut res, IROp::LoadProp(ty, child));
                Ok(res)
            },
            Expr::IndexExpr { parent, index } => {
                let index_tag = index.ty.const_type();
                let mut res = self.gen_expr(*parent)?;
                let idx = self.gen_expr(*index)?;
                append_ops(&mut res, idx);
                push_op(&mut res, IROp::LoadIdx(index_tag));
                Ok(res)
            },
            Expr::FnCall { name, args } => {
                let count: usize = args.len();
                let mut res = self.gen_all(args)?;
                let callee = self.gen_expr(*name)?;
                append_ops(&mut res, callee);
                push_op(&mut res, IROp::Call(ty, count));
                Ok(res)
            },
            Expr::RetExpr(inner) => {
                let tag = inner.ty.const_type();
                let mut res = self.gen_expr(*inner)?;
                push_op(&mut res, IROp::Ret(tag));
                Ok(res)
            },
            Expr::As(inner) => {
                let from = inner.ty.const_type();
                let mut res = self.gen_expr(*inner)?;
                push_op(&mut res, IROp::Conv(ty, from));
                Ok(res)
            },
            Expr::PosInfo(_, _, _) => {
                let res: Vec<IROp> = Vec::new();
                assert(ops_view(res@) =~= Seq::<Instr>::empty());
                Ok(res)
            },
            Expr::Discard(inner) => {
                let void = inner.ty.is_void();
                let mut res = self.gen_expr(*inner)?;
                if !void {
                    push_op(&mut res, IROp::Pop);
                }
                Ok(res)
            },
            Expr::IfExpr { condition, body, alt } => {
                let mut res = self.gen_expr(*condition)?;
                let then_body = self.gen_scope(body)?;
                let else_body = match alt {
                    Some(else_nodes) => self.gen_scope(else_nodes)?,
                    None => {
                        let none: Vec<IROp> = Vec::new();
                        assert(ops_view(none@) =~= Seq::<Instr>::empty());
                        none
                    },
                };
                push_op(&mut res, IROp::If(ty, then_body, else_body));
                Ok(res)
            },
            Expr::Block(body) => self.gen_scope(body),
            Expr::WhileExpr { condition, body } => {
                let mut res = self.gen_expr(*condition)?;
                let body_code = self.gen_scope(body)?;
                push_op(&mut res, IROp::While(body_code));
                Ok(res)
            },
        }
    }

    fn gen_var_declare(&mut self, name: String, expr: Node) -> (r: IRRes)
        decreases 1 + node_size(expr), 0nat,
    {
        let tag = expr.ty.const_type();
        let symbol = Symbol {
            name: name.clone(),
            ty: expr.ty.clone(),
            refers_to_atom: false,
            value: None,
            expected: expr.ty.clone(),
        };
        match self.env.add(symbol) {
            Ok(()) => {},
            Err(_) => {
                return Err(REDECLARED);
            },
        }
        let mut res = single(IROp::Alloc(tag, name.clone()));
        let init = self.gen_expr(expr)?;
        append_ops(&mut res, init);
        push_op(&mut res, IROp::Store(tag, name));
        Ok(res)
    }

    fn gen_var_assign(&mut self, name: Node, expr: Node) -> (r: IRRes)
        decreases 1 + node_size(name) + node_size(expr), 0nat,
    {
        let tag = expr.ty.const_type();
        let mut res = self.gen_expr(name)?;
        let value = self.gen_expr(expr)?;
        append_ops(&mut res, value);
        push_op(&mut res, IROp::Assign(tag));
        Ok(res)
    }

    fn gen_binary_expr(&mut self, ty: AtomType, op: String, left: Node, right: Node) -> (r: IRRes)
        decreases 1 + node_size(left) + node_size(right), 0nat,
    {
        let rhs = self.gen_expr(right)?;
        let lhs = self.gen_expr(left)?;
        match parse_binop(op.as_str()) {
            None => Err(UNSUPPORTED),
            Some(binop) => {
                let mut res: Vec<IROp>;
                if binop.swaps() {
                    res = lhs;
                    append_ops(&mut res, rhs);
                } else {
                    res = rhs;
                    append_ops(&mut res, lhs);
                }
                push_op(&mut res, binop.instr(ty.const_type()));
                Ok(res)
            },
        }
    }
}

} // verus!
