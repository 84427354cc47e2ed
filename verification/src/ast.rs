use vstd::prelude::*;
use vstd::string::StrSliceExecFns;

use crate::types::AtomType;

verus! {

/// A literal of the source language. A float is held by the bits of its
/// IEEE 754 single-precision encoding.
#[derive(Debug, PartialEq)]
pub enum Literal {
    Int(i32),
    Float(u32),
    Str(String),
    Bool(bool),
}

/// What a `Literal` holds.
pub enum LiteralView {
    Int(i32),
    Float(u32),
    Str(Seq<char>),
    Bool(bool),
}

impl View for Literal {
    type V = LiteralView;

    open spec fn view(&self) -> LiteralView {
        match self {
            Literal::Int(n) => LiteralView::Int(*n),
            Literal::Float(bits) => LiteralView::Float(*bits),
            Literal::Str(s) => LiteralView::Str(s@),
            Literal::Bool(b) => LiteralView::Bool(*b),
        }
    }
}

impl Clone for Literal {
    fn clone(&self) -> (r: Self)
        ensures
            r@ == self@,
    {
        match self {
            Literal::Int(n) => Literal::Int(*n),
            Literal::Float(bits) => Literal::Float(*bits),
            Literal::Str(s) => Literal::Str(s.clone()),
            Literal::Bool(b) => Literal::Bool(*b),
        }
    }
}

/// A name with its resolved type.
#[derive(Debug, PartialEq)]
pub struct Ident {
    pub name: String,
    pub ty: AtomType,
}

/// What an `Ident` holds.
pub struct IdentView {
    pub name: Seq<char>,
    pub ty: AtomType,
}

impl View for Ident {
    type V = IdentView;

    open spec fn view(&self) -> IdentView {
        IdentView { name: self.name@, ty: self.ty }
    }
}

/// The views of a list of identifiers, in order.
pub open spec fn idents_view(ids: Seq<Ident>) -> Seq<IdentView> {
    Seq::new(ids.len(), |i: int| ids[i]@)
}

impl Clone for Ident {
    fn clone(&self) -> (r: Self)
        ensures
            r@ == self@,
    {
        Ident { name: self.name.clone(), ty: self.ty.clone() }
    }
}

impl Ident {
    /// The identifier `name` of type `ty`.
    pub fn new(name: String, ty: AtomType) -> (id: Self)
        ensures
            id.name == name,
            id.ty == ty,
    {
        Ident { name, ty }
    }

    /// The name.
    pub fn val(&self) -> (name: &String)
        ensures
            name == self.name,
    {
        &self.name
    }

    /// The resolved type.
    pub fn ty(&self) -> (ty: &AtomType)
        ensures
            *ty == self.ty,
    {
        &self.ty
    }
}

/// An annotation in front of an identifier.
#[derive(Debug, Clone, PartialEq)]
pub struct Tag(pub String);

/// The binding strength of an infix operator, or `None` for any other text.
/// A higher level binds tighter.
pub open spec fn operator_level(op: Seq<char>) -> Option<u8> {
    if op == seq!['&'] || op == seq!['|'] {
        Some(1)
    } else if op == seq!['=', '='] {
        Some(2)
    } else if op == seq!['<'] || op == seq!['>'] {
        Some(3)
    } else if op == seq!['+'] || op == seq!['-'] {
        Some(4)
    } else if op == seq!['*'] || op == seq!['/'] {
        Some(5)
    } else {
        None
    }
}

/// The binding strength of `op`, if it is an infix operator.
pub fn find_operator_level(op: &str) -> (level: Option<u8>)
    ensures
        level == operator_level(op@),
{
    let n: usize = op.unicode_len();
    if n == 1 {
        let c = op.get_char(0);
        assert(op@ =~= seq![c]);
        if c == '&' || c == '|' {
            Some(1)
        } else if c == '<' || c == '>' {
            Some(3)
        } else if c == '+' || c == '-' {
            Some(4)
        } else if c == '*' || c == '/' {
            Some(5)
        } else {
            None
        }
    } else if n == 2 {
        let c = op.get_char(0);
        let d = op.get_char(1);
        assert(op@ =~= seq![c, d]);
        if c == '=' && d == '=' {
            Some(2)
        } else {
            None
        }
    } else {
        None
    }
}

/// The binding strength of the infix operator `op`.
pub fn get_operator_level(op: &str) -> (level: u8)
    requires
        operator_level(op@) is Some,
    ensures
        operator_level(op@) == Some(level),
        1 <= level <= 5,
{
    match find_operator_level(op) {
        Some(level) => level,
        None => 0,
    }
}

/// One element of the syntax tree: its shape, its resolved type and where it
/// stood in the source.
#[derive(Debug, PartialEq)]
pub struct Node {
    pub expr: Expr,
    pub ty: AtomType,
    pub line: u32,
    pub column: u32,
}

/// The shapes of the syntax tree.
#[derive(Debug, PartialEq)]
#[allow(inconsistent_fields)]
pub enum Expr {
    Import { module: String, name: String, params: Vec<Ident> },
    Func { ret: AtomType, name: String, args: Vec<Ident>, body: Vec<Node> },
    Extern { name: Ident, params: Vec<Ident> },
    Literal(Literal),
    BinaryExpr { op: String, left: Box<Node>, right: Box<Node> },
    VarDeclare { name: Ident, val: Box<Node> },
    VarAssign { name: Box<Node>, val: Box<Node> },
    Ident(Ident),
    TaggedIdent(Tag, Ident),
    ListExpr(Vec<Node>),
    MemberExpr { parent: Box<Node>, child: String },
    IndexExpr { parent: Box<Node>, index: Box<Node> },
    FnCall { name: Box<Node>, args: Vec<Node> },
    RetExpr(Box<Node>),
    As(Box<Node>),
    PosInfo(String, u32, u32),
    Discard(Box<Node>),
    IfExpr { condition: Box<Node>, body: Vec<Node>, alt: Option<Vec<Node>> },
    Block(Vec<Node>),
    WhileExpr { condition: Box<Node>, body: Vec<Node> },
}

/// Whether two trees are the same in every part: the same shapes, types,
/// literals and source positions, and names of the same characters.
pub open spec fn same_tree(a: Node, b: Node) -> bool
    decreases a, 0nat,
{
    a.ty == b.ty && a.line == b.line && a.column == b.column && match a.expr {
        Expr::Import { module, name, params } => {
            &&& b.expr matches Expr::Import { module: module2, name: name2, params: params2 }
            &&& module@ == module2@
            &&& name@ == name2@
            &&& idents_view(params@) == idents_view(params2@)
        },
        Expr::Func { ret, name, args, body } => {
            &&& b.expr matches Expr::Func { ret: ret2, name: name2, args: args2, body: body2 }
            &&& ret == ret2
            &&& name@ == name2@
            &&& idents_view(args@) == idents_view(args2@)
            &&& same_trees(body@, body2@)
        },
        Expr::Extern { name, params } => {
            &&& b.expr matches Expr::Extern { name: name2, params: params2 }
            &&& name@ == name2@
            &&& idents_view(params@) == idents_view(params2@)
        },
        Expr::Literal(lit) => {
            &&& b.expr matches Expr::Literal(lit2)
            &&& lit@ == lit2@
        },
        Expr::BinaryExpr { op, left, right } => {
            &&& b.expr matches Expr::BinaryExpr { op: op2, left: left2, right: right2 }
            &&& op@ == op2@
            &&& same_tree(*left, *left2)
            &&& same_tree(*right, *right2)
        },
        Expr::VarDeclare { name, val } => {
            &&& b.expr matches Expr::VarDeclare { name: name2, val: val2 }
            &&& name@ == name2@
            &&& same_tree(*val, *val2)
        },
        Expr::VarAssign { name, val } => {
            &&& b.expr matches Expr::VarAssign { name: name2, val: val2 }
            &&& same_tree(*name, *name2)
            &&& same_tree(*val, *val2)
        },
        Expr::Ident(id) => {
            &&& b.expr matches Expr::Ident(id2)
            &&& id@ == id2@
        },
        Expr::TaggedIdent(tag, id) => {
            &&& b.expr matches Expr::TaggedIdent(tag2, id2)
            &&& tag.0@ == tag2.0@
            &&& id@ == id2@
        },
        Expr::ListExpr(items) => {
            &&& b.expr matches Expr::ListExpr(items2)
            &&& same_trees(items@, items2@)
        },
        Expr::MemberExpr { parent, child } => {
            &&& b.expr matches Expr::MemberExpr { parent: parent2, child: child2 }
            &&& child@ == child2@
            &&& same_tree(*parent, *parent2)
        },
        Expr::IndexExpr { parent, index } => {
            &&& b.expr matches Expr::IndexExpr { parent: parent2, index: index2 }
            &&& same_tree(*parent, *parent2)
            &&& same_tree(*index, *index2)
        },
        Expr::FnCall { name, args } => {
            &&& b.expr matches Expr::FnCall { name: name2, args: args2 }
            &&& same_tree(*name, *name2)
            &&& same_trees(args@, args2@)
        },
        Expr::RetExpr(inner) => {
            &&& b.expr matches Expr::RetExpr(inner2)
            &&& same_tree(*inner, *inner2)
        },
        Expr::As(inner) => {
            &&& b.expr matches Expr::As(inner2)
            &&& same_tree(*inner, *inner2)
        },
        Expr::PosInfo(file, line, column) => {
            &&& b.expr matches Expr::PosInfo(file2, line2, column2)
            &&& file@ == file2@
            &&& line == line2
            &&& column == column2
        },
        Expr::Discard(inner) => {
            &&& b.expr matches Expr::Discard(inner2)
            &&& same_tree(*inner, *inner2)
        },
        Expr::IfExpr { condition, body, alt } => {
            &&& b.expr matches Expr::IfExpr { condition: condition2, body: body2, alt: alt2 }
            &&& same_tree(*condition, *condition2)
            &&& same_trees(body@, body2@)
            &&& match alt {
                Some(else_body) => alt2 matches Some(else_body2) && same_trees(
                    else_body@,
                    else_body2@,
                ),
                None => alt2 is None,
            }
        },
        Expr::Block(body) => {
            &&& b.expr matches Expr::Block(body2)
            &&& same_trees(body@, body2@)
        },
        Expr::WhileExpr { condition, body } => {
            &&& b.expr matches Expr::WhileExpr { condition: condition2, body: body2 }
            &&& same_tree(*condition, *condition2)
            &&& same_trees(body@, body2@)
        },
    }
}

/// Whether two lists hold the same trees, one by one.
pub open spec fn same_trees(a: Seq<Node>, b: Seq<Node>) -> bool
    decreases a, 1nat,
{
    &&& a.len() == b.len()
    &&& a.len() > 0 ==> same_trees(a.drop_last(), b.drop_last()) && same_tree(a.last(), b.last())
}

/// A copy of a list of identifiers.
pub fn clone_idents(ids: &Vec<Ident>) -> (r: Vec<Ident>)
    ensures
        idents_view(r@) == idents_view(ids@),
{
    let mut out: Vec<Ident> = Vec::new();
    let mut i: usize = 0;
    while i < ids.len()
        invariant
            i <= ids.len(),
            out@.len() == i,
            forall|j: int| 0 <= j < i ==> (#[trigger] out@[j])@ == ids@[j]@,
        decreases ids.len() - i,
    {
        out.push(ids[i].clone());
        i += 1;
    }
    out
}

/// A copy of a list of trees.
fn clone_nodes(nodes: &Vec<Node>) -> (r: Vec<Node>)
    ensures
        same_trees(nodes@, r@),
    decreases nodes,
{
    let mut out: Vec<Node> = Vec::new();
    let mut i: usize = 0;
    while i < nodes.len()
        invariant
            i <= nodes.len(),
            same_trees(nodes@.take(i as int), out@),
        decreases nodes.len() - i,
    {
        let ghost before = out@;
        out.push(nodes[i].clone());
        proof {
            assert(nodes@.take(i + 1).drop_last() =~= nodes@.take(i as int));
            assert(out@.drop_last() =~= before);
        }
        i += 1;
    }
    assert(nodes@.take(i as int) =~= nodes@);
    out
}

impl Clone for Node {
    /// A copy of the tree.
    fn clone(&self) -> (r: Self)
        ensures
            same_tree(*self, r),
        decreases self,
    {
        let expr = match &self.expr {
            Expr::Import { module, name, params } => Expr::Import {
                module: module.clone(),
                name: name.clone(),
                params: clone_idents(params),
            },
            Expr::Func { ret, name, args, body } => Expr::Func {
                ret: ret.clone(),
                name: name.clone(),
                args: clone_idents(args),
                body: clone_nodes(body),
            },
            Expr::Extern { name, params } => Expr::Extern {
                name: name.clone(),
                params: clone_idents(params),
            },
            Expr::Literal(lit) => Expr::Literal(lit.clone()),
            Expr::BinaryExpr { op, left, right } => Expr::BinaryExpr {
                op: op.clone(),
                left: Box::new((&**left).clone()),
                right: Box::new((&**right).clone()),
            },
            Expr::VarDeclare { name, val } => Expr::VarDeclare {
                name: name.clone(),
                val: Box::new((&**val).clone()),
            },
            Expr::VarAssign { name, val } => Expr::VarAssign {
                name: Box::new((&**name).clone()),
                val: Box::new((&**val).clone()),
            },
            Expr::Ident(id) => Expr::Ident(id.clone()),
            Expr::TaggedIdent(tag, id) => Expr::TaggedIdent(Tag(tag.0.clone()), id.clone()),
            Expr::ListExpr(items) => Expr::ListExpr(clone_nodes(items)),
            Expr::MemberExpr { parent, child } => Expr::MemberExpr {
                parent: Box::new((&**parent).clone()),
                child: child.clone(),
            },
            Expr::IndexExpr { parent, index } => Expr::IndexExpr {
                parent: Box::new((&**parent).clone()),
                index: Box::new((&**index).clone()),
            },
            Expr::FnCall { name, args } => Expr::FnCall {
                name: Box::new((&**name).clone()),
                args: clone_nodes(args),
            },
            Expr::RetExpr(inner) => Expr::RetExpr(Box::new((&**inner).clone())),
            Expr::As(inner) => Expr::As(Box::new((&**inner).clone())),
            Expr::PosInfo(file, line, column) => Expr::PosInfo(file.clone(), *line, *column),
            Expr::Discard(inner) => Expr::Discard(Box::new((&**inner).clone())),
            Expr::IfExpr { condition, body, alt } => Expr::IfExpr {
                condition: Box::new((&**condition).clone()),
                body: clone_nodes(body),
                alt: match alt {
                    Some(else_body) => Some(clone_nodes(else_body)),
                    None => None,
                },
            },
            Expr::Block(body) => Expr::Block(clone_nodes(body)),
            Expr::WhileExpr { condition, body } => Expr::WhileExpr {
                condition: Box::new((&**condition).clone()),
                body: clone_nodes(body),
            },
        };
        Node { expr, ty: self.ty.clone(), line: self.line, column: self.column }
    }
}

impl Node {
    /// A node of shape `expr` and type `ty`, at no position yet.
    pub fn new(expr: Expr, ty: AtomType) -> (node: Self)
        ensures
            node.expr == expr,
            node.ty == ty,
            node.line == 0,
            node.column == 0,
    {
        Node { expr, ty, line: 0, column: 0 }
    }
}

} // verus!
