use vstd::prelude::*;

pub mod balance;
pub mod gen;
pub mod laws;
pub mod lowering;

use crate::ast::{clone_idents, idents_view, Ident, IdentView, LiteralView};
use crate::environment::{Environment, Scope};

verus! {

/// The narrow type tag carried by the operands of the instruction set.
/// `Dynamic` is never the tag of a source-level type: it is what the return
/// tags of a function fall back to when they disagree.
#[derive(Debug, Clone, Copy, PartialEq, Eq, Structural)]
pub enum ConstType {
    Int,
    Float,
    Str,
    Bool,
    Void,
    List,
    Dynamic,
}

/// The payload of a constant instruction. A float is held by the bits of its
/// IEEE 754 single-precision encoding.
#[derive(Debug, PartialEq)]
pub enum Const {
    Int(i32),
    Float(u32),
    Str(String),
    Bool(bool),
}

/// What a `Const` holds.
pub enum ConstView {
    Int(i32),
    Float(u32),
    Str(Seq<char>),
    Bool(bool),
}

impl View for Const {
    type V = ConstView;

    open spec fn view(&self) -> ConstView {
        match self {
            Const::Int(n) => ConstView::Int(*n),
            Const::Float(bits) => ConstView::Float(*bits),
            Const::Str(s) => ConstView::Str(s@),
            Const::Bool(b) => ConstView::Bool(*b),
        }
    }
}

/// The constant payload that a literal of the source language becomes.
pub open spec fn const_of(lit: LiteralView) -> ConstView {
    match lit {
        LiteralView::Int(n) => ConstView::Int(n),
        LiteralView::Float(bits) => ConstView::Float(bits),
        LiteralView::Str(s) => ConstView::Str(s),
        LiteralView::Bool(b) => ConstView::Bool(b),
    }
}

/// One instruction of the stack machine.
#[derive(Debug, PartialEq)]
pub enum IROp {
    /// Function definition: return tag, name, parameters, body.
    Def(ConstType, String, Vec<Ident>, Vec<IROp>),
    /// Declaration of a function defined elsewhere: return tag, name, parameters.
    Extern(ConstType, String, Vec<Ident>),
    /// Import: tag, module, symbol, parameters.
    Import(ConstType, String, String, Vec<Ident>),
    Alloc(ConstType, String),
    Dealloc(ConstType, String),
    Store(ConstType, String),
    Load(ConstType, String),
    LoadProp(ConstType, String),
    LoadIdx(ConstType),
    /// Writes the value on top of the stack to the target below it.
    Assign(ConstType),
    Add(ConstType),
    Sub(ConstType),
    Mul(ConstType),
    Div(ConstType),
    Mod(ConstType),
    /// Greater than.
    Comp,
    /// Greater than or equal.
    EComp,
    Eq,
    And,
    Or,
    /// Conditional: result tag, then-body, else-body.
    If(ConstType, Vec<IROp>, Vec<IROp>),
    /// Loop over a body.
    While(Vec<IROp>),
    Const(ConstType, Const),
    /// List: tag and the instruction group of each item.
    List(ConstType, Vec<Vec<IROp>>),
    /// Call: result tag and number of arguments.
    Call(ConstType, usize),
    Ret(ConstType),
    /// Conversion: target tag, source tag.
    Conv(ConstType, ConstType),
    /// Discards the value on top of the stack.
    Pop,
}

/// The mathematical value of an instruction: names are character sequences,
/// nested bodies are sequences of instructions.
pub enum Instr {
    Def(ConstType, Seq<char>, Seq<IdentView>, Seq<Instr>),
    Extern(ConstType, Seq<char>, Seq<IdentView>),
    Import(ConstType, Seq<char>, Seq<char>, Seq<IdentView>),
    Alloc(ConstType, Seq<char>),
    Dealloc(ConstType, Seq<char>),
    Store(ConstType, Seq<char>),
    Load(ConstType, Seq<char>),
    LoadProp(ConstType, Seq<char>),
    LoadIdx(ConstType),
    Assign(ConstType),
    Add(ConstType),
    Sub(ConstType),
    Mul(ConstType),
    Div(ConstType),
    Mod(ConstType),
    Comp,
    EComp,
    Eq,
    And,
    Or,
    If(ConstType, Seq<Instr>, Seq<Instr>),
    While(Seq<Instr>),
    Const(ConstType, ConstView),
    List(ConstType, Seq<Seq<Instr>>),
    Call(ConstType, nat),
    Ret(ConstType),
    Conv(ConstType, ConstType),
    Pop,
}

impl View for IROp {
    type V = Instr;

    open spec fn view(&self) -> Instr
        decreases self,
    {
        match self {
            IROp::Def(t, name, params, body) => Instr::Def(
                *t,
                name@,
                idents_view(params@),
                ops_view(body@),
            ),
            IROp::Extern(t, name, params) => Instr::Extern(*t, name@, idents_view(params@)),
            IROp::Import(t, module, name, params) => Instr::Import(
                *t,
                module@,
                name@,
                idents_view(params@),
            ),
            IROp::Alloc(t, name) => Instr::Alloc(*t, name@),
            IROp::Dealloc(t, name) => Instr::Dealloc(*t, name@),
            IROp::Store(t, name) => Instr::Store(*t, name@),
            IROp::Load(t, name) => Instr::Load(*t, name@),
            IROp::LoadProp(t, name) => Instr::LoadProp(*t, name@),
            IROp::LoadIdx(t) => Instr::LoadIdx(*t),
            IROp::Assign(t) => Instr::Assign(*t),
            IROp::Add(t) => Instr::Add(*t),
            IROp::Sub(t) => Instr::Sub(*t),
            IROp::Mul(t) => Instr::Mul(*t),
            IROp::Div(t) => Instr::Div(*t),
            IROp::Mod(t) => Instr::Mod(*t),
            IROp::Comp => Instr::Comp,
            IROp::EComp => Instr::EComp,
            IROp::Eq => Instr::Eq,
            IROp::And => Instr::And,
            IROp::Or => Instr::Or,
            IROp::If(t, then_body, else_body) => Instr::If(
                *t,
                ops_view(then_body@),
                ops_view(else_body@),
            ),
            IROp::While(body) => Instr::While(ops_view(body@)),
            IROp::Const(t, c) => Instr::Const(*t, c@),
            IROp::List(t, items) => Instr::List(*t, groups_view(items@)),
            IROp::Call(t, n) => Instr::Call(*t, *n as nat),
            IROp::Ret(t) => Instr::Ret(*t),
            IROp::Conv(to, from) => Instr::Conv(*to, *from),
            IROp::Pop => Instr::Pop,
        }
    }
}

impl Clone for Const {
    fn clone(&self) -> (r: Self)
        ensures
            r@ == self@,
    {
        match self {
            Const::Int(n) => Const::Int(*n),
            Const::Float(bits) => Const::Float(*bits),
            Const::Str(s) => Const::Str(s.clone()),
            Const::Bool(b) => Const::Bool(*b),
        }
    }
}

/// A copy of a sequence of instructions.
fn clone_ops(ops: &Vec<IROp>) -> (r: Vec<IROp>)
    ensures
        ops_view(r@) == ops_view(ops@),
    decreases ops,
{
    let mut out: Vec<IROp> = Vec::new();
    let mut i: usize = 0;
    while i < ops.len()
        invariant
            i <= ops.len(),
            out@.len() == i,
            forall|j: int| 0 <= j < i ==> (#[trigger] out@[j])@ == ops@[j]@,
        decreases ops.len() - i,
    {
        out.push(ops[i].clone());
        i += 1;
    }
    out
}

/// A copy of a sequence of instruction groups.
fn clone_groups(groups: &Vec<Vec<IROp>>) -> (r: Vec<Vec<IROp>>)
    ensures
        groups_view(r@) == groups_view(groups@),
    decreases groups,
{
    let mut out: Vec<Vec<IROp>> = Vec::new();
    let mut i: usize = 0;
    while i < groups.len()
        invariant
            i <= groups.len(),
            out@.len() == i,
            forall|j: int| 0 <= j < i ==> ops_view((#[trigger] out@[j])@) == ops_view(groups@[j]@),
        decreases groups.len() - i,
    {
        out.push(clone_ops(&groups[i]));
        i += 1;
    }
    out
}

impl Clone for IROp {
    fn clone(&self) -> (r: Self)
        ensures
            r@ == self@,
        decreases self,
    {
        match self {
            IROp::Def(t, name, params, body) => IROp::Def(
                *t,
                name.clone(),
                clone_idents(params),
                clone_ops(body),
            ),
            IROp::Extern(t, name, params) => IROp::Extern(*t, name.clone(), clone_idents(params)),
            IROp::Import(t, module, name, params) => IROp::Import(
                *t,
                module.clone(),
                name.clone(),
                clone_idents(params),
            ),
            IROp::Alloc(t, name) => IROp::Alloc(*t, name.clone()),
            IROp::Dealloc(t, name) => IROp::Dealloc(*t, name.clone()),
            IROp::Store(t, name) => IROp::Store(*t, name.clone()),
            IROp::Load(t, name) => IROp::Load(*t, name.clone()),
            IROp::LoadProp(t, name) => IROp::LoadProp(*t, name.clone()),
            IROp::LoadIdx(t) => IROp::LoadIdx(*t),
            IROp::Assign(t) => IROp::Assign(*t),
            IROp::Add(t) => IROp::Add(*t),
            IROp::Sub(t) => IROp::Sub(*t),
            IROp::Mul(t) => IROp::Mul(*t),
            IROp::Div(t) => IROp::Div(*t),
            IROp::Mod(t) => IROp::Mod(*t),
            IROp::Comp => IROp::Comp,
            IROp::EComp => IROp::EComp,
            IROp::Eq => IROp::Eq,
            IROp::And => IROp::And,
            IROp::Or => IROp::Or,
            IROp::If(t, then_body, else_body) => IROp::If(
                *t,
                clone_ops(then_body),
                clone_ops(else_body),
            ),
            IROp::While(body) => IROp::While(clone_ops(body)),
            IROp::Const(t, c) => IROp::Const(*t, c.clone()),
            IROp::List(t, items) => IROp::List(*t, clone_groups(items)),
            IROp::Call(t, n) => IROp::Call(*t, *n),
            IROp::Ret(t) => IROp::Ret(*t),
            IROp::Conv(to, from) => IROp::Conv(*to, *from),
            IROp::Pop => IROp::Pop,
        }
    }
}

/// The values of a sequence of instructions, in order.
pub open spec fn ops_view(ops: Seq<IROp>) -> Seq<Instr>
    decreases ops,
{
    Seq::new(ops.len(), |i: int| if 0 <= i < ops.len() { ops[i].view() } else { arbitrary() })
}

/// The values of a sequence of instruction groups, in order.
pub open spec fn groups_view(groups: Seq<Vec<IROp>>) -> Seq<Seq<Instr>>
    decreases groups,
{
    Seq::new(
        groups.len(),
        |i: int| if 0 <= i < groups.len() { ops_view(groups[i]@) } else { arbitrary() },
    )
}

/// The tag of the value that an instruction works on or leaves behind: none
/// for a comparison, a logical operation, a loop and a discard; for a
/// conversion the tag it converts to.
pub open spec fn instr_type(instr: Instr) -> Option<ConstType> {
    match instr {
        Instr::Def(t, _, _, _) => Some(t),
        Instr::Extern(t, _, _) => Some(t),
        Instr::Import(t, _, _, _) => Some(t),
        Instr::Alloc(t, _) => Some(t),
        Instr::Dealloc(t, _) => Some(t),
        Instr::Store(t, _) => Some(t),
        Instr::Load(t, _) => Some(t),
        Instr::LoadProp(t, _) => Some(t),
        Instr::LoadIdx(t) => Some(t),
        Instr::Assign(t) => Some(t),
        Instr::Add(t) => Some(t),
        Instr::Sub(t) => Some(t),
        Instr::Mul(t) => Some(t),
        Instr::Div(t) => Some(t),
        Instr::Mod(t) => Some(t),
        Instr::If(t, _, _) => Some(t),
        Instr::Const(t, _) => Some(t),
        Instr::List(t, _) => Some(t),
        Instr::Call(t, _) => Some(t),
        Instr::Ret(t) => Some(t),
        Instr::Conv(t, _) => Some(t),
        Instr::Comp | Instr::EComp | Instr::Eq | Instr::And | Instr::Or | Instr::While(_) | Instr::Pop => None,
    }
}

/// The tag of an instruction, if it has one.
pub fn get_op_type(op: &IROp) -> (tag: Option<ConstType>)
    ensures
        tag == instr_type(op@),
{
    match op {
        IROp::Def(t, _, _, _) => Some(*t),
        IROp::Extern(t, _, _) => Some(*t),
        IROp::Import(t, _, _, _) => Some(*t),
        IROp::Alloc(t, _) => Some(*t),
        IROp::Dealloc(t, _) => Some(*t),
        IROp::Store(t, _) => Some(*t),
        IROp::Load(t, _) => Some(*t),
        IROp::LoadProp(t, _) => Some(*t),
        IROp::LoadIdx(t) => Some(*t),
        IROp::Assign(t) => Some(*t),
        IROp::Add(t) => Some(*t),
        IROp::Sub(t) => Some(*t),
        IROp::Mul(t) => Some(*t),
        IROp::Div(t) => Some(*t),
        IROp::Mod(t) => Some(*t),
        IROp::If(t, _, _) => Some(*t),
        IROp::Const(t, _) => Some(*t),
        IROp::List(t, _) => Some(*t),
        IROp::Call(t, _) => Some(*t),
        IROp::Ret(t) => Some(*t),
        IROp::Conv(t, _) => Some(*t),
        IROp::Comp | IROp::EComp | IROp::Eq | IROp::And | IROp::Or | IROp::While(_) | IROp::Pop => None,
    }
}

/// The tag of the last instruction of a sequence: the type of what the
/// sequence leaves behind.
pub fn get_ops_type(ops: &Vec<IROp>) -> (tag: Option<ConstType>)
    requires
        ops@.len() > 0,
    ensures
        tag == instr_type(ops@.last()@),
{
    get_op_type(&ops[ops.len() - 1])
}

/// The return tags of one instruction, in order: its own if it is a return,
/// those inside the bodies of a conditional, a loop or a list, none of a
/// nested function definition.
pub open spec fn instr_ret_tags(instr: Instr) -> Seq<ConstType>
    decreases instr, 0nat,
{
    match instr {
        Instr::Ret(t) => seq![t],
        Instr::If(_, then_body, else_body) => ret_tags(then_body) + ret_tags(else_body),
        Instr::While(body) => ret_tags(body),
        Instr::List(_, groups) => groups_ret_tags(groups),
        _ => Seq::empty(),
    }
}

/// The return tags of a function body, in order.
pub open spec fn ret_tags(code: Seq<Instr>) -> Seq<ConstType>
    decreases code, 1nat,
{
    if code.len() == 0 {
        Seq::empty()
    } else {
        ret_tags(code.drop_last()) + instr_ret_tags(code.last())
    }
}

/// The return tags inside the item groups of a list, in order.
pub open spec fn groups_ret_tags(groups: Seq<Seq<Instr>>) -> Seq<ConstType>
    decreases groups, 1nat,
{
    if groups.len() == 0 {
        Seq::empty()
    } else {
        groups_ret_tags(groups.drop_last()) + ret_tags(groups.last())
    }
}

/// Whether all tags are the same.
pub open spec fn agree(tags: Seq<ConstType>) -> bool {
    forall|i: int, j: int| 0 <= i < tags.len() && 0 <= j < tags.len() ==> tags[i] == tags[j]
}

/// The return type that a body's return tags give: none without a return,
/// the common tag where all agree, `Dynamic` where two disagree.
pub open spec fn inferred_type(tags: Seq<ConstType>) -> Option<ConstType> {
    if tags.len() == 0 {
        None
    } else if agree(tags) {
        Some(tags[0])
    } else {
        Some(ConstType::Dynamic)
    }
}

/// An instruction with every return of its function retagged `Dynamic`.
pub open spec fn widen_instr(instr: Instr) -> Instr
    decreases instr, 0nat,
{
    match instr {
        Instr::Ret(_) => Instr::Ret(ConstType::Dynamic),
        Instr::If(t, then_body, else_body) => Instr::If(t, widen(then_body), widen(else_body)),
        Instr::While(body) => Instr::While(widen(body)),
        Instr::List(t, groups) => Instr::List(t, widen_groups(groups)),
        other => other,
    }
}

/// A function body with every return retagged `Dynamic`.
pub open spec fn widen(code: Seq<Instr>) -> Seq<Instr>
    decreases code, 1nat,
{
    Seq::new(code.len(), |i: int| if 0 <= i < code.len() { widen_instr(code[i]) } else { arbitrary() })
}

/// The item groups of a list with every return retagged `Dynamic`.
pub open spec fn widen_groups(groups: Seq<Seq<Instr>>) -> Seq<Seq<Instr>>
    decreases groups, 1nat,
{
    Seq::new(
        groups.len(),
        |i: int| if 0 <= i < groups.len() { widen(groups[i]) } else { arbitrary() },
    )
}

/// A function body after its return tags were reconciled: unchanged where
/// they agree, widened where two disagree.
pub open spec fn reconciled(code: Seq<Instr>) -> Seq<Instr> {
    if agree(ret_tags(code)) {
        code
    } else {
        widen(code)
    }
}

proof fn lemma_widen_instr_tags(instr: Instr)
    ensures
        instr_ret_tags(widen_instr(instr)).len() == instr_ret_tags(instr).len(),
        forall|i: int|
            0 <= i < instr_ret_tags(instr).len() ==> #[trigger] instr_ret_tags(widen_instr(instr))[i]
                == ConstType::Dynamic,
    decreases instr, 0nat,
{
    match instr {
        Instr::If(_, then_body, else_body) => {
            lemma_widen_tags(then_body);
            lemma_widen_tags(else_body);
        },
        Instr::While(body) => {
            lemma_widen_tags(body);
        },
        Instr::List(_, groups) => {
            lemma_widen_groups_tags(groups);
        },
        _ => {},
    }
}

/// Widening keeps the number of returns and leaves every one of them tagged
/// `Dynamic`.
pub proof fn lemma_widen_tags(code: Seq<Instr>)
    ensures
        ret_tags(widen(code)).len() == ret_tags(code).len(),
        forall|i: int|
            0 <= i < ret_tags(code).len() ==> #[trigger] ret_tags(widen(code))[i]
                == ConstType::Dynamic,
    decreases code, 1nat,
{
    if code.len() > 0 {
        lemma_widen_tags(code.drop_last());
        lemma_widen_instr_tags(code.last());
        assert(widen(code).drop_last() =~= widen(code.drop_last()));
    }
}

proof fn lemma_widen_groups_tags(groups: Seq<Seq<Instr>>)
    ensures
        groups_ret_tags(widen_groups(groups)).len() == groups_ret_tags(groups).len(),
        forall|i: int|
            0 <= i < groups_ret_tags(groups).len() ==> #[trigger] groups_ret_tags(
                widen_groups(groups),
            )[i] == ConstType::Dynamic,
    decreases groups, 1nat,
{
    if groups.len() > 0 {
        lemma_widen_groups_tags(groups.drop_last());
        lemma_widen_tags(groups.last());
        assert(widen_groups(groups).drop_last() =~= widen_groups(groups.drop_last()));
    }
}

/// Dynamic widening. After reconciliation all returns of a body carry the
/// same tag, and there are as many as before. Where two of them disagreed,
/// every one is tagged `Dynamic` and so is the inferred type; where they
/// agreed, the body is unchanged and the inferred type is their common tag.
/// Reconciling once more changes nothing: `Dynamic` is never narrowed back.
pub proof fn lemma_reconciled_returns(code: Seq<Instr>)
    ensures
        agree(ret_tags(reconciled(code))),
        ret_tags(reconciled(code)).len() == ret_tags(code).len(),
        !agree(ret_tags(code)) ==> {
            &&& inferred_type(ret_tags(code)) == Some(ConstType::Dynamic)
            &&& forall|i: int|
                0 <= i < ret_tags(code).len() ==> #[trigger] ret_tags(reconciled(code))[i]
                    == ConstType::Dynamic
        },
        agree(ret_tags(code)) ==> {
            &&& reconciled(code) == code
            &&& forall|i: int|
                0 <= i < ret_tags(code).len() ==> inferred_type(ret_tags(code)) == Some(
                    #[trigger] ret_tags(code)[i],
                )
        },
        ret_tags(code).len() == 0 <==> inferred_type(ret_tags(code)) is None,
        reconciled(reconciled(code)) == reconciled(code),
{
    lemma_widen_tags(code);
}

/// Appends the return tags of `ops`.
fn collect_ret_tags(ops: &Vec<IROp>, tags: &mut Vec<ConstType>)
    ensures
        final(tags)@ == old(tags)@ + ret_tags(ops_view(ops@)),
    decreases ops,
{
    let ghost code = ops_view(ops@);
    let mut i: usize = 0;
    while i < ops.len()
        invariant
            i <= ops.len(),
            code == ops_view(ops@),
            tags@ == old(tags)@ + ret_tags(code.take(i as int)),
        decreases ops.len() - i,
    {
        let ghost before = tags@;
        proof {
            assert(code.take(i + 1).drop_last() =~= code.take(i as int));
        }
        let ghost instr = ops@[i as int]@;
        match &ops[i] {
            IROp::Ret(t) => {
                tags.push(*t);
            },
            IROp::If(_, then_body, else_body) => {
                collect_ret_tags(then_body, tags);
                collect_ret_tags(else_body, tags);
                assert(tags@ =~= before + instr_ret_tags(instr));
            },
            IROp::While(body) => {
                collect_ret_tags(body, tags);
            },
            IROp::List(_, groups) => {
                collect_group_tags(groups, tags);
            },
            _ => {},
        }
        i += 1;
    }
    assert(code.take(i as int) =~= code);
}

/// Appends the return tags inside the item groups of a list.
fn collect_group_tags(groups: &Vec<Vec<IROp>>, tags: &mut Vec<ConstType>)
    ensures
        final(tags)@ == old(tags)@ + groups_ret_tags(groups_view(groups@)),
    decreases groups,
{
    let ghost items = groups_view(groups@);
    let mut i: usize = 0;
    while i < groups.len()
        invariant
            i <= groups.len(),
            items == groups_view(groups@),
            tags@ == old(tags)@ + groups_ret_tags(items.take(i as int)),
        decreases groups.len() - i,
    {
        proof {
            assert(items.take(i + 1).drop_last() =~= items.take(i as int));
        }
        collect_ret_tags(&groups[i], tags);
        i += 1;
    }
    assert(items.take(i as int) =~= items);
}

/// The instruction with every return of its function retagged `Dynamic`.
fn widen_op(op: IROp) -> (r: IROp)
    ensures
        r@ == widen_instr(op@),
    decreases op,
{
    match op {
        IROp::Ret(_) => IROp::Ret(ConstType::Dynamic),
        IROp::If(t, then_body, else_body) => IROp::If(t, widen_ops(then_body), widen_ops(else_body)),
        IROp::While(body) => IROp::While(widen_ops(body)),
        IROp::List(t, groups) => IROp::List(t, widen_item_groups(groups)),
        other => other,
    }
}

/// The instructions with every return retagged `Dynamic`.
fn widen_ops(ops: Vec<IROp>) -> (r: Vec<IROp>)
    ensures
        ops_view(r@) == widen(ops_view(ops@)),
    decreases ops,
{
    let ghost all = ops@;
    let mut out: Vec<IROp> = Vec::new();
    for op in it: ops
        invariant
            it.seq() == all,
            out@.len() == it.index(),
            forall|j: int| 0 <= j < out@.len() ==> (#[trigger] out@[j])@ == widen_instr(all[j]@),
    {
        let widened = widen_op(op);
        out.push(widened);
    }
    out
}

/// The item groups with every return retagged `Dynamic`.
fn widen_item_groups(groups: Vec<Vec<IROp>>) -> (r: Vec<Vec<IROp>>)
    ensures
        groups_view(r@) == widen_groups(groups_view(groups@)),
    decreases groups,
{
    let ghost all = groups@;
    let mut out: Vec<Vec<IROp>> = Vec::new();
    for group in it: groups
        invariant
            it.seq() == all,
            out@.len() == it.index(),
            forall|j: int|
                0 <= j < out@.len() ==> ops_view((#[trigger] out@[j])@) == widen(ops_view(all[j]@)),
    {
        let widened = widen_ops(group);
        out.push(widened);
    }
    out
}

/// Reconciles the returns of a function body: where two of them disagree,
/// every return of the body is retagged `Dynamic`. Gives the return type of
/// the body and whether its returns agreed.
fn reconcile(ops: &mut Vec<IROp>) -> (r: (Option<ConstType>, bool))
    ensures
        r.0 == inferred_type(ret_tags(ops_view(old(ops)@))),
        r.1 == agree(ret_tags(ops_view(old(ops)@))),
        ops_view(final(ops)@) == reconciled(ops_view(old(ops)@)),
{
    let mut tags: Vec<ConstType> = Vec::new();
    collect_ret_tags(ops, &mut tags);
    if tags.len() == 0 {
        return (None, true);
    }
    let first = tags[0];
    let mut same = true;
    let mut i: usize = 1;
    while i < tags.len()
        invariant
            1 <= i <= tags.len(),
            first == tags@[0],
            same == (forall|j: int| 0 <= j < i ==> tags@[j] == first),
        decreases tags.len() - i,
    {
        if tags[i] != first {
            same = false;
        }
        i += 1;
    }
    if same {
        (Some(first), true)
    } else {
        let mut body: Vec<IROp> = Vec::new();
        std::mem::swap(ops, &mut body);
        *ops = widen_ops(body);
        (Some(ConstType::Dynamic), false)
    }
}

/// The return type of a function body. Where two of the body's returns
/// disagree, every return of the body is retagged `Dynamic`; the returns of
/// function definitions nested in the body are not its own and stay.
pub fn get_fn_type(ops: &mut Vec<IROp>) -> (ty: Option<ConstType>)
    ensures
        ty == inferred_type(ret_tags(ops_view(old(ops)@))),
        ops_view(final(ops)@) == reconciled(ops_view(old(ops)@)),
        forall|i: int|
            0 <= i < ret_tags(ops_view(final(ops)@)).len() ==> ty == Some(
                #[trigger] ret_tags(ops_view(final(ops)@))[i],
            ),
{
    proof {
        lemma_reconciled_returns(ops_view(ops@));
    }
    reconcile(ops).0
}

/// The state of lowering: the scopes of the symbols declared so far.
pub struct Codegen {
    pub env: Environment,
}

impl Codegen {
    /// A lowering state with nothing declared.
    pub fn new() -> (state: Self)
        ensures
            state.env@ == seq![Scope::empty()],
    {
        Codegen { env: Environment::new() }
    }
}

/// The view of a sequence after one more instruction.
pub proof fn lemma_ops_view_push(ops: Seq<IROp>, op: IROp)
    ensures
        ops_view(ops.push(op)) == ops_view(ops).push(op@),
{
}

/// The view of two sequences one after the other.
pub proof fn lemma_ops_view_add(front: Seq<IROp>, back: Seq<IROp>)
    ensures
        ops_view(front + back) == ops_view(front) + ops_view(back),
{
}

} // verus!
