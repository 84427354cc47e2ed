use irgen::ast::{Expr, Ident, Literal, Node, Tag};
use irgen::environment::Symbol;
use irgen::ir::gen::{parse_binop, IRGen};
use irgen::ir::lowering::{BinOp, REDECLARED, UNSUPPORTED};
use irgen::ir::{Codegen, Const, ConstType, IROp};
use irgen::types::{AtomType, BasicType};

fn int_ty() -> AtomType {
    AtomType::Basic(BasicType::Int)
}

fn float_ty() -> AtomType {
    AtomType::Basic(BasicType::Float)
}

fn bool_ty() -> AtomType {
    AtomType::Basic(BasicType::Bool)
}

fn void_ty() -> AtomType {
    AtomType::Basic(BasicType::Void)
}

fn node(expr: Expr, ty: AtomType) -> Node {
    Node::new(expr, ty)
}

fn lit(n: i32) -> Node {
    node(Expr::Literal(Literal::Int(n)), int_ty())
}

fn flit(x: f32) -> Node {
    node(Expr::Literal(Literal::Float(x.to_bits())), float_ty())
}

fn var(name: &str, ty: AtomType) -> Node {
    node(Expr::Ident(Ident::new(name.to_string(), ty.clone())), ty)
}

fn binary(op: &str, left: Node, right: Node, ty: AtomType) -> Node {
    node(
        Expr::BinaryExpr { op: op.to_string(), left: Box::new(left), right: Box::new(right) },
        ty,
    )
}

fn declare(name: &str, val: Node) -> Node {
    let ty = val.ty.clone();
    node(
        Expr::VarDeclare { name: Ident::new(name.to_string(), ty), val: Box::new(val) },
        void_ty(),
    )
}

fn call(name: &str, args: Vec<Node>, ty: AtomType) -> Node {
    node(Expr::FnCall { name: Box::new(var(name, ty.clone())), args }, ty)
}

fn unsupported() -> Node {
    node(Expr::TaggedIdent(Tag("t".to_string()), Ident::new("x".to_string(), int_ty())), int_ty())
}

fn konst(n: i32) -> IROp {
    IROp::Const(ConstType::Int, Const::Int(n))
}

fn load(name: &str, ty: ConstType) -> IROp {
    IROp::Load(ty, name.to_string())
}

fn count_deallocs(ops: &[IROp]) -> usize {
    ops.iter()
        .map(|op| match op {
            IROp::Dealloc(_, _) => 1,
            IROp::Def(_, _, _, body) => count_deallocs(body),
            IROp::If(_, a, b) => count_deallocs(a) + count_deallocs(b),
            IROp::While(body) => count_deallocs(body),
            IROp::List(_, groups) => groups.iter().map(|g| count_deallocs(g)).sum(),
            _ => 0,
        })
        .sum()
}

fn lower(expr: Node) -> Result<Vec<IROp>, u8> {
    Codegen::new().gen_expr(expr)
}

#[test]
fn literal_lowers_to_one_constant() {
    assert_eq!(lower(lit(5)), Ok(vec![konst(5)]));
    assert_eq!(
        lower(flit(1.5)),
        Ok(vec![IROp::Const(ConstType::Float, Const::Float(1.5f32.to_bits()))])
    );
    assert_eq!(
        lower(node(Expr::Literal(Literal::Str("hi".to_string())), AtomType::Basic(BasicType::Str))),
        Ok(vec![IROp::Const(ConstType::Str, Const::Str("hi".to_string()))])
    );
    assert_eq!(
        lower(node(Expr::Literal(Literal::Bool(true)), bool_ty())),
        Ok(vec![IROp::Const(ConstType::Bool, Const::Bool(true))])
    );
}

#[test]
fn identifier_lowers_to_one_load() {
    assert_eq!(lower(var("x", float_ty())), Ok(vec![load("x", ConstType::Float)]));
}

#[test]
fn position_metadata_lowers_to_nothing() {
    assert_eq!(lower(node(Expr::PosInfo("main".to_string(), 3, 7), void_ty())), Ok(vec![]));
}

#[test]
fn import_and_extern_lower_to_one_descriptor() {
    let params = vec![Ident::new("a".to_string(), int_ty())];
    let import = node(
        Expr::Import { module: "math".to_string(), name: "sqrt".to_string(), params: params.clone() },
        float_ty(),
    );
    assert_eq!(
        lower(import),
        Ok(vec![IROp::Import(ConstType::Float, "math".to_string(), "sqrt".to_string(), params.clone())])
    );
    let ext = node(
        Expr::Extern { name: Ident::new("puts".to_string(), int_ty()), params: params.clone() },
        void_ty(),
    );
    assert_eq!(lower(ext), Ok(vec![IROp::Extern(ConstType::Int, "puts".to_string(), params)]));
}

#[test]
fn gen_extern_wraps_its_arguments() {
    let mut cg = Codegen::new();
    let params = vec![Ident::new("a".to_string(), float_ty())];
    assert_eq!(
        cg.gen_extern("sin".to_string(), params.clone(), float_ty()),
        Ok(vec![IROp::Extern(ConstType::Float, "sin".to_string(), params)])
    );
    assert_eq!(cg.env.depth(), 0);
}

#[test]
fn lowering_twice_gives_the_same_instructions() {
    let tree = || {
        node(
            Expr::Block(vec![
                declare("x", lit(1)),
                node(
                    Expr::Discard(Box::new(binary("<", var("x", int_ty()), lit(2), bool_ty()))),
                    void_ty(),
                ),
            ]),
            void_ty(),
        )
    };
    let first = Codegen::new().gen_expr(tree());
    let second = Codegen::new().gen_expr(tree());
    assert!(first.is_ok());
    assert_eq!(first, second);
}

#[test]
fn binary_lowers_right_then_left_then_operator() {
    let expr = binary("+", var("a", int_ty()), var("b", int_ty()), int_ty());
    assert_eq!(
        lower(expr),
        Ok(vec![load("b", ConstType::Int), load("a", ConstType::Int), IROp::Add(ConstType::Int)])
    );
    let expr = binary("%", lit(7), lit(2), int_ty());
    assert_eq!(lower(expr), Ok(vec![konst(2), konst(7), IROp::Mod(ConstType::Int)]));
}

#[test]
fn every_operator_has_its_instruction() {
    let cases: Vec<(&str, IROp)> = vec![
        ("+", IROp::Add(ConstType::Float)),
        ("-", IROp::Sub(ConstType::Float)),
        ("*", IROp::Mul(ConstType::Float)),
        ("/", IROp::Div(ConstType::Float)),
        ("%", IROp::Mod(ConstType::Float)),
        (">", IROp::Comp),
        (">=", IROp::EComp),
        ("==", IROp::Eq),
        ("&&", IROp::And),
        ("||", IROp::Or),
    ];
    for (op, instr) in cases {
        let expr = binary(op, var("a", float_ty()), var("b", float_ty()), float_ty());
        assert_eq!(
            lower(expr),
            Ok(vec![load("b", ConstType::Float), load("a", ConstType::Float), instr])
        );
    }
}

#[test]
fn less_than_swaps_the_groups_of_greater_than() {
    let a = || binary("+", lit(1), lit(2), int_ty());
    let b = || var("b", int_ty());
    let group_a = vec![konst(2), konst(1), IROp::Add(ConstType::Int)];
    let group_b = vec![load("b", ConstType::Int)];

    let gt = lower(binary(">", a(), b(), bool_ty())).unwrap();
    let lt = lower(binary("<", a(), b(), bool_ty())).unwrap();
    assert_eq!(gt, [group_b.clone(), group_a.clone(), vec![IROp::Comp]].concat());
    assert_eq!(lt, [group_a.clone(), group_b.clone(), vec![IROp::Comp]].concat());

    let ge = lower(binary(">=", a(), b(), bool_ty())).unwrap();
    let le = lower(binary("<=", a(), b(), bool_ty())).unwrap();
    assert_eq!(ge, [group_b.clone(), group_a.clone(), vec![IROp::EComp]].concat());
    assert_eq!(le, [group_a, group_b, vec![IROp::EComp]].concat());

    let mirrored = lower(binary(">", b(), a(), bool_ty())).unwrap();
    assert_eq!(lt, mirrored);
}

#[test]
fn unknown_operator_is_unsupported() {
    assert_eq!(lower(binary("^", lit(1), lit(2), int_ty())), Err(UNSUPPORTED));
    assert_eq!(lower(binary("", lit(1), lit(2), int_ty())), Err(UNSUPPORTED));
    assert_eq!(lower(binary("===", lit(1), lit(2), int_ty())), Err(UNSUPPORTED));
    assert_eq!(UNSUPPORTED, 1);
}

#[test]
fn parse_binop_reads_each_spelling() {
    assert_eq!(parse_binop("+"), Some(BinOp::Add));
    assert_eq!(parse_binop("-"), Some(BinOp::Sub));
    assert_eq!(parse_binop("*"), Some(BinOp::Mul));
    assert_eq!(parse_binop("/"), Some(BinOp::Div));
    assert_eq!(parse_binop("%"), Some(BinOp::Mod));
    assert_eq!(parse_binop(">"), Some(BinOp::Greater));
    assert_eq!(parse_binop("<"), Some(BinOp::Less));
    assert_eq!(parse_binop(">="), Some(BinOp::GreaterEq));
    assert_eq!(parse_binop("<="), Some(BinOp::LessEq));
    assert_eq!(parse_binop("=="), Some(BinOp::Equal));
    assert_eq!(parse_binop("&&"), Some(BinOp::And));
    assert_eq!(parse_binop("||"), Some(BinOp::Or));
    assert_eq!(parse_binop("&"), None);
    assert_eq!(parse_binop("=>"), None);
    assert_eq!(parse_binop("é"), None);
    assert_eq!(parse_binop(""), None);
    assert!(BinOp::Less.swaps());
    assert!(BinOp::LessEq.swaps());
    assert!(!BinOp::Greater.swaps());
    assert_eq!(BinOp::Less.instr(ConstType::Int), IROp::Comp);
    assert_eq!(BinOp::Sub.instr(ConstType::Int), IROp::Sub(ConstType::Int));
}

#[test]
fn unsupported_shape_fails_with_its_code() {
    assert_eq!(lower(unsupported()), Err(UNSUPPORTED));
}

#[test]
fn right_operand_failure_skips_the_left_operand() {
    let mut cg = Codegen::new();
    let left = declare("seen", lit(1));
    let expr = binary("+", left, unsupported(), int_ty());
    assert_eq!(cg.gen_expr(expr), Err(UNSUPPORTED));
    assert!(cg.env.lookup(&"seen".to_string()).is_none());
    assert_eq!(cg.env.symbols().len(), 0);
}

#[test]
fn left_operand_failure_comes_after_the_right_operand() {
    let mut cg = Codegen::new();
    let right = declare("seen", lit(1));
    let expr = binary("+", unsupported(), right, int_ty());
    assert_eq!(cg.gen_expr(expr), Err(UNSUPPORTED));
    assert!(cg.env.lookup(&"seen".to_string()).is_some());
}

#[test]
fn gen_binary_expr_lowers_its_parts() {
    let mut cg = Codegen::new();
    let r = cg.gen_binary_expr(int_ty(), "-".to_string(), lit(9), lit(4));
    assert_eq!(r, Ok(vec![konst(4), konst(9), IROp::Sub(ConstType::Int)]));
}

#[test]
fn declaration_allocates_then_initializes_then_stores() {
    let mut cg = Codegen::new();
    let r = cg.gen_expr(declare("x", flit(2.0)));
    assert_eq!(
        r,
        Ok(vec![
            IROp::Alloc(ConstType::Float, "x".to_string()),
            IROp::Const(ConstType::Float, Const::Float(2.0f32.to_bits())),
            IROp::Store(ConstType::Float, "x".to_string()),
        ])
    );
    let expected = Symbol {
        name: "x".to_string(),
        ty: float_ty(),
        refers_to_atom: false,
        value: None,
        expected: float_ty(),
    };
    assert_eq!(cg.env.lookup(&"x".to_string()), Some(&expected));
}

#[test]
fn declaration_is_registered_before_its_initializer() {
    let mut cg = Codegen::new();
    let inner = declare("x", lit(1));
    let r = cg.gen_expr(declare("x", inner));
    assert_eq!(r, Err(REDECLARED));
    assert_eq!(REDECLARED, 2);
}

#[test]
fn redeclaration_in_one_scope_is_rejected() {
    let mut cg = Codegen::new();
    assert!(cg.gen_var_declare("x".to_string(), lit(1)).is_ok());
    assert_eq!(cg.gen_var_declare("x".to_string(), lit(2)), Err(REDECLARED));
    assert_eq!(cg.env.symbols().len(), 1);
}

#[test]
fn shadowing_in_a_nested_scope_is_legal() {
    let mut cg = Codegen::new();
    assert!(cg.gen_expr(declare("x", lit(1))).is_ok());
    let block = node(Expr::Block(vec![declare("x", flit(1.0))]), void_ty());
    assert_eq!(
        cg.gen_expr(block),
        Ok(vec![
            IROp::Alloc(ConstType::Float, "x".to_string()),
            IROp::Const(ConstType::Float, Const::Float(1.0f32.to_bits())),
            IROp::Store(ConstType::Float, "x".to_string()),
            IROp::Dealloc(ConstType::Float, "x".to_string()),
        ])
    );
    assert_eq!(cg.env.lookup(&"x".to_string()).map(|s| s.ty.clone()), Some(int_ty()));
}

#[test]
fn assignment_lowers_target_then_value_then_set() {
    let mut cg = Codegen::new();
    let r = cg.gen_var_assign(var("x", int_ty()), lit(3));
    assert_eq!(r, Ok(vec![load("x", ConstType::Int), konst(3), IROp::Assign(ConstType::Int)]));
    let expr = node(
        Expr::VarAssign { name: Box::new(var("y", float_ty())), val: Box::new(flit(0.5)) },
        void_ty(),
    );
    assert_eq!(
        lower(expr),
        Ok(vec![
            load("y", ConstType::Float),
            IROp::Const(ConstType::Float, Const::Float(0.5f32.to_bits())),
            IROp::Assign(ConstType::Float),
        ])
    );
}

#[test]
fn list_keeps_one_group_per_item() {
    let list_ty = AtomType::List(Box::new(int_ty()));
    let expr = node(
        Expr::ListExpr(vec![lit(1), binary("+", lit(2), lit(3), int_ty())]),
        list_ty,
    );
    assert_eq!(
        lower(expr),
        Ok(vec![IROp::List(
            ConstType::List,
            vec![vec![konst(1)], vec![konst(3), konst(2), IROp::Add(ConstType::Int)]],
        )])
    );
    let empty = node(Expr::ListExpr(vec![]), AtomType::List(Box::new(int_ty())));
    assert_eq!(lower(empty), Ok(vec![IROp::List(ConstType::List, vec![])]));
    let failing = node(Expr::ListExpr(vec![lit(1), unsupported()]), AtomType::List(Box::new(int_ty())));
    assert_eq!(lower(failing), Err(UNSUPPORTED));
}

#[test]
fn member_and_index_access() {
    let member = node(
        Expr::MemberExpr { parent: Box::new(var("p", int_ty())), child: "len".to_string() },
        float_ty(),
    );
    assert_eq!(
        lower(member),
        Ok(vec![load("p", ConstType::Int), IROp::LoadProp(ConstType::Float, "len".to_string())])
    );
    let index = node(
        Expr::IndexExpr {
            parent: Box::new(var("xs", AtomType::List(Box::new(float_ty())))),
            index: Box::new(lit(0)),
        },
        float_ty(),
    );
    assert_eq!(
        lower(index),
        Ok(vec![load("xs", ConstType::List), konst(0), IROp::LoadIdx(ConstType::Int)])
    );
}

#[test]
fn call_lowers_arguments_then_callee_then_call() {
    let expr = call("f", vec![var("x", int_ty()), var("y", float_ty())], int_ty());
    assert_eq!(
        lower(expr),
        Ok(vec![
            load("x", ConstType::Int),
            load("y", ConstType::Float),
            load("f", ConstType::Int),
            IROp::Call(ConstType::Int, 2),
        ])
    );
    let none = call("g", vec![], void_ty());
    assert_eq!(lower(none), Ok(vec![load("g", ConstType::Void), IROp::Call(ConstType::Void, 0)]));
}

#[test]
fn call_with_a_failing_argument_fails() {
    let expr = call("f", vec![lit(1), unsupported(), lit(3)], int_ty());
    assert_eq!(lower(expr), Err(UNSUPPORTED));
}

#[test]
fn return_carries_the_type_of_its_expression() {
    let expr = node(Expr::RetExpr(Box::new(flit(1.0))), void_ty());
    assert_eq!(
        lower(expr),
        Ok(vec![
            IROp::Const(ConstType::Float, Const::Float(1.0f32.to_bits())),
            IROp::Ret(ConstType::Float),
        ])
    );
}

#[test]
fn conversion_carries_target_and_source() {
    let expr = node(Expr::As(Box::new(lit(1))), float_ty());
    assert_eq!(lower(expr), Ok(vec![konst(1), IROp::Conv(ConstType::Float, ConstType::Int)]));
}

#[test]
fn discarding_an_integer_literal_pops_it() {
    let expr = node(Expr::Discard(Box::new(lit(5))), void_ty());
    assert_eq!(lower(expr), Ok(vec![konst(5), IROp::Pop]));
}

#[test]
fn discarding_a_void_call_pops_nothing() {
    let expr = node(Expr::Discard(Box::new(call("f", vec![lit(1)], void_ty()))), void_ty());
    assert_eq!(
        lower(expr),
        Ok(vec![konst(1), load("f", ConstType::Void), IROp::Call(ConstType::Void, 1)])
    );
}

#[test]
fn block_deallocates_its_symbols_in_declaration_order() {
    let mut cg = Codegen::new();
    let block = node(
        Expr::Block(vec![declare("b", lit(1)), declare("a", flit(2.0)), declare("c", lit(3))]),
        void_ty(),
    );
    let code = cg.gen_expr(block).unwrap();
    assert_eq!(code.len(), 12);
    assert_eq!(
        code[9..].to_vec(),
        vec![
            IROp::Dealloc(ConstType::Int, "b".to_string()),
            IROp::Dealloc(ConstType::Float, "a".to_string()),
            IROp::Dealloc(ConstType::Int, "c".to_string()),
        ]
    );
    assert_eq!(cg.env.depth(), 0);
    assert_eq!(cg.env.symbols().len(), 0);
}

#[test]
fn nested_block_deallocates_before_the_next_sibling() {
    let inner = node(Expr::Block(vec![declare("y", lit(2))]), void_ty());
    let outer = node(
        Expr::Block(vec![declare("x", lit(1)), inner, node(Expr::Discard(Box::new(lit(9))), void_ty())]),
        void_ty(),
    );
    assert_eq!(
        lower(outer),
        Ok(vec![
            IROp::Alloc(ConstType::Int, "x".to_string()),
            konst(1),
            IROp::Store(ConstType::Int, "x".to_string()),
            IROp::Alloc(ConstType::Int, "y".to_string()),
            konst(2),
            IROp::Store(ConstType::Int, "y".to_string()),
            IROp::Dealloc(ConstType::Int, "y".to_string()),
            konst(9),
            IROp::Pop,
            IROp::Dealloc(ConstType::Int, "x".to_string()),
        ])
    );
}

#[test]
fn empty_block_lowers_to_nothing() {
    assert_eq!(lower(node(Expr::Block(vec![]), void_ty())), Ok(vec![]));
}

#[test]
fn failing_block_closes_its_scope() {
    let mut cg = Codegen::new();
    let block = node(Expr::Block(vec![declare("x", lit(1)), unsupported()]), void_ty());
    assert_eq!(cg.gen_expr(block), Err(UNSUPPORTED));
    assert_eq!(cg.env.depth(), 0);
    assert!(cg.env.lookup(&"x".to_string()).is_none());
}

#[test]
fn conditional_bundles_both_branches_after_the_condition() {
    let mut cg = Codegen::new();
    let expr = node(
        Expr::IfExpr {
            condition: Box::new(var("c", bool_ty())),
            body: vec![declare("t", lit(1))],
            alt: Some(vec![declare("e", flit(2.0))]),
        },
        void_ty(),
    );
    assert_eq!(
        cg.gen_expr(expr),
        Ok(vec![
            load("c", ConstType::Bool),
            IROp::If(
                ConstType::Void,
                vec![
                    IROp::Alloc(ConstType::Int, "t".to_string()),
                    konst(1),
                    IROp::Store(ConstType::Int, "t".to_string()),
                    IROp::Dealloc(ConstType::Int, "t".to_string()),
                ],
                vec![
                    IROp::Alloc(ConstType::Float, "e".to_string()),
                    IROp::Const(ConstType::Float, Const::Float(2.0f32.to_bits())),
                    IROp::Store(ConstType::Float, "e".to_string()),
                    IROp::Dealloc(ConstType::Float, "e".to_string()),
                ],
            ),
        ])
    );
    assert_eq!(cg.env.depth(), 0);
}

#[test]
fn conditional_without_else_has_an_empty_else_body() {
    let expr = node(
        Expr::IfExpr {
            condition: Box::new(var("c", bool_ty())),
            body: vec![node(Expr::Discard(Box::new(lit(1))), void_ty())],
            alt: None,
        },
        int_ty(),
    );
    assert_eq!(
        lower(expr),
        Ok(vec![
            load("c", ConstType::Bool),
            IROp::If(ConstType::Int, vec![konst(1), IROp::Pop], vec![]),
        ])
    );
}

#[test]
fn conditional_fails_with_its_else_branch() {
    let mut cg = Codegen::new();
    let expr = node(
        Expr::IfExpr {
            condition: Box::new(var("c", bool_ty())),
            body: vec![],
            alt: Some(vec![unsupported()]),
        },
        void_ty(),
    );
    assert_eq!(cg.gen_expr(expr), Err(UNSUPPORTED));
    assert_eq!(cg.env.depth(), 0);
}

#[test]
fn loop_embeds_the_condition_once_ahead_of_the_body() {
    let mut cg = Codegen::new();
    let expr = node(
        Expr::WhileExpr {
            condition: Box::new(binary(">", var("i", int_ty()), lit(0), bool_ty())),
            body: vec![declare("k", lit(7))],
        },
        void_ty(),
    );
    assert_eq!(
        cg.gen_expr(expr),
        Ok(vec![
            konst(0),
            load("i", ConstType::Int),
            IROp::Comp,
            IROp::While(vec![
                IROp::Alloc(ConstType::Int, "k".to_string()),
                konst(7),
                IROp::Store(ConstType::Int, "k".to_string()),
                IROp::Dealloc(ConstType::Int, "k".to_string()),
            ]),
        ])
    );
    assert_eq!(cg.env.depth(), 0);
}

#[test]
fn function_binds_parameters_in_the_current_scope() {
    let mut cg = Codegen::new();
    let params = vec![Ident::new("a".to_string(), int_ty()), Ident::new("b".to_string(), float_ty())];
    let body = vec![node(Expr::RetExpr(Box::new(var("a", int_ty()))), void_ty())];
    let r = cg.gen_func("f".to_string(), params.clone(), int_ty(), body);
    assert_eq!(
        r,
        Ok(vec![IROp::Def(
            ConstType::Int,
            "f".to_string(),
            params,
            vec![load("a", ConstType::Int), IROp::Ret(ConstType::Int)],
        )])
    );
    assert_eq!(cg.env.depth(), 0);
    assert_eq!(cg.env.symbols().len(), 2);
    assert_eq!(cg.env.symbols()[0].name, "a");
    assert_eq!(cg.env.symbols()[1].name, "b");
    assert_eq!(cg.env.symbols()[1].ty, float_ty());
    assert_eq!(cg.env.symbols()[1].expected, float_ty());
}

#[test]
fn function_in_a_block_has_its_parameters_deallocated_by_the_block() {
    let func = node(
        Expr::Func {
            ret: void_ty(),
            name: "f".to_string(),
            args: vec![Ident::new("a".to_string(), int_ty())],
            body: vec![],
        },
        void_ty(),
    );
    let block = node(Expr::Block(vec![func]), void_ty());
    assert_eq!(
        lower(block),
        Ok(vec![
            IROp::Def(
                ConstType::Void,
                "f".to_string(),
                vec![Ident::new("a".to_string(), int_ty())],
                vec![],
            ),
            IROp::Dealloc(ConstType::Int, "a".to_string()),
        ])
    );
}

#[test]
fn function_with_a_taken_parameter_name_is_rejected() {
    let mut cg = Codegen::new();
    assert!(cg.gen_expr(declare("a", lit(1))).is_ok());
    let params = vec![Ident::new("b".to_string(), int_ty()), Ident::new("a".to_string(), int_ty())];
    assert_eq!(cg.gen_func("f".to_string(), params, void_ty(), vec![]), Err(REDECLARED));
    assert_eq!(cg.env.symbols().len(), 2);
}

#[test]
fn function_without_return_keeps_its_declared_type() {
    let func = node(
        Expr::Func { ret: float_ty(), name: "f".to_string(), args: vec![], body: vec![] },
        void_ty(),
    );
    assert_eq!(lower(func), Ok(vec![IROp::Def(ConstType::Float, "f".to_string(), vec![], vec![])]));
}

#[test]
fn function_with_agreeing_returns_keeps_their_tag() {
    let body = vec![
        node(Expr::RetExpr(Box::new(lit(1))), void_ty()),
        node(Expr::RetExpr(Box::new(lit(2))), void_ty()),
    ];
    let func = node(Expr::Func { ret: int_ty(), name: "f".to_string(), args: vec![], body }, void_ty());
    assert_eq!(
        lower(func),
        Ok(vec![IROp::Def(
            ConstType::Int,
            "f".to_string(),
            vec![],
            vec![konst(1), IROp::Ret(ConstType::Int), konst(2), IROp::Ret(ConstType::Int)],
        )])
    );
}

#[test]
fn function_keeps_its_declared_type_when_its_returns_agree_on_another() {
    let body = vec![
        node(Expr::RetExpr(Box::new(flit(1.0))), void_ty()),
        node(Expr::RetExpr(Box::new(flit(2.0))), void_ty()),
    ];
    let func = node(Expr::Func { ret: int_ty(), name: "f".to_string(), args: vec![], body }, void_ty());
    assert_eq!(
        lower(func),
        Ok(vec![IROp::Def(
            ConstType::Int,
            "f".to_string(),
            vec![],
            vec![
                IROp::Const(ConstType::Float, Const::Float(1.0f32.to_bits())),
                IROp::Ret(ConstType::Float),
                IROp::Const(ConstType::Float, Const::Float(2.0f32.to_bits())),
                IROp::Ret(ConstType::Float),
            ],
        )])
    );
    let mut cg = Codegen::new();
    let single = vec![node(Expr::RetExpr(Box::new(flit(0.5))), void_ty())];
    assert_eq!(
        cg.gen_func("g".to_string(), vec![], int_ty(), single),
        Ok(vec![IROp::Def(
            ConstType::Int,
            "g".to_string(),
            vec![],
            vec![IROp::Const(ConstType::Float, Const::Float(0.5f32.to_bits())), IROp::Ret(ConstType::Float)],
        )])
    );
}

#[test]
fn function_with_disagreeing_returns_goes_dynamic() {
    let early = node(
        Expr::IfExpr {
            condition: Box::new(var("c", bool_ty())),
            body: vec![node(Expr::RetExpr(Box::new(lit(1))), void_ty())],
            alt: None,
        },
        void_ty(),
    );
    let body = vec![early, node(Expr::RetExpr(Box::new(flit(2.0))), void_ty())];
    let func = node(Expr::Func { ret: int_ty(), name: "f".to_string(), args: vec![], body }, void_ty());
    assert_eq!(
        lower(func),
        Ok(vec![IROp::Def(
            ConstType::Dynamic,
            "f".to_string(),
            vec![],
            vec![
                load("c", ConstType::Bool),
                IROp::If(ConstType::Void, vec![konst(1), IROp::Ret(ConstType::Dynamic)], vec![]),
                IROp::Const(ConstType::Float, Const::Float(2.0f32.to_bits())),
                IROp::Ret(ConstType::Dynamic),
            ],
        )])
    );
}

#[test]
fn function_with_a_failing_statement_fails() {
    let func = node(
        Expr::Func { ret: int_ty(), name: "f".to_string(), args: vec![], body: vec![lit(1), unsupported()] },
        void_ty(),
    );
    assert_eq!(lower(func), Err(UNSUPPORTED));
}

#[test]
fn program_leaves_out_the_nodes_that_fail() {
    let mut cg = Codegen::new();
    let prog = vec![declare("x", lit(1)), unsupported(), declare("x", lit(2)), var("x", int_ty())];
    assert_eq!(
        cg.gen_prog(prog),
        vec![
            IROp::Alloc(ConstType::Int, "x".to_string()),
            konst(1),
            IROp::Store(ConstType::Int, "x".to_string()),
            load("x", ConstType::Int),
        ]
    );
    assert_eq!(cg.gen_prog(vec![]), vec![]);
}

#[test]
fn deep_tree_keeps_scope_depth() {
    let mut tree = node(Expr::Block(vec![declare("v", lit(0))]), void_ty());
    for _ in 0..50 {
        tree = node(Expr::Block(vec![declare("v", lit(0)), tree]), void_ty());
    }
    let mut cg = Codegen::new();
    cg.env.enter_scope();
    let code = cg.gen_expr(tree).unwrap();
    assert_eq!(code.len(), 51 * 4);
    assert_eq!(cg.env.depth(), 1);
    let deallocs = code.iter().filter(|op| matches!(op, IROp::Dealloc(_, _))).count();
    assert_eq!(deallocs, 51);
}

#[test]
fn copy_of_a_tree_lowers_alike() {
    let tree = node(
        Expr::Func {
            ret: int_ty(),
            name: "f".to_string(),
            args: vec![Ident::new("n".to_string(), int_ty())],
            body: vec![
                declare("xs", node(Expr::ListExpr(vec![lit(1), var("n", int_ty())]), AtomType::List(Box::new(int_ty())))),
                node(
                    Expr::WhileExpr {
                        condition: Box::new(binary("<=", var("n", int_ty()), lit(10), bool_ty())),
                        body: vec![node(
                            Expr::IfExpr {
                                condition: Box::new(var("c", bool_ty())),
                                body: vec![node(Expr::RetExpr(Box::new(flit(0.5))), void_ty())],
                                alt: Some(vec![node(
                                    Expr::Discard(Box::new(call("g", vec![lit(3)], void_ty()))),
                                    void_ty(),
                                )]),
                            },
                            void_ty(),
                        )],
                    },
                    void_ty(),
                ),
                node(Expr::RetExpr(Box::new(node(Expr::As(Box::new(var("n", int_ty()))), int_ty()))), void_ty()),
                node(Expr::PosInfo("main".to_string(), 4, 2), void_ty()),
            ],
        },
        void_ty(),
    );
    let copy = tree.clone();
    assert_eq!(copy, tree);
    let first = lower(tree);
    let second = lower(copy);
    assert!(first.is_ok());
    assert_eq!(first, second);
}

#[test]
fn copy_keeps_the_source_position() {
    let mut positioned = lit(1);
    positioned.line = 12;
    positioned.column = 5;
    let copy = positioned.clone();
    assert_eq!(copy.line, 12);
    assert_eq!(copy.column, 5);
    assert_eq!(copy, positioned);
    let fresh = lit(1);
    assert_eq!((fresh.line, fresh.column), (0, 0));
}

#[test]
fn position_does_not_change_the_instructions() {
    let mut moved = binary("*", lit(2), var("x", int_ty()), int_ty());
    moved.line = 40;
    moved.column = 9;
    assert_eq!(lower(moved), lower(binary("*", lit(2), var("x", int_ty()), int_ty())));
}

#[test]
fn deallocations_match_declarations_across_nesting() {
    let inner_loop = node(
        Expr::WhileExpr {
            condition: Box::new(var("c", bool_ty())),
            body: vec![declare("a", lit(1)), declare("b", lit(2))],
        },
        void_ty(),
    );
    let func = node(
        Expr::Func {
            ret: void_ty(),
            name: "f".to_string(),
            args: vec![Ident::new("p".to_string(), int_ty()), Ident::new("q".to_string(), int_ty())],
            body: vec![declare("local", lit(0)), inner_loop],
        },
        void_ty(),
    );
    let block = node(Expr::Block(vec![declare("top", lit(9)), func]), void_ty());
    let code = lower(block).unwrap();
    assert_eq!(count_deallocs(&code), 6);
    let names: Vec<String> = code
        .iter()
        .filter_map(|op| match op {
            IROp::Dealloc(_, name) => Some(name.clone()),
            _ => None,
        })
        .collect();
    assert_eq!(names, vec!["top", "p", "q", "local"]);
}
