use irgen::ast::{find_operator_level, get_operator_level, Expr, Ident, Literal, Node};
use irgen::codegen::{
    arith_op, next_step, promotion, ArithOp, Promotion, Step, FLOAT_KIND, INT_KIND,
    INVALID_OPERANDS, NOTHING_COMPILED, UNDECLARED_VAR,
};
use irgen::ir::ConstType;
use irgen::types::{AtomType, BasicType};

#[test]
fn every_source_type_has_one_tag() {
    assert_eq!(AtomType::Basic(BasicType::Int).const_type(), ConstType::Int);
    assert_eq!(AtomType::Basic(BasicType::Float).const_type(), ConstType::Float);
    assert_eq!(AtomType::Basic(BasicType::Str).const_type(), ConstType::Str);
    assert_eq!(AtomType::Basic(BasicType::Bool).const_type(), ConstType::Bool);
    assert_eq!(AtomType::Basic(BasicType::Void).const_type(), ConstType::Void);
    let list = AtomType::List(Box::new(AtomType::Basic(BasicType::Int)));
    assert_eq!(list.const_type(), ConstType::List);
    let nested = AtomType::List(Box::new(list));
    assert_eq!(nested.const_type(), ConstType::List);
}

#[test]
fn only_void_is_void() {
    assert!(AtomType::Basic(BasicType::Void).is_void());
    assert!(!AtomType::Basic(BasicType::Int).is_void());
    assert!(!AtomType::List(Box::new(AtomType::Basic(BasicType::Void))).is_void());
}

#[test]
fn clone_copies_the_type() {
    let nested = AtomType::List(Box::new(AtomType::List(Box::new(AtomType::Basic(BasicType::Str)))));
    assert_eq!(nested.clone(), nested);
    let id = Ident::new("xs".to_string(), nested.clone());
    let copy = id.clone();
    assert_eq!(copy, id);
    assert_eq!(copy.val(), "xs");
    assert_eq!(copy.ty(), &nested);
}

#[test]
fn operator_levels() {
    assert_eq!(get_operator_level("&"), 1);
    assert_eq!(get_operator_level("|"), 1);
    assert_eq!(get_operator_level("=="), 2);
    assert_eq!(get_operator_level("<"), 3);
    assert_eq!(get_operator_level(">"), 3);
    assert_eq!(get_operator_level("+"), 4);
    assert_eq!(get_operator_level("-"), 4);
    assert_eq!(get_operator_level("*"), 5);
    assert_eq!(get_operator_level("/"), 5);
}

#[test]
fn other_text_has_no_operator_level() {
    assert_eq!(find_operator_level("=="), Some(2));
    assert_eq!(find_operator_level("*"), Some(5));
    assert_eq!(find_operator_level(""), None);
    assert_eq!(find_operator_level("%"), None);
    assert_eq!(find_operator_level("<="), None);
    assert_eq!(find_operator_level("&&"), None);
    assert_eq!(find_operator_level("=== "), None);
}

#[test]
fn integer_beside_float_is_promoted() {
    assert_eq!(INT_KIND, 0);
    assert_eq!(FLOAT_KIND, 1);
    assert_eq!(promotion(INT_KIND, FLOAT_KIND), Promotion::Left);
    assert_eq!(promotion(FLOAT_KIND, INT_KIND), Promotion::Right);
    assert_eq!(promotion(INT_KIND, INT_KIND), Promotion::Neither);
    assert_eq!(promotion(FLOAT_KIND, FLOAT_KIND), Promotion::Neither);
    assert_eq!(promotion(2, FLOAT_KIND), Promotion::Neither);
    assert_eq!(promotion(INT_KIND, 7), Promotion::Neither);
}

#[test]
fn backend_operators() {
    assert_eq!(arith_op("+"), Some(ArithOp::Add));
    assert_eq!(arith_op("-"), Some(ArithOp::Sub));
    assert_eq!(arith_op("*"), Some(ArithOp::Mul));
    assert_eq!(arith_op("/"), Some(ArithOp::Div));
    assert_eq!(arith_op("%"), None);
    assert_eq!(arith_op("++"), None);
    assert_eq!(arith_op(""), None);
}

#[test]
fn backend_steps() {
    let int = AtomType::Basic(BasicType::Int);
    let node = |expr: Expr| Node::new(expr, AtomType::Basic(BasicType::Int));
    assert!(matches!(next_step(node(Expr::Literal(Literal::Int(-3)))), Step::IntObject(-3)));
    let bits = 2.5f32.to_bits();
    assert!(matches!(next_step(node(Expr::Literal(Literal::Float(bits)))), Step::FloatObject(b) if b == bits));
    assert!(matches!(
        next_step(node(Expr::Ident(Ident::new("x".to_string(), int.clone())))),
        Step::LoadVar(name) if name == "x"
    ));
    let sum = node(Expr::BinaryExpr {
        op: "+".to_string(),
        left: Box::new(node(Expr::Literal(Literal::Int(1)))),
        right: Box::new(node(Expr::Literal(Literal::Int(2)))),
    });
    match next_step(sum) {
        Step::Binary { op, left, right } => {
            assert_eq!(op, "+");
            assert_eq!(left.expr, Expr::Literal(Literal::Int(1)));
            assert_eq!(right.expr, Expr::Literal(Literal::Int(2)));
        }
        _ => panic!("a binary expression is compiled"),
    }
    assert!(matches!(
        next_step(node(Expr::Literal(Literal::Bool(true)))),
        Step::Unsupported(Expr::Literal(Literal::Bool(true)))
    ));
    assert!(matches!(next_step(node(Expr::Block(vec![]))), Step::Unsupported(Expr::Block(_))));
}

#[test]
fn backend_failure_codes() {
    assert_eq!(NOTHING_COMPILED, -1);
    assert_eq!(UNDECLARED_VAR, 1);
    assert_eq!(INVALID_OPERANDS, 2);
}
