//! The constant evaluator: literal folding, every operator family, casts,
//! constant references, the declared-type-before-evaluation rule, and the
//! array-size position.

use semck::constval::{
    check_const_decl, eval_array_len, eval_const, BinOp, CExpr, ConstEnv, ConstValue,
    UnOp,
};
use semck::diag::DiagKind;
use semck::ty::{IntKind, Ty};

fn lit(v: i128) -> CExpr {
    CExpr::IntLit { val: v, kind: None }
}

fn lit_k(v: i128, k: IntKind) -> CExpr {
    CExpr::IntLit { val: v, kind: Some(k) }
}

fn bin(op: BinOp, l: CExpr, r: CExpr) -> CExpr {
    CExpr::Bin { op, l: Box::new(l), r: Box::new(r) }
}

fn int_of(r: Result<ConstValue, DiagKind>) -> i128 {
    match r {
        Ok(ConstValue::Int { val, .. }) => val,
        other => panic!("expected an integer constant, got {:?}", other),
    }
}

#[test]
fn addition_within_range_evaluates() {
    let env = ConstEnv::new();
    let e = bin(BinOp::Add, lit(100), lit(200));
    assert_eq!(int_of(eval_const(&e, &env, IntKind::I32)), 300);
}

#[test]
fn i32_max_plus_one_overflows() {
    let env = ConstEnv::new();
    let e = bin(BinOp::Add, lit(2147483647), lit(1));
    assert_eq!(eval_const(&e, &env, IntKind::I32), Err(DiagKind::Overflow));
}

#[test]
fn u32_max_plus_one_overflows() {
    let env = ConstEnv::new();
    let e = bin(
        BinOp::Add,
        lit_k(4294967295, IntKind::U32),
        lit_k(1, IntKind::U32),
    );
    assert_eq!(eval_const(&e, &env, IntKind::U32), Err(DiagKind::Overflow));
}

#[test]
fn i32_min_minus_one_underflows() {
    let env = ConstEnv::new();
    let e = bin(BinOp::Sub, lit(-2147483648), lit(1));
    assert_eq!(eval_const(&e, &env, IntKind::I32), Err(DiagKind::Overflow));
}

#[test]
fn multiplication_overflow_detected() {
    let env = ConstEnv::new();
    let e = bin(BinOp::Mul, lit(100000), lit(100000));
    assert_eq!(eval_const(&e, &env, IntKind::I32), Err(DiagKind::Overflow));
}

#[test]
fn division_by_zero_detected() {
    let env = ConstEnv::new();
    let e = bin(BinOp::Div, lit(10), lit(0));
    assert_eq!(eval_const(&e, &env, IntKind::I32), Err(DiagKind::DivisionByZero));
}

#[test]
fn modulo_by_zero_detected() {
    let env = ConstEnv::new();
    let e = bin(BinOp::Rem, lit(10), lit(0));
    assert_eq!(eval_const(&e, &env, IntKind::I32), Err(DiagKind::DivisionByZero));
}

#[test]
fn i64_min_divided_by_minus_one_overflows() {
    let env = ConstEnv::new();
    let e = bin(
        BinOp::Div,
        lit_k(-9223372036854775808, IntKind::I64),
        lit_k(-1, IntKind::I64),
    );
    assert_eq!(eval_const(&e, &env, IntKind::I64), Err(DiagKind::Overflow));
}

#[test]
fn truncating_division_and_remainder() {
    let env = ConstEnv::new();
    let d = bin(BinOp::Div, lit(-7), lit(2));
    assert_eq!(int_of(eval_const(&d, &env, IntKind::I32)), -3);
    let r = bin(BinOp::Rem, lit(-7), lit(2));
    assert_eq!(int_of(eval_const(&r, &env, IntKind::I32)), -1);
    let m = bin(BinOp::Rem, lit(15), lit(4));
    assert_eq!(int_of(eval_const(&m, &env, IntKind::I32)), 3);
}

#[test]
fn bitwise_on_integers() {
    let env = ConstEnv::new();
    assert_eq!(
        int_of(eval_const(&bin(BinOp::BitAnd, lit(0b1100), lit(0b1010)), &env, IntKind::I32)),
        0b1000
    );
    assert_eq!(
        int_of(eval_const(&bin(BinOp::BitOr, lit(0b1100), lit(0b1010)), &env, IntKind::I32)),
        0b1110
    );
    assert_eq!(
        int_of(eval_const(&bin(BinOp::BitXor, lit(0b1100), lit(0b1010)), &env, IntKind::I32)),
        0b0110
    );
}

#[test]
fn bitwise_on_negative_integers() {
    let env = ConstEnv::new();
    assert_eq!(
        int_of(eval_const(&bin(BinOp::BitAnd, lit(-1), lit(12)), &env, IntKind::I32)),
        12
    );
    assert_eq!(
        int_of(eval_const(&bin(BinOp::BitXor, lit(-1), lit(0)), &env, IntKind::I32)),
        -1
    );
}

#[test]
fn bitwise_on_booleans() {
    let env = ConstEnv::new();
    let e = bin(BinOp::BitAnd, CExpr::BoolLit(true), CExpr::BoolLit(false));
    assert_eq!(eval_const(&e, &env, IntKind::I32), Ok(ConstValue::Bool(false)));
    let e = bin(BinOp::BitOr, CExpr::BoolLit(true), CExpr::BoolLit(false));
    assert_eq!(eval_const(&e, &env, IntKind::I32), Ok(ConstValue::Bool(true)));
    let e = bin(BinOp::BitXor, CExpr::BoolLit(true), CExpr::BoolLit(false));
    assert_eq!(eval_const(&e, &env, IntKind::I32), Ok(ConstValue::Bool(true)));
}

#[test]
fn shifts_evaluate() {
    let env = ConstEnv::new();
    assert_eq!(
        int_of(eval_const(&bin(BinOp::Shl, lit(1), lit(4)), &env, IntKind::I32)),
        16
    );
    assert_eq!(
        int_of(eval_const(&bin(BinOp::Shr, lit(32), lit(2)), &env, IntKind::I32)),
        8
    );
    assert_eq!(
        int_of(eval_const(&bin(BinOp::Shr, lit(-8), lit(1)), &env, IntKind::I32)),
        -4
    );
}

#[test]
fn shift_amount_must_fit_the_width() {
    let env = ConstEnv::new();
    let e = bin(BinOp::Shl, lit(1), lit(32));
    assert_eq!(eval_const(&e, &env, IntKind::I32), Err(DiagKind::Overflow));
    let e = bin(BinOp::Shl, lit(1), lit(-1));
    assert_eq!(eval_const(&e, &env, IntKind::I32), Err(DiagKind::Overflow));
}

#[test]
fn shifted_value_must_fit_the_width() {
    let env = ConstEnv::new();
    let e = bin(BinOp::Shl, lit(1), lit(31));
    assert_eq!(eval_const(&e, &env, IntKind::I32), Err(DiagKind::Overflow));
    let ok = bin(BinOp::Shl, lit_k(1, IntKind::U32), lit(31));
    assert_eq!(int_of(eval_const(&ok, &env, IntKind::U32)), 2147483648);
}

#[test]
fn comparisons_evaluate() {
    let env = ConstEnv::new();
    for (op, want) in [
        (BinOp::Eq, true),
        (BinOp::Ne, false),
        (BinOp::Lt, false),
        (BinOp::Le, true),
        (BinOp::Gt, false),
        (BinOp::Ge, true),
    ] {
        let e = bin(op, lit(5), lit(5));
        assert_eq!(eval_const(&e, &env, IntKind::I32), Ok(ConstValue::Bool(want)));
    }
}

#[test]
fn logical_operators_evaluate() {
    let env = ConstEnv::new();
    let e = bin(BinOp::And, CExpr::BoolLit(true), CExpr::BoolLit(false));
    assert_eq!(eval_const(&e, &env, IntKind::I32), Ok(ConstValue::Bool(false)));
    let e = bin(BinOp::Or, CExpr::BoolLit(true), CExpr::BoolLit(false));
    assert_eq!(eval_const(&e, &env, IntKind::I32), Ok(ConstValue::Bool(true)));
    let e = CExpr::Un { op: UnOp::Not, e: Box::new(CExpr::BoolLit(true)) };
    assert_eq!(eval_const(&e, &env, IntKind::I32), Ok(ConstValue::Bool(false)));
}

#[test]
fn negation_checks_the_width() {
    let env = ConstEnv::new();
    let e = CExpr::Un { op: UnOp::Neg, e: Box::new(lit(5)) };
    assert_eq!(int_of(eval_const(&e, &env, IntKind::I32)), -5);
    let e = CExpr::Un { op: UnOp::Neg, e: Box::new(lit(-2147483648)) };
    assert_eq!(eval_const(&e, &env, IntKind::I32), Err(DiagKind::Overflow));
}

#[test]
fn casts_convert_scalars() {
    let env = ConstEnv::new();
    let e = CExpr::Cast { e: Box::new(lit(42)), to: IntKind::U32 };
    assert_eq!(int_of(eval_const(&e, &env, IntKind::I32)), 42);
    let e = CExpr::Cast { e: Box::new(CExpr::BoolLit(true)), to: IntKind::I32 };
    assert_eq!(int_of(eval_const(&e, &env, IntKind::I32)), 1);
    let e = CExpr::Cast { e: Box::new(CExpr::CharLit('a')), to: IntKind::U32 };
    assert_eq!(int_of(eval_const(&e, &env, IntKind::I32)), 97);
    let e = CExpr::Cast { e: Box::new(lit(256)), to: IntKind::U8 };
    assert_eq!(eval_const(&e, &env, IntKind::I32), Err(DiagKind::Overflow));
}

#[test]
fn grouping_is_transparent() {
    let env = ConstEnv::new();
    let e = bin(
        BinOp::Mul,
        CExpr::Group(Box::new(bin(BinOp::Add, lit(2), lit(3)))),
        lit(4),
    );
    assert_eq!(int_of(eval_const(&e, &env, IntKind::I32)), 20);
}

#[test]
fn constant_references_resolve_in_declaration_order() {
    let mut env = ConstEnv::new();
    env.define(1, ConstValue::Int { kind: IntKind::I32, val: 100 });
    env.define(2, ConstValue::Int { kind: IntKind::I32, val: 20 });
    env.define(3, ConstValue::Int { kind: IntKind::I32, val: 2 });
    env.define(4, ConstValue::Int { kind: IntKind::I32, val: 0xff });
    // ((BASE + OFFSET) * SCALE) & MASK
    let e = bin(
        BinOp::BitAnd,
        bin(
            BinOp::Mul,
            CExpr::Group(Box::new(bin(BinOp::Add, CExpr::ConstRef(1), CExpr::ConstRef(2)))),
            CExpr::ConstRef(3),
        ),
        CExpr::ConstRef(4),
    );
    assert_eq!(int_of(eval_const(&e, &env, IntKind::I32)), 240);
}

#[test]
fn forward_reference_is_not_constant() {
    let env = ConstEnv::new();
    let e = CExpr::ConstRef(9);
    assert_eq!(
        eval_const(&e, &env, IntKind::I32),
        Err(DiagKind::NonConstantExpression)
    );
}

#[test]
fn declared_type_checked_before_evaluation() {
    // `const B: bool = 10 / 0;` — the declared-type mismatch is found
    // before any reduction is attempted, so no division error appears.
    let env = ConstEnv::new();
    let e = bin(BinOp::Div, lit(10), lit(0));
    assert_eq!(
        check_const_decl(&Ty::Bool, &e, &env),
        Err(DiagKind::TypeMismatch)
    );
    // The same expression under a matching declared type fails in its own
    // way, only at evaluation.
    assert_eq!(
        check_const_decl(&Ty::Int(IntKind::I32), &e, &env),
        Err(DiagKind::DivisionByZero)
    );
}

#[test]
fn declared_width_drives_untyped_literals() {
    let env = ConstEnv::new();
    let e = lit(300);
    assert_eq!(
        check_const_decl(&Ty::Int(IntKind::U8), &e, &env),
        Err(DiagKind::Overflow)
    );
    assert_eq!(
        check_const_decl(&Ty::Int(IntKind::I32), &e, &env),
        Ok(ConstValue::Int { kind: IntKind::I32, val: 300 })
    );
}

#[test]
fn suffixed_literal_must_match_declared_type() {
    let env = ConstEnv::new();
    let e = lit_k(42, IntKind::U32);
    assert_eq!(
        check_const_decl(&Ty::Int(IntKind::I32), &e, &env),
        Err(DiagKind::TypeMismatch)
    );
    assert_eq!(
        check_const_decl(&Ty::Int(IntKind::U32), &e, &env),
        Ok(ConstValue::Int { kind: IntKind::U32, val: 42 })
    );
}

#[test]
fn array_length_resolves_before_the_type_is_final() {
    // `const N: i32 = 10; let a = [0; N];` — the length must reduce to a
    // non-negative integer before the array type exists.
    let mut env = ConstEnv::new();
    let n = check_const_decl(&Ty::Int(IntKind::I32), &lit(10), &env).unwrap();
    env.define(7, n);
    assert_eq!(eval_array_len(&CExpr::ConstRef(7), &env), Ok(10));
}

#[test]
fn array_length_arithmetic() {
    let env = ConstEnv::new();
    assert_eq!(eval_array_len(&bin(BinOp::Add, lit(2), lit(3)), &env), Ok(5));
    assert_eq!(
        eval_array_len(
            &bin(
                BinOp::Mul,
                CExpr::Group(Box::new(bin(BinOp::Add, lit(1), lit(2)))),
                lit(3),
            ),
            &env
        ),
        Ok(9)
    );
    assert_eq!(eval_array_len(&lit(65536), &env), Ok(65536));
}

#[test]
fn negative_array_size_is_its_own_diagnostic() {
    let env = ConstEnv::new();
    let e = CExpr::Un { op: UnOp::Neg, e: Box::new(lit(1)) };
    assert_eq!(eval_array_len(&e, &env), Err(DiagKind::NegativeArraySize));
    let e = CExpr::BoolLit(true);
    assert_eq!(eval_array_len(&e, &env), Err(DiagKind::NegativeArraySize));
}

#[test]
fn mixed_width_operands_mismatch() {
    let env = ConstEnv::new();
    let e = bin(BinOp::Add, lit_k(1, IntKind::I32), lit_k(1, IntKind::U32));
    assert_eq!(eval_const(&e, &env, IntKind::I32), Err(DiagKind::TypeMismatch));
}

#[test]
fn shift_operand_widths_are_independent() {
    let env = ConstEnv::new();
    let e = bin(BinOp::Shl, lit_k(5, IntKind::I32), lit_k(2, IntKind::U32));
    assert_eq!(int_of(eval_const(&e, &env, IntKind::I32)), 20);
}
