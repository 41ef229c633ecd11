//! The inference engine and the symbol table: literals, names, shadowing,
//! operators with the constant side channel, casts, `if` candidate sets,
//! calls, and the structural checks.

use semck::constval::{BinOp, ConstEnv, ConstValue};
use semck::diag::{DiagKind, Reporter, Span};
use semck::infer::{
    check_call, check_fn_return, check_terminal_positions, infer_expr, Expr, ExprKind,
    ExprUnOp,
};
use semck::mutability::check_write;
use semck::place::Place;
use semck::scopes::{ScopeKind, SymKind, Symbol, SymbolTable};
use semck::ty::{ty_eq, IntKind, StructTable, Ty};

fn sp() -> Span {
    Span::at(0, 0)
}

fn ex(kind: ExprKind) -> Expr {
    Expr { span: sp(), kind }
}

fn lit(v: i128) -> Expr {
    ex(ExprKind::IntLit { val: v, kind: None })
}

fn bin(op: BinOp, l: Expr, r: Expr) -> Expr {
    ex(ExprKind::Bin { op, l: Box::new(l), r: Box::new(r) })
}

fn i32_ty() -> Ty {
    Ty::Int(IntKind::I32)
}

#[test]
fn if_expression_resolves_to_i32_with_no_diagnostics() {
    // `fn f() -> i32 { if true { 1 } else { 2 } }`
    let table = SymbolTable::new();
    let cenv = ConstEnv::new();
    let mut rep = Reporter::new();
    let body = ex(ExprKind::If {
        cond: Box::new(ex(ExprKind::BoolLit(true))),
        then_e: Box::new(lit(1)),
        else_e: Some(Box::new(lit(2))),
    });
    let (t, _cv) = infer_expr(&table, &cenv, &body, &mut rep);
    assert!(matches!(t, Ty::Ambiguous { .. }));
    let resolved = check_fn_return(&i32_ty(), &t, sp(), &mut rep);
    assert!(ty_eq(&resolved, &i32_ty()));
    assert_eq!(rep.len(), 0);
}

#[test]
fn literals_are_typed_immediately() {
    let table = SymbolTable::new();
    let cenv = ConstEnv::new();
    let mut rep = Reporter::new();
    let (t, cv) = infer_expr(&table, &cenv, &lit(5), &mut rep);
    assert!(ty_eq(&t, &i32_ty()));
    assert_eq!(cv, Some(ConstValue::Int { kind: IntKind::I32, val: 5 }));
    let suffixed = ex(ExprKind::IntLit { val: 7, kind: Some(IntKind::U32) });
    let (t, _) = infer_expr(&table, &cenv, &suffixed, &mut rep);
    assert!(ty_eq(&t, &Ty::Int(IntKind::U32)));
    assert_eq!(rep.len(), 0);
}

#[test]
fn oversized_literal_reports_overflow() {
    // `let bb = 2147483648;` — an untyped literal defaults to i32 and does
    // not fit it.
    let table = SymbolTable::new();
    let cenv = ConstEnv::new();
    let mut rep = Reporter::new();
    let (_t, cv) = infer_expr(&table, &cenv, &lit(2147483648), &mut rep);
    assert_eq!(cv, None);
    assert_eq!(rep.len(), 1);
    assert_eq!(rep.get(0).kind, DiagKind::Overflow);
}

#[test]
fn constant_operands_are_checked_at_the_target_width() {
    let table = SymbolTable::new();
    let cenv = ConstEnv::new();
    let mut rep = Reporter::new();
    // `100 + 200` is fine and known to be 300.
    let (t, cv) = infer_expr(&table, &cenv, &bin(BinOp::Add, lit(100), lit(200)), &mut rep);
    assert!(ty_eq(&t, &i32_ty()));
    assert_eq!(cv, Some(ConstValue::Int { kind: IntKind::I32, val: 300 }));
    assert_eq!(rep.len(), 0);
    // `2147483647 + 1` overflows.
    let e = bin(BinOp::Add, lit(2147483647), lit(1));
    let (_t, cv) = infer_expr(&table, &cenv, &e, &mut rep);
    assert_eq!(cv, None);
    assert_eq!(rep.len(), 1);
    assert_eq!(rep.get(0).kind, DiagKind::Overflow);
    // `10 / 0` is a zero divisor.
    let e = bin(BinOp::Div, lit(10), lit(0));
    let (_t, _cv) = infer_expr(&table, &cenv, &e, &mut rep);
    assert_eq!(rep.len(), 2);
    assert_eq!(rep.get(1).kind, DiagKind::DivisionByZero);
}

#[test]
fn runtime_operands_are_left_unchecked() {
    let mut table = SymbolTable::new();
    let cenv = ConstEnv::new();
    let mut rep = Reporter::new();
    table.enter_scope(ScopeKind::Function);
    assert!(table
        .declare(Symbol { name: 1, ty: i32_ty(), mutable: false, kind: SymKind::Variable })
        .is_ok());
    let e = bin(BinOp::Add, ex(ExprKind::Var(1)), lit(1));
    let (t, cv) = infer_expr(&table, &cenv, &e, &mut rep);
    assert!(ty_eq(&t, &i32_ty()));
    assert_eq!(cv, None);
    assert_eq!(rep.len(), 0);
}

#[test]
fn const_references_feed_the_side_channel() {
    // `const N: i32 = 2147483647; N + 1` overflows at compile time.
    let mut table = SymbolTable::new();
    let mut cenv = ConstEnv::new();
    let mut rep = Reporter::new();
    table.enter_scope(ScopeKind::Item);
    assert!(table
        .declare(Symbol { name: 5, ty: i32_ty(), mutable: false, kind: SymKind::Constant })
        .is_ok());
    cenv.define(5, ConstValue::Int { kind: IntKind::I32, val: 2147483647 });
    let e = bin(BinOp::Add, ex(ExprKind::Var(5)), lit(1));
    let (_t, cv) = infer_expr(&table, &cenv, &e, &mut rep);
    assert_eq!(cv, None);
    assert_eq!(rep.len(), 1);
    assert_eq!(rep.get(0).kind, DiagKind::Overflow);
}

#[test]
fn undeclared_name_is_a_name_error() {
    let table = SymbolTable::new();
    let cenv = ConstEnv::new();
    let mut rep = Reporter::new();
    let (t, _cv) = infer_expr(&table, &cenv, &ex(ExprKind::Var(9)), &mut rep);
    assert!(matches!(t, Ty::Unresolved));
    assert_eq!(rep.len(), 1);
    assert_eq!(rep.get(0).kind, DiagKind::NameError);
}

#[test]
fn mismatched_operands_report_once_and_poison() {
    let table = SymbolTable::new();
    let cenv = ConstEnv::new();
    let mut rep = Reporter::new();
    let e = bin(BinOp::Add, lit(1), ex(ExprKind::BoolLit(true)));
    let (t, cv) = infer_expr(&table, &cenv, &e, &mut rep);
    assert!(matches!(t, Ty::Unresolved));
    assert_eq!(cv, None);
    assert_eq!(rep.len(), 1);
    assert_eq!(rep.get(0).kind, DiagKind::TypeMismatch);
    // The poisoned result does not cascade into the enclosing operation.
    let outer = bin(BinOp::Add, bin(BinOp::Add, lit(1), ex(ExprKind::BoolLit(true))), lit(2));
    let mut rep2 = Reporter::new();
    let (_t, _cv) = infer_expr(&table, &cenv, &outer, &mut rep2);
    assert_eq!(rep2.len(), 1);
}

#[test]
fn comparisons_and_logic_type_as_bool() {
    let table = SymbolTable::new();
    let cenv = ConstEnv::new();
    let mut rep = Reporter::new();
    let (t, cv) = infer_expr(&table, &cenv, &bin(BinOp::Lt, lit(1), lit(2)), &mut rep);
    assert!(ty_eq(&t, &Ty::Bool));
    assert_eq!(cv, Some(ConstValue::Bool(true)));
    let e = bin(
        BinOp::And,
        ex(ExprKind::BoolLit(true)),
        ex(ExprKind::BoolLit(false)),
    );
    let (t, cv) = infer_expr(&table, &cenv, &e, &mut rep);
    assert!(ty_eq(&t, &Ty::Bool));
    assert_eq!(cv, Some(ConstValue::Bool(false)));
    assert_eq!(rep.len(), 0);
}

#[test]
fn casts_validate_and_convert() {
    let table = SymbolTable::new();
    let cenv = ConstEnv::new();
    let mut rep = Reporter::new();
    let e = ex(ExprKind::Cast { e: Box::new(ex(ExprKind::BoolLit(true))), to: i32_ty() });
    let (t, cv) = infer_expr(&table, &cenv, &e, &mut rep);
    assert!(ty_eq(&t, &i32_ty()));
    assert_eq!(cv, Some(ConstValue::Int { kind: IntKind::I32, val: 1 }));
    assert_eq!(rep.len(), 0);
    // Casting an aggregate is rejected.
    let e = ex(ExprKind::Cast { e: Box::new(ex(ExprKind::UnitLit)), to: i32_ty() });
    let (_t, _cv) = infer_expr(&table, &cenv, &e, &mut rep);
    assert_eq!(rep.len(), 1);
    assert_eq!(rep.get(0).kind, DiagKind::TypeMismatch);
}

#[test]
fn deref_and_borrow_type_correctly() {
    let mut table = SymbolTable::new();
    let cenv = ConstEnv::new();
    let mut rep = Reporter::new();
    table.enter_scope(ScopeKind::Function);
    let ref_ty = Ty::Ref { to: Box::new(i32_ty()), mutable: false };
    assert!(table
        .declare(Symbol { name: 2, ty: ref_ty, mutable: false, kind: SymKind::Variable })
        .is_ok());
    let e = ex(ExprKind::Un { op: ExprUnOp::Deref, e: Box::new(ex(ExprKind::Var(2))) });
    let (t, _cv) = infer_expr(&table, &cenv, &e, &mut rep);
    assert!(ty_eq(&t, &i32_ty()));
    let e = ex(ExprKind::Un {
        op: ExprUnOp::Borrow { mutable: true },
        e: Box::new(lit(5)),
    });
    let (t, _cv) = infer_expr(&table, &cenv, &e, &mut rep);
    assert!(ty_eq(&t, &Ty::Ref { to: Box::new(i32_ty()), mutable: true }));
    assert_eq!(rep.len(), 0);
}

#[test]
fn shadowing_hides_but_does_not_destroy() {
    let mut table = SymbolTable::new();
    table.enter_scope(ScopeKind::Function);
    assert!(table
        .declare(Symbol { name: 1, ty: i32_ty(), mutable: false, kind: SymKind::Variable })
        .is_ok());
    let inner = table.enter_scope(ScopeKind::Block);
    assert!(table
        .declare(Symbol { name: 1, ty: Ty::Bool, mutable: true, kind: SymKind::Variable })
        .is_ok());
    let s = table.resolve(1).unwrap();
    assert!(ty_eq(&s.ty, &Ty::Bool));
    assert!(s.mutable);
    table.exit_scope(inner);
    let s = table.resolve(1).unwrap();
    assert!(ty_eq(&s.ty, &i32_ty()));
    assert!(!s.mutable);
}

#[test]
fn duplicate_declaration_in_one_scope_errors() {
    let mut table = SymbolTable::new();
    table.enter_scope(ScopeKind::Function);
    assert!(table
        .declare(Symbol { name: 1, ty: i32_ty(), mutable: false, kind: SymKind::Variable })
        .is_ok());
    let r = table.declare(Symbol {
        name: 1,
        ty: Ty::Bool,
        mutable: false,
        kind: SymKind::Variable,
    });
    assert_eq!(r.unwrap_err(), DiagKind::NameError);
}

#[test]
fn resolution_walks_outward_and_fails_cleanly() {
    let mut table = SymbolTable::new();
    table.enter_scope(ScopeKind::Function);
    assert!(table
        .declare(Symbol { name: 4, ty: Ty::Char, mutable: false, kind: SymKind::Variable })
        .is_ok());
    table.enter_scope(ScopeKind::Block);
    let s = table.resolve(4).unwrap();
    assert!(ty_eq(&s.ty, &Ty::Char));
    assert!(table.resolve(5).is_none());
    assert_eq!(table.resolve_or_error(5).unwrap_err(), DiagKind::NameError);
}

#[test]
fn calls_check_arity_and_parameters() {
    let params = vec![i32_ty(), Ty::Bool];
    let ret = Ty::Char;
    let good = vec![i32_ty(), Ty::Bool];
    assert!(ty_eq(&check_call(&params, &ret, &good).unwrap(), &Ty::Char));
    let diverging = vec![Ty::Never, Ty::Bool];
    assert!(check_call(&params, &ret, &diverging).is_ok());
    let short = vec![i32_ty()];
    assert_eq!(check_call(&params, &ret, &short).unwrap_err(), DiagKind::TypeMismatch);
    let wrong = vec![i32_ty(), i32_ty()];
    assert_eq!(check_call(&params, &ret, &wrong).unwrap_err(), DiagKind::TypeMismatch);
}

#[test]
fn return_type_mismatch_is_structural() {
    let mut rep = Reporter::new();
    let t = check_fn_return(&i32_ty(), &Ty::Bool, sp(), &mut rep);
    assert!(matches!(t, Ty::Unresolved));
    assert_eq!(rep.len(), 1);
    assert_eq!(rep.get(0).kind, DiagKind::StructuralError);
}

#[test]
fn terminal_call_must_be_last() {
    let mut rep = Reporter::new();
    check_terminal_positions(&vec![true, false], sp(), &mut rep);
    assert_eq!(rep.len(), 1);
    assert_eq!(rep.get(0).kind, DiagKind::StructuralError);
    let mut rep2 = Reporter::new();
    check_terminal_positions(&vec![false, true], sp(), &mut rep2);
    assert_eq!(rep2.len(), 0);
    let mut rep3 = Reporter::new();
    check_terminal_positions(&vec![true, true, true], sp(), &mut rep3);
    assert_eq!(rep3.len(), 2);
}

#[test]
fn writes_through_the_path_respect_reference_mutability() {
    // `*r = v` through `&i32` fails, through `&mut i32` succeeds — given a
    // mutable root binding either way.
    let tbl = StructTable { structs: Vec::new() };
    let target = Place::var(0).deref();
    let shared = Ty::Ref { to: Box::new(i32_ty()), mutable: false };
    let exclusive = Ty::Ref { to: Box::new(i32_ty()), mutable: true };
    assert_eq!(
        check_write(&tbl, true, &shared, &target).unwrap_err(),
        DiagKind::MutabilityError
    );
    assert!(check_write(&tbl, true, &exclusive, &target).is_ok());
}

#[test]
fn reporter_keeps_source_order_and_severity() {
    let mut rep = Reporter::new();
    assert!(!rep.failed());
    rep.error(DiagKind::NameError, Span::at(1, 2));
    rep.error(DiagKind::TypeMismatch, Span::at(3, 4));
    assert!(rep.failed());
    assert_eq!(rep.len(), 2);
    assert_eq!(rep.get(0).kind, DiagKind::NameError);
    assert_eq!(rep.get(1).kind, DiagKind::TypeMismatch);
    let all = rep.into_diagnostics();
    assert_eq!(all[0].span, Span::at(1, 2));
}
