//! The type inference engine.
//!
//! Expressions are typed bottom-up. Literals and declared bindings are
//! immediate; `if` expressions used as values start as an ambiguous
//! candidate set over their branch types and are resolved from the use
//! context ([`crate::ty`]). Alongside the types runs the constant side
//! channel: operations whose operands are compile-time constants (literals,
//! or `const` references the constant evaluator has resolved) are evaluated
//! at the target width, and overflow or a zero divisor is reported here
//! rather than silently wrapped. Operations on runtime values are left
//! unchecked.
//!
//! The module also holds the cross-cutting structural checks: the function
//! body's type against its declared return type, call arity and per-
//! parameter compatibility, and the rule that a terminal (process-ending)
//! call must be the last statement of its function.

use vstd::prelude::*;

use crate::constval::{
    lookup_const, spec_bin, spec_cast, spec_un, BinOp, ConstEnv, ConstValue, UnOp,
};
use crate::diag::{DiagKind, Diagnostic, Reporter, Severity, Span};
use crate::scopes::{ScopeView, SymKind, SymbolTable};
use crate::ty::{spec_cast_ok, spec_expect, spec_unify, IntKind, Ty};

verus! {

/// One expression node, annotated with its source span by the parser.
#[derive(Debug)]
pub struct Expr {
    pub span: Span,
    pub kind: ExprKind,
}

/// The expression forms the engine types.
#[derive(Debug)]
pub enum ExprKind {
    UnitLit,
    BoolLit(bool),
    CharLit(char),
    IntLit { val: i128, kind: Option<IntKind> },
    /// A path to a binding, by interned name.
    Var(u32),
    Un { op: ExprUnOp, e: Box<Expr> },
    Bin { op: BinOp, l: Box<Expr>, r: Box<Expr> },
    Cast { e: Box<Expr>, to: Ty },
    /// An `if` used as a value; a missing else-branch contributes unit.
    If { cond: Box<Expr>, then_e: Box<Expr>, else_e: Option<Box<Expr>> },
}

/// Unary operators on expressions: the constant evaluator's two, plus the
/// place-forming ones.
#[derive(Clone, Copy, PartialEq, Eq, Structural, Debug)]
pub enum ExprUnOp {
    Neg,
    Not,
    Deref,
    Borrow { mutable: bool },
}

/// What inference yields for one expression: its type, its compile-time
/// value when the constant side channel knows it, and the diagnostics
/// reported along the way, in source order.
pub struct Inferred {
    pub ty: Ty,
    pub cval: Option<ConstValue>,
    pub diags: Seq<Diagnostic>,
}

/// A transient or poisoned type that arithmetic lets through unchecked.
pub open spec fn is_poison(t: Ty) -> bool {
    t is Never || t is Unresolved
}

pub open spec fn err_at(kind: DiagKind, span: Span) -> Diagnostic {
    Diagnostic { kind, severity: Severity::Error, span }
}

/// The result type of a binary operation from its operand types, or the
/// mismatch to report. Arithmetic and bitwise operators unify their
/// operands (so `never` and the error fallback pass through); bitwise
/// operators also act on booleans; shift operands are integers of
/// independent widths and the result takes the left width; comparisons
/// yield booleans.
pub open spec fn spec_bin_ty(op: BinOp, lt: Ty, rt: Ty) -> Result<Ty, DiagKind> {
    match op {
        BinOp::Add | BinOp::Sub | BinOp::Mul | BinOp::Div | BinOp::Rem => match
            spec_unify(lt, rt) {
            Some(u) => if u is Int || is_poison(u) {
                Ok(u)
            } else {
                Err(DiagKind::TypeMismatch)
            },
            None => Err(DiagKind::TypeMismatch),
        },
        BinOp::BitAnd | BinOp::BitOr | BinOp::BitXor => match spec_unify(lt, rt) {
            Some(u) => if u is Int || u is Bool || is_poison(u) {
                Ok(u)
            } else {
                Err(DiagKind::TypeMismatch)
            },
            None => Err(DiagKind::TypeMismatch),
        },
        BinOp::Shl | BinOp::Shr => if (lt is Int || is_poison(lt)) && (rt is Int
            || is_poison(rt)) {
            Ok(lt)
        } else {
            Err(DiagKind::TypeMismatch)
        },
        BinOp::Eq | BinOp::Ne => match spec_unify(lt, rt) {
            Some(_) => Ok(Ty::Bool),
            None => Err(DiagKind::TypeMismatch),
        },
        BinOp::Lt | BinOp::Le | BinOp::Gt | BinOp::Ge => match spec_unify(lt, rt) {
            Some(u) => if u is Int || is_poison(u) {
                Ok(Ty::Bool)
            } else {
                Err(DiagKind::TypeMismatch)
            },
            None => Err(DiagKind::TypeMismatch),
        },
        BinOp::And | BinOp::Or => if (lt is Bool || is_poison(lt)) && (rt is Bool
            || is_poison(rt)) {
            Ok(Ty::Bool)
        } else {
            Err(DiagKind::TypeMismatch)
        },
    }
}

/// What a unary node adds on top of its operand: the node's type, constant
/// value, and its own diagnostics.
pub open spec fn spec_un_node(op: ExprUnOp, t: Ty, cv: Option<ConstValue>, span: Span)
    -> Inferred {
    match op {
        ExprUnOp::Neg => if t is Int {
            match cv {
                Some(v) => match spec_un(UnOp::Neg, v) {
                    Ok(v2) => Inferred { ty: t, cval: Some(v2), diags: Seq::empty() },
                    Err(er) => Inferred {
                        ty: t,
                        cval: None,
                        diags: if er is Overflow {
                            seq![err_at(er, span)]
                        } else {
                            Seq::<Diagnostic>::empty()
                        },
                    },
                },
                None => Inferred { ty: t, cval: None, diags: Seq::empty() },
            }
        } else if is_poison(t) {
            Inferred { ty: t, cval: None, diags: Seq::empty() }
        } else {
            Inferred {
                ty: Ty::Unresolved,
                cval: None,
                diags: seq![err_at(DiagKind::TypeMismatch, span)],
            }
        },
        ExprUnOp::Not => if t is Bool {
            match cv {
                Some(ConstValue::Bool(b)) => Inferred {
                    ty: Ty::Bool,
                    cval: Some(ConstValue::Bool(!b)),
                    diags: Seq::empty(),
                },
                _ => Inferred { ty: Ty::Bool, cval: None, diags: Seq::empty() },
            }
        } else if is_poison(t) {
            Inferred { ty: t, cval: None, diags: Seq::empty() }
        } else {
            Inferred {
                ty: Ty::Unresolved,
                cval: None,
                diags: seq![err_at(DiagKind::TypeMismatch, span)],
            }
        },
        ExprUnOp::Deref => match t {
            Ty::Ref { to, .. } => Inferred { ty: *to, cval: None, diags: Seq::empty() },
            _ => if is_poison(t) {
                Inferred { ty: t, cval: None, diags: Seq::empty() }
            } else {
                Inferred {
                    ty: Ty::Unresolved,
                    cval: None,
                    diags: seq![err_at(DiagKind::TypeMismatch, span)],
                }
            },
        },
        ExprUnOp::Borrow { mutable } => Inferred {
            ty: Ty::Ref { to: Box::new(t), mutable },
            cval: None,
            diags: Seq::empty(),
        },
    }
}

/// What a binary node adds on top of its operands: its type (with the
/// mismatch diagnostic, if any), and the constant side channel (with the
/// overflow or zero-divisor diagnostic, if any).
pub open spec fn spec_bin_node(
    op: BinOp,
    lt: Ty,
    rt: Ty,
    lc: Option<ConstValue>,
    rc: Option<ConstValue>,
    span: Span,
) -> Inferred {
    match spec_bin_ty(op, lt, rt) {
        Err(er) => Inferred {
            ty: Ty::Unresolved,
            cval: None,
            diags: seq![err_at(er, span)],
        },
        Ok(t) => match (lc, rc) {
            (Some(a), Some(b)) => match spec_bin(op, a, b) {
                Ok(v) => Inferred { ty: t, cval: Some(v), diags: Seq::empty() },
                Err(er) => Inferred {
                    ty: t,
                    cval: None,
                    diags: if er is Overflow || er is DivisionByZero {
                        seq![err_at(er, span)]
                    } else {
                        Seq::<Diagnostic>::empty()
                    },
                },
            },
            _ => Inferred { ty: t, cval: None, diags: Seq::empty() },
        },
    }
}

/// What a cast node adds on top of its operand: the target type (with the
/// mismatch diagnostic if the source is not castable), and the constant
/// value converted to the target width when known.
pub open spec fn spec_cast_node(t: Ty, cv: Option<ConstValue>, to: Ty, span: Span)
    -> Inferred {
    if spec_cast_ok(t, to) || is_poison(t) {
        match (cv, to) {
            (Some(v), Ty::Int(k)) => match spec_cast(v, k) {
                Ok(v2) => Inferred { ty: to, cval: Some(v2), diags: Seq::empty() },
                Err(er) => Inferred {
                    ty: to,
                    cval: None,
                    diags: seq![err_at(er, span)],
                },
            },
            _ => Inferred { ty: to, cval: None, diags: Seq::empty() },
        }
    } else {
        Inferred {
            ty: to,
            cval: None,
            diags: seq![err_at(DiagKind::TypeMismatch, span)],
        }
    }
}

/// The inference mirror: the type, constant value and diagnostics of an
/// expression, given the scope chain and the constants evaluated so far.
pub open spec fn spec_infer(
    scopes: Seq<ScopeView>,
    cenv: Seq<(u32, ConstValue)>,
    e: Expr,
) -> Inferred
    decreases e,
{
    match e.kind {
        ExprKind::UnitLit => Inferred { ty: Ty::Unit, cval: None, diags: Seq::empty() },
        ExprKind::BoolLit(b) => Inferred {
            ty: Ty::Bool,
            cval: Some(ConstValue::Bool(b)),
            diags: Seq::empty(),
        },
        ExprKind::CharLit(c) => Inferred {
            ty: Ty::Char,
            cval: Some(ConstValue::Char(c)),
            diags: Seq::empty(),
        },
        ExprKind::IntLit { val, kind } => {
            let k = match kind {
                Some(k0) => k0,
                None => IntKind::I32,
            };
            if k.in_range(val as int) {
                Inferred {
                    ty: Ty::Int(k),
                    cval: Some(ConstValue::Int { kind: k, val }),
                    diags: Seq::empty(),
                }
            } else {
                Inferred {
                    ty: Ty::Int(k),
                    cval: None,
                    diags: seq![err_at(DiagKind::Overflow, e.span)],
                }
            }
        },
        ExprKind::Var(n) => match crate::scopes::spec_resolve(scopes, n) {
            Some(sym) => Inferred {
                ty: sym.ty,
                cval: if sym.kind is Constant {
                    lookup_const(cenv, n)
                } else {
                    None
                },
                diags: Seq::empty(),
            },
            None => Inferred {
                ty: Ty::Unresolved,
                cval: None,
                diags: seq![err_at(DiagKind::NameError, e.span)],
            },
        },
        ExprKind::Un { op, e: inner } => {
            let sub = spec_infer(scopes, cenv, *inner);
            let node = spec_un_node(op, sub.ty, sub.cval, e.span);
            Inferred { ty: node.ty, cval: node.cval, diags: sub.diags + node.diags }
        },
        ExprKind::Bin { op, l, r } => {
            let ls = spec_infer(scopes, cenv, *l);
            let rs = spec_infer(scopes, cenv, *r);
            let node = spec_bin_node(op, ls.ty, rs.ty, ls.cval, rs.cval, e.span);
            Inferred {
                ty: node.ty,
                cval: node.cval,
                diags: ls.diags + rs.diags + node.diags,
            }
        },
        ExprKind::Cast { e: inner, to } => {
            let sub = spec_infer(scopes, cenv, *inner);
            let node = spec_cast_node(sub.ty, sub.cval, to, e.span);
            Inferred { ty: node.ty, cval: node.cval, diags: sub.diags + node.diags }
        },
        ExprKind::If { cond, then_e, else_e } => {
            let cs = spec_infer(scopes, cenv, *cond);
            let cdiag = if cs.ty is Bool || is_poison(cs.ty) {
                Seq::<Diagnostic>::empty()
            } else {
                seq![err_at(DiagKind::TypeMismatch, e.span)]
            };
            let ts = spec_infer(scopes, cenv, *then_e);
            match else_e {
                Some(ee) => {
                    let es = spec_infer(scopes, cenv, *ee);
                    Inferred {
                        ty: Ty::Ambiguous {
                            first: Box::new(ts.ty),
                            second: Box::new(es.ty),
                        },
                        cval: None,
                        diags: cs.diags + cdiag + ts.diags + es.diags,
                    }
                },
                None => Inferred {
                    ty: Ty::Ambiguous {
                        first: Box::new(ts.ty),
                        second: Box::new(Ty::Unit),
                    },
                    cval: None,
                    diags: cs.diags + cdiag + ts.diags,
                },
            }
        },
    }
}

/// A constant the side channel produces sits within its width.
pub proof fn lemma_bin_wf(op: BinOp, l: ConstValue, r: ConstValue)
    ensures
        spec_bin(op, l, r) matches Ok(v) ==> v.wf(),
{
}

/// So does the result of a unary operation or a cast.
pub proof fn lemma_un_wf(op: UnOp, v: ConstValue)
    ensures
        spec_un(op, v) matches Ok(v2) ==> v2.wf(),
{
}

proof fn lemma_cast_wf(v: ConstValue, k: IntKind)
    ensures
        spec_cast(v, k) matches Ok(v2) ==> v2.wf(),
{
}

/// Every constant value the inference mirror yields is well-formed, as long
/// as the constant environment is.
pub proof fn lemma_infer_cval_wf(
    scopes: Seq<ScopeView>,
    cenv: Seq<(u32, ConstValue)>,
    e: Expr,
)
    requires
        crate::constval::env_wf(cenv),
    ensures
        spec_infer(scopes, cenv, e).cval matches Some(v) ==> v.wf(),
    decreases e,
{
    match e.kind {
        ExprKind::Var(n) => {
            crate::constval::lemma_lookup_wf(cenv, n);
        },
        ExprKind::Un { op, e: inner } => {
            lemma_infer_cval_wf(scopes, cenv, *inner);
            let sub = spec_infer(scopes, cenv, *inner);
            if sub.cval is Some {
                lemma_un_wf(UnOp::Neg, sub.cval->0);
            }
        },
        ExprKind::Bin { op, l, r } => {
            lemma_infer_cval_wf(scopes, cenv, *l);
            lemma_infer_cval_wf(scopes, cenv, *r);
            let ls = spec_infer(scopes, cenv, *l);
            let rs = spec_infer(scopes, cenv, *r);
            if ls.cval is Some && rs.cval is Some {
                lemma_bin_wf(op, ls.cval->0, rs.cval->0);
            }
        },
        ExprKind::Cast { e: inner, to } => {
            lemma_infer_cval_wf(scopes, cenv, *inner);
            let sub = spec_infer(scopes, cenv, *inner);
            if sub.cval is Some {
                match to {
                    Ty::Int(k) => {
                        lemma_cast_wf(sub.cval->0, k);
                    },
                    _ => {},
                }
            }
        },
        _ => {},
    }
}

/// Executable operator typing, mirroring [`spec_bin_ty`].
fn bin_ty_exec(op: BinOp, lt: &Ty, rt: &Ty) -> (r: Result<Ty, DiagKind>)
    ensures
        r == spec_bin_ty(op, *lt, *rt),
{
    let poison_l = matches!(lt, Ty::Never | Ty::Unresolved);
    let poison_r = matches!(rt, Ty::Never | Ty::Unresolved);
    match op {
        BinOp::Add | BinOp::Sub | BinOp::Mul | BinOp::Div | BinOp::Rem => {
            match crate::ty::unify(lt, rt) {
                Some(u) => if matches!(&u, Ty::Int(_) | Ty::Never | Ty::Unresolved) {
                    Ok(u)
                } else {
                    Err(DiagKind::TypeMismatch)
                },
                None => Err(DiagKind::TypeMismatch),
            }
        },
        BinOp::BitAnd | BinOp::BitOr | BinOp::BitXor => {
            match crate::ty::unify(lt, rt) {
                Some(u) => if matches!(
                    &u,
                    Ty::Int(_) | Ty::Bool | Ty::Never | Ty::Unresolved,
                ) {
                    Ok(u)
                } else {
                    Err(DiagKind::TypeMismatch)
                },
                None => Err(DiagKind::TypeMismatch),
            }
        },
        BinOp::Shl | BinOp::Shr => {
            if (matches!(lt, Ty::Int(_)) || poison_l) && (matches!(rt, Ty::Int(_))
                || poison_r) {
                Ok(lt.clone())
            } else {
                Err(DiagKind::TypeMismatch)
            }
        },
        BinOp::Eq | BinOp::Ne => {
            match crate::ty::unify(lt, rt) {
                Some(_) => Ok(Ty::Bool),
                None => Err(DiagKind::TypeMismatch),
            }
        },
        BinOp::Lt | BinOp::Le | BinOp::Gt | BinOp::Ge => {
            match crate::ty::unify(lt, rt) {
                Some(u) => if matches!(&u, Ty::Int(_) | Ty::Never | Ty::Unresolved) {
                    Ok(Ty::Bool)
                } else {
                    Err(DiagKind::TypeMismatch)
                },
                None => Err(DiagKind::TypeMismatch),
            }
        },
        BinOp::And | BinOp::Or => {
            if (matches!(lt, Ty::Bool) || poison_l) && (matches!(rt, Ty::Bool)
                || poison_r) {
                Ok(Ty::Bool)
            } else {
                Err(DiagKind::TypeMismatch)
            }
        },
    }
}

/// Finishes a unary node once its operand is typed, mirroring
/// [`spec_un_node`].
fn finish_un(op: ExprUnOp, st: Ty, sc: Option<ConstValue>, span: Span, rep: &mut
    Reporter) -> (r: (Ty, Option<ConstValue>))
    requires
        sc matches Some(v) ==> v.wf(),
    ensures
        final(rep)@ == old(rep)@ + spec_un_node(op, st, sc, span).diags,
        r.0 == spec_un_node(op, st, sc, span).ty,
        r.1 == spec_un_node(op, st, sc, span).cval,
{
    let ghost node = spec_un_node(op, st, sc, span);
    match op {
        ExprUnOp::Neg => {
            if matches!(&st, Ty::Int(_)) {
                match sc {
                    Some(ConstValue::Int { kind, val }) => {
                        match crate::constval::neg_exec(kind, val) {
                            Ok(v2) => {
                                proof {
                                    assert(rep@ =~= rep@ + node.diags);
                                }
                                (st, Some(v2))
                            },
                            Err(er) => {
                                if matches!(er, DiagKind::Overflow) {
                                    rep.error(er, span);
                                    proof {
                                        assert(rep@ =~= old(rep)@ + node.diags);
                                    }
                                } else {
                                    proof {
                                        assert(rep@ =~= old(rep)@ + node.diags);
                                    }
                                }
                                (st, None)
                            },
                        }
                    },
                    _ => {
                        proof {
                            assert(rep@ =~= rep@ + node.diags);
                        }
                        (st, None)
                    },
                }
            } else if matches!(&st, Ty::Never | Ty::Unresolved) {
                proof {
                    assert(rep@ =~= rep@ + node.diags);
                }
                (st, None)
            } else {
                rep.error(DiagKind::TypeMismatch, span);
                proof {
                    assert(rep@ =~= old(rep)@ + node.diags);
                }
                (Ty::Unresolved, None)
            }
        },
        ExprUnOp::Not => {
            if matches!(&st, Ty::Bool) {
                let cv = match sc {
                    Some(ConstValue::Bool(b)) => Some(ConstValue::Bool(!b)),
                    _ => None,
                };
                proof {
                    assert(rep@ =~= rep@ + node.diags);
                }
                (Ty::Bool, cv)
            } else if matches!(&st, Ty::Never | Ty::Unresolved) {
                proof {
                    assert(rep@ =~= rep@ + node.diags);
                }
                (st, None)
            } else {
                rep.error(DiagKind::TypeMismatch, span);
                proof {
                    assert(rep@ =~= old(rep)@ + node.diags);
                }
                (Ty::Unresolved, None)
            }
        },
        ExprUnOp::Deref => match st {
            Ty::Ref { to, .. } => {
                proof {
                    assert(rep@ =~= rep@ + node.diags);
                }
                (*to, None)
            },
            Ty::Never => {
                proof {
                    assert(rep@ =~= rep@ + node.diags);
                }
                (Ty::Never, None)
            },
            Ty::Unresolved => {
                proof {
                    assert(rep@ =~= rep@ + node.diags);
                }
                (Ty::Unresolved, None)
            },
            _ => {
                rep.error(DiagKind::TypeMismatch, span);
                proof {
                    assert(rep@ =~= old(rep)@ + node.diags);
                }
                (Ty::Unresolved, None)
            },
        },
        ExprUnOp::Borrow { mutable } => {
            proof {
                assert(rep@ =~= rep@ + node.diags);
            }
            (Ty::Ref { to: Box::new(st), mutable }, None)
        },
    }
}

/// Finishes a binary node once its operands are typed, mirroring
/// [`spec_bin_node`].
fn finish_bin(
    op: BinOp,
    lt: Ty,
    rt: Ty,
    lc: Option<ConstValue>,
    rc: Option<ConstValue>,
    span: Span,
    rep: &mut Reporter,
) -> (r: (Ty, Option<ConstValue>))
    requires
        lc matches Some(v) ==> v.wf(),
        rc matches Some(v) ==> v.wf(),
    ensures
        final(rep)@ == old(rep)@ + spec_bin_node(op, lt, rt, lc, rc, span).diags,
        r.0 == spec_bin_node(op, lt, rt, lc, rc, span).ty,
        r.1 == spec_bin_node(op, lt, rt, lc, rc, span).cval,
{
    let ghost node = spec_bin_node(op, lt, rt, lc, rc, span);
    match bin_ty_exec(op, &lt, &rt) {
        Err(er) => {
            rep.error(er, span);
            proof {
                assert(rep@ =~= old(rep)@ + node.diags);
            }
            (Ty::Unresolved, None)
        },
        Ok(t) => match (lc, rc) {
            (Some(a), Some(b)) => match crate::constval::eval_bin(op, &a, &b) {
                Ok(v) => {
                    proof {
                        assert(rep@ =~= rep@ + node.diags);
                    }
                    (t, Some(v))
                },
                Err(er) => {
                    if matches!(er, DiagKind::Overflow | DiagKind::DivisionByZero) {
                        rep.error(er, span);
                        proof {
                            assert(rep@ =~= old(rep)@ + node.diags);
                        }
                    } else {
                        proof {
                            assert(rep@ =~= old(rep)@ + node.diags);
                        }
                    }
                    (t, None)
                },
            },
            _ => {
                proof {
                    assert(rep@ =~= rep@ + node.diags);
                }
                (t, None)
            },
        },
    }
}

/// Finishes a cast node, mirroring [`spec_cast_node`].
fn finish_cast(st: Ty, sc: Option<ConstValue>, to: &Ty, span: Span, rep: &mut Reporter)
    -> (r: (Ty, Option<ConstValue>))
    requires
        sc matches Some(v) ==> v.wf(),
    ensures
        final(rep)@ == old(rep)@ + spec_cast_node(st, sc, *to, span).diags,
        r.0 == spec_cast_node(st, sc, *to, span).ty,
        r.1 == spec_cast_node(st, sc, *to, span).cval,
{
    let ghost node = spec_cast_node(st, sc, *to, span);
    let ok = crate::ty::cast_ok(&st, to) || matches!(&st, Ty::Never | Ty::Unresolved);
    if !ok {
        rep.error(DiagKind::TypeMismatch, span);
        proof {
            assert(rep@ =~= old(rep)@ + node.diags);
        }
        return (to.clone(), None);
    }
    match (sc, to) {
        (Some(v), Ty::Int(k)) => match crate::constval::cast_exec(&v, *k) {
            Ok(v2) => {
                proof {
                    assert(rep@ =~= rep@ + node.diags);
                }
                (to.clone(), Some(v2))
            },
            Err(er) => {
                rep.error(er, span);
                proof {
                    assert(rep@ =~= old(rep)@ + node.diags);
                }
                (to.clone(), None)
            },
        },
        _ => {
            proof {
                assert(rep@ =~= rep@ + node.diags);
            }
            (to.clone(), None)
        },
    }
}

/// Types one expression bottom-up, reporting its diagnostics in source
/// order; returns the type and the constant side channel's value.
#[verifier::rlimit(60)]
pub fn infer_expr(table: &SymbolTable, cenv: &ConstEnv, e: &Expr, rep: &mut Reporter)
    -> (r: (Ty, Option<ConstValue>))
    requires
        cenv.wf(),
    ensures
        final(rep)@ == old(rep)@ + spec_infer(table@, cenv@, *e).diags,
        r.0 == spec_infer(table@, cenv@, *e).ty,
        r.1 == spec_infer(table@, cenv@, *e).cval,
    decreases *e,
{
    let ghost goal = spec_infer(table@, cenv@, *e);
    match &e.kind {
        ExprKind::UnitLit => {
            proof {
                assert(rep@ =~= rep@ + goal.diags);
            }
            (Ty::Unit, None)
        },
        ExprKind::BoolLit(b) => {
            proof {
                assert(rep@ =~= rep@ + goal.diags);
            }
            (Ty::Bool, Some(ConstValue::Bool(*b)))
        },
        ExprKind::CharLit(c) => {
            proof {
                assert(rep@ =~= rep@ + goal.diags);
            }
            (Ty::Char, Some(ConstValue::Char(*c)))
        },
        ExprKind::IntLit { val, kind } => {
            let k = match kind {
                Some(k0) => *k0,
                None => IntKind::I32,
            };
            if k.fits(*val) {
                proof {
                    assert(rep@ =~= rep@ + goal.diags);
                }
                (Ty::Int(k), Some(ConstValue::Int { kind: k, val: *val }))
            } else {
                rep.error(DiagKind::Overflow, e.span);
                proof {
                    assert(rep@ =~= old(rep)@ + goal.diags);
                }
                (Ty::Int(k), None)
            }
        },
        ExprKind::Var(n) => match table.resolve(*n) {
            Some(sym) => {
                let cv = if matches!(sym.kind, SymKind::Constant) {
                    cenv.get(*n)
                } else {
                    None
                };
                proof {
                    assert(rep@ =~= rep@ + goal.diags);
                }
                (sym.ty, cv)
            },
            None => {
                rep.error(DiagKind::NameError, e.span);
                proof {
                    assert(rep@ =~= old(rep)@ + goal.diags);
                }
                (Ty::Unresolved, None)
            },
        },
        ExprKind::Un { op, e: inner } => {
            let (st, sc) = infer_expr(table, cenv, &**inner, rep);
            proof {
                lemma_infer_cval_wf(table@, cenv@, **inner);
            }
            let ghost sub = spec_infer(table@, cenv@, **inner);
            let r = finish_un(*op, st, sc, e.span, rep);
            proof {
                assert(rep@ =~= old(rep)@ + (sub.diags + spec_un_node(
                    *op,
                    sub.ty,
                    sub.cval,
                    e.span,
                ).diags));
            }
            r
        },
        ExprKind::Bin { op, l, r } => {
            let (lt, lc) = infer_expr(table, cenv, &**l, rep);
            let (rt, rc) = infer_expr(table, cenv, &**r, rep);
            proof {
                lemma_infer_cval_wf(table@, cenv@, **l);
                lemma_infer_cval_wf(table@, cenv@, **r);
            }
            let ghost ls = spec_infer(table@, cenv@, **l);
            let ghost rs = spec_infer(table@, cenv@, **r);
            let res = finish_bin(*op, lt, rt, lc, rc, e.span, rep);
            proof {
                assert(rep@ =~= old(rep)@ + (ls.diags + rs.diags + spec_bin_node(
                    *op,
                    ls.ty,
                    rs.ty,
                    ls.cval,
                    rs.cval,
                    e.span,
                ).diags));
            }
            res
        },
        ExprKind::Cast { e: inner, to } => {
            let (st, sc) = infer_expr(table, cenv, &**inner, rep);
            proof {
                lemma_infer_cval_wf(table@, cenv@, **inner);
            }
            let ghost sub = spec_infer(table@, cenv@, **inner);
            let r = finish_cast(st, sc, to, e.span, rep);
            proof {
                assert(rep@ =~= old(rep)@ + (sub.diags + spec_cast_node(
                    sub.ty,
                    sub.cval,
                    *to,
                    e.span,
                ).diags));
            }
            r
        },
        ExprKind::If { cond, then_e, else_e } => {
            let (ct, _cc) = infer_expr(table, cenv, &**cond, rep);
            if !matches!(&ct, Ty::Bool | Ty::Never | Ty::Unresolved) {
                rep.error(DiagKind::TypeMismatch, e.span);
            }
            let (tt, _tc) = infer_expr(table, cenv, &**then_e, rep);
            match else_e {
                Some(ee) => {
                    let (et, _ec) = infer_expr(table, cenv, &**ee, rep);
                    proof {
                        assert(rep@ =~= old(rep)@ + goal.diags);
                    }
                    (
                        Ty::Ambiguous { first: Box::new(tt), second: Box::new(et) },
                        None,
                    )
                },
                None => {
                    proof {
                        assert(rep@ =~= old(rep)@ + goal.diags);
                    }
                    (
                        Ty::Ambiguous {
                            first: Box::new(tt),
                            second: Box::new(Ty::Unit),
                        },
                        None,
                    )
                },
            }
        },
    }
}

/// The cross-cutting return-type check: the function body's (tail) type must
/// resolve against the declared return type — unit if none was declared. A
/// plain mismatch is reported as a structural error; an ambiguous body type
/// that no context can settle keeps its own kind.
pub open spec fn spec_fn_return(declared: Ty, body: Ty) -> (Ty, Option<DiagKind>) {
    match crate::ty::spec_resolve(body, declared) {
        Ok(t) => (t, None),
        Err(er) => (
            Ty::Unresolved,
            Some(
                if er is TypeMismatch {
                    DiagKind::StructuralError
                } else {
                    er
                },
            ),
        ),
    }
}

/// Checks the body type of one function against its declared return type,
/// reporting the mismatch if any, and returns the resolved body type.
pub fn check_fn_return(declared: &Ty, body: &Ty, span: Span, rep: &mut Reporter) -> (t:
    Ty)
    ensures
        t == spec_fn_return(*declared, *body).0,
        match spec_fn_return(*declared, *body).1 {
            Some(k) => final(rep)@ == old(rep)@.push(err_at(k, span)),
            None => final(rep)@ == old(rep)@,
        },
{
    match crate::ty::resolve_expected(body, declared) {
        Ok(t) => t,
        Err(er) => {
            let k = if matches!(er, DiagKind::TypeMismatch) {
                DiagKind::StructuralError
            } else {
                er
            };
            rep.error(k, span);
            Ty::Unresolved
        },
    }
}

/// Function application: the arity must match and each argument must be
/// acceptable for its parameter; the call's type is the declared return
/// type.
pub fn check_call(params: &Vec<Ty>, ret: &Ty, args: &Vec<Ty>) -> (r: Result<
    Ty,
    DiagKind,
>)
    ensures
        r is Ok <==> (args@.len() == params@.len() && (forall|i: int|
            0 <= i < args@.len() ==> spec_expect(args@[i], params@[i]))),
        r matches Ok(t) ==> t == *ret,
        r is Err ==> r->Err_0 == DiagKind::TypeMismatch,
{
    if args.len() != params.len() {
        return Err(DiagKind::TypeMismatch);
    }
    let mut i: usize = 0;
    while i < args.len()
        invariant
            i <= args@.len() == params@.len(),
            forall|j: int| 0 <= j < i ==> spec_expect(args@[j], params@[j]),
        decreases args.len() - i,
    {
        match crate::ty::expect(&args[i], &params[i]) {
            Ok(()) => {},
            Err(_) => {
                return Err(DiagKind::TypeMismatch);
            },
        }
        i = i + 1;
    }
    Ok(ret.clone())
}

/// How many `true` entries a flag sequence holds.
pub open spec fn count_true(s: Seq<bool>) -> nat
    decreases s.len(),
{
    if s.len() == 0 {
        0
    } else {
        count_true(s.drop_last()) + if s.last() {
            1nat
        } else {
            0nat
        }
    }
}

/// The misplaced terminal calls of a statement list: every terminal call
/// that is not the last statement.
pub open spec fn misplaced_terminals(flags: Seq<bool>) -> nat {
    if flags.len() == 0 {
        0
    } else {
        count_true(flags.drop_last())
    }
}

/// The structural position check over one function's statement list:
/// `flags[i]` says whether statement `i` is a call of the terminal,
/// process-ending function. Every such call before the last statement is
/// reported as a structural error; one in the last position is fine. The
/// check is independent of types.
pub fn check_terminal_positions(flags: &Vec<bool>, span: Span, rep: &mut Reporter)
    ensures
        final(rep)@.len() == old(rep)@.len() + misplaced_terminals(flags@),
        forall|i: int| 0 <= i < old(rep)@.len() ==> final(rep)@[i] == old(rep)@[i],
        forall|i: int|
            old(rep)@.len() <= i < final(rep)@.len() ==> final(rep)@[i] == err_at(
                DiagKind::StructuralError,
                span,
            ),
{
    if flags.len() == 0 {
        return;
    }
    let stop = flags.len() - 1;
    let mut i: usize = 0;
    proof {
        assert(flags@.drop_last().subrange(0, 0) =~= Seq::<bool>::empty());
    }
    while i < stop
        invariant
            i <= stop,
            stop + 1 == flags@.len(),
            rep@.len() == old(rep)@.len() + count_true(
                flags@.drop_last().subrange(0, i as int),
            ),
            forall|j: int| 0 <= j < old(rep)@.len() ==> rep@[j] == old(rep)@[j],
            forall|j: int|
                old(rep)@.len() <= j < rep@.len() ==> rep@[j] == err_at(
                    DiagKind::StructuralError,
                    span,
                ),
        decreases stop - i,
    {
        proof {
            let pre = flags@.drop_last();
            assert(pre.subrange(0, (i + 1) as int).drop_last() =~= pre.subrange(
                0,
                i as int,
            ));
            assert(pre.subrange(0, (i + 1) as int).last() == pre[i as int]);
            assert(pre[i as int] == flags@[i as int]);
        }
        if flags[i] {
            rep.error(DiagKind::StructuralError, span);
        }
        i = i + 1;
    }
    proof {
        assert(flags@.drop_last().subrange(0, stop as int) =~= flags@.drop_last());
    }
}

} // verus!
