//! The constant evaluator.
//!
//! Compile-time reduction of constant expressions: literal folding,
//! arithmetic, bitwise, logical and comparison operators, grouping, casts,
//! and references to previously declared constants. Operations are evaluated
//! at the target integer width; a result outside the width reports
//! `Overflow` rather than silently wrapping, and a zero divisor reports
//! `DivisionByZero`. A constant's declared type is validated against the
//! expression's type *before* evaluation, so malformed constants fail fast.

use vstd::arithmetic::power2::{
    lemma2_to64, lemma2_to64_rest, lemma_pow2_pos, lemma_pow2_strictly_increases,
    lemma_pow2_unfold, pow2,
};
use vstd::prelude::*;

use crate::diag::DiagKind;
use crate::ty::{IntKind, Ty};

verus! {

/// The binary operators of the expression language.
#[derive(Clone, Copy, PartialEq, Eq, Structural, Debug)]
pub enum BinOp {
    Add,
    Sub,
    Mul,
    Div,
    Rem,
    BitAnd,
    BitOr,
    BitXor,
    Shl,
    Shr,
    Eq,
    Ne,
    Lt,
    Le,
    Gt,
    Ge,
    And,
    Or,
}

/// The unary operators that may appear in constant expressions.
#[derive(Clone, Copy, PartialEq, Eq, Structural, Debug)]
pub enum UnOp {
    Neg,
    Not,
}

/// A compile-time value: the tagged union the evaluator produces. Integer
/// values carry their width; the working representation is wide enough for
/// every width of the language.
#[derive(Clone, Copy, PartialEq, Eq, Structural, Debug)]
pub enum ConstValue {
    Bool(bool),
    Char(char),
    Int { kind: IntKind, val: i128 },
}

impl ConstValue {
    /// Integer values always sit within their declared width.
    pub open spec fn wf(self) -> bool {
        match self {
            ConstValue::Int { kind, val } => kind.in_range(val as int),
            _ => true,
        }
    }
}

impl IntKind {
    /// The width in bits, which bounds shift amounts.
    pub open spec fn bits(self) -> int {
        match self {
            IntKind::U8 => 8,
            IntKind::U32 => 32,
            IntKind::I32 => 32,
            IntKind::USize => 64,
            IntKind::I64 => 64,
            IntKind::ISize => 64,
        }
    }

    pub fn bit_width(self) -> (n: u32)
        ensures
            n as int == self.bits(),
    {
        match self {
            IntKind::U8 => 8,
            IntKind::U32 => 32,
            IntKind::I32 => 32,
            IntKind::USize => 64,
            IntKind::I64 => 64,
            IntKind::ISize => 64,
        }
    }
}

/// Magnitude of a mathematical integer.
pub open spec fn abs_int(v: int) -> int {
    if v >= 0 {
        v
    } else {
        -v
    }
}

/// Truncating division (round toward zero), the language's `/` on integers.
pub open spec fn tdiv(a: int, b: int) -> int {
    if (a < 0) == (b < 0) {
        abs_int(a) / abs_int(b)
    } else {
        -(abs_int(a) / abs_int(b))
    }
}

/// Truncating remainder: same sign as the dividend.
pub open spec fn trem(a: int, b: int) -> int {
    if a >= 0 {
        abs_int(a) % abs_int(b)
    } else {
        -(abs_int(a) % abs_int(b))
    }
}

/// The 64-bit two's-complement encoding of an in-width value, under which
/// the bitwise operators act.
pub open spec fn enc64(v: int) -> u64 {
    if v >= 0 {
        v as u64
    } else {
        (v + 0x1_0000_0000_0000_0000) as u64
    }
}

/// Decoding back from the 64-bit encoding.
pub open spec fn dec64(signed: bool, u: u64) -> int {
    if signed && u >= 0x8000_0000_0000_0000 {
        u - 0x1_0000_0000_0000_0000
    } else {
        u as int
    }
}

/// The arithmetic operators, evaluated at width `k` over the mathematical
/// values: a zero divisor is a division-by-zero error, a result outside the
/// width is an overflow error.
pub open spec fn spec_arith(op: BinOp, k: IntKind, a: int, b: int) -> Result<
    ConstValue,
    DiagKind,
> {
    if (op is Div || op is Rem) && b == 0 {
        Err(DiagKind::DivisionByZero)
    } else {
        let v = match op {
            BinOp::Add => a + b,
            BinOp::Sub => a - b,
            BinOp::Mul => a * b,
            BinOp::Div => tdiv(a, b),
            BinOp::Rem => trem(a, b),
            _ => 0,
        };
        if k.in_range(v) {
            Ok(ConstValue::Int { kind: k, val: v as i128 })
        } else {
            Err(DiagKind::Overflow)
        }
    }
}

/// The bitwise operators, acting on the two's-complement encoding.
pub open spec fn spec_bit(op: BinOp, k: IntKind, a: int, b: int) -> Result<
    ConstValue,
    DiagKind,
> {
    let u = match op {
        BinOp::BitAnd => enc64(a) & enc64(b),
        BinOp::BitOr => enc64(a) | enc64(b),
        BinOp::BitXor => enc64(a) ^ enc64(b),
        _ => 0,
    };
    let v = dec64(k.signed(), u);
    if k.in_range(v) {
        Ok(ConstValue::Int { kind: k, val: v as i128 })
    } else {
        Err(DiagKind::Overflow)
    }
}

/// The shifts: the amount must lie within the left operand's width; a left
/// shift multiplies by a power of two and must stay within the width, a
/// right shift is an arithmetic (flooring) shift.
pub open spec fn spec_shift(op: BinOp, k: IntKind, a: int, b: int) -> Result<
    ConstValue,
    DiagKind,
> {
    if b < 0 || b >= k.bits() {
        Err(DiagKind::Overflow)
    } else {
        let p = pow2(b as nat) as int;
        let v = if op is Shl {
            a * p
        } else {
            a / p
        };
        if k.in_range(v) {
            Ok(ConstValue::Int { kind: k, val: v as i128 })
        } else {
            Err(DiagKind::Overflow)
        }
    }
}

/// One binary operation on two evaluated constants. Operands of unlike
/// shape — or unlike integer widths, except for shifts, whose operand
/// widths are independent — are a type mismatch.
pub open spec fn spec_bin(op: BinOp, l: ConstValue, r: ConstValue) -> Result<
    ConstValue,
    DiagKind,
> {
    match (l, r) {
        (ConstValue::Int { kind: k1, val: a }, ConstValue::Int { kind: k2, val: b }) => {
            if op is Shl || op is Shr {
                spec_shift(op, k1, a as int, b as int)
            } else if k1 != k2 {
                Err(DiagKind::TypeMismatch)
            } else {
                match op {
                    BinOp::Add | BinOp::Sub | BinOp::Mul | BinOp::Div | BinOp::Rem =>
                        spec_arith(op, k1, a as int, b as int),
                    BinOp::BitAnd | BinOp::BitOr | BinOp::BitXor => spec_bit(
                        op,
                        k1,
                        a as int,
                        b as int,
                    ),
                    BinOp::Eq => Ok(ConstValue::Bool(a == b)),
                    BinOp::Ne => Ok(ConstValue::Bool(a != b)),
                    BinOp::Lt => Ok(ConstValue::Bool(a < b)),
                    BinOp::Le => Ok(ConstValue::Bool(a <= b)),
                    BinOp::Gt => Ok(ConstValue::Bool(a > b)),
                    BinOp::Ge => Ok(ConstValue::Bool(a >= b)),
                    _ => Err(DiagKind::TypeMismatch),
                }
            }
        },
        (ConstValue::Bool(x), ConstValue::Bool(y)) => match op {
            BinOp::And => Ok(ConstValue::Bool(x && y)),
            BinOp::Or => Ok(ConstValue::Bool(x || y)),
            BinOp::BitAnd => Ok(ConstValue::Bool(x && y)),
            BinOp::BitOr => Ok(ConstValue::Bool(x || y)),
            BinOp::BitXor => Ok(ConstValue::Bool(x != y)),
            BinOp::Eq => Ok(ConstValue::Bool(x == y)),
            BinOp::Ne => Ok(ConstValue::Bool(x != y)),
            _ => Err(DiagKind::TypeMismatch),
        },
        (ConstValue::Char(x), ConstValue::Char(y)) => match op {
            BinOp::Eq => Ok(ConstValue::Bool(x == y)),
            BinOp::Ne => Ok(ConstValue::Bool(x != y)),
            _ => Err(DiagKind::TypeMismatch),
        },
        _ => Err(DiagKind::TypeMismatch),
    }
}

/// Every in-width value is representable in the working integer type, with
/// room to spare.
pub proof fn lemma_range_repr(k: IntKind, v: int)
    requires
        k.in_range(v),
    ensures
        -0x8000_0000_0000_0000 <= v <= 0xffff_ffff_ffff_ffff,
{
}

/// Magnitude, in the unsigned working type.
fn abs_mag(a: i128) -> (m: u128)
    requires
        -0x8000_0000_0000_0000 <= a,
    ensures
        m as int == abs_int(a as int),
{
    if a >= 0 {
        a as u128
    } else {
        (-a) as u128
    }
}

/// Executable arithmetic at width `k`, mirroring [`spec_arith`].
fn arith_exec(op: BinOp, k: IntKind, a: i128, b: i128) -> (r: Result<
    ConstValue,
    DiagKind,
>)
    requires
        op is Add || op is Sub || op is Mul || op is Div || op is Rem,
        k.in_range(a as int),
        k.in_range(b as int),
    ensures
        r == spec_arith(op, k, a as int, b as int),
        r matches Ok(v) ==> v.wf(),
{
    proof {
        lemma_range_repr(k, a as int);
        lemma_range_repr(k, b as int);
    }
    let ghost ai = a as int;
    let ghost bi = b as int;
    match op {
        BinOp::Add => {
            let s = a + b;
            if k.fits(s) {
                Ok(ConstValue::Int { kind: k, val: s })
            } else {
                Err(DiagKind::Overflow)
            }
        },
        BinOp::Sub => {
            let s = a - b;
            if k.fits(s) {
                Ok(ConstValue::Int { kind: k, val: s })
            } else {
                Err(DiagKind::Overflow)
            }
        },
        BinOp::Mul => {
            let am = abs_mag(a);
            let bm = abs_mag(b);
            assert(am * bm <= 0xffff_ffff_ffff_ffffu128 * 0xffff_ffff_ffff_ffffu128)
                by (nonlinear_arith)
                requires
                    am <= 0xffff_ffff_ffff_ffffu128,
                    bm <= 0xffff_ffff_ffff_ffffu128,
            ;
            let pm = am * bm;
            let neg = (a < 0) != (b < 0);
            proof {
                let ami = am as int;
                let bmi = bm as int;
                assert(pm as int == ami * bmi);
                if a >= 0 && b >= 0 {
                    assert(pm as int == ai * bi) by (nonlinear_arith)
                        requires
                            pm as int == ami * bmi,
                            ami == ai,
                            bmi == bi,
                    ;
                } else if a < 0 && b < 0 {
                    assert(pm as int == ai * bi) by (nonlinear_arith)
                        requires
                            pm as int == ami * bmi,
                            ami == -ai,
                            bmi == -bi,
                    ;
                } else if a < 0 {
                    assert(pm as int == -(ai * bi)) by (nonlinear_arith)
                        requires
                            pm as int == ami * bmi,
                            ami == -ai,
                            bmi == bi,
                    ;
                } else {
                    assert(pm as int == -(ai * bi)) by (nonlinear_arith)
                        requires
                            pm as int == ami * bmi,
                            ami == ai,
                            bmi == -bi,
                    ;
                }
            }
            if pm > 0xffff_ffff_ffff_ffffu128 {
                proof {
                    lemma_range_repr(k, 0);
                }
                assert(!k.in_range(ai * bi));
                Err(DiagKind::Overflow)
            } else {
                let v = if neg {
                    -(pm as i128)
                } else {
                    pm as i128
                };
                assert(v as int == ai * bi);
                if k.fits(v) {
                    Ok(ConstValue::Int { kind: k, val: v })
                } else {
                    Err(DiagKind::Overflow)
                }
            }
        },
        BinOp::Div => {
            if b == 0 {
                return Err(DiagKind::DivisionByZero);
            }
            let am = abs_mag(a);
            let bm = abs_mag(b);
            proof {
                vstd::arithmetic::div_mod::lemma_div_nonincreasing(am as int, bm as int);
                vstd::arithmetic::div_mod::lemma_div_pos_is_pos(am as int, bm as int);
            }
            let qm = am / bm;
            let neg = (a < 0) != (b < 0);
            let v = if neg {
                -(qm as i128)
            } else {
                qm as i128
            };
            assert(v as int == tdiv(ai, bi));
            if k.fits(v) {
                Ok(ConstValue::Int { kind: k, val: v })
            } else {
                Err(DiagKind::Overflow)
            }
        },
        BinOp::Rem => {
            if b == 0 {
                return Err(DiagKind::DivisionByZero);
            }
            let am = abs_mag(a);
            let bm = abs_mag(b);
            proof {
                vstd::arithmetic::div_mod::lemma_mod_division_less_than_divisor(
                    am as int,
                    bm as int,
                );
            }
            let rm = am % bm;
            let v = if a < 0 {
                -(rm as i128)
            } else {
                rm as i128
            };
            assert(v as int == trem(ai, bi));
            if k.fits(v) {
                Ok(ConstValue::Int { kind: k, val: v })
            } else {
                Err(DiagKind::Overflow)
            }
        },
        _ => {
            proof {
                assert(false);
            }
            Err(DiagKind::TypeMismatch)
        },
    }
}

/// Executable two's-complement encoding.
fn enc64_exec(a: i128) -> (u: u64)
    requires
        -0x8000_0000_0000_0000 <= a <= 0xffff_ffff_ffff_ffff,
    ensures
        u == enc64(a as int),
{
    if a >= 0 {
        a as u64
    } else {
        (a + 0x1_0000_0000_0000_0000i128) as u64
    }
}

/// Executable decoding.
fn dec64_exec(signed: bool, u: u64) -> (v: i128)
    ensures
        v as int == dec64(signed, u),
{
    if signed && u >= 0x8000_0000_0000_0000u64 {
        (u as i128) - 0x1_0000_0000_0000_0000i128
    } else {
        u as i128
    }
}

/// Executable bitwise operation at width `k`, mirroring [`spec_bit`].
fn bit_exec(op: BinOp, k: IntKind, a: i128, b: i128) -> (r: Result<ConstValue, DiagKind>)
    requires
        op is BitAnd || op is BitOr || op is BitXor,
        k.in_range(a as int),
        k.in_range(b as int),
    ensures
        r == spec_bit(op, k, a as int, b as int),
        r matches Ok(v) ==> v.wf(),
{
    proof {
        lemma_range_repr(k, a as int);
        lemma_range_repr(k, b as int);
    }
    let ea = enc64_exec(a);
    let eb = enc64_exec(b);
    let u = match op {
        BinOp::BitAnd => ea & eb,
        BinOp::BitOr => ea | eb,
        BinOp::BitXor => ea ^ eb,
        _ => {
            proof {
                assert(false);
            }
            0
        },
    };
    let signed = matches!(k, IntKind::I32 | IntKind::I64 | IntKind::ISize);
    let v = dec64_exec(signed, u);
    if k.fits(v) {
        Ok(ConstValue::Int { kind: k, val: v })
    } else {
        Err(DiagKind::Overflow)
    }
}

/// The power of two a shift amount stands for.
fn pow2_exec(n: u32) -> (p: u128)
    requires
        n < 64,
    ensures
        p == pow2(n as nat),
        p <= 0x8000_0000_0000_0000u128,
{
    proof {
        lemma2_to64();
    }
    let mut acc: u128 = 1;
    let mut i: u32 = 0;
    while i < n
        invariant
            i <= n < 64,
            acc == pow2(i as nat),
        decreases n - i,
    {
        proof {
            lemma_pow2_unfold((i + 1) as nat);
            lemma2_to64();
            lemma_pow2_strictly_increases((i + 1) as nat, 64);
        }
        acc = acc * 2;
        i = i + 1;
    }
    proof {
        lemma2_to64_rest();
        if (n as nat) < 63 {
            lemma_pow2_strictly_increases(n as nat, 63);
        }
    }
    acc
}

/// Executable shift at width `k`, mirroring [`spec_shift`].
fn shift_exec(op: BinOp, k: IntKind, a: i128, b: i128) -> (r: Result<
    ConstValue,
    DiagKind,
>)
    requires
        op is Shl || op is Shr,
        k.in_range(a as int),
    ensures
        r == spec_shift(op, k, a as int, b as int),
        r matches Ok(v) ==> v.wf(),
{
    proof {
        lemma_range_repr(k, a as int);
    }
    let bits = k.bit_width();
    if b < 0 || b >= bits as i128 {
        return Err(DiagKind::Overflow);
    }
    let pw = pow2_exec(b as u32);
    proof {
        lemma_pow2_pos(b as nat);
    }
    let ghost ai = a as int;
    let ghost pi = pow2(b as nat) as int;
    let am = abs_mag(a);
    if matches!(op, BinOp::Shl) {
        assert(am * pw <= 0xffff_ffff_ffff_ffffu128 * 0x8000_0000_0000_0000u128)
            by (nonlinear_arith)
            requires
                am <= 0xffff_ffff_ffff_ffffu128,
                pw <= 0x8000_0000_0000_0000u128,
        ;
        let pm = am * pw;
        proof {
            let ami = am as int;
            assert(pm as int == ami * pi);
            if a >= 0 {
                assert(pm as int == ai * pi) by (nonlinear_arith)
                    requires
                        pm as int == ami * pi,
                        ami == ai,
                ;
            } else {
                assert(pm as int == -(ai * pi)) by (nonlinear_arith)
                    requires
                        pm as int == ami * pi,
                        ami == -ai,
                ;
            }
        }
        if pm > 0xffff_ffff_ffff_ffffu128 {
            assert(!k.in_range(ai * pi));
            Err(DiagKind::Overflow)
        } else {
            let v = if a < 0 {
                -(pm as i128)
            } else {
                pm as i128
            };
            assert(v as int == ai * pi);
            if k.fits(v) {
                Ok(ConstValue::Int { kind: k, val: v })
            } else {
                Err(DiagKind::Overflow)
            }
        }
    } else {
        let v: i128;
        if a >= 0 {
            proof {
                vstd::arithmetic::div_mod::lemma_div_nonincreasing(am as int, pw as int);
                vstd::arithmetic::div_mod::lemma_div_pos_is_pos(am as int, pw as int);
            }
            let qm = am / pw;
            v = qm as i128;
            assert(v as int == ai / pi);
        } else {
            // Flooring shift of a negative value: -((|a| + p - 1) / p).
            let num = am + (pw - 1);
            proof {
                vstd::arithmetic::div_mod::lemma_div_nonincreasing(num as int, pw as int);
                vstd::arithmetic::div_mod::lemma_div_pos_is_pos(num as int, pw as int);
            }
            let qm = num / pw;
            proof {
                let ni = num as int;
                let qi = qm as int;
                let ri = ni % (pw as int);
                vstd::arithmetic::div_mod::lemma_fundamental_div_mod(ni, pw as int);
                vstd::arithmetic::div_mod::lemma_mod_division_less_than_divisor(
                    ni,
                    pw as int,
                );
                assert(ni == (pw as int) * qi + ri);
                assert(ai == -(am as int));
                assert((pw as int) * (-qi) == -((pw as int) * qi)) by (nonlinear_arith);
                assert(ai == (-qi) * (pw as int) + ((pw as int) - 1 - ri))
                    by (nonlinear_arith)
                    requires
                        ai == -(am as int),
                        (am as int) + (pw as int) - 1 == ni,
                        ni == (pw as int) * qi + ri,
                ;
                vstd::arithmetic::div_mod::lemma_fundamental_div_mod_converse(
                    ai,
                    pw as int,
                    -qi,
                    (pw as int) - 1 - ri,
                );
                assert(ai / pi == -qi);
            }
            v = -(qm as i128);
            assert(v as int == ai / pi);
        }
        if k.fits(v) {
            Ok(ConstValue::Int { kind: k, val: v })
        } else {
            Err(DiagKind::Overflow)
        }
    }
}

/// One executable binary operation on evaluated constants, mirroring
/// [`spec_bin`].
pub fn eval_bin(op: BinOp, l: &ConstValue, r: &ConstValue) -> (res: Result<
    ConstValue,
    DiagKind,
>)
    requires
        l.wf(),
        r.wf(),
    ensures
        res == spec_bin(op, *l, *r),
        res matches Ok(v) ==> v.wf(),
{
    match (l, r) {
        (
            ConstValue::Int { kind: k1, val: a },
            ConstValue::Int { kind: k2, val: b },
        ) => {
            if matches!(op, BinOp::Shl | BinOp::Shr) {
                shift_exec(op, *k1, *a, *b)
            } else if k1 != k2 {
                Err(DiagKind::TypeMismatch)
            } else {
                match op {
                    BinOp::Add | BinOp::Sub | BinOp::Mul | BinOp::Div | BinOp::Rem =>
                        arith_exec(op, *k1, *a, *b),
                    BinOp::BitAnd | BinOp::BitOr | BinOp::BitXor => bit_exec(
                        op,
                        *k1,
                        *a,
                        *b,
                    ),
                    BinOp::Eq => Ok(ConstValue::Bool(a == b)),
                    BinOp::Ne => Ok(ConstValue::Bool(a != b)),
                    BinOp::Lt => Ok(ConstValue::Bool(*a < *b)),
                    BinOp::Le => Ok(ConstValue::Bool(*a <= *b)),
                    BinOp::Gt => Ok(ConstValue::Bool(*a > *b)),
                    BinOp::Ge => Ok(ConstValue::Bool(*a >= *b)),
                    _ => Err(DiagKind::TypeMismatch),
                }
            }
        },
        (ConstValue::Bool(x), ConstValue::Bool(y)) => match op {
            BinOp::And => Ok(ConstValue::Bool(*x && *y)),
            BinOp::Or => Ok(ConstValue::Bool(*x || *y)),
            BinOp::BitAnd => Ok(ConstValue::Bool(*x && *y)),
            BinOp::BitOr => Ok(ConstValue::Bool(*x || *y)),
            BinOp::BitXor => Ok(ConstValue::Bool(x != y)),
            BinOp::Eq => Ok(ConstValue::Bool(x == y)),
            BinOp::Ne => Ok(ConstValue::Bool(x != y)),
            _ => Err(DiagKind::TypeMismatch),
        },
        (ConstValue::Char(x), ConstValue::Char(y)) => match op {
            BinOp::Eq => Ok(ConstValue::Bool(x == y)),
            BinOp::Ne => Ok(ConstValue::Bool(x != y)),
            _ => Err(DiagKind::TypeMismatch),
        },
        _ => Err(DiagKind::TypeMismatch),
    }
}

/// A constant expression, as the parser hands it over: literals (integer
/// literals may carry a width suffix), references to previously declared
/// constants, the operators, casts, and explicit grouping.
#[derive(Debug)]
pub enum CExpr {
    BoolLit(bool),
    CharLit(char),
    IntLit { val: i128, kind: Option<IntKind> },
    ConstRef(u32),
    Un { op: UnOp, e: Box<CExpr> },
    Bin { op: BinOp, l: Box<CExpr>, r: Box<CExpr> },
    Cast { e: Box<CExpr>, to: IntKind },
    Group(Box<CExpr>),
}

/// The value of a previously declared constant, newest first.
pub open spec fn lookup_const(env: Seq<(u32, ConstValue)>, name: u32) -> Option<
    ConstValue,
>
    decreases env.len(),
{
    if env.len() == 0 {
        None
    } else if env.last().0 == name {
        Some(env.last().1)
    } else {
        lookup_const(env.drop_last(), name)
    }
}

/// The constants already evaluated in the current scope, in declaration
/// order. A reference to a name not yet here is not a constant expression:
/// forward references are rejected by construction.
pub struct ConstEnv {
    entries: Vec<(u32, ConstValue)>,
}

impl View for ConstEnv {
    type V = Seq<(u32, ConstValue)>;

    closed spec fn view(&self) -> Seq<(u32, ConstValue)> {
        self.entries@
    }
}

/// Every recorded value sits within its width.
pub open spec fn env_wf(env: Seq<(u32, ConstValue)>) -> bool {
    forall|i: int| 0 <= i < env.len() ==> (#[trigger] env[i]).1.wf()
}

/// A value looked up in a well-formed environment is well-formed.
pub proof fn lemma_lookup_wf(env: Seq<(u32, ConstValue)>, name: u32)
    requires
        env_wf(env),
    ensures
        lookup_const(env, name) matches Some(v) ==> v.wf(),
    decreases env.len(),
{
    if env.len() > 0 {
        assert(env.last() == env[env.len() - 1]);
        assert(env_wf(env.drop_last())) by {
            assert(forall|i: int|
                0 <= i < env.drop_last().len() ==> env.drop_last()[i] == env[i]);
        }
        lemma_lookup_wf(env.drop_last(), name);
    }
}

impl ConstEnv {
    pub open spec fn wf(&self) -> bool {
        env_wf(self@)
    }

    pub fn new() -> (r: ConstEnv)
        ensures
            r@ == Seq::<(u32, ConstValue)>::empty(),
            r.wf(),
    {
        ConstEnv { entries: Vec::new() }
    }

    /// Records one evaluated constant; the driver calls this in declaration
    /// order, so later declarations may refer to earlier ones.
    pub fn define(&mut self, name: u32, v: ConstValue)
        requires
            old(self).wf(),
            v.wf(),
        ensures
            final(self)@ == old(self)@.push((name, v)),
            final(self).wf(),
    {
        self.entries.push((name, v));
    }

    /// The recorded value of `name`, newest first.
    pub fn get(&self, name: u32) -> (r: Option<ConstValue>)
        ensures
            r == lookup_const(self@, name),
    {
        let mut i: usize = self.entries.len();
        proof {
            assert(self@.subrange(0, self@.len() as int) =~= self@);
        }
        while i > 0
            invariant
                i <= self@.len(),
                lookup_const(self@, name) == lookup_const(
                    self@.subrange(0, i as int),
                    name,
                ),
            decreases i,
        {
            i = i - 1;
            proof {
                assert(self@.subrange(0, (i + 1) as int).drop_last() =~= self@.subrange(
                    0,
                    i as int,
                ));
                assert(self@.subrange(0, (i + 1) as int).last() == self@[i as int]);
            }
            if self.entries[i].0 == name {
                return Some(self.entries[i].1);
            }
        }
        proof {
            assert(self@.subrange(0, 0) =~= Seq::<(u32, ConstValue)>::empty());
        }
        None
    }
}

/// The type a constant expression takes before evaluation. An unsuffixed
/// integer literal is of any integer width until its context settles it.
#[derive(Clone, Copy, PartialEq, Eq, Structural, Debug)]
pub enum CTy {
    CBool,
    CChar,
    CInt(IntKind),
    CIntAny,
}

pub open spec fn is_intish(c: CTy) -> bool {
    c is CInt || c is CIntAny
}

/// Joining two constant types: equal types join to themselves, an
/// undetermined integer adopts the other side's width.
pub open spec fn join_cty(a: CTy, b: CTy) -> Option<CTy> {
    if a == b {
        Some(a)
    } else if a is CIntAny && b is CInt {
        Some(b)
    } else if a is CInt && b is CIntAny {
        Some(a)
    } else {
        None
    }
}

pub open spec fn cty_of_value(v: ConstValue) -> CTy {
    match v {
        ConstValue::Bool(_) => CTy::CBool,
        ConstValue::Char(_) => CTy::CChar,
        ConstValue::Int { kind, .. } => CTy::CInt(kind),
    }
}

/// The type of one binary operation from its operand types.
pub open spec fn spec_ctype_bin(op: BinOp, cl: CTy, cr: CTy) -> Result<CTy, DiagKind> {
    match op {
        BinOp::Add | BinOp::Sub | BinOp::Mul | BinOp::Div | BinOp::Rem => if is_intish(
            cl,
        ) && is_intish(cr) {
            match join_cty(cl, cr) {
                Some(c) => Ok(c),
                None => Err(DiagKind::TypeMismatch),
            }
        } else {
            Err(DiagKind::TypeMismatch)
        },
        BinOp::BitAnd | BinOp::BitOr | BinOp::BitXor => if cl is CBool && cr is CBool {
            Ok(CTy::CBool)
        } else if is_intish(cl) && is_intish(cr) {
            match join_cty(cl, cr) {
                Some(c) => Ok(c),
                None => Err(DiagKind::TypeMismatch),
            }
        } else {
            Err(DiagKind::TypeMismatch)
        },
        BinOp::Shl | BinOp::Shr => if is_intish(cl) && is_intish(cr) {
            Ok(cl)
        } else {
            Err(DiagKind::TypeMismatch)
        },
        BinOp::Eq | BinOp::Ne => match join_cty(cl, cr) {
            Some(_) => Ok(CTy::CBool),
            None => Err(DiagKind::TypeMismatch),
        },
        BinOp::Lt | BinOp::Le | BinOp::Gt | BinOp::Ge => if is_intish(cl) && is_intish(
            cr,
        ) && join_cty(cl, cr) is Some {
            Ok(CTy::CBool)
        } else {
            Err(DiagKind::TypeMismatch)
        },
        BinOp::And | BinOp::Or => if cl is CBool && cr is CBool {
            Ok(CTy::CBool)
        } else {
            Err(DiagKind::TypeMismatch)
        },
    }
}

/// The type of a constant expression, before any evaluation.
pub open spec fn spec_ctype(e: CExpr, env: Seq<(u32, ConstValue)>) -> Result<
    CTy,
    DiagKind,
>
    decreases e,
{
    match e {
        CExpr::BoolLit(_) => Ok(CTy::CBool),
        CExpr::CharLit(_) => Ok(CTy::CChar),
        CExpr::IntLit { kind, .. } => Ok(
            match kind {
                Some(k) => CTy::CInt(k),
                None => CTy::CIntAny,
            },
        ),
        CExpr::ConstRef(n) => match lookup_const(env, n) {
            Some(v) => Ok(cty_of_value(v)),
            None => Err(DiagKind::NonConstantExpression),
        },
        CExpr::Un { op, e } => match spec_ctype(*e, env) {
            Ok(c) => match op {
                UnOp::Neg => if is_intish(c) {
                    Ok(c)
                } else {
                    Err(DiagKind::TypeMismatch)
                },
                UnOp::Not => if c is CBool {
                    Ok(CTy::CBool)
                } else {
                    Err(DiagKind::TypeMismatch)
                },
            },
            Err(er) => Err(er),
        },
        CExpr::Bin { op, l, r } => match spec_ctype(*l, env) {
            Ok(cl) => match spec_ctype(*r, env) {
                Ok(cr) => spec_ctype_bin(op, cl, cr),
                Err(er) => Err(er),
            },
            Err(er) => Err(er),
        },
        CExpr::Cast { e, to } => match spec_ctype(*e, env) {
            Ok(_) => Ok(CTy::CInt(to)),
            Err(er) => Err(er),
        },
        CExpr::Group(e) => spec_ctype(*e, env),
    }
}

/// One unary operation on an evaluated constant. Negation is subtraction
/// from zero, at the operand's width.
pub open spec fn spec_un(op: UnOp, v: ConstValue) -> Result<ConstValue, DiagKind> {
    match op {
        UnOp::Neg => match v {
            ConstValue::Int { kind, val } => spec_arith(BinOp::Sub, kind, 0, val as int),
            _ => Err(DiagKind::TypeMismatch),
        },
        UnOp::Not => match v {
            ConstValue::Bool(b) => Ok(ConstValue::Bool(!b)),
            _ => Err(DiagKind::TypeMismatch),
        },
    }
}

/// An explicit `as` cast of an evaluated constant: booleans become 0 or 1,
/// characters their code point, integers keep their value — which must fit
/// the target width.
pub open spec fn spec_cast(v: ConstValue, to: IntKind) -> Result<ConstValue, DiagKind> {
    match v {
        ConstValue::Bool(b) => Ok(
            ConstValue::Int {
                kind: to,
                val: if b {
                    1
                } else {
                    0
                },
            },
        ),
        ConstValue::Char(c) => if to.in_range(c as int) {
            Ok(ConstValue::Int { kind: to, val: c as i128 })
        } else {
            Err(DiagKind::Overflow)
        },
        ConstValue::Int { val, .. } => if to.in_range(val as int) {
            Ok(ConstValue::Int { kind: to, val })
        } else {
            Err(DiagKind::Overflow)
        },
    }
}

/// Evaluation of a constant expression. `ik` is the integer width the
/// context demands; unsuffixed integer literals are evaluated at it, and
/// every operation is checked at its operands' width.
pub open spec fn spec_eval(e: CExpr, env: Seq<(u32, ConstValue)>, ik: IntKind) -> Result<
    ConstValue,
    DiagKind,
>
    decreases e,
{
    match e {
        CExpr::BoolLit(b) => Ok(ConstValue::Bool(b)),
        CExpr::CharLit(c) => Ok(ConstValue::Char(c)),
        CExpr::IntLit { val, kind } => {
            let k = match kind {
                Some(k0) => k0,
                None => ik,
            };
            if k.in_range(val as int) {
                Ok(ConstValue::Int { kind: k, val })
            } else {
                Err(DiagKind::Overflow)
            }
        },
        CExpr::ConstRef(n) => match lookup_const(env, n) {
            Some(v) => Ok(v),
            None => Err(DiagKind::NonConstantExpression),
        },
        CExpr::Un { op, e } => match spec_eval(*e, env, ik) {
            Ok(v) => spec_un(op, v),
            Err(er) => Err(er),
        },
        CExpr::Bin { op, l, r } => match spec_eval(*l, env, ik) {
            Ok(a) => match spec_eval(*r, env, ik) {
                Ok(b) => spec_bin(op, a, b),
                Err(er) => Err(er),
            },
            Err(er) => Err(er),
        },
        CExpr::Cast { e, to } => match spec_eval(*e, env, ik) {
            Ok(v) => spec_cast(v, to),
            Err(er) => Err(er),
        },
        CExpr::Group(e) => spec_eval(*e, env, ik),
    }
}

/// Executable type computation, mirroring [`spec_ctype`].
pub fn eval_ctype(e: &CExpr, env: &ConstEnv) -> (r: Result<CTy, DiagKind>)
    ensures
        r == spec_ctype(*e, env@),
    decreases *e,
{
    match e {
        CExpr::BoolLit(_) => Ok(CTy::CBool),
        CExpr::CharLit(_) => Ok(CTy::CChar),
        CExpr::IntLit { kind, .. } => Ok(
            match kind {
                Some(k) => CTy::CInt(*k),
                None => CTy::CIntAny,
            },
        ),
        CExpr::ConstRef(n) => match env.get(*n) {
            Some(v) => Ok(
                match v {
                    ConstValue::Bool(_) => CTy::CBool,
                    ConstValue::Char(_) => CTy::CChar,
                    ConstValue::Int { kind, .. } => CTy::CInt(kind),
                },
            ),
            None => Err(DiagKind::NonConstantExpression),
        },
        CExpr::Un { op, e: inner } => match eval_ctype(&**inner, env) {
            Ok(c) => match op {
                UnOp::Neg => if matches!(c, CTy::CInt(_) | CTy::CIntAny) {
                    Ok(c)
                } else {
                    Err(DiagKind::TypeMismatch)
                },
                UnOp::Not => if matches!(c, CTy::CBool) {
                    Ok(CTy::CBool)
                } else {
                    Err(DiagKind::TypeMismatch)
                },
            },
            Err(er) => Err(er),
        },
        CExpr::Bin { op, l, r } => match eval_ctype(&**l, env) {
            Ok(cl) => match eval_ctype(&**r, env) {
                Ok(cr) => ctype_bin_exec(*op, cl, cr),
                Err(er) => Err(er),
            },
            Err(er) => Err(er),
        },
        CExpr::Cast { e: inner, to } => match eval_ctype(&**inner, env) {
            Ok(_) => Ok(CTy::CInt(*to)),
            Err(er) => Err(er),
        },
        CExpr::Group(inner) => eval_ctype(&**inner, env),
    }
}

/// Executable operator typing, mirroring [`spec_ctype_bin`].
fn ctype_bin_exec(op: BinOp, cl: CTy, cr: CTy) -> (r: Result<CTy, DiagKind>)
    ensures
        r == spec_ctype_bin(op, cl, cr),
{
    let intish_l = matches!(cl, CTy::CInt(_) | CTy::CIntAny);
    let intish_r = matches!(cr, CTy::CInt(_) | CTy::CIntAny);
    let joined: Option<CTy> = if cl == cr {
        Some(cl)
    } else if matches!(cl, CTy::CIntAny) && matches!(cr, CTy::CInt(_)) {
        Some(cr)
    } else if matches!(cl, CTy::CInt(_)) && matches!(cr, CTy::CIntAny) {
        Some(cl)
    } else {
        None
    };
    match op {
        BinOp::Add | BinOp::Sub | BinOp::Mul | BinOp::Div | BinOp::Rem => {
            if intish_l && intish_r {
                match joined {
                    Some(c) => Ok(c),
                    None => Err(DiagKind::TypeMismatch),
                }
            } else {
                Err(DiagKind::TypeMismatch)
            }
        },
        BinOp::BitAnd | BinOp::BitOr | BinOp::BitXor => {
            if matches!(cl, CTy::CBool) && matches!(cr, CTy::CBool) {
                Ok(CTy::CBool)
            } else if intish_l && intish_r {
                match joined {
                    Some(c) => Ok(c),
                    None => Err(DiagKind::TypeMismatch),
                }
            } else {
                Err(DiagKind::TypeMismatch)
            }
        },
        BinOp::Shl | BinOp::Shr => {
            if intish_l && intish_r {
                Ok(cl)
            } else {
                Err(DiagKind::TypeMismatch)
            }
        },
        BinOp::Eq | BinOp::Ne => {
            match joined {
                Some(_) => Ok(CTy::CBool),
                None => Err(DiagKind::TypeMismatch),
            }
        },
        BinOp::Lt | BinOp::Le | BinOp::Gt | BinOp::Ge => {
            if intish_l && intish_r && joined.is_some() {
                Ok(CTy::CBool)
            } else {
                Err(DiagKind::TypeMismatch)
            }
        },
        BinOp::And | BinOp::Or => {
            if matches!(cl, CTy::CBool) && matches!(cr, CTy::CBool) {
                Ok(CTy::CBool)
            } else {
                Err(DiagKind::TypeMismatch)
            }
        },
    }
}

/// Executable evaluation, mirroring [`spec_eval`].
pub fn eval_const(e: &CExpr, env: &ConstEnv, ik: IntKind) -> (r: Result<
    ConstValue,
    DiagKind,
>)
    requires
        env.wf(),
    ensures
        r == spec_eval(*e, env@, ik),
        r matches Ok(v) ==> v.wf(),
    decreases *e,
{
    match e {
        CExpr::BoolLit(b) => Ok(ConstValue::Bool(*b)),
        CExpr::CharLit(c) => Ok(ConstValue::Char(*c)),
        CExpr::IntLit { val, kind } => {
            let k = match kind {
                Some(k0) => *k0,
                None => ik,
            };
            if k.fits(*val) {
                Ok(ConstValue::Int { kind: k, val: *val })
            } else {
                Err(DiagKind::Overflow)
            }
        },
        CExpr::ConstRef(n) => {
            proof {
                lemma_lookup_wf(env@, *n);
            }
            match env.get(*n) {
                Some(v) => Ok(v),
                None => Err(DiagKind::NonConstantExpression),
            }
        },
        CExpr::Un { op, e: inner } => match eval_const(&**inner, env, ik) {
            Ok(v) => match op {
                UnOp::Neg => match v {
                    ConstValue::Int { kind, val } => {
                        proof {
                            lemma_range_repr(kind, val as int);
                        }
                        arith_exec(BinOp::Sub, kind, 0, val)
                    },
                    _ => Err(DiagKind::TypeMismatch),
                },
                UnOp::Not => match v {
                    ConstValue::Bool(b) => Ok(ConstValue::Bool(!b)),
                    _ => Err(DiagKind::TypeMismatch),
                },
            },
            Err(er) => Err(er),
        },
        CExpr::Bin { op, l, r } => match eval_const(&**l, env, ik) {
            Ok(a) => match eval_const(&**r, env, ik) {
                Ok(b) => eval_bin(*op, &a, &b),
                Err(er) => Err(er),
            },
            Err(er) => Err(er),
        },
        CExpr::Cast { e: inner, to } => match eval_const(&**inner, env, ik) {
            Ok(v) => match v {
                ConstValue::Bool(b) => Ok(
                    ConstValue::Int {
                        kind: *to,
                        val: if b {
                            1
                        } else {
                            0
                        },
                    },
                ),
                ConstValue::Char(c) => {
                    let u = c as u32;
                    if to.fits(u as i128) {
                        Ok(ConstValue::Int { kind: *to, val: u as i128 })
                    } else {
                        Err(DiagKind::Overflow)
                    }
                },
                ConstValue::Int { val, .. } => {
                    if to.fits(val) {
                        Ok(ConstValue::Int { kind: *to, val })
                    } else {
                        Err(DiagKind::Overflow)
                    }
                },
            },
            Err(er) => Err(er),
        },
        CExpr::Group(inner) => eval_const(&**inner, env, ik),
    }
}

/// Executable negation at the operand's width: subtraction from zero.
pub fn neg_exec(k: IntKind, val: i128) -> (r: Result<ConstValue, DiagKind>)
    requires
        k.in_range(val as int),
    ensures
        r == spec_un(UnOp::Neg, ConstValue::Int { kind: k, val }),
        r matches Ok(v) ==> v.wf(),
{
    proof {
        lemma_range_repr(k, val as int);
    }
    arith_exec(BinOp::Sub, k, 0, val)
}

/// Executable cast of an evaluated constant, mirroring [`spec_cast`].
pub fn cast_exec(v: &ConstValue, to: IntKind) -> (r: Result<ConstValue, DiagKind>)
    ensures
        r == spec_cast(*v, to),
        r matches Ok(v2) ==> v2.wf(),
{
    match v {
        ConstValue::Bool(b) => Ok(
            ConstValue::Int {
                kind: to,
                val: if *b {
                    1
                } else {
                    0
                },
            },
        ),
        ConstValue::Char(c) => {
            let u = *c as u32;
            if to.fits(u as i128) {
                Ok(ConstValue::Int { kind: to, val: u as i128 })
            } else {
                Err(DiagKind::Overflow)
            }
        },
        ConstValue::Int { val, .. } => {
            if to.fits(*val) {
                Ok(ConstValue::Int { kind: to, val: *val })
            } else {
                Err(DiagKind::Overflow)
            }
        },
    }
}

/// The width a declared type gives its initializer's untyped literals.
pub open spec fn width_of(declared: Ty) -> IntKind {
    match declared {
        Ty::Int(k) => k,
        _ => IntKind::I32,
    }
}

/// Whether a constant expression's computed type satisfies its declared
/// type. Only scalar constants exist.
pub open spec fn cty_matches(c: CTy, t: Ty) -> bool {
    match t {
        Ty::Bool => c is CBool,
        Ty::Char => c is CChar,
        Ty::Int(k) => c == CTy::CInt(k) || c is CIntAny,
        _ => false,
    }
}

/// The whole treatment of one `const` item: the declared type is validated
/// against the expression's type *before* evaluation — a `const` declared
/// `bool` but defined by an integer literal fails fast, without attempting
/// any reduction — and only then is the value computed, at the declared
/// width.
pub open spec fn spec_check_const_decl(
    declared: Ty,
    e: CExpr,
    env: Seq<(u32, ConstValue)>,
) -> Result<ConstValue, DiagKind> {
    match spec_ctype(e, env) {
        Err(er) => Err(er),
        Ok(c) => if !cty_matches(c, declared) {
            Err(DiagKind::TypeMismatch)
        } else {
            spec_eval(e, env, width_of(declared))
        },
    }
}

/// Validates and evaluates one `const` item; see [`spec_check_const_decl`].
pub fn check_const_decl(declared: &Ty, e: &CExpr, env: &ConstEnv) -> (r: Result<
    ConstValue,
    DiagKind,
>)
    requires
        env.wf(),
    ensures
        r == spec_check_const_decl(*declared, *e, env@),
        r matches Ok(v) ==> v.wf(),
{
    let c = match eval_ctype(e, env) {
        Ok(c) => c,
        Err(er) => {
            return Err(er);
        },
    };
    let ok = match declared {
        Ty::Bool => matches!(c, CTy::CBool),
        Ty::Char => matches!(c, CTy::CChar),
        Ty::Int(k) => c == CTy::CInt(*k) || matches!(c, CTy::CIntAny),
        _ => false,
    };
    if !ok {
        return Err(DiagKind::TypeMismatch);
    }
    let ik = match declared {
        Ty::Int(k) => *k,
        _ => IntKind::I32,
    };
    eval_const(e, env, ik)
}

/// What an array-size position demands of its expression: a non-negative
/// integer constant that fits the address width; anything else is the
/// distinct array-size diagnostic, while arithmetic failures inside the
/// expression keep their own kinds.
pub open spec fn spec_array_len(e: CExpr, env: Seq<(u32, ConstValue)>) -> Result<
    usize,
    DiagKind,
> {
    match spec_eval(e, env, IntKind::ISize) {
        Ok(ConstValue::Int { val, .. }) => if val < 0 {
            Err(DiagKind::NegativeArraySize)
        } else if val > usize::MAX {
            Err(DiagKind::Overflow)
        } else {
            Ok(val as usize)
        },
        Ok(_) => Err(DiagKind::NegativeArraySize),
        Err(er) => Err(er),
    }
}

/// Reduces an array-size expression `[T; N]`; see [`spec_array_len`].
pub fn eval_array_len(e: &CExpr, env: &ConstEnv) -> (r: Result<usize, DiagKind>)
    requires
        env.wf(),
    ensures
        r == spec_array_len(*e, env@),
{
    match eval_const(e, env, IntKind::ISize) {
        Ok(ConstValue::Int { val, .. }) => {
            if val < 0 {
                Err(DiagKind::NegativeArraySize)
            } else if val > usize::MAX as i128 {
                Err(DiagKind::Overflow)
            } else {
                Ok(val as usize)
            }
        },
        Ok(_) => Err(DiagKind::NegativeArraySize),
        Err(er) => Err(er),
    }
}

} // verus!


