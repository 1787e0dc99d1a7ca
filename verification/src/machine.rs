use vstd::prelude::*;
use vstd::string::StringSliceAdditionalSpecFns;
use vstd::arithmetic::power2::pow2;

use crate::ast::BinOp;
use crate::ir::{copy_vals, Func, Instr, NumKind, Op, Val};
use crate::text::{lit, push_all, push_i64, push_str, push_u64};
use crate::types::{EnumInfo, Typ};

verus! {

/// How a block of instructions ended.
pub enum Flow {
    Next,
    Break,
    Continue,
    Return(Val),
    /// A runtime failure, with its message.
    Abort(Vec<u8>),
}

/// `v` wrapped into `w` bits, unsigned: its residue modulo 2^w.
pub open spec fn spec_wrap_unsigned(v: int, w: nat) -> int {
    v % (pow2(w) as int)
}

/// `v` wrapped into `w` bits, signed: its residue modulo 2^w, moved into [-2^(w-1), 2^(w-1)).
pub open spec fn spec_wrap_signed(v: int, w: nat) -> int {
    let r = v % (pow2(w) as int);
    if w > 0 && r >= pow2((w - 1) as nat) {
        r - pow2(w)
    } else {
        r
    }
}

/// An integer narrowed into a kind; kinds of 64 bits or more keep the value.
pub open spec fn spec_narrow(v: i64, k: NumKind) -> int {
    if k.width >= 64 {
        v as int
    } else if k.signed {
        spec_wrap_signed(v as int, k.width as nat)
    } else {
        spec_wrap_unsigned(v as int, k.width as nat)
    }
}

/// A narrowed value lies in its kind: within 64 bits, and below 2^(w-1) in size when signed,
/// within [0, 2^w) when unsigned.
pub proof fn lemma_narrow_range(v: i64, k: NumKind)
    ensures
        i64::MIN <= spec_narrow(v, k) <= i64::MAX,
        k.width < 64 && !k.signed ==> 0 <= spec_narrow(v, k) < pow2(k.width as nat),
        k.width < 64 && k.signed && k.width > 0 ==> -(pow2((k.width - 1) as nat) as int) <= spec_narrow(v, k)
            < pow2((k.width - 1) as nat),
{
    if k.width < 64 {
        let w = k.width as nat;
        let m = pow2(w) as int;
        vstd::arithmetic::power2::lemma2_to64();
        vstd::arithmetic::power2::lemma2_to64_rest();
        if w < 63 {
            vstd::arithmetic::power2::lemma_pow2_strictly_increases(w, 63);
        }
        vstd::arithmetic::power2::lemma_pow2_pos(w);
        vstd::arithmetic::div_mod::lemma_mod_bound(v as int, m);
        if k.signed && w > 0 {
            vstd::arithmetic::power2::lemma_pow2_unfold(w);
        }
    }
}

/// Narrowing twice is narrowing once: a narrowed value is already in its kind.
pub proof fn lemma_narrow_idempotent(v: i64, k: NumKind)
    ensures
        spec_narrow(spec_narrow(v, k) as i64, k) == spec_narrow(v, k),
{
    lemma_narrow_range(v, k);
    if k.width < 64 {
        let w = k.width as nat;
        let m = pow2(w) as int;
        vstd::arithmetic::power2::lemma_pow2_pos(w);
        let r = (v as int) % m;
        vstd::arithmetic::div_mod::lemma_mod_bound(v as int, m);
        let n = spec_narrow(v, k);
        if !k.signed {
            assert(n == r);
            vstd::arithmetic::div_mod::lemma_small_mod(r as nat, m as nat);
        } else if w > 0 {
            vstd::arithmetic::power2::lemma_pow2_unfold(w);
            if r >= pow2((w - 1) as nat) {
                assert(n == r - m);
                vstd::arithmetic::div_mod::lemma_mod_multiples_vanish(-1, r, m);
                assert((m * -1 + r) % m == r % m);
                vstd::arithmetic::div_mod::lemma_small_mod(r as nat, m as nat);
                assert((n as i64) as int == n);
                assert((n as i64 as int) % m == r);
            } else {
                assert(n == r);
                vstd::arithmetic::div_mod::lemma_small_mod(r as nat, m as nat);
            }
        } else {
            assert(m == 1) by {
                vstd::arithmetic::power2::lemma2_to64();
            }
            assert(r == 0);
        }
    }
}

/// 2^w for w < 64, as a 128-bit integer.
fn pow2_i128(w: u32) -> (r: i128)
    requires
        w < 64,
    ensures
        r == pow2(w as nat),
        r > 0,
{
    let mut r: i128 = 1;
    let mut i: u32 = 0;
    proof {
        vstd::arithmetic::power2::lemma_pow2(0);
        vstd::arithmetic::power::lemma_pow0(2);
    }
    while i < w
        invariant
            i <= w < 64,
            r == pow2(i as nat),
            r <= 0x8000_0000_0000_0000i128,
        decreases w - i,
    {
        proof {
            vstd::arithmetic::power2::lemma_pow2_unfold((i + 1) as nat);
            if i + 1 < 63 {
                vstd::arithmetic::power2::lemma_pow2_strictly_increases((i + 1) as nat, 63);
            }
            vstd::arithmetic::power2::lemma2_to64();
            vstd::arithmetic::power2::lemma2_to64_rest();
        }
        r = r * 2;
        i = i + 1;
    }
    proof {
        vstd::arithmetic::power2::lemma_pow2_pos(w as nat);
    }
    r
}

/// Wrap an integer into a kind.
pub fn narrow(v: i64, k: NumKind) -> (r: i64)
    ensures
        r as int == spec_narrow(v, k),
{
    if k.width >= 64 {
        return v;
    }
    let m = pow2_i128(k.width);
    proof {
        vstd::arithmetic::power2::lemma2_to64();
            vstd::arithmetic::power2::lemma2_to64_rest();
        if k.width < 63 {
            vstd::arithmetic::power2::lemma_pow2_strictly_increases(k.width as nat, 63);
        }
    }
    assert(0 < m <= 0x8000_0000_0000_0000i128);
    // shift into the non-negative range by a multiple of m, so the remainder is the residue
    let big: i128 = 0x8000_0000_0000_0000i128 * m;
    assert(0 < big <= 0x4000_0000_0000_0000_0000_0000_0000_0000i128) by (nonlinear_arith)
        requires
            0 < m <= 0x8000_0000_0000_0000i128,
            big == 0x8000_0000_0000_0000i128 * m,
    ;
    let x: i128 = v as i128 + big;
    let r: i128 = x % m;
    proof {
        vstd::arithmetic::div_mod::lemma_mod_multiples_vanish(
            0x8000_0000_0000_0000int,
            v as int,
            m as int,
        );
        assert(x as int == m * 0x8000_0000_0000_0000int + v as int);
        vstd::arithmetic::div_mod::lemma_mod_bound(x as int, m as int);
    }
    assert(r as int == (v as int) % (m as int));
    if k.signed && k.width > 0 {
        let half = pow2_i128(k.width - 1);
        proof {
            vstd::arithmetic::power2::lemma_pow2_unfold(k.width as nat);
        }
        if r >= half {
            return (r - m) as i64;
        }
    }
    r as i64
}

/// The absolute value.
pub open spec fn spec_abs(x: int) -> int {
    if x < 0 {
        -x
    } else {
        x
    }
}

/// The remainder of a division that rounds toward zero: it takes the sign of the dividend.
pub open spec fn spec_rem(a: int, b: int) -> int {
    if a >= 0 {
        a % spec_abs(b)
    } else {
        -((-a) % spec_abs(b))
    }
}

/// The quotient of a division that rounds toward zero.
pub open spec fn spec_quot(a: int, b: int) -> int {
    if (a >= 0) == (b > 0) {
        spec_abs(a) / spec_abs(b)
    } else {
        -(spec_abs(a) / spec_abs(b))
    }
}

/// Division rounds toward zero: the remainder has the dividend's sign and is smaller than the
/// divisor, and quotient and remainder give the dividend back.
pub proof fn lemma_division_rounds_toward_zero(a: int, b: int)
    requires
        b != 0,
    ensures
        spec_rem(a, b) == 0 || ((spec_rem(a, b) < 0) == (a < 0)),
        spec_abs(spec_rem(a, b)) < spec_abs(b),
        a == spec_quot(a, b) * b + spec_rem(a, b),
{
    let x = spec_abs(a);
    let d = spec_abs(b);
    vstd::arithmetic::div_mod::lemma_fundamental_div_mod(x, d);
    vstd::arithmetic::div_mod::lemma_mod_bound(x, d);
    let q = x / d;
    let r = x % d;
    assert(x == d * q + r);
    if a >= 0 && b > 0 {
        assert(a == q * b + r) by (nonlinear_arith)
            requires
                x == d * q + r,
                x == a,
                d == b,
        ;
    } else if a >= 0 && b < 0 {
        assert(a == (-q) * b + r) by (nonlinear_arith)
            requires
                x == d * q + r,
                x == a,
                d == -b,
        ;
    } else if a < 0 && b > 0 {
        assert(a == (-q) * b + (-r)) by (nonlinear_arith)
            requires
                x == d * q + r,
                x == -a,
                d == b,
        ;
    } else {
        assert(a == q * b + (-r)) by (nonlinear_arith)
            requires
                x == d * q + r,
                x == -a,
                d == -b,
        ;
    }
}

/// The body of an entry that prints the integer `n`: store it, print it on a line of its own,
/// and return the unit value.
pub open spec fn literal_body(code: Seq<Instr>, n: i64) -> bool {
    &&& code.len() == 4
    &&& code[0] == Instr::Store(0, Op::Const(Val::Int(n)))
    &&& code[1] matches Instr::Print(to_err, newline, its) && !to_err && newline && its@ == seq![(0usize, Typ::Int(64))]
    &&& code[2] == Instr::Store(1, Op::Const(Val::Unit))
    &&& code[3] == Instr::Return(1)
}

/// The body of an entry that prints `a op b`: the operation's code, print its result on a line
/// of its own, and return the unit value.
pub open spec fn sum_body(code: Seq<Instr>, op: BinOp, a: i64, b: i64) -> bool {
    &&& code.len() == 6
    &&& code.take(3) == crate::lower::literal_op_code(0, op, a, b)
    &&& code[3] matches Instr::Print(to_err, newline, its) && !to_err && newline && its@ == seq![(2usize, Typ::Int(64))]
    &&& code[4] == Instr::Store(3, Op::Const(Val::Unit))
    &&& code[5] == Instr::Return(3)
}

/// The value of `a + b`, `a - b` or `a * b`, wrapping in 64 bits.
pub open spec fn ring_value(op: BinOp, a: i64, b: i64) -> i64 {
    if op == BinOp::Add {
        a.wrapping_add(b)
    } else if op == BinOp::Sub {
        a.wrapping_sub(b)
    } else {
        a.wrapping_mul(b)
    }
}

/// The line that printing the integer `n` writes.
pub open spec fn int_line(n: i64) -> Seq<u8> {
    crate::text::spec_decimal(n as int) + seq![10u8]
}

/// The 64-bit word size: integers wrap modulo this.
pub open spec fn word() -> int {
    0x1_0000_0000_0000_0000
}

/// `a ** b` wrapped to a 64-bit signed integer: the power taken modulo the word size.
pub open spec fn spec_wrapping_pow(a: i64, b: nat) -> i64 {
    vstd::wrapping::i64_specs::signed_crop(vstd::arithmetic::power::pow(a as int, b))
}

/// A wrapping product keeps the exact product modulo the word size.
proof fn lemma_wrapping_mul_mod(x: i64, y: i64)
    ensures
        (x.wrapping_mul(y) as int) % word() == (x as int * y as int) % word(),
{
    let p = x as int * y as int;
    let r = p % word();
    assert(0 <= r < word());
    if r > i64::MAX as int {
        assert((r - word()) % word() == r);
    } else {
        assert(r % word() == r);
    }
}

/// The 64-bit signed integer congruent to `x` modulo the word size is `x` cropped.
proof fn lemma_crop_unique(x: int, v: i64)
    requires
        (v as int) % word() == x % word(),
    ensures
        vstd::wrapping::i64_specs::signed_crop(x) == v,
{
    if v >= 0 {
        assert((v as int) % word() == v);
    } else {
        assert((v as int) % word() == v + word());
    }
}

/// One step of squaring and multiplying keeps `acc * base ** e` modulo the word size.
proof fn lemma_pow_step(acc0: int, base0: int, e0: nat, acc1: int, base1: int, e1: nat)
    requires
        e1 == e0 / 2,
        acc1 % word() == (if e0 % 2 == 1 {
            acc0 * base0
        } else {
            acc0
        }) % word(),
        base1 % word() == (base0 * base0) % word(),
    ensures
        (acc1 * vstd::arithmetic::power::pow(base1, e1)) % word() == (acc0 * vstd::arithmetic::power::pow(base0, e0)) % word(),
{
    let m = word();
    let r: nat = (e0 % 2) as nat;
    assert(e0 == 2 * e1 + r);
    vstd::arithmetic::power::lemma_pow_adds(base0, 2 * e1, r);
    vstd::arithmetic::power::lemma_pow_multiplies(base0, 2, e1);
    vstd::arithmetic::power::lemma_square_is_pow2(base0);
    vstd::arithmetic::power::lemma_pow_mod_noop(base1, e1, m);
    vstd::arithmetic::power::lemma_pow_mod_noop(base0 * base0, e1, m);
    let q = vstd::arithmetic::power::pow(base0 * base0, e1);
    let q1 = vstd::arithmetic::power::pow(base1, e1);
    assert(q1 % m == q % m);
    vstd::arithmetic::div_mod::lemma_mul_mod_noop_general(acc1, q1, m);
    vstd::arithmetic::div_mod::lemma_mul_mod_noop_general(acc1, q, m);
    if r == 1 {
        vstd::arithmetic::power::lemma_pow1(base0);
        vstd::arithmetic::div_mod::lemma_mul_mod_noop_general(acc0 * base0, q, m);
        vstd::arithmetic::mul::lemma_mul_is_associative(acc0, base0, q);
        vstd::arithmetic::mul::lemma_mul_is_commutative(base0, q);
        assert(vstd::arithmetic::power::pow(base0, e0) == q * base0);
        vstd::arithmetic::mul::lemma_mul_is_associative(acc0, q, base0);
    } else {
        vstd::arithmetic::power::lemma_pow0(base0);
        assert(vstd::arithmetic::power::pow(base0, e0) == q);
        vstd::arithmetic::div_mod::lemma_mul_mod_noop_general(acc0, q, m);
    }
}

/// The result of integer arithmetic: a value, or a runtime failure.
pub fn arith(op: BinOp, a: i64, b: i64, k: NumKind) -> (r: Result<i64, Vec<u8>>)
    ensures
        op == BinOp::Add ==> r == Ok::<i64, Vec<u8>>(spec_narrow(a.wrapping_add(b), k) as i64),
        op == BinOp::Sub ==> r == Ok::<i64, Vec<u8>>(spec_narrow(a.wrapping_sub(b), k) as i64),
        op == BinOp::Mul ==> r == Ok::<i64, Vec<u8>>(spec_narrow(a.wrapping_mul(b), k) as i64),
        (op == BinOp::Div || op == BinOp::Mod) ==> (r is Err <==> b == 0),
        op == BinOp::Mod && b != 0 ==> r == Ok::<i64, Vec<u8>>(spec_narrow(spec_rem(a as int, b as int) as i64, k) as i64),
        op == BinOp::Div && b != 0 && !(a == i64::MIN && b == -1) ==> r == Ok::<i64, Vec<u8>>(
            spec_narrow(spec_quot(a as int, b as int) as i64, k) as i64,
        ),
        op == BinOp::Div && a == i64::MIN && b == -1 ==> r == Ok::<i64, Vec<u8>>(spec_narrow(a, k) as i64),
        op == BinOp::Pow ==> (r is Err <==> b < 0),
        op == BinOp::Pow && b >= 0 ==> r == Ok::<i64, Vec<u8>>(spec_narrow(spec_wrapping_pow(a, b as nat), k) as i64),
        op == BinOp::BitAnd ==> r == Ok::<i64, Vec<u8>>(spec_narrow(a & b, k) as i64),
        op == BinOp::BitOr ==> r == Ok::<i64, Vec<u8>>(spec_narrow(a | b, k) as i64),
        op == BinOp::BitXor ==> r == Ok::<i64, Vec<u8>>(spec_narrow(a ^ b, k) as i64),
        op == BinOp::Shl ==> r == Ok::<i64, Vec<u8>>(spec_narrow(((a as u64) << ((b & 63) as u32)) as i64, k) as i64),
        op == BinOp::Shr && k.signed ==> r == Ok::<i64, Vec<u8>>(spec_narrow(a >> ((b & 63) as u32), k) as i64),
        op == BinOp::Shr && !k.signed ==> r == Ok::<i64, Vec<u8>>(spec_narrow(((a as u64) >> ((b & 63) as u32)) as i64, k) as i64),
        !(op == BinOp::Add || op == BinOp::Sub || op == BinOp::Mul || op == BinOp::Div || op == BinOp::Mod || op == BinOp::Pow
            || op == BinOp::BitAnd || op == BinOp::BitOr || op == BinOp::BitXor || op == BinOp::Shl || op == BinOp::Shr) ==> r is Err,
{
    match op {
        BinOp::Add => Ok(narrow(a.wrapping_add(b), k)),
        BinOp::Sub => Ok(narrow(a.wrapping_sub(b), k)),
        BinOp::Mul => Ok(narrow(a.wrapping_mul(b), k)),
        BinOp::Div => {
            if b == 0 {
                Err(lit("division by zero"))
            } else if a == i64::MIN && b == -1 {
                Ok(narrow(a, k))
            } else {
                proof {
                    if a == 0 {
                        vstd::arithmetic::div_mod::lemma_div_of0(spec_abs(b as int));
                    }
                    vstd::arithmetic::div_mod::lemma_div_nonincreasing(spec_abs(a as int), spec_abs(b as int));
                    vstd::arithmetic::div_mod::lemma_div_pos_is_pos(spec_abs(a as int), spec_abs(b as int));
                    if spec_abs(b as int) > 1 && spec_abs(a as int) > 0 {
                        vstd::arithmetic::div_mod::lemma_div_decreases(spec_abs(a as int), spec_abs(b as int));
                    }
                }
                match a.checked_div(b) {
                    Some(q) => Ok(narrow(q, k)),
                    None => Ok(narrow(a, k)),
                }
            }
        },
        BinOp::Mod => {
            if b == 0 {
                Err(lit("division by zero"))
            } else if b == -1 {
                proof {
                    vstd::arithmetic::div_mod::lemma_mod_bound(a as int, 1);
                    vstd::arithmetic::div_mod::lemma_mod_bound(-(a as int), 1);
                    assert(spec_rem(a as int, b as int) == 0);
                }
                Ok(narrow(0, k))
            } else {
                proof {
                    if a == 0 {
                        vstd::arithmetic::div_mod::lemma_small_mod(0, spec_abs(b as int) as nat);
                    }
                }
                match a.checked_rem(b) {
                    Some(m) => Ok(narrow(m, k)),
                    None => Ok(narrow(0, k)),
                }
            }
        },
        BinOp::Pow => {
            if b < 0 {
                return Err(lit("negative exponent"));
            }
            let mut base = a;
            let mut e = b;
            let mut acc: i64 = 1;
            proof {
                vstd::arithmetic::power::lemma_pow0(a as int);
            }
            while e > 0
                invariant
                    e >= 0,
                    b >= 0,
                    (acc as int * vstd::arithmetic::power::pow(base as int, e as nat)) % word() == vstd::arithmetic::power::pow(
                        a as int,
                        b as nat,
                    ) % word(),
                decreases e,
            {
                let ghost acc0 = acc;
                let ghost base0 = base;
                let ghost e0 = e;
                if e % 2 == 1 {
                    proof {
                        lemma_wrapping_mul_mod(acc, base);
                    }
                    acc = acc.wrapping_mul(base);
                }
                proof {
                    lemma_wrapping_mul_mod(base, base);
                }
                base = base.wrapping_mul(base);
                e = e / 2;
                proof {
                    lemma_pow_step(acc0 as int, base0 as int, e0 as nat, acc as int, base as int, e as nat);
                }
            }
            proof {
                vstd::arithmetic::power::lemma_pow0(base as int);
                lemma_crop_unique(vstd::arithmetic::power::pow(a as int, b as nat), acc);
            }
            Ok(narrow(acc, k))
        },
        BinOp::BitAnd => Ok(narrow(a & b, k)),
        BinOp::BitOr => Ok(narrow(a | b, k)),
        BinOp::BitXor => Ok(narrow(a ^ b, k)),
        BinOp::Shl => {
            let s: u32 = (b & 63) as u32;
            assert(0 <= (b & 63) < 64) by (bit_vector);
            assert(s < 64);
            let u: u64 = a as u64;
            Ok(narrow((u << s) as i64, k))
        },
        BinOp::Shr => {
            let s: u32 = (b & 63) as u32;
            assert(0 <= (b & 63) < 64) by (bit_vector);
            assert(s < 64);
            if k.signed {
                Ok(narrow(a >> s, k))
            } else {
                let u: u64 = a as u64;
                Ok(narrow((u >> s) as i64, k))
            }
        },
        _ => Err(lit("not an arithmetic operator")),
    }
}

/// Whether two values are of one compound kind: both tuples, arrays, enum values or maps.
pub open spec fn both_compound(a: Val, b: Val) -> bool {
    ||| (a is Tuple && b is Tuple)
    ||| (a is Array && b is Array)
    ||| (a is Enum && b is Enum)
    ||| (a is Dict && b is Dict)
}

/// Equality of two values that are not both of one compound kind: equal scalars, equal bytes,
/// equal ranges, and never across kinds.
pub open spec fn leaf_eq(a: Val, b: Val) -> bool {
    match (a, b) {
        (Val::Unit, Val::Unit) => true,
        (Val::Int(x), Val::Int(y)) => x == y,
        (Val::Bool(x), Val::Bool(y)) => x == y,
        (Val::Str(x), Val::Str(y)) => x@ == y@,
        (Val::Fn(x), Val::Fn(y)) => x == y,
        (Val::Range(a1, a2, a3), Val::Range(b1, b2, b3)) => a1 == b1 && a2 == b2 && a3 == b3,
        _ => false,
    }
}

/// Whether two values are structurally equal.
#[verifier::loop_isolation(false)]
pub(crate) fn val_eq(a: &Val, b: &Val) -> (r: bool)
    ensures
        !both_compound(*a, *b) ==> r == leaf_eq(*a, *b),
        r && *a is Tuple && *b is Tuple ==> a->Tuple_0@.len() == b->Tuple_0@.len(),
        r && *a is Array && *b is Array ==> a->Array_0@.len() == b->Array_0@.len(),
        r && *a is Enum && *b is Enum ==> a->Enum_0 == b->Enum_0 && a->Enum_1@.len() == b->Enum_1@.len(),
        r && *a is Dict && *b is Dict ==> a->Dict_0@.len() == b->Dict_0@.len() && a->Dict_1@.len()
            == b->Dict_1@.len(),
    decreases a,
{
    match (a, b) {
        (Val::Unit, Val::Unit) => true,
        (Val::Int(x), Val::Int(y)) => *x == *y,
        (Val::Bool(x), Val::Bool(y)) => *x == *y,
        (Val::Str(x), Val::Str(y)) => crate::text::bytes_eq(x.as_slice(), y.as_slice()),
        (Val::Fn(x), Val::Fn(y)) => *x == *y,
        (Val::Range(a1, a2, a3), Val::Range(b1, b2, b3)) => *a1 == *b1 && *a2 == *b2 && *a3 == *b3,
        (Val::Enum(t1, xs), Val::Enum(t2, ys)) => {
            if *t1 != *t2 || xs.len() != ys.len() {
                return false;
            }
            let mut i: usize = 0;
            while i < xs.len()
                invariant
                    i <= xs@.len(),
                    xs@.len() == ys@.len(),
                decreases xs@.len() - i,
            {
                proof {
                    vstd::std_specs::vec::axiom_vec_index_decreases(*xs, i as int);
                }
                if !val_eq(&xs[i], &ys[i]) {
                    return false;
                }
                i = i + 1;
            }
            true
        },
        (Val::Tuple(xs), Val::Tuple(ys)) => {
            if xs.len() != ys.len() {
                return false;
            }
            let mut i: usize = 0;
            while i < xs.len()
                invariant
                    i <= xs@.len(),
                    xs@.len() == ys@.len(),
                decreases xs@.len() - i,
            {
                proof {
                    vstd::std_specs::vec::axiom_vec_index_decreases(*xs, i as int);
                }
                if !val_eq(&xs[i], &ys[i]) {
                    return false;
                }
                i = i + 1;
            }
            true
        },
        (Val::Array(xs), Val::Array(ys)) => {
            if xs.len() != ys.len() {
                return false;
            }
            let mut i: usize = 0;
            while i < xs.len()
                invariant
                    i <= xs@.len(),
                    xs@.len() == ys@.len(),
                decreases xs@.len() - i,
            {
                proof {
                    vstd::std_specs::vec::axiom_vec_index_decreases(*xs, i as int);
                }
                if !val_eq(&xs[i], &ys[i]) {
                    return false;
                }
                i = i + 1;
            }
            true
        },
        (Val::Dict(xk, xv), Val::Dict(yk, yv)) => {
            if xk.len() != yk.len() || xv.len() != yv.len() {
                return false;
            }
            let mut i: usize = 0;
            while i < xk.len()
                invariant
                    i <= xk@.len(),
                    xk@.len() == yk@.len(),
                decreases xk@.len() - i,
            {
                proof {
                    vstd::std_specs::vec::axiom_vec_index_decreases(*xk, i as int);
                }
                if !val_eq(&xk[i], &yk[i]) {
                    return false;
                }
                i = i + 1;
            }
            let mut i: usize = 0;
            while i < xv.len()
                invariant
                    i <= xv@.len(),
                    xv@.len() == yv@.len(),
                decreases xv@.len() - i,
            {
                proof {
                    vstd::std_specs::vec::axiom_vec_index_decreases(*xv, i as int);
                }
                if !val_eq(&xv[i], &yv[i]) {
                    return false;
                }
                i = i + 1;
            }
            true
        },
        _ => false,
    }
}

/// Whether every printed slot is in the frame and holds a value with no other value inside.
pub open spec fn all_leaves(frame: Seq<Val>, items: Seq<(usize, Typ)>) -> bool {
    forall|i: int|
        0 <= i < items.len() ==> (#[trigger] items[i]).0 < frame.len() && spec_fmt_leaf(
            frame[items[i].0 as int],
            items[i].1,
            false,
        ) is Some
}

/// What printing such slots writes: their texts, a space between two.
pub open spec fn print_line(frame: Seq<Val>, items: Seq<(usize, Typ)>) -> Seq<u8>
    decreases items.len(),
{
    if items.len() == 0 {
        Seq::empty()
    } else {
        print_line(frame, items.drop_last()) + (if items.len() > 1 {
            seq![32u8]
        } else {
            Seq::empty()
        }) + spec_fmt_leaf(frame[items.last().0 as int], items.last().1, false)->Some_0
    }
}

/// Whether a slot of a frame holds an integer.
pub open spec fn int_at(frame: Seq<Val>, s: usize) -> bool {
    s < frame.len() && frame[s as int] is Int
}

/// The position of a key among a map's keys, if it is there.
fn key_pos(keys: &Vec<Val>, k: &Val) -> (r: Option<usize>)
    ensures
        r matches Some(i) ==> i < keys@.len(),
        r matches Some(i) ==> (!both_compound(keys@[i as int], *k) ==> leaf_eq(keys@[i as int], *k)),
        r matches Some(i) ==> forall|j: int| 0 <= j < i ==> !leaf_eq(#[trigger] keys@[j], *k),
        r is None ==> forall|j: int| 0 <= j < keys@.len() ==> !leaf_eq(#[trigger] keys@[j], *k),
{
    let mut i: usize = 0;
    while i < keys.len()
        invariant
            i <= keys@.len(),
            forall|j: int| 0 <= j < i ==> !leaf_eq(#[trigger] keys@[j], *k),
        decreases keys@.len() - i,
    {
        if val_eq(&keys[i], k) {
            return Some(i);
        }
        i = i + 1;
    }
    None
}

/// Give a key its value: in place when the key is there, appended after the others when not.
fn map_put(keys: &mut Vec<Val>, vals: &mut Vec<Val>, k: Val, v: Val)
    requires
        old(keys)@.len() == old(vals)@.len(),
    ensures
        final(keys)@.len() == final(vals)@.len(),
        final(keys)@.len() >= old(keys)@.len(),
        (final(keys)@ == old(keys)@ && exists|i: int| 0 <= i < old(vals)@.len() && final(vals)@ == old(vals)@.update(i, v))
            || (final(keys)@ == old(keys)@.push(k) && final(vals)@ == old(vals)@.push(v)),
{
    match key_pos(keys, &k) {
        Some(i) => {
            vals.set(i, v);
        },
        None => {
            keys.push(k);
            vals.push(v);
        },
    }
}

/// Take a key and its value out of a map, if the key is there.
fn map_drop(keys: &mut Vec<Val>, vals: &mut Vec<Val>, k: &Val)
    requires
        old(keys)@.len() == old(vals)@.len(),
    ensures
        final(keys)@.len() == final(vals)@.len(),
        (final(keys)@ == old(keys)@ && final(vals)@ == old(vals)@) || exists|i: int|
            0 <= i < old(keys)@.len() && final(keys)@ == old(keys)@.remove(i) && final(vals)@ == old(vals)@.remove(i),
{
    match key_pos(keys, k) {
        Some(i) => {
            keys.remove(i);
            vals.remove(i);
        },
        None => {},
    }
}

/// The number of elements a range from `start` towards `end` by `step` yields, up to a million.
pub open spec fn spec_range_len(start: int, end: int, step: int) -> int {
    let n = if step > 0 && start < end {
        (end - start + step - 1) / step
    } else if step < 0 && start > end {
        (start - end - step - 1) / (-step)
    } else {
        0
    };
    if n > 1_000_000 {
        1_000_000
    } else {
        n
    }
}

/// The number of elements a range yields, if it is bounded.
pub(crate) fn range_len(start: i64, end: i64, step: i64) -> (r: u64)
    ensures
        r == spec_range_len(start as int, end as int, step as int),
{
    if step > 0 && start < end {
        let span: i128 = end as i128 - start as i128;
        let n: i128 = (span + step as i128 - 1) / step as i128;
        if n > 1_000_000 {
            1_000_000
        } else {
            n as u64
        }
    } else if step < 0 && start > end {
        let span: i128 = start as i128 - end as i128;
        let st: i128 = -(step as i128);
        let n: i128 = (span + st - 1) / st;
        if n > 1_000_000 {
            1_000_000
        } else {
            n as u64
        }
    } else {
        0
    }
}

/// The `k`th element of a range.
fn range_nth(start: i64, step: i64, k: u64) -> (r: i64)
    ensures
        r == vstd::wrapping::i64_specs::wrapping_add(start, vstd::wrapping::i64_specs::wrapping_mul(step, (k % 0x1_0000_0000) as i64)),
{
    start.wrapping_add(step.wrapping_mul((k % 0x1_0000_0000) as i64))
}

/// The text of a value that holds no other value: an integer in decimal (unsigned for a
/// 64-bit unsigned type), `true`/`false`, an atom after `:`, a string (quoted when nested),
/// `fn`, `()`, and a range as its start, its second element when the step is not 1, `..`, and
/// its end when it has one.
pub open spec fn spec_fmt_leaf(v: Val, t: Typ, nested: bool) -> Option<Seq<u8>> {
    match v {
        Val::Int(n) => Some(
            if t is UInt && t->UInt_0 == 64 {
                crate::text::spec_digits((n as u64) as nat)
            } else {
                crate::text::spec_decimal(n as int)
            },
        ),
        Val::Bool(b) => Some(
            if b {
                "true".spec_bytes()
            } else {
                "false".spec_bytes()
            },
        ),
        Val::Str(s) => Some(
            if t is Atom {
                seq![58u8] + s@
            } else if nested {
                seq![34u8] + s@ + seq![34u8]
            } else {
                s@
            },
        ),
        Val::Fn(_) => Some("fn".spec_bytes()),
        Val::Unit => Some("()".spec_bytes()),
        Val::Range(a, b, st) => Some(
            crate::text::spec_decimal(a as int) + (if st != 1 {
                "..".spec_bytes() + crate::text::spec_decimal(
                    vstd::wrapping::i64_specs::wrapping_add(a, st) as int,
                )
            } else {
                Seq::empty()
            }) + "..".spec_bytes() + (match b {
                Some(e) => crate::text::spec_decimal(e as int),
                None => Seq::empty(),
            }),
        ),
        _ => None,
    }
}

/// Append the text of a value of a type; strings are quoted when nested in another value.
#[verifier::loop_isolation(false)]
pub(crate) fn fmt_val(out: &mut Vec<u8>, v: &Val, t: &Typ, enums: &Vec<EnumInfo>, nested: bool, depth: u64)
    ensures
        depth == 0 ==> final(out)@ == old(out)@ + "..".spec_bytes(),
        depth > 0 && spec_fmt_leaf(*v, *t, nested) is Some ==> final(out)@ == old(out)@ + spec_fmt_leaf(
            *v,
            *t,
            nested,
        )->Some_0,
    decreases depth,
{
    if depth == 0 {
        push_str(out, "..");
        return;
    }
    match (t, v) {
        (Typ::UInt(64), Val::Int(n)) => {
            push_u64(out, *n as u64);
        },
        (_, Val::Int(n)) => {
            push_i64(out, *n);
        },
        (_, Val::Bool(b)) => {
            if *b {
                push_str(out, "true");
            } else {
                push_str(out, "false");
            }
        },
        (Typ::Atom, Val::Str(s)) => {
            out.push(58);
            push_all(out, s.as_slice());
        },
        (_, Val::Str(s)) => {
            if nested {
                out.push(34);
                push_all(out, s.as_slice());
                out.push(34);
            } else {
                push_all(out, s.as_slice());
            }
        },
        (_, Val::Fn(_)) => {
            push_str(out, "fn");
        },
        (_, Val::Unit) => {
            push_str(out, "()");
        },
        (_, Val::Range(a, b, s)) => {
            push_i64(out, *a);
            if *s != 1 {
                push_str(out, "..");
                push_i64(out, a.wrapping_add(*s));
            }
            push_str(out, "..");
            match b {
                Some(e) => push_i64(out, *e),
                None => {},
            }
        },
        (Typ::Tuple(ts), Val::Tuple(vs)) => {
            out.push(40);
            let mut i: usize = 0;
            while i < vs.len() && i < ts.len()
                invariant
                    i <= vs@.len(),
                decreases vs@.len() - i,
            {
                if i > 0 {
                    push_str(out, ", ");
                }
                fmt_val(out, &vs[i], &ts[i], enums, true, depth - 1);
                i = i + 1;
            }
            out.push(41);
        },
        (Typ::Struct(name, fs), Val::Tuple(vs)) => {
            push_all(out, name.as_slice());
            push_str(out, ".{");
            let mut i: usize = 0;
            while i < vs.len() && i < fs.len()
                invariant
                    i <= vs@.len(),
                decreases vs@.len() - i,
            {
                if i > 0 {
                    push_str(out, ", ");
                }
                push_all(out, fs[i].name.as_slice());
                push_str(out, " = ");
                fmt_val(out, &vs[i], &fs[i].typ, enums, true, depth - 1);
                i = i + 1;
            }
            out.push(125);
        },
        (Typ::Array(et), Val::Array(vs)) => {
            out.push(91);
            let mut i: usize = 0;
            while i < vs.len()
                invariant
                    i <= vs@.len(),
                decreases vs@.len() - i,
            {
                if i > 0 {
                    push_str(out, ", ");
                }
                fmt_val(out, &vs[i], &**et, enums, true, depth - 1);
                i = i + 1;
            }
            out.push(93);
        },
        (Typ::Sum(ts), Val::Enum(tag, vs)) => {
            // a sum shows the value it holds
            if (*tag as usize) < ts.len() && vs.len() > 0 {
                fmt_val(out, &vs[0], &ts[*tag as usize], enums, nested, depth - 1);
            } else {
                push_str(out, "variant ");
                push_u64(out, *tag);
            }
        },
        (Typ::Trait(_), Val::Tuple(vs)) => {
            // a trait object shows its data
            if vs.len() == 2 {
                fmt_val(out, &vs[1], &Typ::Never, enums, nested, depth - 1);
            } else {
                push_str(out, "object");
            }
        },
        (Typ::Option(inner), Val::Enum(tag, vs)) => {
            if *tag == 0 || vs.len() == 0 {
                push_str(out, "none");
            } else {
                push_str(out, "some.(");
                fmt_val(out, &vs[0], &**inner, enums, true, depth - 1);
                out.push(41);
            }
        },
        (Typ::Result(ok, err), Val::Enum(tag, vs)) => {
            if vs.len() == 0 {
                push_str(out, "ok");
            } else if *tag == 0 {
                push_str(out, "ok.(");
                fmt_val(out, &vs[0], &**ok, enums, true, depth - 1);
                out.push(41);
            } else {
                push_str(out, "err.(");
                fmt_val(out, &vs[0], &**err, enums, true, depth - 1);
                out.push(41);
            }
        },
        (Typ::Enum(id), Val::Enum(tag, vs)) => {
            if *id < enums.len() && (*tag as usize) < enums[*id].variants.len() {
                let var = &enums[*id].variants[*tag as usize];
                push_all(out, var.name.as_slice());
                if vs.len() > 0 {
                    push_str(out, ".(");
                    let mut i: usize = 0;
                    while i < vs.len() && i < var.payload.len()
                        invariant
                            i <= vs@.len(),
                        decreases vs@.len() - i,
                    {
                        if i > 0 {
                            push_str(out, ", ");
                        }
                        // payload types come from the enum table, not from `t`
                        fmt_val(out, &vs[i], &var.payload[i], enums, true, depth - 1);
                        i = i + 1;
                    }
                    out.push(41);
                }
            } else {
                push_str(out, "enum");
            }
        },
        (_, Val::Tuple(vs)) => {
            out.push(40);
            let mut i: usize = 0;
            while i < vs.len()
                invariant
                    i <= vs@.len(),
                decreases vs@.len() - i,
            {
                if i > 0 {
                    push_str(out, ", ");
                }
                fmt_val(out, &vs[i], &Typ::Never, enums, true, depth - 1);
                i = i + 1;
            }
            out.push(41);
        },
        (_, Val::Array(vs)) => {
            out.push(91);
            let mut i: usize = 0;
            while i < vs.len()
                invariant
                    i <= vs@.len(),
                decreases vs@.len() - i,
            {
                if i > 0 {
                    push_str(out, ", ");
                }
                fmt_val(out, &vs[i], &Typ::Never, enums, true, depth - 1);
                i = i + 1;
            }
            out.push(93);
        },
        (_, Val::Dict(ks, vs)) => {
            let (kt, vt) = match t {
                Typ::Dict(k, v) => ((**k).copy(), (**v).copy()),
                _ => (Typ::Never, Typ::Never),
            };
            out.push(91);
            let mut i: usize = 0;
            while i < ks.len() && i < vs.len()
                invariant
                    i <= ks@.len(),
                decreases ks@.len() - i,
            {
                if i > 0 {
                    push_str(out, ", ");
                }
                fmt_val(out, &ks[i], &kt, enums, true, depth - 1);
                push_str(out, " = ");
                fmt_val(out, &vs[i], &vt, enums, true, depth - 1);
                i = i + 1;
            }
            out.push(93);
        },
        (_, Val::Enum(tag, _)) => {
            push_str(out, "variant ");
            push_u64(out, *tag);
        },
    }
}

/// The least and greatest values of an integer kind; the greatest 64-bit unsigned value is
/// stored as its bit pattern.
pub open spec fn spec_kind_bounds(k: NumKind) -> (int, int) {
    if k.width == 0 || k.width > 64 {
        (0, 0)
    } else if k.signed {
        (-pow2((k.width - 1) as nat), pow2((k.width - 1) as nat) - 1)
    } else if k.width == 64 {
        (0, -1)
    } else {
        (0, pow2(k.width as nat) - 1)
    }
}

/// The least and greatest values of an integer kind, as `spec_kind_bounds` gives them.
pub(crate) fn kind_bounds(k: NumKind) -> (r: (i64, i64))
    ensures
        r.0 == spec_kind_bounds(k).0,
        r.1 == spec_kind_bounds(k).1,
{
    proof {
        if 0 < k.width <= 64 {
            vstd::arithmetic::power2::lemma2_to64();
            vstd::arithmetic::power2::lemma2_to64_rest();
            if k.width - 1 < 63 {
                vstd::arithmetic::power2::lemma_pow2_strictly_increases((k.width - 1) as nat, 63);
            }
            if k.width < 63 {
                vstd::arithmetic::power2::lemma_pow2_strictly_increases(k.width as nat, 63);
            }
        }
    }
    if k.width == 0 || k.width > 64 {
        return (0, 0);
    }
    if k.signed {
        let half = pow2_i128(k.width - 1);
        assert(half <= 0x8000000000000000);
        ((0 - half) as i64, (half - 1) as i64)
    } else if k.width == 64 {
        (0, -1)
    } else {
        let full = pow2_i128(k.width);
        assert(full <= 0x8000000000000000);
        (0, (full - 1) as i64)
    }
}

/// The interpreter for compiled functions.
pub struct Machine<'p> {
    pub funcs: &'p Vec<Func>,
    pub enums: &'p Vec<EnumInfo>,
    pub out: Vec<u8>,
    pub err: Vec<u8>,
    /// The loop iterations left before the program is stopped.
    pub gas: u64,
    /// The values of the statics.
    pub globals: Vec<Val>,
}

/// The value in a slot, copied.
fn get(frame: &Vec<Val>, slot: usize) -> (r: Result<Val, Vec<u8>>)
    ensures
        r is Ok <==> slot < frame@.len(),
        r matches Ok(v) ==> copied(frame@[slot as int], v),
        slot < frame@.len() && frame@[slot as int] is Unit ==> r == Ok::<Val, Vec<u8>>(Val::Unit),
        r matches Err(m) ==> m@ == "bad slot".spec_bytes(),
{
    if slot < frame.len() {
        Ok(frame[slot].copy())
    } else {
        Err(lit("bad slot"))
    }
}

fn get_int(frame: &Vec<Val>, slot: usize) -> (r: Result<i64, Vec<u8>>)
    ensures
        r matches Ok(n) ==> slot < frame@.len() && frame@[slot as int] == Val::Int(n),
        r is Err ==> slot >= frame@.len() || !(frame@[slot as int] is Int),
{
    if slot < frame.len() {
        match &frame[slot] {
            Val::Int(n) => Ok(*n),
            _ => Err(lit("expected an integer")),
        }
    } else {
        Err(lit("bad slot"))
    }
}

fn get_bool(frame: &Vec<Val>, slot: usize) -> (r: Result<bool, Vec<u8>>)
    ensures
        r matches Ok(b) ==> slot < frame@.len() && frame@[slot as int] == Val::Bool(b),
        r is Err ==> slot >= frame@.len() || !(frame@[slot as int] is Bool),
{
    if slot < frame.len() {
        match &frame[slot] {
            Val::Bool(b) => Ok(*b),
            _ => Err(lit("expected a bool")),
        }
    } else {
        Err(lit("bad slot"))
    }
}

/// Store a value into a slot, growing nothing.
fn put(frame: &mut Vec<Val>, slot: usize, v: Val) -> (r: Result<(), Vec<u8>>)
    ensures
        final(frame)@.len() == old(frame)@.len(),
        r is Ok <==> slot < old(frame)@.len(),
        r is Ok ==> final(frame)@ == old(frame)@.update(slot as int, v),
        r is Err ==> final(frame)@ == old(frame)@,
{
    if slot < frame.len() {
        frame.set(slot, v);
        Ok(())
    } else {
        Err(lit("bad slot"))
    }
}

/// Store `v` at a field path inside `target`.
fn set_path(target: &mut Val, path: &Vec<usize>, k: usize, v: Val) -> (r: Result<(), Vec<u8>>)
    ensures
        k >= path@.len() ==> r is Ok && *final(target) == v,
        k < path@.len() && !(*old(target) is Tuple) ==> r is Err && *final(target) == *old(target),
        k < path@.len() && *old(target) is Tuple ==> *final(target) is Tuple && (*final(target))->Tuple_0@.len()
            == (*old(target))->Tuple_0@.len(),
    decreases path@.len() - k,
{
    if k >= path.len() {
        *target = v;
        return Ok(());
    }
    match target {
        Val::Tuple(fs) => {
            let i = path[k];
            if i >= fs.len() {
                return Err(lit("bad field"));
            }
            let mut inner = fs[i].copy();
            let r = set_path(&mut inner, path, k + 1, v);
            fs.set(i, inner);
            r
        },
        _ => Err(lit("not a struct")),
    }
}

/// Whether an instruction is a boolean step the machine can take in a frame: a copy of a boolean
/// slot, a boolean constant stored, or a branch on a boolean slot to a block of such steps.
pub open spec fn bool_step_ok(ins: Instr, f: Seq<Val>) -> bool
    decreases ins, 0int,
{
    match ins {
        Instr::Store(d, Op::Copy(s)) => d < f.len() && s < f.len() && f[s as int] is Bool,
        Instr::Store(d, Op::Const(Val::Bool(_))) => d < f.len(),
        Instr::If(c, t, e) => c < f.len() && f[c as int] is Bool && if f[c as int]->Bool_0 {
            bool_run_ok(t@, f)
        } else {
            bool_run_ok(e@, f)
        },
        _ => false,
    }
}

/// The frame after such a step.
pub open spec fn bool_step(ins: Instr, f: Seq<Val>) -> Seq<Val>
    decreases ins, 0int,
{
    match ins {
        Instr::Store(d, Op::Copy(s)) => f.update(d as int, f[s as int]),
        Instr::Store(d, Op::Const(Val::Bool(v))) => f.update(d as int, Val::Bool(v)),
        Instr::If(c, t, e) => if f[c as int]->Bool_0 {
            bool_run(t@, f)
        } else {
            bool_run(e@, f)
        },
        _ => f,
    }
}

/// The frame after a run of boolean steps, one after another.
pub open spec fn bool_run(code: Seq<Instr>, f: Seq<Val>) -> Seq<Val>
    decreases code, 1int,
{
    if code.len() == 0 {
        f
    } else {
        bool_step(code[code.len() - 1], bool_run(code.subrange(0, code.len() - 1), f))
    }
}

/// Whether each instruction of a run is a boolean step in the frame the earlier ones leave.
pub open spec fn bool_run_ok(code: Seq<Instr>, f: Seq<Val>) -> bool
    decreases code, 1int,
{
    code.len() == 0 || (bool_run_ok(code.subrange(0, code.len() - 1), f) && bool_step_ok(
        code[code.len() - 1],
        bool_run(code.subrange(0, code.len() - 1), f),
    ))
}

/// A block holding one store of a boolean constant is a boolean step that puts it in its slot.
pub proof fn lemma_bool_single_store(d: usize, v: bool, f: Seq<Val>)
    requires
        d < f.len(),
    ensures
        bool_run_ok(seq![Instr::Store(d, Op::Const(Val::Bool(v)))], f),
        bool_run(seq![Instr::Store(d, Op::Const(Val::Bool(v)))], f) == f.update(d as int, Val::Bool(v)),
{
    let code = seq![Instr::Store(d, Op::Const(Val::Bool(v)))];
    assert(code.subrange(0, 0) =~= Seq::<Instr>::empty());
    assert(bool_run(Seq::<Instr>::empty(), f) == f);
    assert(bool_run_ok(Seq::<Instr>::empty(), f));
    assert(code.len() == 1 && code[0] == Instr::Store(d, Op::Const(Val::Bool(v))));
    assert(bool_step_ok(code[0], f));
    assert(bool_step(code[0], f) == f.update(d as int, Val::Bool(v)));
    assert(bool_run(code.subrange(0, 0), f) == f);
    assert(bool_run_ok(code.subrange(0, 0), f));
}

/// A run of boolean steps that is fine as a whole is fine up to each point, and each of its
/// instructions is a boolean step from the frame its predecessors leave.
pub proof fn lemma_bool_run_prefix(code: Seq<Instr>, f: Seq<Val>, i: int)
    requires
        bool_run_ok(code, f),
        0 <= i < code.len(),
    ensures
        bool_run_ok(code.take(i), f),
        bool_step_ok(code[i], bool_run(code.take(i), f)),
        bool_run(code.take(i + 1), f) == bool_step(code[i], bool_run(code.take(i), f)),
    decreases code.len(),
{
    let pre = code.subrange(0, code.len() - 1);
    assert(code.take(i + 1).subrange(0, i) =~= code.take(i));
    assert(code.take(i + 1)[i] == code[i]);
    if i == code.len() - 1 {
        assert(pre =~= code.take(i));
    } else {
        lemma_bool_run_prefix(pre, f, i);
        assert(pre.take(i) =~= code.take(i));
        assert(pre[i] == code[i]);
        assert(pre.take(i + 1) =~= code.take(i + 1));
    }
}

/// Whether `y` is a copy of `x`.
pub open spec fn copied(x: Val, y: Val) -> bool {
    crate::ir::same_value(x, y)
}

/// The end a range `a..b` reaches in a sequence of `len` elements: `b`, or `len` when open.
pub open spec fn range_end(b: Option<i64>, len: int) -> int {
    match b {
        Some(e) => e as int,
        None => len,
    }
}

/// The index bounds a range selects from a sequence of `len` elements.
fn slice_bounds(a: i64, b: Option<i64>, len: usize) -> (r: Result<(usize, usize), Vec<u8>>)
    ensures
        r matches Ok((lo, hi)) ==> lo <= hi <= len,
        r is Ok <==> (match b {
            Some(e) => 0 <= e,
            None => true,
        }) && 0 <= a <= (match b {
            Some(e) => e as int,
            None => len as int,
        }) <= len,
        r matches Ok((lo, hi)) ==> lo == a && hi == (match b {
            Some(e) => e as int,
            None => len as int,
        }),
{
    let end: u64 = match b {
        Some(e) => {
            if e < 0 {
                return Err(lit("slice out of bounds"));
            }
            e as u64
        },
        None => len as u64,
    };
    if a < 0 || a as u64 > end || end > len as u64 {
        return Err(lit("slice out of bounds"));
    }
    Ok((a as usize, end as usize))
}

/// A fresh frame for a function: its arguments, then empty slots.
fn new_frame(func: &Func, args: Vec<Val>) -> (r: Vec<Val>)
    ensures
        r@.len() == if args@.len() >= func.nslots {
            args@.len()
        } else {
            func.nslots as nat
        },
        r@.subrange(0, args@.len() as int) == args@,
        forall|i: int| args@.len() <= i < r@.len() ==> r@[i] == Val::Unit,
{
    let mut frame: Vec<Val> = Vec::new();
    let ghost given = args@;
    let mut args = args;
    let mut rev: Vec<Val> = Vec::new();
    while args.len() > 0
        invariant
            args@.len() + rev@.len() == given.len(),
            args@ == given.subrange(0, args@.len() as int),
            forall|i: int| 0 <= i < rev@.len() ==> rev@[i] == given[given.len() - 1 - i],
        decreases args@.len(),
    {
        rev.push(args.pop().unwrap());
    }
    while rev.len() > 0
        invariant
            frame@.len() + rev@.len() == given.len(),
            frame@ == given.subrange(0, frame@.len() as int),
            forall|i: int| 0 <= i < rev@.len() ==> rev@[i] == given[given.len() - 1 - i],
        decreases rev@.len(),
    {
        frame.push(rev.pop().unwrap());
    }
    while frame.len() < func.nslots
        invariant
            frame@.len() >= given.len(),
            frame@.subrange(0, given.len() as int) == given,
            forall|i: int| given.len() <= i < frame@.len() ==> frame@[i] == Val::Unit,
            frame@.len() <= given.len() || frame@.len() <= func.nslots,
        decreases func.nslots - frame@.len(),
    {
        frame.push(Val::Unit);
    }
    frame
}

/// The copies of the values in some slots.
fn gather(frame: &Vec<Val>, slots: &Vec<usize>) -> (r: Result<Vec<Val>, Vec<u8>>)
    ensures
        r is Ok <==> forall|i: int| 0 <= i < slots@.len() ==> #[trigger] slots@[i] < frame@.len(),
        r matches Ok(v) ==> v@.len() == slots@.len(),
{
    let mut out: Vec<Val> = Vec::new();
    let mut i: usize = 0;
    while i < slots.len()
        invariant
            i <= slots@.len(),
            out@.len() == i,
            forall|j: int| 0 <= j < i ==> #[trigger] slots@[j] < frame@.len(),
        decreases slots@.len() - i,
    {
        out.push(get(frame, slots[i])?);
        i = i + 1;
    }
    Ok(out)
}

/// Whether `b` is `a` with more bytes after it: a stream only ever grows at its end.
pub open spec fn extends(a: Seq<u8>, b: Seq<u8>) -> bool {
    &&& a.len() <= b.len()
    &&& forall|i: int| 0 <= i < a.len() ==> #[trigger] b[i] == a[i]
}

impl<'p> Machine<'p> {
    /// Run a function on its arguments.
    pub(crate) fn call(&mut self, f: usize, args: Vec<Val>, depth: u64) -> (r: Result<Val, Vec<u8>>)
        ensures
            depth == 0 ==> (r matches Err(m) && m@ == "stack overflow".spec_bytes()) && final(self).out == old(self).out
                && final(self).err == old(self).err,
            depth > 0 && f >= old(self).funcs@.len() ==> (r matches Err(m) && m@ == "bad function".spec_bytes())
                && final(self).out == old(self).out && final(self).err == old(self).err,
            final(self).gas <= old(self).gas,
            final(self).funcs == old(self).funcs,
            final(self).enums == old(self).enums,
            extends(old(self).out@, final(self).out@),
            extends(old(self).err@, final(self).err@),
            forall|n: i64|
                depth > 0 && f < old(self).funcs@.len() && args@.len() == 0 && old(self).funcs@[f as int].nslots >= 2
                    && #[trigger] literal_body(old(self).funcs@[f as int].body@, n) ==> r == Ok::<Val, Vec<u8>>(Val::Unit)
                    && final(self).out@ == old(self).out@ + int_line(n) && final(self).err == old(self).err,
            forall|op: BinOp, a: i64, b: i64|
                depth > 0 && f < old(self).funcs@.len() && args@.len() == 0 && old(self).funcs@[f as int].nslots >= 4
                    && #[trigger] sum_body(old(self).funcs@[f as int].body@, op, a, b) && crate::lower::ring_op(op) ==> r == Ok::<
                    Val,
                    Vec<u8>,
                >(Val::Unit) && final(self).out@ == old(self).out@ + int_line(ring_value(op, a, b)) && final(self).err == old(self).err,
    {
        if depth == 0 {
            return Err(lit("stack overflow"));
        }
        let funcs = self.funcs;
        if f >= funcs.len() {
            return Err(lit("bad function"));
        }
        let func = &funcs[f];
        let mut frame = new_frame(func, args);
        match self.run_block(&func.body, &mut frame, depth - 1) {
            Flow::Return(v) => Ok(v),
            Flow::Abort(m) => Err(m),
            _ => Ok(Val::Unit),
        }
    }

    /// Run a block of instructions.
    pub(crate) fn run_block(&mut self, code: &Vec<Instr>, frame: &mut Vec<Val>, depth: u64) -> (r: Flow)
        ensures
            code@.len() == 0 ==> r is Next && final(self).out == old(self).out && final(frame)@ == old(frame)@,
            bool_run_ok(code@, old(frame)@) ==> r is Next && final(frame)@ == bool_run(code@, old(frame)@) && final(self).out
                == old(self).out && final(self).err == old(self).err,
            final(self).gas <= old(self).gas,
            final(self).funcs == old(self).funcs,
            final(self).enums == old(self).enums,
            extends(old(self).out@, final(self).out@),
            extends(old(self).err@, final(self).err@),
            forall|n: i64| #[trigger] literal_body(code@, n) && old(frame)@.len() >= 2 ==> r == Flow::Return(Val::Unit)
                && final(self).out@ == old(self).out@ + int_line(n) && final(self).err == old(self).err,
            forall|op: BinOp, a: i64, b: i64|
                #[trigger] sum_body(code@, op, a, b) && crate::lower::ring_op(op) && old(frame)@.len() >= 4 ==> r == Flow::Return(
                    Val::Unit,
                ) && final(self).out@ == old(self).out@ + int_line(ring_value(op, a, b)) && final(self).err == old(self).err,
        decreases depth, code,
    {
        let ghost sm = exists|op: BinOp, a: i64, b: i64|
            #[trigger] sum_body(code@, op, a, b) && crate::lower::ring_op(op) && old(frame)@.len() >= 4;
        let ghost sa: i64 = code@[0]->Store_1->Const_0->Int_0;
        let ghost sb: i64 = code@[1]->Store_1->Const_0->Int_0;
        let ghost sop: BinOp = code@[2]->Store_1->Arith_0;
        let ghost sv: i64 = ring_value(sop, sa, sb);
        proof {
            if sm {
                let (op, a, b) = choose|op: BinOp, a: i64, b: i64|
                    #[trigger] sum_body(code@, op, a, b) && crate::lower::ring_op(op) && old(frame)@.len() >= 4;
                assert(code@[0] == code@.take(3)[0]);
                assert(code@[1] == code@.take(3)[1]);
                assert(code@[2] == code@.take(3)[2]);
                assert(sa == a && sb == b && sop == op);
            }
        }
        let ghost lit = exists|n: i64| #[trigger] literal_body(code@, n) && old(frame)@.len() >= 2;
        let ghost n: i64 = code@[0]->Store_1->Const_0->Int_0;
        let ghost ob = bool_run_ok(code@, old(frame)@);
        assert(code@.take(0) =~= Seq::<Instr>::empty());
        let mut i: usize = 0;
        while i < code.len()
            invariant
                i <= code@.len(),
                ob == bool_run_ok(code@, old(frame)@),
                ob ==> frame@ == bool_run(code@.take(i as int), old(frame)@) && self.out == old(self).out && self.err == old(
                    self,
                ).err,
                lit == (exists|n: i64| #[trigger] literal_body(code@, n) && old(frame)@.len() >= 2),
                lit ==> literal_body(code@, n) && i <= 3 && frame@.len() == old(frame)@.len() && self.err == old(self).err,
                lit && i == 0 ==> self.out == old(self).out,
                lit && i >= 1 ==> frame@[0] == Val::Int(n),
                lit && i == 1 ==> self.out == old(self).out,
                lit && i >= 2 ==> self.out@ == old(self).out@ + int_line(n),
                lit && i >= 3 ==> frame@[1] == Val::Unit,
                sm == (exists|op: BinOp, a: i64, b: i64|
                    #[trigger] sum_body(code@, op, a, b) && crate::lower::ring_op(op) && old(frame)@.len() >= 4),
                sm ==> sum_body(code@, sop, sa, sb) && crate::lower::ring_op(sop) && i <= 5 && frame@.len() == old(frame)@.len()
                    && old(frame)@.len() >= 4
                    && self.err == old(self).err && code@[0] == Instr::Store(0, Op::Const(Val::Int(sa))) && code@[1] == Instr::Store(
                    1,
                    Op::Const(Val::Int(sb)),
                ) && code@[2] == Instr::Store(2, Op::Arith(sop, 0, 1, NumKind { width: 64, signed: true })),
                sv == ring_value(sop, sa, sb),
                sm && i <= 3 ==> self.out == old(self).out,
                sm && i >= 1 ==> frame@[0] == Val::Int(sa),
                sm && i >= 2 ==> frame@[1] == Val::Int(sb),
                sm && i >= 3 ==> frame@[2] == Val::Int(sv),
                sm && i >= 4 ==> self.out@ == old(self).out@ + int_line(sv),
                sm && i >= 5 ==> frame@[3] == Val::Unit,
                self.gas <= old(self).gas,
                self.funcs == old(self).funcs,
                self.enums == old(self).enums,
                code@.len() == 0 ==> self.out == old(self).out && frame@ == old(frame)@,
                extends(old(self).out@, self.out@),
                extends(old(self).err@, self.err@),
            decreases code@.len() - i,
        {
            proof {
                vstd::std_specs::vec::axiom_vec_index_decreases(*code, i as int);
                if lit && i == 1 {
                    let its = seq![(0usize, Typ::Int(64))];
                    assert(spec_fmt_leaf(frame@[0], Typ::Int(64), false) == Some(crate::text::spec_decimal(n as int)));
                    assert(all_leaves(frame@, its));
                    assert(its.drop_last() =~= Seq::<(usize, Typ)>::empty());
                    assert(its.len() == 1 && its.last() == (0usize, Typ::Int(64)));
                    assert(print_line(frame@, its.drop_last()) == Seq::<u8>::empty());
                    assert(print_line(frame@, its) =~= Seq::<u8>::empty() + Seq::<u8>::empty() + crate::text::spec_decimal(n as int));
                }
                if sm && i == 3 {
                    let its = seq![(2usize, Typ::Int(64))];
                    assert(spec_fmt_leaf(frame@[2], Typ::Int(64), false) == Some(crate::text::spec_decimal(sv as int)));
                    assert(all_leaves(frame@, its));
                    assert(its.drop_last() =~= Seq::<(usize, Typ)>::empty());
                    assert(its.len() == 1 && its.last() == (2usize, Typ::Int(64)));
                    assert(print_line(frame@, its.drop_last()) == Seq::<u8>::empty());
                    assert(print_line(frame@, its) =~= Seq::<u8>::empty() + Seq::<u8>::empty() + crate::text::spec_decimal(sv as int));
                }
                if sm && i == 2 {
                    assert(int_at(frame@, 0) && int_at(frame@, 1));
                    assert(code@[2] == Instr::Store(2, Op::Arith(sop, 0, 1, NumKind { width: 64, signed: true })));
                    assert(frame@[0]->Int_0 == sa && frame@[1]->Int_0 == sb);
                }
            }
            let ghost out0 = self.out@;
            proof {
                if ob {
                    lemma_bool_run_prefix(code@, old(frame)@, i as int);
                }
            }
            match self.run_instr(&code[i], frame, depth) {
                Flow::Next => {},
                other => {
                    proof {
                        if lit {
                            assert(i == 3);
                            assert(other == Flow::Return(Val::Unit));
                            assert forall|m: i64| #[trigger] literal_body(code@, m) && old(frame)@.len() >= 2 implies m == n by {
                                assert(code@[0] == Instr::Store(0, Op::Const(Val::Int(m))));
                            }
                        }
                        if sm {
                            assert(i == 5);
                            assert(other == Flow::Return(Val::Unit));
                            assert forall|op: BinOp, a: i64, b: i64|
                                #[trigger] sum_body(code@, op, a, b) && crate::lower::ring_op(op) && old(frame)@.len() >= 4 implies op == sop
                                && a == sa && b == sb by {
                                assert(code@[0] == code@.take(3)[0]);
                                assert(code@[1] == code@.take(3)[1]);
                                assert(code@[2] == code@.take(3)[2]);
                            }
                        }
                    }
                    return other;
                },
            }
            proof {
                if lit && i == 1 {
                    assert(self.out@ =~= old(self).out@ + int_line(n));
                }
                if sm && i == 3 {
                    assert(self.out@ =~= old(self).out@ + int_line(sv));
                }
                if sm && i == 2 {
                    assert(frame@[2] == Val::Int(ring_value(sop, sa, sb)));
                }
            }
            i = i + 1;
        }
        assert(code@.take(code@.len() as int) =~= code@);
        Flow::Next
    }

    /// The function with an index, if there is one.
    fn func(&self, f: usize) -> (r: Result<&'p Func, Vec<u8>>)
        ensures
            r is Ok <==> f < self.funcs@.len(),
            r matches Ok(func) ==> *func == self.funcs@[f as int],
            r matches Err(m) ==> m@ == "bad function".spec_bytes(),
    {
        let funcs = self.funcs;
        if f < funcs.len() {
            Ok(&funcs[f])
        } else {
            Err(lit("bad function"))
        }
    }

    /// Run one instruction.
    #[verifier::loop_isolation(false)]
    pub(crate) fn run_instr(&mut self, ins: &Instr, frame: &mut Vec<Val>, depth: u64) -> (r: Flow)
        ensures
            final(self).gas <= old(self).gas,
            final(self).funcs == old(self).funcs,
            final(self).enums == old(self).enums,
            extends(old(self).out@, final(self).out@),
            extends(old(self).err@, final(self).err@),
            *ins matches Instr::Store(dst, Op::Const(v)) ==> ((v is Int || v is Unit || v is Bool) && dst < old(frame)@.len() ==> r is Next
                && final(frame)@ == old(frame)@.update(dst as int, v) && final(self).out == old(self).out && final(self).err == old(
                self,
            ).err),
            *ins matches Instr::Return(s) ==> (s < old(frame)@.len() && old(frame)@[s as int] is Unit ==> r == Flow::Return(Val::Unit)),
            *ins is Return ==> final(self).out == old(self).out && final(self).err == old(self).err,
            *ins matches Instr::Store(dst, Op::Arith(op, a, b, k)) ==> (crate::lower::ring_op(op) && k == (NumKind { width: 64, signed: true })
                && dst < old(frame)@.len() && int_at(old(frame)@, a) && int_at(old(frame)@, b) ==> r is Next && final(frame)@ == old(
            frame,
            )@.update(dst as int, Val::Int(ring_value(op, old(frame)@[a as int]->Int_0, old(frame)@[b as int]->Int_0)))
                && final(self).out == old(self).out && final(self).err == old(self).err),
            *ins is Break ==> r is Break && final(frame)@ == old(frame)@,
            *ins is Continue ==> r is Continue && final(frame)@ == old(frame)@,
            *ins matches Instr::Return(s) ==> (r is Return <==> s < old(frame)@.len()) && (r is Return || r is Abort)
                && final(frame)@ == old(frame)@,
            *ins matches Instr::Store(dst, o) ==> (!(o is Call) && !(o is CallValue) ==> {
                &&& r is Next || r is Abort
                &&& r is Next ==> dst < old(frame)@.len() && final(frame)@.len() == old(frame)@.len() && forall|i: int|
                    0 <= i < old(frame)@.len() && i != dst ==> final(frame)@[i] == old(frame)@[i]
                &&& r is Abort ==> final(frame)@ == old(frame)@
            }),
            *ins matches Instr::If(c, _, _) ==> (!(c < old(frame)@.len() && old(frame)@[c as int] is Bool) ==> r is Abort
                && final(frame)@ == old(frame)@),
            bool_step_ok(*ins, old(frame)@) ==> r is Next && final(frame)@ == bool_step(*ins, old(frame)@) && final(self).out
                == old(self).out && final(self).err == old(self).err,
            *ins matches Instr::Store(dst, Op::Copy(src)) ==> (dst < old(frame)@.len() && src < old(frame)@.len() && old(
                frame,
            )@[src as int] is Bool ==> r is Next && final(frame)@ == old(frame)@.update(dst as int, old(frame)@[src as int])
                && final(self).out == old(self).out && final(self).err == old(self).err),
            *ins is Print ==> (r is Next || r is Abort) && final(frame)@ == old(frame)@,
            *ins matches Instr::Print(to_err, newline, items) ==> (all_leaves(old(frame)@, items@) ==> {
                let line = print_line(old(frame)@, items@) + if newline {
                    seq![10u8]
                } else {
                    Seq::empty()
                };
                &&& r is Next
                &&& to_err ==> final(self).err@ == old(self).err@ + line && final(self).out == old(self).out
                &&& !to_err ==> final(self).out@ == old(self).out@ + line && final(self).err == old(self).err
            }),
        decreases depth, ins,
    {
        match ins {
            Instr::Store(dst, Op::Call(f, args)) => {
                let vals = match gather(frame, args) {
                    Ok(v) => v,
                    Err(m) => {
                        return Flow::Abort(m);
                    },
                };
                if depth == 0 {
                    return Flow::Abort(lit("stack overflow"));
                }
                let func = match self.func(*f) {
                    Ok(func) => func,
                    Err(m) => {
                        return Flow::Abort(m);
                    },
                };
                let mut callee = new_frame(func, vals);
                let v = match self.run_block(&func.body, &mut callee, depth - 1) {
                    Flow::Return(v) => v,
                    Flow::Abort(m) => {
                        return Flow::Abort(m);
                    },
                    _ => Val::Unit,
                };
                match put(frame, *dst, v) {
                    Ok(()) => Flow::Next,
                    Err(m) => Flow::Abort(m),
                }
            },
            Instr::Store(dst, Op::CallValue(s, args)) => {
                let f = match get(frame, *s) {
                    Ok(Val::Fn(f)) => f,
                    _ => {
                        return Flow::Abort(lit("not a function"));
                    },
                };
                let vals = match gather(frame, args) {
                    Ok(v) => v,
                    Err(m) => {
                        return Flow::Abort(m);
                    },
                };
                if depth == 0 {
                    return Flow::Abort(lit("stack overflow"));
                }
                let func = match self.func(f) {
                    Ok(func) => func,
                    Err(m) => {
                        return Flow::Abort(m);
                    },
                };
                let mut callee = new_frame(func, vals);
                let v = match self.run_block(&func.body, &mut callee, depth - 1) {
                    Flow::Return(v) => v,
                    Flow::Abort(m) => {
                        return Flow::Abort(m);
                    },
                    _ => Val::Unit,
                };
                match put(frame, *dst, v) {
                    Ok(()) => Flow::Next,
                    Err(m) => Flow::Abort(m),
                }
            },
            Instr::Store(dst, op) => match self.eval(op, frame) {
                Ok(v) => match put(frame, *dst, v) {
                    Ok(()) => Flow::Next,
                    Err(m) => Flow::Abort(m),
                },
                Err(m) => Flow::Abort(m),
            },
            Instr::If(c, a, b) => match get_bool(frame, *c) {
                Ok(true) => self.run_block(a, frame, depth),
                Ok(false) => self.run_block(b, frame, depth),
                Err(m) => Flow::Abort(m),
            },
            Instr::Loop(body) => {
                loop
                    invariant
                        self.gas <= old(self).gas,
                        self.funcs == old(self).funcs,
                        self.enums == old(self).enums,
                        extends(old(self).out@, self.out@),
                        extends(old(self).err@, self.err@),
                    decreases self.gas,
                {
                    if self.gas == 0 {
                        return Flow::Abort(lit("the program ran out of steps"));
                    }
                    self.gas = self.gas - 1;
                    match self.run_block(body, frame, depth) {
                        Flow::Next => {},
                        Flow::Continue => {},
                        Flow::Break => {
                            return Flow::Next;
                        },
                        other => {
                            return other;
                        },
                    }
                }
            },
            Instr::Break => Flow::Break,
            Instr::Continue => Flow::Continue,
            Instr::Return(s) => match get(frame, *s) {
                Ok(v) => Flow::Return(v),
                Err(m) => Flow::Abort(m),
            },
            Instr::Print(to_err, newline, args) => {
                let mut text: Vec<u8> = Vec::new();
                let mut i: usize = 0;
                while i < args.len()
                    invariant
                        i <= args@.len(),
                        all_leaves(frame@, args@) ==> text@ == print_line(frame@, args@.take(i as int)),
                    decreases args@.len() - i,
                {
                    let (slot, t) = (args[i].0, &args[i].1);
                    if slot >= frame.len() {
                        return Flow::Abort(lit("bad slot"));
                    }
                    if i > 0 {
                        text.push(32);
                    }
                    fmt_val(&mut text, &frame[slot], t, self.enums, false, 64);
                    proof {
                        if all_leaves(frame@, args@) {
                            assert(args@.take(i + 1).drop_last() =~= args@.take(i as int));
                            assert(args@.take(i + 1).last() == args@[i as int]);
                            assert(text@ =~= print_line(frame@, args@.take(i + 1)));
                        }
                    }
                    i = i + 1;
                }
                proof {
                    assert(args@.take(args@.len() as int) =~= args@);
                }
                if *newline {
                    text.push(10);
                }
                if *to_err {
                    push_all(&mut self.err, text.as_slice());
                } else {
                    push_all(&mut self.out, text.as_slice());
                }
                Flow::Next
            },
            Instr::SetField(slot, path, src) => {
                let v = match get(frame, *src) {
                    Ok(v) => v,
                    Err(m) => {
                        return Flow::Abort(m);
                    },
                };
                if *slot >= frame.len() {
                    return Flow::Abort(lit("bad slot"));
                }
                let mut target = frame[*slot].copy();
                match set_path(&mut target, path, 0, v) {
                    Ok(()) => {},
                    Err(m) => {
                        return Flow::Abort(m);
                    },
                }
                frame.set(*slot, target);
                Flow::Next
            },
            Instr::SetIndex(slot, idx, src) => {
                let v = match get(frame, *src) {
                    Ok(v) => v,
                    Err(m) => {
                        return Flow::Abort(m);
                    },
                };
                let i = match get_int(frame, *idx) {
                    Ok(i) => i,
                    Err(m) => {
                        return Flow::Abort(m);
                    },
                };
                if *slot >= frame.len() {
                    return Flow::Abort(lit("bad slot"));
                }
                match frame[*slot].copy() {
                    Val::Array(mut vs) => {
                        if i < 0 || i as u64 >= vs.len() as u64 {
                            return Flow::Abort(lit("index out of bounds"));
                        }
                        vs.set(i as usize, v);
                        frame.set(*slot, Val::Array(vs));
                        Flow::Next
                    },
                    _ => Flow::Abort(lit("not an array")),
                }
            },
            Instr::Push(slot, src) => {
                let v = match get(frame, *src) {
                    Ok(v) => v,
                    Err(m) => {
                        return Flow::Abort(m);
                    },
                };
                if *slot >= frame.len() {
                    return Flow::Abort(lit("bad slot"));
                }
                match frame[*slot].copy() {
                    Val::Array(mut vs) => {
                        vs.push(v);
                        frame.set(*slot, Val::Array(vs));
                        Flow::Next
                    },
                    _ => Flow::Abort(lit("not an array")),
                }
            },
            Instr::DictSet(slot, key, src) => {
                let k = match get(frame, *key) {
                    Ok(v) => v,
                    Err(m) => {
                        return Flow::Abort(m);
                    },
                };
                let v = match get(frame, *src) {
                    Ok(v) => v,
                    Err(m) => {
                        return Flow::Abort(m);
                    },
                };
                if *slot >= frame.len() {
                    return Flow::Abort(lit("bad slot"));
                }
                match frame[*slot].copy() {
                    Val::Dict(mut ks, mut vs) => {
                        if ks.len() != vs.len() {
                            return Flow::Abort(lit("bad map"));
                        }
                        map_put(&mut ks, &mut vs, k, v);
                        frame.set(*slot, Val::Dict(ks, vs));
                        Flow::Next
                    },
                    _ => Flow::Abort(lit("not a map")),
                }
            },
            Instr::DictRemove(slot, key) => {
                let k = match get(frame, *key) {
                    Ok(v) => v,
                    Err(m) => {
                        return Flow::Abort(m);
                    },
                };
                if *slot >= frame.len() {
                    return Flow::Abort(lit("bad slot"));
                }
                match frame[*slot].copy() {
                    Val::Dict(mut ks, mut vs) => {
                        if ks.len() != vs.len() {
                            return Flow::Abort(lit("bad map"));
                        }
                        map_drop(&mut ks, &mut vs, &k);
                        frame.set(*slot, Val::Dict(ks, vs));
                        Flow::Next
                    },
                    _ => Flow::Abort(lit("not a map")),
                }
            },
            Instr::Abort(m) => Flow::Abort(m.clone()),
            Instr::SetGlobal(g, src) => {
                let v = match get(frame, *src) {
                    Ok(v) => v,
                    Err(m) => {
                        return Flow::Abort(m);
                    },
                };
                if *g >= 1_000_000 {
                    return Flow::Abort(lit("bad static"));
                }
                while self.globals.len() <= *g
                    invariant
                        self.gas <= old(self).gas,
                        self.funcs == old(self).funcs,
                        self.enums == old(self).enums,
                        self.out == old(self).out,
                        self.err == old(self).err,
                        *g < 1_000_000,
                    decreases *g + 1 - self.globals@.len(),
                {
                    self.globals.push(Val::Unit);
                }
                self.globals.set(*g, v);
                Flow::Next
            },
        }
    }

    /// Compute an operation's value.
    pub(crate) fn eval(&self, op: &Op, frame: &Vec<Val>) -> (r: Result<Val, Vec<u8>>)
        ensures
            *op matches Op::Copy(s) ==> (r is Ok <==> s < frame@.len()),
            *op matches Op::Copy(s) ==> (r matches Ok(v) ==> copied(frame@[s as int], v)),
            *op matches Op::Const(Val::Bool(b)) ==> r == Ok::<Val, Vec<u8>>(Val::Bool(b)),
            *op matches Op::Const(Val::Int(n)) ==> r == Ok::<Val, Vec<u8>>(Val::Int(n)),
            *op matches Op::Const(Val::Unit) ==> r == Ok::<Val, Vec<u8>>(Val::Unit),
            *op matches Op::Not(s) ==> (r is Ok <==> s < frame@.len() && frame@[s as int] is Bool),
            *op matches Op::Not(s) ==> (r matches Ok(v) ==> v == Val::Bool(!frame@[s as int]->Bool_0)),
            *op matches Op::Neg(s, k) ==> (r is Ok <==> int_at(frame@, s)),
            *op matches Op::Neg(s, k) ==> (r matches Ok(v) ==> v == Val::Int(
                spec_narrow(0i64.wrapping_sub(frame@[s as int]->Int_0), k) as i64,
            )),
            *op matches Op::BitNot(s, k) ==> (r is Ok <==> int_at(frame@, s)),
            *op matches Op::BitNot(s, k) ==> (r matches Ok(v) ==> v == Val::Int(
                spec_narrow(!frame@[s as int]->Int_0, k) as i64,
            )),
            *op matches Op::Arith(o, a, b, k) ==> (r is Ok ==> int_at(frame@, a) && int_at(frame@, b)),
            *op matches Op::Arith(BinOp::Add, a, b, k) ==> (int_at(frame@, a) && int_at(frame@, b) ==> r == Ok::<Val, Vec<u8>>(Val::Int(
                spec_narrow(frame@[a as int]->Int_0.wrapping_add(frame@[b as int]->Int_0), k) as i64,
            ))),
            *op matches Op::Arith(BinOp::Sub, a, b, k) ==> (int_at(frame@, a) && int_at(frame@, b) ==> r == Ok::<Val, Vec<u8>>(Val::Int(
                spec_narrow(frame@[a as int]->Int_0.wrapping_sub(frame@[b as int]->Int_0), k) as i64,
            ))),
            *op matches Op::Arith(BinOp::Mul, a, b, k) ==> (int_at(frame@, a) && int_at(frame@, b) ==> r == Ok::<Val, Vec<u8>>(Val::Int(
                spec_narrow(frame@[a as int]->Int_0.wrapping_mul(frame@[b as int]->Int_0), k) as i64,
            ))),
            *op matches Op::Cmp(o, a, b, k) ==> (a >= frame@.len() || b >= frame@.len() ==> r is Err),
            *op matches Op::Cmp(BinOp::Eq, a, b, k) ==> (a < frame@.len() && b < frame@.len() && !both_compound(
                frame@[a as int],
                frame@[b as int],
            ) ==> r == Ok::<Val, Vec<u8>>(Val::Bool(leaf_eq(frame@[a as int], frame@[b as int])))),
            *op matches Op::Cmp(BinOp::Ne, a, b, k) ==> (a < frame@.len() && b < frame@.len() && !both_compound(
                frame@[a as int],
                frame@[b as int],
            ) ==> r == Ok::<Val, Vec<u8>>(Val::Bool(!leaf_eq(frame@[a as int], frame@[b as int])))),
            *op matches Op::Cmp(BinOp::Lt, a, b, k) ==> (int_at(frame@, a) && int_at(frame@, b) && (k.signed || k.width < 64) ==> r
                == Ok::<Val, Vec<u8>>(Val::Bool(frame@[a as int]->Int_0 < frame@[b as int]->Int_0))),
            *op matches Op::Cmp(BinOp::Le, a, b, k) ==> (int_at(frame@, a) && int_at(frame@, b) && (k.signed || k.width < 64) ==> r
                == Ok::<Val, Vec<u8>>(Val::Bool(frame@[a as int]->Int_0 <= frame@[b as int]->Int_0))),
            *op matches Op::Cmp(BinOp::Gt, a, b, k) ==> (int_at(frame@, a) && int_at(frame@, b) && (k.signed || k.width < 64) ==> r
                == Ok::<Val, Vec<u8>>(Val::Bool(frame@[a as int]->Int_0 > frame@[b as int]->Int_0))),
            *op matches Op::Cmp(BinOp::Ge, a, b, k) ==> (int_at(frame@, a) && int_at(frame@, b) && (k.signed || k.width < 64) ==> r
                == Ok::<Val, Vec<u8>>(Val::Bool(frame@[a as int]->Int_0 >= frame@[b as int]->Int_0))),
            *op is Call || *op is CallValue ==> r is Err,
            *op matches Op::Concat(x, y) ==> (x < frame@.len() && y < frame@.len() ==> (frame@[x as int] matches Val::Str(a) ==> (
            frame@[y as int] matches Val::Str(b) ==> (r matches Ok(Val::Str(o)) && o@ == a@ + b@)))),
            *op matches Op::Len(x) ==> (x < frame@.len() ==> (frame@[x as int] matches Val::Str(a) ==> r == Ok::<Val, Vec<u8>>(
                Val::Int(a@.len() as i64),
            ))),
            *op matches Op::Len(x) ==> (x < frame@.len() ==> (frame@[x as int] matches Val::Array(a) ==> r == Ok::<Val, Vec<u8>>(
                Val::Int(a@.len() as i64),
            ))),
            *op matches Op::Index(x, ix) ==> (x < frame@.len() && ix < frame@.len() ==> (frame@[ix as int] matches Val::Int(k) ==> (
            frame@[x as int] matches Val::Str(a) ==> (r is Ok <==> 0 <= k < a@.len()) && (0 <= k < a@.len() ==> r
                == Ok::<Val, Vec<u8>>(Val::Int(a@[k as int] as i64)))))),
            *op matches Op::Index(x, ix) ==> (x < frame@.len() && ix < frame@.len() ==> (frame@[ix as int] matches Val::Int(k) ==> (
            frame@[x as int] matches Val::Array(a) ==> (r is Ok <==> 0 <= k < a@.len()) && (r matches Ok(v) ==> copied(
                a@[k as int],
                v,
            ))))),
            *op matches Op::Slice(c, rg) ==> (c < frame@.len() && rg < frame@.len() ==> (frame@[rg as int] matches Val::Range(
                a,
                b,
                step,
            ) ==> (frame@[c as int] matches Val::Str(bs) ==> (step == 1 && (b is None || b->0 >= 0) && 0 <= a <= range_end(
                b,
                bs@.len() as int,
            ) <= bs@.len() ==> (r matches Ok(Val::Str(out)) && out@ == bs@.subrange(a as int, range_end(b, bs@.len() as int))))))),
            *op matches Op::Slice(c, rg) ==> (c < frame@.len() && rg < frame@.len() ==> (frame@[rg as int] matches Val::Range(
                a,
                b,
                step,
            ) ==> (frame@[c as int] matches Val::Array(vs) ==> (step == 1 && (b is None || b->0 >= 0) && 0 <= a <= range_end(
                b,
                vs@.len() as int,
            ) <= vs@.len() ==> (r matches Ok(Val::Array(out)) && out@.len() == range_end(b, vs@.len() as int) - a && forall|k: int|
                0 <= k < out@.len() ==> copied(vs@[a + k], #[trigger] out@[k])))))),
    {
        match op {
            Op::Const(v) => Ok(v.copy()),
            Op::Copy(s) => get(frame, *s),
            Op::Neg(s, k) => {
                let n = get_int(frame, *s)?;
                Ok(Val::Int(narrow(0i64.wrapping_sub(n), *k)))
            },
            Op::Not(s) => Ok(Val::Bool(!get_bool(frame, *s)?)),
            Op::BitNot(s, k) => {
                let n = get_int(frame, *s)?;
                Ok(Val::Int(narrow(!n, *k)))
            },
            Op::Arith(o, a, b, k) => {
                let x = get_int(frame, *a)?;
                let y = get_int(frame, *b)?;
                Ok(Val::Int(arith(*o, x, y, *k)?))
            },
            Op::Cmp(o, a, b, k) => {
                if *a >= frame.len() || *b >= frame.len() {
                    return Err(lit("bad slot"));
                }
                let (x, y) = (&frame[*a], &frame[*b]);
                let r = match o {
                    BinOp::Eq => val_eq(x, y),
                    BinOp::Ne => !val_eq(x, y),
                    _ => match (x, y) {
                        (Val::Int(p), Val::Int(q)) => {
                            let (p, q) = if !k.signed && k.width >= 64 {
                                ((*p as u64) as i128, (*q as u64) as i128)
                            } else {
                                (*p as i128, *q as i128)
                            };
                            match o {
                                BinOp::Lt => p < q,
                                BinOp::Gt => p > q,
                                BinOp::Le => p <= q,
                                _ => p >= q,
                            }
                        },
                        _ => {
                            return Err(lit("cannot order these values"));
                        },
                    },
                };
                Ok(Val::Bool(r))
            },
            Op::Concat(a, b) => match (get(frame, *a)?, get(frame, *b)?) {
                (Val::Str(x), Val::Str(y)) => {
                    let mut x = x;
                    push_all(&mut x, y.as_slice());
                    Ok(Val::Str(x))
                },
                _ => Err(lit("cannot concatenate")),
            },
            Op::Show(s, t) => {
                let v = get(frame, *s)?;
                let mut out: Vec<u8> = Vec::new();
                fmt_val(&mut out, &v, t, self.enums, false, 64);
                Ok(Val::Str(out))
            },
            Op::Call(_, _) | Op::CallValue(_, _) => Err(lit("calls run as instructions")),
            Op::Tuple(slots) => Ok(Val::Tuple(gather(frame, slots)?)),
            Op::Array(slots) => Ok(Val::Array(gather(frame, slots)?)),
            Op::Field(s, i) => match get(frame, *s)? {
                Val::Tuple(vs) => {
                    if *i < vs.len() {
                        Ok(vs[*i].copy())
                    } else {
                        Err(lit("bad field"))
                    }
                },
                _ => Err(lit("not a struct")),
            },
            Op::Index(s, ix) => {
                let i = get_int(frame, *ix)?;
                match get(frame, *s)? {
                    Val::Array(vs) => {
                        if i < 0 || i as u64 >= vs.len() as u64 {
                            Err(lit("index out of bounds"))
                        } else {
                            let v = vs[i as usize].copy();
                            proof {
                                if frame@[*s as int] is Array {
                                    let fv = frame@[*s as int]->Array_0;
                                    crate::ir::lemma_same_value_trans(fv@[i as int], vs@[i as int], v);
                                }
                            }
                            Ok(v)
                        }
                    },
                    Val::Str(bs) => {
                        if i < 0 || i as u64 >= bs.len() as u64 {
                            Err(lit("index out of bounds"))
                        } else {
                            Ok(Val::Int(bs[i as usize] as i64))
                        }
                    },
                    _ => Err(lit("not indexable")),
                }
            },
            Op::Len(s) => match get(frame, *s)? {
                Val::Array(vs) => Ok(Val::Int(vs.len() as i64)),
                Val::Dict(ks, _) => Ok(Val::Int(ks.len() as i64)),
                Val::Str(bs) => Ok(Val::Int(bs.len() as i64)),
                _ => Err(lit("no length")),
            },
            Op::Enum(tag, slots) => Ok(Val::Enum(*tag, gather(frame, slots)?)),
            Op::Tag(s) => match get(frame, *s)? {
                Val::Enum(t, _) => Ok(Val::Int(t as i64)),
                _ => Err(lit("not an enum")),
            },
            Op::Payload(s, i) => match get(frame, *s)? {
                Val::Enum(_, vs) => {
                    if *i < vs.len() {
                        Ok(vs[*i].copy())
                    } else {
                        Err(lit("no such payload"))
                    }
                },
                _ => Err(lit("not an enum")),
            },
            Op::Narrow(s, k) => Ok(Val::Int(narrow(get_int(frame, *s)?, *k))),
            Op::MakeRange(a, b, step) => {
                let start = get_int(frame, *a)?;
                let end = match b {
                    Some(b) => Some(get_int(frame, *b)?),
                    None => None,
                };
                Ok(Val::Range(start, end, *step))
            },
            Op::InRange(v, r) => {
                let n = get_int(frame, *v)?;
                match get(frame, *r)? {
                    Val::Range(a, b, step) => {
                        let inside = if step > 0 {
                            n >= a && (match b {
                                Some(e) => n < e,
                                None => true,
                            }) && ((n as i128 - a as i128) % (step as i128) == 0)
                        } else if step < 0 {
                            n <= a && (match b {
                                Some(e) => n > e,
                                None => true,
                            }) && ((a as i128 - n as i128) % (-(step as i128)) == 0)
                        } else {
                            false
                        };
                        Ok(Val::Bool(inside))
                    },
                    _ => Err(lit("not a range")),
                }
            },
            Op::Slice(c, r) => {
                let (a, b, step) = match get(frame, *r)? {
                    Val::Range(a, b, s) => (a, b, s),
                    _ => {
                        return Err(lit("not a range"));
                    },
                };
                if step != 1 {
                    return Err(lit("cannot slice with a strided range"));
                }
                match get(frame, *c)? {
                    Val::Array(vs) => {
                        let (lo, hi) = slice_bounds(a, b, vs.len())?;
                        let mut out: Vec<Val> = Vec::new();
                        let mut i = lo;
                        while i < hi
                            invariant
                                lo <= i <= hi <= vs@.len(),
                                out@.len() == i - lo,
                                forall|k: int| 0 <= k < out@.len() ==> copied(vs@[lo + k], #[trigger] out@[k]),
                            decreases hi - i,
                        {
                            out.push(vs[i].copy());
                            i = i + 1;
                        }
                        proof {
                            if frame@[*c as int] is Array {
                                let fv = frame@[*c as int]->Array_0;
                                assert forall|k: int| 0 <= k < out@.len() implies copied(fv@[lo + k], #[trigger] out@[k]) by {
                                    crate::ir::lemma_same_value_trans(fv@[lo + k], vs@[lo + k], out@[k]);
                                }
                            }
                        }
                        Ok(Val::Array(out))
                    },
                    Val::Str(bs) => {
                        let (lo, hi) = slice_bounds(a, b, bs.len())?;
                        let mut out: Vec<u8> = Vec::new();
                        let mut i = lo;
                        while i < hi
                            invariant
                                lo <= i <= hi <= bs@.len(),
                                out@ == bs@.subrange(lo as int, i as int),
                            decreases hi - i,
                        {
                            out.push(bs[i]);
                            i = i + 1;
                        }
                        Ok(Val::Str(out))
                    },
                    _ => Err(lit("not sliceable")),
                }
            },
            Op::Spread(r) => match get(frame, *r)? {
                Val::Range(a, b, step) => {
                    let end = match b {
                        Some(e) => e,
                        None => {
                            return Err(lit("cannot spread an open range"));
                        },
                    };
                    let n = range_len(a, end, step);
                    let mut out: Vec<Val> = Vec::new();
                    let mut k: u64 = 0;
                    while k < n
                        invariant
                            k <= n,
                        decreases n - k,
                    {
                        out.push(Val::Int(range_nth(a, step, k)));
                        k = k + 1;
                    }
                    Ok(Val::Array(out))
                },
                Val::Array(vs) => Ok(Val::Array(vs)),
                _ => Err(lit("cannot spread this value")),
            },
            Op::RangeHas(r, k) => {
                let k = get_int(frame, *k)?;
                match get(frame, *r)? {
                    Val::Range(a, b, step) => {
                        if k < 0 {
                            return Ok(Val::Bool(false));
                        }
                        match b {
                            None => Ok(Val::Bool(true)),
                            Some(e) => Ok(Val::Bool((k as u64) < range_len(a, e, step))),
                        }
                    },
                    _ => Err(lit("not a range")),
                }
            },
            Op::RangeAt(r, k) => {
                let k = get_int(frame, *k)?;
                match get(frame, *r)? {
                    Val::Range(a, _, step) => {
                        if k < 0 {
                            return Err(lit("index out of bounds"));
                        }
                        Ok(Val::Int(range_nth(a, step, k as u64)))
                    },
                    _ => Err(lit("not a range")),
                }
            },
            Op::Dict(kslots, vslots) => {
                let ks = gather(frame, kslots)?;
                let vs = gather(frame, vslots)?;
                if ks.len() != vs.len() {
                    return Err(lit("bad map"));
                }
                let mut keys: Vec<Val> = Vec::new();
                let mut vals: Vec<Val> = Vec::new();
                let mut i: usize = 0;
                while i < ks.len()
                    invariant
                        i <= ks@.len(),
                        ks@.len() == vs@.len(),
                        keys@.len() == vals@.len(),
                    decreases ks@.len() - i,
                {
                    map_put(&mut keys, &mut vals, ks[i].copy(), vs[i].copy());
                    i = i + 1;
                }
                Ok(Val::Dict(keys, vals))
            },
            Op::DictGet(m, k) => {
                if *k >= frame.len() {
                    return Err(lit("bad slot"));
                }
                match get(frame, *m)? {
                    Val::Dict(ks, vs) => match key_pos(&ks, &frame[*k]) {
                        Some(i) => {
                            if i < vs.len() {
                                Ok(vs[i].copy())
                            } else {
                                Err(lit("bad map"))
                            }
                        },
                        None => Err(lit("key not found")),
                    },
                    _ => Err(lit("not a map")),
                }
            },
            Op::DictHas(m, k) => {
                if *k >= frame.len() {
                    return Err(lit("bad slot"));
                }
                match get(frame, *m)? {
                    Val::Dict(ks, _) => Ok(Val::Bool(key_pos(&ks, &frame[*k]).is_some())),
                    _ => Err(lit("not a map")),
                }
            },
            Op::DictEntries(m, values) => match get(frame, *m)? {
                Val::Dict(ks, vs) => {
                    if *values {
                        Ok(Val::Array(vs))
                    } else {
                        Ok(Val::Array(ks))
                    }
                },
                _ => Err(lit("not a map")),
            },
            Op::Global(g) => {
                if *g < self.globals.len() {
                    Ok(self.globals[*g].copy())
                } else {
                    Ok(Val::Unit)
                }
            },
            Op::Bytes(s) => match get(frame, *s)? {
                Val::Str(bs) => {
                    let mut out: Vec<Val> = Vec::new();
                    let mut i: usize = 0;
                    while i < bs.len()
                        invariant
                            i <= bs@.len(),
                        decreases bs@.len() - i,
                    {
                        out.push(Val::Int(bs[i] as i64));
                        i = i + 1;
                    }
                    Ok(Val::Array(out))
                },
                _ => Err(lit("not a string")),
            },
            Op::Extend(a, b) => match (get(frame, *a)?, get(frame, *b)?) {
                (Val::Array(xs), Val::Array(ys)) => {
                    let mut xs = xs;
                    let mut ys = ys;
                    xs.append(&mut ys);
                    Ok(Val::Array(xs))
                },
                _ => Err(lit("cannot extend")),
            },
        }
    }
}

/// The gas a program starts with: the loop iterations it may run, more than any run can reach.
pub const GAS: u64 = 18_446_744_073_709_551_615;

/// The call depth a program may reach.
pub const DEPTH: u64 = 10_000;

/// Run the entry function of a program, collecting what it prints.
/// Returns the standard output, the standard error, and the abort message if it failed.
pub(crate) fn run_program(funcs: &Vec<Func>, enums: &Vec<EnumInfo>, entry: usize) -> (r: (
    Vec<u8>,
    Vec<u8>,
    Option<Vec<u8>>,
))
    ensures
        entry >= funcs@.len() ==> r.0@.len() == 0 && r.1@.len() == 0 && (r.2 matches Some(m) && m@
            == "bad function".spec_bytes()),
        forall|n: i64|
            entry < funcs@.len() && funcs@[entry as int].nslots >= 2 && #[trigger] literal_body(funcs@[entry as int].body@, n)
                ==> r.0@ == int_line(n) && r.1@.len() == 0 && r.2 is None,
        forall|op: BinOp, a: i64, b: i64|
            entry < funcs@.len() && funcs@[entry as int].nslots >= 4 && #[trigger] sum_body(funcs@[entry as int].body@, op, a, b)
                && crate::lower::ring_op(op) ==> r.0@ == int_line(ring_value(op, a, b)) && r.1@.len() == 0 && r.2 is None,
{
    let mut m = Machine { funcs, enums, out: Vec::new(), err: Vec::new(), gas: GAS, globals: Vec::new() };
    let res = m.call(entry, Vec::new(), DEPTH);
    let failure = match res {
        Ok(_) => None,
        Err(msg) => Some(msg),
    };
    (m.out, m.err, failure)
}

} // verus!
