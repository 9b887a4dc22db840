//! What the commands for numbers compute.
//!
//! A machine gives each operand a number: whole numbers for doubles, the 32 bits for
//! integers, and 0 or 1 for truth values. It `respects` code if each command yields
//! what its operation does.

use vstd::prelude::*;

use crate::codegen::code::{Cast, Cmd, FloatOp, FloatPred, IntOp, IntPred, Op, St, Val};
use crate::codegen::ops::{
    add_vals, binary_vals, equality, idx_in_bounds, int_operand, relational, step_val, unary_val,
};
use crate::codegen::value::{numeric_of, truthy};
use crate::mir::{BinOp, UnOp};

verus! {

// --- machines -----------------------------------------------------------------------------

pub ghost struct Machine {
    pub num: spec_fn(Op) -> int,
    /// The operand is a truth value.
    pub flags: spec_fn(Op) -> bool,
}

impl Machine {
    pub open spec fn at(self, x: Op) -> int {
        (self.num)(x)
    }
}

/// The number that 32 bits are as a signed integer.
pub open spec fn signed(bits: int) -> int {
    if bits < 0x8000_0000 {
        bits
    } else {
        bits - 0x1_0000_0000
    }
}

/// The 32 bits of a number, modulo their range.
pub open spec fn wrapped(n: int) -> int {
    n % 0x1_0000_0000
}

pub open spec fn flag(b: bool) -> int {
    if b {
        1
    } else {
        0
    }
}

pub open spec fn in_bits(n: int) -> bool {
    0 <= n < 0x1_0000_0000
}

/// What an operation on integers computes.
pub open spec fn int_result(op: IntOp, x: int, y: int) -> int {
    match op {
        IntOp::Add_ => wrapped(x + y),
        IntOp::Sub_ => wrapped(x - y),
        IntOp::And => ((x as u32) & (y as u32)) as int,
        IntOp::Or => ((x as u32) | (y as u32)) as int,
        IntOp::Xor => ((x as u32) ^ (y as u32)) as int,
        IntOp::Shl => ((x as u32) << (y as u32)) as int,
        IntOp::LShr => ((x as u32) >> (y as u32)) as int,
        IntOp::AShr => wrapped(((signed(x) as i32) >> (y as u32)) as int),
    }
}

/// The command at `i` yields what its operation does.
pub open spec fn obeys(c: Cmd, i: int, m: Machine) -> bool {
    let r = m.at(Op::Val(i as usize));
    match c {
        Cmd::Float(FloatOp::Add_, x, y) => r == m.at(x) + m.at(y),
        Cmd::Float(FloatOp::Sub_, x, y) => r == m.at(x) - m.at(y),
        Cmd::Float(FloatOp::Mul_, x, y) => r == m.at(x) * m.at(y),
        Cmd::FNeg(x) => r == -m.at(x),
        Cmd::INeg(x) => r == wrapped(-m.at(x)),
        // A truth value is inverted, and so are all bits of an integer.
        Cmd::Not(x) => if (m.flags)(x) {
            r == 1 - m.at(x) && (m.flags)(Op::Val(i as usize))
        } else {
            r == 0xFFFF_FFFF - m.at(x)
        },
        Cmd::Int(op, x, y) => in_bits(m.at(x)) && in_bits(m.at(y)) ==> r == int_result(op, m.at(x), m.at(y)),
        Cmd::FCmp(p, x, y) => (m.flags)(Op::Val(i as usize)) && match p {
            FloatPred::OEQ => r == flag(m.at(x) == m.at(y)),
            FloatPred::ONE => r == flag(m.at(x) != m.at(y)),
            FloatPred::OLT => r == flag(m.at(x) < m.at(y)),
            FloatPred::OGT => r == flag(m.at(x) > m.at(y)),
            FloatPred::OLE => r == flag(m.at(x) <= m.at(y)),
            FloatPred::OGE => r == flag(m.at(x) >= m.at(y)),
            // Whole numbers are no NaN.
            FloatPred::UNO => r == 0,
        },
        Cmd::ICmp(p, x, y) => (m.flags)(Op::Val(i as usize)) && match p {
            IntPred::EQ => r == flag(m.at(x) == m.at(y)),
            IntPred::NE => r == flag(m.at(x) != m.at(y)),
            IntPred::UGT => r == flag(m.at(x) > m.at(y)),
        },
        Cmd::Cast(Cast::SiToFp, x) => in_bits(m.at(x)) ==> r == signed(m.at(x)),
        Cmd::Cast(Cast::UiToFp, x) => r == m.at(x),
        Cmd::Select(c, x, y) => r == if m.at(c) == 1 {
            m.at(x)
        } else {
            m.at(y)
        },
        _ => true,
    }
}

/// The machine yields what the commands of the code do, and knows the constants.
pub open spec fn respects(code: Seq<Cmd>, m: Machine) -> bool {
    &&& forall|i: int| 0 <= i < code.len() ==> obeys(#[trigger] code[i], i, m)
    &&& forall|v: u32| #[trigger] m.at(Op::I32(v)) == v
    &&& m.at(Op::F64(0)) == 0
    &&& m.at(Op::F64(0x3FF0_0000_0000_0000)) == 1
}

/// The number that a value is.
pub open spec fn number(v: Val, m: Machine) -> int {
    match v {
        Val::Int(x) => signed(m.at(x)),
        Val::UInt(x) | Val::Num(x) | Val::Bool(x) => m.at(x),
        _ => 0,
    }
}

/// The value is a number that fits its kind, or a truth value.
pub open spec fn sound_number(v: Val, m: Machine) -> bool {
    match v {
        Val::Int(x) | Val::UInt(x) => in_bits(m.at(x)) && !(m.flags)(x),
        Val::Bool(x) => 0 <= m.at(x) <= 1 && (m.flags)(x),
        Val::Num(_) => true,
        _ => false,
    }
}

// --- what operators mean ------------------------------------------------------------------

/// The bits of a number that an integer operator reads.
pub open spec fn bits(n: int) -> u32 {
    wrapped(n) as u32
}

/// What a binary operator makes of two numbers, where that is a whole number. Shift
/// counts are taken modulo 32; `>>>` shifts in zeros.
pub open spec fn result(op: BinOp, x: int, y: int) -> Option<int> {
    match op {
        BinOp::Add => Some(x + y),
        BinOp::Sub => Some(x - y),
        BinOp::Mul => Some(x * y),
        BinOp::Div | BinOp::Rem => None,
        BinOp::Lt => Some(flag(x < y)),
        BinOp::Gt => Some(flag(y < x)),
        BinOp::Le => Some(flag(!(y < x))),
        BinOp::Ge => Some(flag(!(x < y))),
        BinOp::Eq | BinOp::StrictEq => Some(flag(x == y)),
        BinOp::Ne | BinOp::StrictNe => Some(flag(x != y)),
        BinOp::BitAnd => Some(signed((bits(x) & bits(y)) as int)),
        BinOp::BitOr => Some(signed((bits(x) | bits(y)) as int)),
        BinOp::BitXor => Some(signed((bits(x) ^ bits(y)) as int)),
        BinOp::Shl => Some(signed((bits(x) << (bits(y) & 31)) as int)),
        BinOp::Ushr => Some((bits(x) >> (bits(y) & 31)) as int),
        BinOp::Shr => Some((signed(bits(x) as int) as i32 >> (bits(y) & 31)) as int),
    }
}

proof fn lemma_last<'a>(st: St<'a>, c: Cmd<'a>, m: Machine)
    requires
        respects(st.push(c).code, m),
    ensures
        obeys(c, st.code.len() as int, m),
        respects(st.code, m),
{
    let t = st.push(c).code;
    assert(t[st.code.len() as int] == c);
    assert forall|i: int| 0 <= i < st.code.len() implies obeys(#[trigger] st.code[i], i, m) by {
        assert(t[i] == st.code[i]);
    }
}

proof fn lemma_bits(x: Val, m: Machine)
    requires
        sound_number(x, m),
        x is Int || x is UInt,
    ensures
        x matches Val::Int(o) ==> bits(number(x, m)) == m.at(o),
        x matches Val::UInt(o) ==> bits(number(x, m)) == m.at(o),
{
}

/// A numeric value as a double is the same number.
proof fn lemma_numeric(st: St, v: Val, m: Machine)
    requires
        respects(numeric_of(st, v).0.code, m),
        sound_number(v, m),
        v is Int || v is UInt || v is Num,
        st.code.len() < usize::MAX,
    ensures
        numeric_of(st, v).1 matches Some(x) && m.at(x) == number(v, m),
        respects(st.code, m),
        numeric_of(st, v).0.code.len() <= st.code.len() + 1,
{
    match v {
        Val::Int(i) => lemma_last(st, Cmd::Cast(Cast::SiToFp, i), m),
        Val::UInt(i) => lemma_last(st, Cmd::Cast(Cast::UiToFp, i), m),
        _ => {},
    }
}

/// The code of a binary operator on numbers computes what the operator means.
pub proof fn law_binary_operators_compute(
    st: St,
    op: BinOp,
    l: Val,
    r: Val,
    m: Machine,
)
    requires
        respects(binary_vals(st, op, l, r).0.code, m),
        sound_number(l, m),
        sound_number(r, m),
        !(l is Bool) && !(r is Bool),
        st.ok,
        binary_vals(st, op, l, r).0.ok,
        result(op, number(l, m), number(r, m)) is Some,
        // Sums and comparisons of other kinds are left to the runtime.
        op == BinOp::Add || op == BinOp::Lt || op == BinOp::Gt || op == BinOp::Le || op
            == BinOp::Ge ==> l is Num && r is Num,
        st.code.len() + 4 <= usize::MAX,
    ensures
        number(binary_vals(st, op, l, r).1, m) == result(op, number(l, m), number(r, m))->0,
{
    reveal(binary_vals);
    reveal(add_vals);
    reveal(relational);
    reveal(equality);
    let out = binary_vals(st, op, l, r);
    match op {
        BinOp::Add | BinOp::Sub | BinOp::Mul | BinOp::Lt | BinOp::Gt | BinOp::Le | BinOp::Ge => {
            lemma_last(st, out.0.code.last(), m);
        },
        BinOp::Eq | BinOp::StrictEq | BinOp::Ne | BinOp::StrictNe => {
            let (s1, x) = numeric_of(st, l);
            let (s2, y) = numeric_of(s1, r);
            let c = Cmd::FCmp(FloatPred::OEQ, x->0, y->0);
            let s3 = s2.push(c);
            if op == BinOp::Ne || op == BinOp::StrictNe {
                assert(out.0 == s3.push(Cmd::Not(s2.next())));
                lemma_last(s3, Cmd::Not(s2.next()), m);
            }
            lemma_last(s2, c, m);
            lemma_numeric(s1, r, m);
            lemma_numeric(st, l, m);
        },
        BinOp::BitAnd | BinOp::BitOr | BinOp::BitXor => {
            lemma_bits(l, m);
            lemma_bits(r, m);
            lemma_last(st, out.0.code.last(), m);
        },
        BinOp::Shl | BinOp::Shr | BinOp::Ushr => {
            lemma_bits(l, m);
            lemma_bits(r, m);
            let (s1, a) = int_operand(st, l);
            let (s2, b) = int_operand(s1, r);
            let mask = Cmd::Int(IntOp::And, b, Op::I32(31));
            let s3 = s2.push(mask);
            lemma_last(s3, out.0.code.last(), m);
            lemma_last(s2, mask, m);
            let y = bits(number(r, m));
            assert(y & 31 < 32) by (bit_vector);
            assert(m.at(s2.next()) == (y & 31) as int);
        },
        _ => {},
    }
}

/// The code of `!`, `-` and `~` on numbers and truth values computes what they mean.
pub proof fn law_unary_operators_compute(st: St, op: UnOp, v: Val, m: Machine)
    requires
        respects(unary_val(st, op, v).0.code, m),
        sound_number(v, m),
        unary_val(st, op, v).0.ok,
        op != UnOp::TypeOf,
        st.code.len() + 2 <= usize::MAX,
    ensures
        op == UnOp::Not ==> number(unary_val(st, op, v).1, m) == flag(number(v, m) == 0),
        op == UnOp::Neg ==> wrapped(number(unary_val(st, op, v).1, m)) == wrapped(-number(v, m)),
        op == UnOp::Neg && v is Num ==> number(unary_val(st, op, v).1, m) == -number(v, m),
        op == UnOp::BitNot ==> number(unary_val(st, op, v).1, m) == -number(v, m) - 1,
{
    reveal(unary_val);
    let out = unary_val(st, op, v);
    match op {
        UnOp::Not => {
            let (s1, b) = truthy(st, v);
            assert(out.0 == s1.push(Cmd::Not(b)));
            lemma_last(s1, Cmd::Not(b), m);
            law_truth_is_nonzero(st, v, m);
        },
        _ => {
            lemma_last(st, out.0.code.last(), m);
        },
    }
}

/// A number is true if it is not zero, and a truth value as it is.
pub proof fn law_truth_is_nonzero(st: St, v: Val, m: Machine)
    requires
        respects(truthy(st, v).0.code, m),
        sound_number(v, m),
        st.code.len() < usize::MAX,
    ensures
        m.at(truthy(st, v).1) == flag(number(v, m) != 0),
        (m.flags)(truthy(st, v).1),
{
    reveal(truthy);
    if !(v is Bool) {
        lemma_last(st, truthy(st, v).0.code.last(), m);
    }
}

/// `++` adds one, `--` takes one away, within the range of an integer.
pub proof fn law_steps_are_by_one(st: St, v: Val, is_inc: bool, m: Machine)
    requires
        respects(step_val(st, v, is_inc).0.code, m),
        sound_number(v, m),
        !(v is Bool),
        st.code.len() < usize::MAX,
    ensures
        ({
            let n = if is_inc {
                number(v, m) + 1
            } else {
                number(v, m) - 1
            };
            let r = number(step_val(st, v, is_inc).1, m);
            &&& v is Num ==> r == n
            &&& v is Int ==> r == signed(wrapped(n))
            &&& v is UInt ==> r == wrapped(n)
        }),
{
    lemma_last(st, step_val(st, v, is_inc).0.code.last(), m);
}

/// The check of an element access lets an index through if and only if it is at
/// least zero and below the length.
pub proof fn law_bounds_check_is_exact(st: St, idx: Op, len: Op, m: Machine)
    requires
        respects(idx_in_bounds(st, idx, len).0.code, m),
        st.code.len() + 3 <= usize::MAX,
    ensures
        m.at(idx_in_bounds(st, idx, len).1) == flag(0 <= m.at(idx) < m.at(len)),
{
    let a = Cmd::FCmp(FloatPred::OGE, idx, Op::F64(0));
    let s1 = st.push(a);
    let b = Cmd::FCmp(FloatPred::OLT, idx, len);
    let s2 = s1.push(b);
    let c = Cmd::Int(IntOp::And, st.next(), s1.next());
    assert(idx_in_bounds(st, idx, len).0 == s2.push(c));
    lemma_last(s2, c, m);
    lemma_last(s1, b, m);
    lemma_last(st, a, m);
    assert(1u32 & 1u32 == 1 && 0u32 & 1u32 == 0 && 1u32 & 0u32 == 0 && 0u32 & 0u32 == 0) by (
    bit_vector);
}

} // verus!
