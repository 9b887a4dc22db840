//! How the typed syntax tree runs.

use vstd::prelude::*;

use crate::ast::nodes::{BinaryOp, PostfixOp, UnaryOp};
use crate::lower::rules::{MAX_INDEX, NAN, TEN};
use crate::meaning::run::{
    label_of, left, next_round, object_op, operator, outer_op, plain_op, step_value, stepped, Jump,
    Store, Val, World,
};
use crate::sema::{
    BuiltinFn, Coercion, LocalId, TCase, TExpr, TExprKind, TFunction, TProgram, TStmt, TStmtKind,
    Ty,
};

verus! {

// --- names --------------------------------------------------------------------------------

pub open spec fn sign(op: BinaryOp) -> Seq<char> {
    match op {
        BinaryOp::Mul => "*"@,
        BinaryOp::Div => "/"@,
        BinaryOp::Rem => "%"@,
        BinaryOp::Add => "+"@,
        BinaryOp::Sub => "-"@,
        BinaryOp::Shl => "<<"@,
        BinaryOp::Shr => ">>"@,
        BinaryOp::Ushr => ">>>"@,
        BinaryOp::Lt => "<"@,
        BinaryOp::Gt => ">"@,
        BinaryOp::Le => "<="@,
        BinaryOp::Ge => ">="@,
        BinaryOp::In => "in"@,
        BinaryOp::Instanceof => "instanceof"@,
        BinaryOp::Is => "is"@,
        BinaryOp::As => "as"@,
        BinaryOp::Eq => "=="@,
        BinaryOp::Ne => "!="@,
        BinaryOp::StrictEq => "==="@,
        BinaryOp::StrictNe => "!=="@,
        BinaryOp::BitAnd => "&"@,
        BinaryOp::BitXor => "^"@,
        BinaryOp::BitOr => "|"@,
        BinaryOp::LogAnd => "&&"@,
        BinaryOp::LogOr => "||"@,
    }
}

pub open spec fn prefix(op: UnaryOp) -> Seq<char> {
    match op {
        UnaryOp::Delete => "delete"@,
        UnaryOp::Void => "void"@,
        UnaryOp::Typeof => "typeof"@,
        UnaryOp::PreInc => "++"@,
        UnaryOp::PreDec => "--"@,
        UnaryOp::Plus => "+"@,
        UnaryOp::Minus => "-"@,
        UnaryOp::BitNot => "~"@,
        UnaryOp::Not => "!"@,
    }
}

pub open spec fn type_word(t: Ty) -> Seq<char> {
    match t {
        Ty::Int => "int"@,
        Ty::UInt => "uint"@,
        Ty::Number => "Number"@,
        Ty::Boolean => "Boolean"@,
        // A bare `null` is the null String.
        Ty::String | Ty::Null => "String"@,
        Ty::Void => "void"@,
        Ty::Any | Ty::Function | Ty::Error => "*"@,
    }
}

/// The name of what a coercion converts to.
pub open spec fn coercion_name(c: Coercion, to: Ty) -> Seq<char> {
    match c {
        Coercion::ToInt => "int"@,
        Coercion::ToUInt => "uint"@,
        Coercion::ToNumber => "Number"@,
        Coercion::ToBoolean => "Boolean"@,
        Coercion::ToString => "String"@,
        Coercion::ToAny => "*"@,
        Coercion::FromAny => "* as "@ + type_word(to),
    }
}

pub open spec fn function_name(b: BuiltinFn) -> Seq<char> {
    match b {
        BuiltinFn::Trace => "trace"@,
        BuiltinFn::ParseInt => "parseInt"@,
        BuiltinFn::ParseFloat => "parseFloat"@,
        BuiltinFn::IsNaN => "isNaN"@,
        BuiltinFn::IsFinite => "isFinite"@,
    }
}

pub open spec fn primitive(t: Ty) -> bool {
    t == Ty::Int || t == Ty::UInt || t == Ty::Number || t == Ty::Boolean || t == Ty::String || t
        == Ty::Null
}

// --- missing arguments --------------------------------------------------------------------

/// What stands for the missing argument `i` of a builtin: an absent text is the text
/// of NaN, an absent number is NaN, and an absent radix is 0, which lets the text
/// decide.
pub open spec fn absent(b: BuiltinFn, i: int) -> Val {
    match b {
        BuiltinFn::ParseInt => if i == 0 {
            Val::Text("NaN"@)
        } else {
            Val::Int(0)
        },
        BuiltinFn::ParseFloat => Val::Text("NaN"@),
        _ => Val::Double(NAN),
    }
}

/// The number of arguments that a builtin takes at least.
pub open spec fn takes(b: BuiltinFn) -> nat {
    match b {
        BuiltinFn::Trace => 0,
        BuiltinFn::ParseInt => 2,
        BuiltinFn::ParseFloat | BuiltinFn::IsNaN | BuiltinFn::IsFinite => 1,
    }
}

/// The methods of a String: what it is looked for, positions and ends.
pub ghost enum Arg {
    /// A text to look for; without it that of `undefined`.
    Text,
    /// A position; without it the start.
    Start,
    /// A position or length; without it the largest.
    End,
    /// A radix; without it ten.
    Radix,
}

/// What the arguments of a String method are.
pub open spec fn text_method(name: Seq<char>) -> Option<Seq<Arg>> {
    if name == "charAt"@ || name == "charCodeAt"@ {
        Some(seq![Arg::Start])
    } else if name == "indexOf"@ {
        Some(seq![Arg::Text, Arg::Start])
    } else if name == "lastIndexOf"@ {
        Some(seq![Arg::Text, Arg::End])
    } else if name == "slice"@ || name == "substring"@ || name == "substr"@ {
        Some(seq![Arg::Start, Arg::End])
    } else if name == "toLowerCase"@ || name == "toUpperCase"@ || name == "toString"@ {
        Some(Seq::empty())
    } else {
        None
    }
}

/// What the arguments of a Number method are.
pub open spec fn number_method(name: Seq<char>) -> Option<Seq<Arg>> {
    if name == "toString"@ {
        Some(seq![Arg::Radix])
    } else if name == "toFixed"@ {
        Some(seq![Arg::Start])
    } else {
        None
    }
}

pub open spec fn absent_arg(a: Arg) -> Val {
    match a {
        Arg::Text => Val::Text("undefined"@),
        Arg::Start => Val::Double(0),
        Arg::End => Val::Double(MAX_INDEX),
        Arg::Radix => Val::Double(TEN),
    }
}

/// The arguments that are there, and what stands for the missing ones.
pub open spec fn completed(xs: Seq<Val>, wanted: Seq<Arg>) -> Seq<Val> {
    if xs.len() < wanted.len() {
        xs + Seq::new(
            (wanted.len() - xs.len()) as nat,
            |i: int| absent_arg(wanted[xs.len() + i]),
        )
    } else {
        xs
    }
}

/// As [`completed`], for a builtin.
pub open spec fn completed_builtin(b: BuiltinFn, xs: Seq<Val>) -> Seq<Val> {
    if xs.len() < takes(b) {
        xs + Seq::new((takes(b) - xs.len()) as nat, |i: int| absent(b, xs.len() + i))
    } else {
        xs
    }
}

// --- expressions --------------------------------------------------------------------------

/// Converts to the type, unless the value is of it; `null` is a String.
pub open spec fn converted(w: World, x: Val, from: Ty, to: Ty, s: Store) -> (Store, Val) {
    if from == to || (from == Ty::Null && to == Ty::String) {
        (s, x)
    } else {
        operator(w, type_word(to), seq![x], primitive(from), s)
    }
}

/// `++` or `--` on a local variable.
pub open spec fn step(w: World, v: TExpr, is_inc: bool, is_prefix: bool, s: Store) -> (Store, Val) {
    match v.kind {
        TExprKind::LocalGet(l) => {
            let old = (s.locals)(l.0 as int);
            let new = stepped(w, old, is_inc);
            (s.set(crate::mir::LocalId(l.0), new), step_value(old, new, is_prefix))
        },
        _ => (s, Val::Undefined),
    }
}

/// Evaluates an expression of the tree: operands from left to right, missing
/// arguments after those that are there. Defaults of parameters may call functions
/// that have defaults, at most `n` levels deep.
pub open spec fn value(w: World, p: TProgram, n: nat, e: TExpr, s: Store) -> (Store, Val)
    decreases 2 * n, e, 1nat,
{
    if !s.runs() {
        (s, Val::Undefined)
    } else {
        match e.kind {
            TExprKind::Int(v) => (s, Val::Int(v as int)),
            TExprKind::UInt(v) => (s, Val::Int(v as int)),
            TExprKind::Number(v) => (s, Val::Double(v)),
            TExprKind::Str(v) => (s, Val::Text(v@)),
            TExprKind::Bool(v) => (s, Val::Bool(v)),
            TExprKind::Null => (s, Val::Null),
            TExprKind::LocalGet(l) => (s, (s.locals)(l.0 as int)),
            TExprKind::LocalSet(l, v) => {
                let (s1, x) = value(w, p, n, *v, s);
                (s1.set(crate::mir::LocalId(l.0), x), x)
            },
            TExprKind::Unary(op, v) => match op {
                UnaryOp::PreInc => step(w, *v, true, true, s),
                UnaryOp::PreDec => step(w, *v, false, true, s),
                UnaryOp::Plus => value(w, p, n, *v, s),
                UnaryOp::Void => (value(w, p, n, *v, s).0, Val::Undefined),
                _ => {
                    let (s1, x) = value(w, p, n, *v, s);
                    operator(w, prefix(op), seq![x], primitive(v.ty), s1)
                },
            },
            TExprKind::Postfix(op, v) => step(w, *v, op == PostfixOp::Inc, false, s),
            TExprKind::Binary(op, l, r) => {
                let (s1, x) = value(w, p, n, *l, s);
                let (s2, y) = value(w, p, n, *r, s1);
                operator(w, sign(op), seq![x, y], primitive(l.ty) && primitive(r.ty), s2)
            },
            TExprKind::Logical(op, l, r) => {
                let (s1, x) = value(w, p, n, *l, s);
                if op == BinaryOp::LogAnd && !(w.truth)(x) || op == BinaryOp::LogOr && (w.truth)(
                    x,
                ) {
                    (s1, x)
                } else {
                    value(w, p, n, *r, s1)
                }
            },
            TExprKind::Conditional(c, a, b) => {
                let (s1, x) = value(w, p, n, *c, s);
                if (w.truth)(x) {
                    value(w, p, n, *a, s1)
                } else {
                    value(w, p, n, *b, s1)
                }
            },
            TExprKind::Comma(l, r) => value(w, p, n, *r, value(w, p, n, *l, s).0),
            TExprKind::Is(v, t) => {
                let (s1, x) = value(w, p, n, *v, s);
                object_op(w, "is "@ + type_word(t), seq![x], s1)
            },
            TExprKind::As(v, t) => {
                let (s1, x) = value(w, p, n, *v, s);
                object_op(w, "as "@ + type_word(t), seq![x], s1)
            },
            TExprKind::Coerce(c, v) => {
                let (s1, x) = value(w, p, n, *v, s);
                operator(w, coercion_name(c, e.ty), seq![x], primitive(v.ty), s1)
            },
            TExprKind::CallFn(f, args) => {
                let (s1, xs) = values(w, p, n, args@, args@.len(), s);
                let callee = p.functions@[f.0 as int];
                let (s2, ys) = if n > 0 && args@.len() < callee.param_count {
                    defaults(
                        w,
                        p,
                        (n - 1) as nat,
                        callee,
                        args@.len(),
                        callee.param_count as nat,
                        s1,
                    )
                } else {
                    (s1, Seq::empty())
                };
                outer_op(w, "call"@, seq![Val::Int(f.0 as int)] + (xs + ys), s2)
            },
            TExprKind::CallBuiltin(b, args) => {
                let (s1, xs) = values(w, p, n, args@, args@.len(), s);
                outer_op(w, function_name(b), completed_builtin(b, xs), s1)
            },
            TExprKind::Member(v, _) => {
                let (s1, x) = value(w, p, n, *v, s);
                plain_op(w, "length"@, seq![x], s1)
            },
            TExprKind::CallMethod(v, name, args) => if v.ty == Ty::String {
                if name@ == "concat"@ {
                    joined(w, p, n, e, args@.len(), s)
                } else {
                    let (s1, x) = value(w, p, n, *v, s);
                    let (s2, xs) = values(w, p, n, args@, args@.len(), s1);
                    let wanted = text_method(name@)->0;
                    outer_op(w, "String."@ + name@, seq![x] + completed(xs, wanted), s2)
                }
            } else if name@ == "valueOf"@ {
                value(w, p, n, *v, s)
            } else if v.ty == Ty::Boolean {
                let (s1, x) = value(w, p, n, *v, s);
                operator(w, "String"@, seq![x], true, s1)
            } else {
                let (s1, x) = value(w, p, n, *v, s);
                let (s2, y) = converted(w, x, v.ty, Ty::Number, s1);
                let (s3, xs) = numbers(w, p, n, args@, args@.len(), s2);
                let wanted = number_method(name@)->0;
                outer_op(w, "Number."@ + name@, seq![y] + completed(xs, wanted), s3)
            },
            _ => (s, Val::Undefined),
        }
    }
}

/// The first `k` expressions, in order.
pub open spec fn values(w: World, p: TProgram, n: nat, es: Seq<TExpr>, k: nat, s: Store) -> (
    Store,
    Seq<Val>,
)
    decreases 2 * n, es, k,
{
    if 0 < k <= es.len() {
        let (s1, xs) = values(w, p, n, es, (k - 1) as nat, s);
        let (s2, x) = value(w, p, n, es[k - 1], s1);
        (s2, xs.push(x))
    } else {
        (s, Seq::empty())
    }
}

/// As [`values`], each converted to Number.
pub open spec fn numbers(w: World, p: TProgram, n: nat, es: Seq<TExpr>, k: nat, s: Store) -> (
    Store,
    Seq<Val>,
)
    decreases 2 * n, es, k,
{
    if 0 < k <= es.len() {
        let (s1, xs) = numbers(w, p, n, es, (k - 1) as nat, s);
        let (s2, x) = value(w, p, n, es[k - 1], s1);
        let (s3, y) = converted(w, x, es[k - 1].ty, Ty::Number, s2);
        (s3, xs.push(y))
    } else {
        (s, Seq::empty())
    }
}

/// The defaults of the parameters from `from` to `to`.
pub open spec fn defaults(
    w: World,
    p: TProgram,
    n: nat,
    f: TFunction,
    from: nat,
    to: nat,
    s: Store,
) -> (Store, Seq<Val>)
    decreases 2 * n + 1, f, to,
{
    if from < to <= f.locals@.len() {
        let (s1, xs) = defaults(w, p, n, f, from, (to - 1) as nat, s);
        match f.locals@[to - 1].default {
            Some(d) => {
                let (s2, x) = value(w, p, n, d, s1);
                (s2, xs.push(x))
            },
            None => (s1, xs),
        }
    } else {
        (s, Seq::empty())
    }
}

/// `a.concat(b, c)` is `a + b + c` of Strings, with the first `k` arguments.
pub open spec fn joined(w: World, p: TProgram, n: nat, e: TExpr, k: nat, s: Store) -> (Store, Val)
    decreases 2 * n, e, 0nat, k,
{
    match e.kind {
        TExprKind::CallMethod(v, _, args) => if 0 < k <= args@.len() {
            let (s1, x) = joined(w, p, n, e, (k - 1) as nat, s);
            let (s2, y) = value(w, p, n, args@[k - 1], s1);
            let (s3, z) = converted(w, y, args@[k - 1].ty, Ty::String, s2);
            plain_op(w, "+"@, seq![x, z], s3)
        } else {
            value(w, p, n, *v, s)
        },
        _ => (s, Val::Undefined),
    }
}

// --- what has a meaning -------------------------------------------------------------------

/// The expression is of the part of the language that runs without an object model:
/// no properties but the length of a String, no literals of objects, no functions as
/// values; and it is typed as checking leaves it.
pub open spec fn meant(p: TProgram, n: nat, e: TExpr) -> bool
    decreases 2 * n, e, 0nat,
{
    match e.kind {
        TExprKind::Int(_) | TExprKind::UInt(_) | TExprKind::Number(_) | TExprKind::Str(_)
        | TExprKind::Bool(_) | TExprKind::Null | TExprKind::LocalGet(_) => true,
        TExprKind::LocalSet(_, v) => meant(p, n, *v),
        TExprKind::Unary(op, v) => match op {
            UnaryOp::PreInc | UnaryOp::PreDec => v.kind is LocalGet,
            UnaryOp::Delete => false,
            UnaryOp::Plus => v.ty == e.ty && meant(p, n, *v),
            _ => meant(p, n, *v),
        },
        TExprKind::Postfix(_, v) => v.kind is LocalGet,
        TExprKind::Binary(op, l, r) => op != BinaryOp::In && op != BinaryOp::Instanceof && op
            != BinaryOp::Is && op != BinaryOp::As && op != BinaryOp::LogAnd && op
            != BinaryOp::LogOr && meant(p, n, *l) && meant(p, n, *r),
        TExprKind::Logical(op, l, r) => (op == BinaryOp::LogAnd || op == BinaryOp::LogOr) && meant(
            p,
            n,
            *l,
        ) && meant(p, n, *r),
        TExprKind::Conditional(c, a, b) => meant(p, n, *c) && meant(p, n, *a) && meant(p, n, *b),
        TExprKind::Comma(l, r) => meant(p, n, *l) && meant(p, n, *r),
        TExprKind::Is(v, _) => meant(p, n, *v),
        TExprKind::As(v, _) => meant(p, n, *v),
        TExprKind::Coerce(c, v) => (c == Coercion::FromAny ==> e.ty == Ty::String) && meant(
            p,
            n,
            *v,
        ),
        TExprKind::CallFn(f, args) => all_meant(p, n, args@) && (args@.len()
            < p.functions@[f.0 as int].param_count ==> n > 0 && defaults_meant(
            p,
            (n - 1) as nat,
            p.functions@[f.0 as int],
            args@.len(),
            p.functions@[f.0 as int].param_count as nat,
        )),
        TExprKind::CallBuiltin(_, args) => all_meant(p, n, args@),
        TExprKind::Member(v, name) => v.ty == Ty::String && name@ == "length"@ && meant(p, n, *v),
        TExprKind::CallMethod(v, name, args) => meant(p, n, *v) && all_meant(p, n, args@)
            && match v.ty {
            Ty::String => if name@ == "concat"@ {
                e.ty == Ty::String
            } else {
                name@ != "split"@ && text_method(name@) is Some
            },
            Ty::Boolean => if name@ == "valueOf"@ {
                e.ty == v.ty
            } else {
                name@ == "toString"@ && e.ty == Ty::String
            },
            Ty::Int | Ty::UInt | Ty::Number => if name@ == "valueOf"@ {
                e.ty == v.ty
            } else {
                number_method(name@) is Some
            },
            _ => false,
        },
        _ => false,
    }
}

pub open spec fn all_meant(p: TProgram, n: nat, es: Seq<TExpr>) -> bool
    decreases 2 * n, es, 0nat,
{
    forall|i: int| 0 <= i < es.len() ==> meant(p, n, #[trigger] es[i])
}

pub open spec fn defaults_meant(p: TProgram, n: nat, f: TFunction, from: nat, to: nat) -> bool
    decreases 2 * n + 1, f, to,
{
    from < to <= f.locals@.len() ==> defaults_meant(p, n, f, from, (to - 1) as nat)
        && match f.locals@[to - 1].default {
        Some(d) => meant(p, n, d),
        None => true,
    }
}

// --- statements ---------------------------------------------------------------------------

/// Evaluates a condition: the state after it, and whether it holds.
pub open spec fn decided(w: World, p: TProgram, n: nat, c: Option<TExpr>, s: Store) -> (
    Store,
    bool,
) {
    match c {
        Some(e) => {
            let (s1, x) = value(w, p, n, e, s);
            (s1, (w.truth)(x))
        },
        None => (s, true),
    }
}

/// Runs a statement of the tree; a loop makes at most `k` rounds.
pub open spec fn act(w: World, p: TProgram, n: nat, st: TStmt, k: nat, s: Store) -> Store
    decreases st, k, 3nat,
{
    if !s.runs() {
        s
    } else {
        match st.kind {
            TStmtKind::Expr(e) => value(w, p, n, e, s).0,
            TStmtKind::Assign(l, e) => {
                let (s1, x) = value(w, p, n, e, s);
                s1.set(crate::mir::LocalId(l.0), x)
            },
            TStmtKind::Block(b) => act_all(w, p, n, b@, b@.len(), k, s),
            TStmtKind::If { cond, then_branch, else_branch } => {
                let (s1, c) = decided(w, p, n, Some(cond), s);
                if c {
                    act(w, p, n, *then_branch, k, s1)
                } else {
                    match else_branch {
                        Some(x) => act(w, p, n, *x, k, s1),
                        None => s1,
                    }
                }
            },
            TStmtKind::While { .. } | TStmtKind::DoWhile { .. } | TStmtKind::For { .. } => repeat(
                w,
                p,
                n,
                st,
                None,
                k,
                s,
            ),
            TStmtKind::Labeled { label, body } => repeat(w, p, n, *body, Some(label@), k, s),
            TStmtKind::Switch { scrutinee, cases } => {
                let (s1, x) = value(w, p, n, scrutinee, s);
                let (s2, hit) = picked(w, p, n, cases@, cases@.len(), x, s1);
                let start = match hit {
                    Some(i) => Some(i),
                    None => fallback(cases@, cases@.len()),
                };
                match start {
                    Some(i) => left(clauses(w, p, n, cases@, i, cases@.len(), k, s2), None),
                    None => s2,
                }
            },
            TStmtKind::Break { label } => s.go(Jump::Break(label_of(label))),
            TStmtKind::Continue { label } => s.go(Jump::Continue(label_of(label))),
            TStmtKind::Return { value: Some(e) } => {
                let (s1, x) = value(w, p, n, e, s);
                s1.jumps(Jump::Return(Some(x)))
            },
            TStmtKind::Return { value: None } => s.go(Jump::Return(None)),
            _ => s,
        }
    }
}

/// Runs the first `j` statements in order.
pub open spec fn act_all(
    w: World,
    p: TProgram,
    n: nat,
    l: Seq<TStmt>,
    j: nat,
    k: nat,
    s: Store,
) -> Store
    decreases l, k, j,
{
    if 0 < j <= l.len() {
        act(w, p, n, l[j - 1], k, act_all(w, p, n, l, (j - 1) as nat, k, s))
    } else {
        s
    }
}

/// Runs a loop with the label.
pub open spec fn repeat(
    w: World,
    p: TProgram,
    n: nat,
    st: TStmt,
    label: Option<Seq<char>>,
    k: nat,
    s: Store,
) -> Store
    decreases st, k, 2nat,
{
    let s1 = match st.kind {
        TStmtKind::For { init: Some(x), .. } => act(w, p, n, *x, k, s),
        _ => s,
    };
    if s1.runs() {
        left(turns(w, p, n, st, label, k, s1), label)
    } else {
        s1
    }
}

/// The rounds of a loop.
pub open spec fn turns(
    w: World,
    p: TProgram,
    n: nat,
    st: TStmt,
    label: Option<Seq<char>>,
    k: nat,
    s: Store,
) -> Store
    decreases st, k, 1nat,
{
    if !s.runs() {
        s
    } else if k == 0 {
        s.go(Jump::Over)
    } else {
        let m = (k - 1) as nat;
        match st.kind {
            TStmtKind::While { cond, body } => {
                let (s1, c) = decided(w, p, n, Some(cond), s);
                if s1.runs() && c {
                    turns(w, p, n, st, label, m, next_round(act(w, p, n, *body, m, s1), label))
                } else {
                    s1
                }
            },
            TStmtKind::DoWhile { body, cond } => {
                let s1 = next_round(act(w, p, n, *body, m, s), label);
                let (s2, c) = decided(w, p, n, Some(cond), s1);
                if s2.runs() && c {
                    turns(w, p, n, st, label, m, s2)
                } else {
                    s2
                }
            },
            TStmtKind::For { cond, update, body, .. } => {
                let (s1, c) = decided(w, p, n, cond, s);
                if s1.runs() && c {
                    let s2 = next_round(act(w, p, n, *body, m, s1), label);
                    let s3 = match update {
                        Some(u) => value(w, p, n, u, s2).0,
                        None => s2,
                    };
                    turns(w, p, n, st, label, m, s3)
                } else {
                    s1
                }
            },
            _ => s,
        }
    }
}

/// The first of the first `j` clauses whose test equals the value.
pub open spec fn picked(
    w: World,
    p: TProgram,
    n: nat,
    cs: Seq<TCase>,
    j: nat,
    x: Val,
    s: Store,
) -> (Store, Option<int>)
    decreases j,
{
    if 0 < j <= cs.len() {
        let (s1, hit) = picked(w, p, n, cs, (j - 1) as nat, x, s);
        match (hit, cs[j - 1].test) {
            (None, Some(t)) => {
                let (s2, y) = value(w, p, n, t, s1);
                if s2.runs() && (w.apply)("==="@, seq![x, y], 0) == Val::Bool(true) {
                    (s2, Some(j - 1))
                } else {
                    (s2, None)
                }
            },
            _ => (s1, hit),
        }
    } else {
        (s, None)
    }
}

/// The first `default` among the first `j` clauses.
pub open spec fn fallback(cs: Seq<TCase>, j: nat) -> Option<int>
    decreases j,
{
    if 0 < j <= cs.len() {
        match fallback(cs, (j - 1) as nat) {
            Some(i) => Some(i),
            None => if cs[j - 1].test is None {
                Some(j - 1)
            } else {
                None
            },
        }
    } else {
        None
    }
}

/// Runs the bodies of the clauses from `i` to `j`, one into the next.
pub open spec fn clauses(
    w: World,
    p: TProgram,
    n: nat,
    cs: Seq<TCase>,
    i: int,
    j: nat,
    k: nat,
    s: Store,
) -> Store
    decreases cs, k, j,
{
    if i < j <= cs.len() && 0 < j {
        act_all(
            w,
            p,
            n,
            cs[j - 1].body@,
            cs[j - 1].body@.len(),
            k,
            clauses(w, p, n, cs, i, (j - 1) as nat, k, s),
        )
    } else {
        s
    }
}

pub open spec fn is_repeated(st: TStmt) -> bool {
    st.kind is While || st.kind is DoWhile || st.kind is For
}

/// As [`meant`], for a statement: no iteration over objects and no exceptions, and
/// labels on loops only, one on each.
pub open spec fn stmt_meant(p: TProgram, n: nat, st: TStmt) -> bool
    decreases st, 1nat,
{
    match st.kind {
        TStmtKind::Expr(e) => meant(p, n, e),
        TStmtKind::Assign(_, e) => meant(p, n, e),
        TStmtKind::Block(b) => stmts_meant(p, n, b@),
        TStmtKind::If { cond, then_branch, else_branch } => meant(p, n, cond) && stmt_meant(
            p,
            n,
            *then_branch,
        ) && match else_branch {
            Some(x) => stmt_meant(p, n, *x),
            None => true,
        },
        TStmtKind::While { cond, body } => meant(p, n, cond) && stmt_meant(p, n, *body),
        TStmtKind::DoWhile { body, cond } => meant(p, n, cond) && stmt_meant(p, n, *body),
        TStmtKind::For { init, cond, update, body } => opt_meant(p, n, cond) && opt_meant(
            p,
            n,
            update,
        ) && stmt_meant(p, n, *body) && match init {
            Some(x) => stmt_meant(p, n, *x),
            None => true,
        },
        TStmtKind::Labeled { body, .. } => is_repeated(*body) && stmt_meant(p, n, *body),
        TStmtKind::Switch { scrutinee, cases } => meant(p, n, scrutinee) && cases_meant(
            p,
            n,
            cases@,
        ),
        TStmtKind::Return { value } => opt_meant(p, n, value),
        TStmtKind::Break { .. } | TStmtKind::Continue { .. } | TStmtKind::Empty => true,
        _ => false,
    }
}

pub open spec fn opt_meant(p: TProgram, n: nat, e: Option<TExpr>) -> bool {
    match e {
        Some(x) => meant(p, n, x),
        None => true,
    }
}

pub open spec fn stmts_meant(p: TProgram, n: nat, l: Seq<TStmt>) -> bool
    decreases l, 0nat,
{
    forall|i: int| 0 <= i < l.len() ==> stmt_meant(p, n, #[trigger] l[i])
}

pub open spec fn cases_meant(p: TProgram, n: nat, cs: Seq<TCase>) -> bool
    decreases cs, 0nat,
{
    forall|i: int|
        #![trigger cs[i]]
        0 <= i < cs.len() ==> opt_meant(p, n, cs[i].test) && stmts_meant(p, n, cs[i].body@)
}

} // verus!
