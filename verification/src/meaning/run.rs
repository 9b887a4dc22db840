//! How the mid-level IR runs.

use vstd::prelude::*;

use crate::mir::{
    BinOp, Builtin, Case, Catch, Conv, Expr, ExprKind, LocalId, NumMethod, Stmt, StrMethod, Ty,
    UnOp,
};

verus! {

// --- values and states --------------------------------------------------------------------

pub ghost enum Val {
    Int(int),
    /// A double by its bits.
    Double(u64),
    Text(Seq<char>),
    Bool(bool),
    Null,
    Undefined,
    /// An object, an array or a vector.
    Ref(int),
}

/// Where control is.
pub ghost enum Jump {
    /// It goes on.
    Go,
    /// On its way out of a loop or `switch`.
    Break(Option<Seq<char>>),
    /// On its way to the next round of a loop.
    Continue(Option<Seq<char>>),
    Return(Option<Val>),
    Throw(Val),
    /// The time given to the run is over.
    Over,
}

pub ghost struct Store {
    pub locals: spec_fn(int) -> Val,
    /// The captured cells.
    pub cells: spec_fn(int) -> Val,
    /// The lengths of the vectors.
    pub lens: spec_fn(int) -> int,
    /// How much of the world has happened.
    pub tick: nat,
    pub jump: Jump,
}

/// What is left open: what operations yield, and what other code does.
pub ghost struct World {
    /// What an operation yields, by its name, its operands and the time.
    pub apply: spec_fn(Seq<char>, Seq<Val>, nat) -> Val,
    pub truth: spec_fn(Val) -> bool,
    /// Other code can write the local.
    pub meddles: spec_fn(int) -> bool,
    /// Other code can write the cell.
    pub meddles_cell: spec_fn(int) -> bool,
    pub meddle: spec_fn(int, nat) -> Val,
    pub meddle_cell: spec_fn(int, nat) -> Val,
    /// What is thrown by what happens at the time, if anything.
    pub throws: spec_fn(nat) -> Option<Val>,
    /// Other code can reach the vector.
    pub reached: spec_fn(int) -> bool,
    pub length: spec_fn(int, nat) -> int,
    /// The exception is one that a local of that number catches.
    pub caught: spec_fn(int, Val) -> bool,
}

impl Store {
    pub open spec fn runs(self) -> bool {
        self.jump is Go
    }

    pub open spec fn set(self, l: LocalId, v: Val) -> Store {
        if self.runs() {
            let f = self.locals;
            let at = l.0 as int;
            Store {
                locals: |k: int|
                    if k == at {
                        v
                    } else {
                        f(k)
                    },
                ..self
            }
        } else {
            self
        }
    }

    pub open spec fn set_cell(self, c: usize, v: Val) -> Store {
        if self.runs() {
            let f = self.cells;
            let at = c as int;
            Store {
                cells: |k: int|
                    if k == at {
                        v
                    } else {
                        f(k)
                    },
                ..self
            }
        } else {
            self
        }
    }

    pub open spec fn go(self, jump: Jump) -> Store {
        Store { jump, ..self }
    }

    /// Goes on, unless it is on its way somewhere else already.
    pub open spec fn jumps(self, jump: Jump) -> Store {
        if self.runs() {
            self.go(jump)
        } else {
            self
        }
    }
}

pub open spec fn is_among(xs: Seq<Val>, r: int) -> bool {
    exists|i: int| 0 <= i < xs.len() && #[trigger] xs[i] == Val::Ref(r)
}

/// An operation that has no effect but its result.
pub open spec fn plain_op(w: World, name: Seq<char>, xs: Seq<Val>, s: Store) -> (Store, Val) {
    if s.runs() {
        (s, (w.apply)(name, xs, 0))
    } else {
        (s, Val::Undefined)
    }
}

/// An operation on objects: it can change the lengths of those that it is given.
pub open spec fn object_op(w: World, name: Seq<char>, xs: Seq<Val>, s: Store) -> (Store, Val) {
    if s.runs() {
        let f = s.lens;
        let t = s.tick;
        (
            Store {
                lens: |r: int|
                    if is_among(xs, r) || (w.reached)(r) {
                        (w.length)(r, t)
                    } else {
                        f(r)
                    },
                tick: t + 1,
                ..s
            },
            (w.apply)(name, xs, t),
        )
    } else {
        (s, Val::Undefined)
    }
}

/// What is thrown at the time takes control.
pub open spec fn may_throw(w: World, s: Store, t: nat) -> Store {
    match (w.throws)(t) {
        Some(v) => s.jumps(Jump::Throw(v)),
        None => s,
    }
}

/// An operation that can run other code of the program, and throw.
pub open spec fn outer_op(w: World, name: Seq<char>, xs: Seq<Val>, s: Store) -> (Store, Val) {
    if s.runs() {
        let (s1, v) = object_op(w, name, xs, s);
        let f = s.locals;
        let g = s.cells;
        let t = s.tick;
        let s2 = Store {
            locals: |k: int|
                if (w.meddles)(k) {
                    (w.meddle)(k, t)
                } else {
                    f(k)
                },
            cells: |k: int|
                if (w.meddles_cell)(k) {
                    (w.meddle_cell)(k, t)
                } else {
                    g(k)
                },
            ..s1
        };
        (may_throw(w, s2, t), v)
    } else {
        (s, Val::Undefined)
    }
}

// --- names of operations ------------------------------------------------------------------

pub open spec fn bin_name(op: BinOp) -> Seq<char> {
    match op {
        BinOp::Add => "+"@,
        BinOp::Sub => "-"@,
        BinOp::Mul => "*"@,
        BinOp::Div => "/"@,
        BinOp::Rem => "%"@,
        BinOp::Shl => "<<"@,
        BinOp::Shr => ">>"@,
        BinOp::Ushr => ">>>"@,
        BinOp::BitAnd => "&"@,
        BinOp::BitOr => "|"@,
        BinOp::BitXor => "^"@,
        BinOp::Lt => "<"@,
        BinOp::Gt => ">"@,
        BinOp::Le => "<="@,
        BinOp::Ge => ">="@,
        BinOp::Eq => "=="@,
        BinOp::Ne => "!="@,
        BinOp::StrictEq => "==="@,
        BinOp::StrictNe => "!=="@,
    }
}

pub open spec fn un_name(op: UnOp) -> Seq<char> {
    match op {
        UnOp::Not => "!"@,
        UnOp::BitNot => "~"@,
        UnOp::Neg => "-"@,
        UnOp::TypeOf => "typeof"@,
    }
}

pub open spec fn conv_name(c: Conv) -> Seq<char> {
    match c {
        Conv::ToInt => "int"@,
        Conv::ToUInt => "uint"@,
        Conv::ToNumber => "Number"@,
        Conv::ToBoolean => "Boolean"@,
        Conv::ToString => "String"@,
        Conv::ToAny => "*"@,
        Conv::AnyToString => "* as String"@,
        _ => "* as object"@,
    }
}

pub open spec fn builtin_name(b: Builtin) -> Seq<char> {
    match b {
        Builtin::Trace => "trace"@,
        Builtin::ParseInt => "parseInt"@,
        Builtin::ParseFloat => "parseFloat"@,
        Builtin::IsNaN => "isNaN"@,
        Builtin::IsFinite => "isFinite"@,
        Builtin::EncodeUriComponent => "encodeURIComponent"@,
        Builtin::DecodeUriComponent => "decodeURIComponent"@,
        Builtin::Escape => "escape"@,
        Builtin::Unescape => "unescape"@,
    }
}

pub open spec fn str_method_name(m: StrMethod) -> Seq<char> {
    match m {
        StrMethod::CharAt => "charAt"@,
        StrMethod::CharCodeAt => "charCodeAt"@,
        StrMethod::IndexOf => "indexOf"@,
        StrMethod::LastIndexOf => "lastIndexOf"@,
        StrMethod::Slice => "slice"@,
        StrMethod::Substring => "substring"@,
        StrMethod::Substr => "substr"@,
        StrMethod::ToLowerCase => "toLowerCase"@,
        StrMethod::ToUpperCase => "toUpperCase"@,
        StrMethod::ToString => "toString"@,
        StrMethod::Split => "split"@,
        StrMethod::Replace => "replace"@,
    }
}

pub open spec fn num_method_name(m: NumMethod) -> Seq<char> {
    match m {
        NumMethod::ToString => "toString"@,
        NumMethod::ToFixed => "toFixed"@,
    }
}

pub open spec fn ty_name(t: Ty) -> Seq<char> {
    match t {
        Ty::Int => "int"@,
        Ty::UInt => "uint"@,
        Ty::Number => "Number"@,
        Ty::Boolean => "Boolean"@,
        Ty::String => "String"@,
        Ty::Void => "void"@,
        Ty::Any => "*"@,
        _ => "object"@,
    }
}

/// No method of an object runs when a value of the type is converted.
pub open spec fn is_primitive(t: Ty) -> bool {
    t == Ty::Int || t == Ty::UInt || t == Ty::Number || t == Ty::Boolean || t == Ty::String
}

/// An operator on operands of which none is an object, or some can be.
pub open spec fn operator(w: World, name: Seq<char>, xs: Seq<Val>, primitive: bool, s: Store) -> (
    Store,
    Val,
) {
    if primitive {
        plain_op(w, name, xs, s)
    } else {
        outer_op(w, name, xs, s)
    }
}

// --- expressions --------------------------------------------------------------------------

/// `++` or `--`: one more or one less, of which the value is the new one or the old
/// one.
pub open spec fn stepped(w: World, old: Val, is_inc: bool) -> Val {
    (w.apply)(
        if is_inc {
            "+"@
        } else {
            "-"@
        },
        seq![old, Val::Int(1)],
        0,
    )
}

pub open spec fn step_value(old: Val, new: Val, is_prefix: bool) -> Val {
    if is_prefix {
        new
    } else {
        old
    }
}

/// Evaluates an expression: the state after it, and its value. Operands are
/// evaluated from left to right; once control is on its way elsewhere, nothing more
/// happens.
pub open spec fn eval(w: World, e: Expr, s: Store) -> (Store, Val)
    decreases e, 0nat,
{
    if !s.runs() {
        (s, Val::Undefined)
    } else {
        match e.kind {
            ExprKind::Int(v) => (s, Val::Int(v as int)),
            ExprKind::UInt(v) => (s, Val::Int(v as int)),
            ExprKind::Number(v) => (s, Val::Double(v)),
            ExprKind::Str(v) => (s, Val::Text(v@)),
            ExprKind::Bool(v) => (s, Val::Bool(v)),
            ExprKind::Null => (s, Val::Null),
            ExprKind::Undefined => (s, Val::Undefined),
            ExprKind::LocalGet(l) => (s, (s.locals)(l.0 as int)),
            ExprKind::CaptureGet(c) => (s, (s.cells)(c as int)),
            ExprKind::LocalSet(l, v) => {
                let (s1, x) = eval(w, *v, s);
                (s1.set(l, x), x)
            },
            ExprKind::CaptureSet(c, v) => {
                let (s1, x) = eval(w, *v, s);
                (s1.set_cell(c, x), x)
            },
            ExprKind::IncDec { target, is_inc, is_prefix } => {
                let old = (s.locals)(target.0 as int);
                let new = stepped(w, old, is_inc);
                (s.set(target, new), step_value(old, new, is_prefix))
            },
            ExprKind::CaptureIncDec { slot, is_inc, is_prefix } => {
                let old = (s.cells)(slot as int);
                let new = stepped(w, old, is_inc);
                (s.set_cell(slot, new), step_value(old, new, is_prefix))
            },
            ExprKind::Unary(op, a) => {
                let (s1, x) = eval(w, *a, s);
                operator(w, un_name(op), seq![x], is_primitive(a.ty), s1)
            },
            ExprKind::Conv(c, a) => {
                let (s1, x) = eval(w, *a, s);
                operator(w, conv_name(c), seq![x], is_primitive(a.ty), s1)
            },
            ExprKind::Binary(op, a, b) => {
                let (s1, x) = eval(w, *a, s);
                let (s2, y) = eval(w, *b, s1);
                operator(
                    w,
                    bin_name(op),
                    seq![x, y],
                    is_primitive(a.ty) && is_primitive(b.ty),
                    s2,
                )
            },
            // The right side is only evaluated if the left one does not decide.
            ExprKind::Logical { is_and, lhs, rhs } => {
                let (s1, x) = eval(w, *lhs, s);
                if (w.truth)(x) == is_and {
                    eval(w, *rhs, s1)
                } else {
                    (s1, x)
                }
            },
            ExprKind::Conditional(c, a, b) => {
                let (s1, x) = eval(w, *c, s);
                if (w.truth)(x) {
                    eval(w, *a, s1)
                } else {
                    eval(w, *b, s1)
                }
            },
            ExprKind::Comma(a, b) => eval(w, *b, eval(w, *a, s).0),
            ExprKind::Is(a, t) => {
                let (s1, x) = eval(w, *a, s);
                object_op(w, "is "@ + ty_name(t), seq![x], s1)
            },
            ExprKind::As(a, t) => {
                let (s1, x) = eval(w, *a, s);
                object_op(w, "as "@ + ty_name(t), seq![x], s1)
            },
            ExprKind::StrLen(a) => {
                let (s1, x) = eval(w, *a, s);
                plain_op(w, "length"@, seq![x], s1)
            },
            ExprKind::SeqLen(a) => {
                let (s1, x) = eval(w, *a, s);
                match x {
                    Val::Ref(r) => (s1, Val::Int((s1.lens)(r))),
                    _ => plain_op(w, "length"@, seq![x], s1),
                }
            },
            ExprKind::SeqGet(a, i, unchecked) => {
                let (s1, x) = eval(w, *a, s);
                let (s2, y) = eval(w, *i, s1);
                let s3 = if unchecked {
                    s2
                } else {
                    may_throw(w, s2, s2.tick)
                };
                (Store { tick: s3.tick + 1, ..s3 }, (w.apply)("element"@, seq![x, y], s2.tick))
            },
            ExprKind::SeqSet(a, i, v, unchecked) => {
                let (s1, x) = eval(w, *a, s);
                let (s2, y) = eval(w, *i, s1);
                let (s3, z) = eval(w, *v, s2);
                let s4 = if unchecked {
                    s3
                } else {
                    may_throw(w, s3, s3.tick)
                };
                (Store { tick: s4.tick + 1, ..s4 }, z)
            },
            ExprKind::CallFn(f, args) => {
                let (s1, xs) = eval_all(w, args@, args@.len(), s);
                outer_op(w, "call"@, seq![Val::Int(f.0 as int)] + xs, s1)
            },
            ExprKind::CallBuiltin(b, args) => {
                let (s1, xs) = eval_all(w, args@, args@.len(), s);
                outer_op(w, builtin_name(b), xs, s1)
            },
            ExprKind::CallStrMethod(m, a, args) => {
                let (s1, x) = eval(w, *a, s);
                let (s2, xs) = eval_all(w, args@, args@.len(), s1);
                outer_op(w, "String."@ + str_method_name(m), seq![x] + xs, s2)
            },
            ExprKind::CallNumMethod(m, a, args) => {
                let (s1, x) = eval(w, *a, s);
                let (s2, xs) = eval_all(w, args@, args@.len(), s1);
                outer_op(w, "Number."@ + num_method_name(m), seq![x] + xs, s2)
            },
            ExprKind::New(_, args) | ExprKind::CallNative(_, args) | ExprKind::NewRegExp(args)
            | ExprKind::CallRegex(_, args) | ExprKind::NewDate(args)
            | ExprKind::CallDate(_, args) | ExprKind::CallSocket(_, args) => {
                let (s1, xs) = eval_all(w, args@, args@.len(), s);
                outer_op(w, "call"@, xs, s1)
            },
            ExprKind::CallArr(_, a, args) | ExprKind::CallVec(_, a, args)
            | ExprKind::PropCall(a, _, args) | ExprKind::CallVirtual { recv: a, args, .. }
            | ExprKind::CallIface { recv: a, args, .. }
            | ExprKind::CallDirect { recv: a, args, .. } => {
                let (s1, x) = eval(w, *a, s);
                let (s2, xs) = eval_all(w, args@, args@.len(), s1);
                outer_op(w, "method"@, seq![x] + xs, s2)
            },
            ExprKind::NsCall(a, q, _, args) => {
                let (s1, x) = eval(w, *a, s);
                let (s2, y) = eval(w, *q, s1);
                let (s3, xs) = eval_all(w, args@, args@.len(), s2);
                outer_op(w, "method"@, seq![x, y] + xs, s3)
            },
            ExprKind::CallFnValue { callee, this_arg: Some(this), args, .. } => {
                let (s1, x) = eval(w, *callee, s);
                let (s2, y) = eval(w, *this, s1);
                let (s3, xs) = eval_all(w, args@, args@.len(), s2);
                outer_op(w, "call"@, seq![x, y] + xs, s3)
            },
            ExprKind::CallFnValue { callee, this_arg: None, args, .. } => {
                let (s1, x) = eval(w, *callee, s);
                let (s2, xs) = eval_all(w, args@, args@.len(), s1);
                outer_op(w, "call"@, seq![x] + xs, s2)
            },
            ExprKind::PropGet(a, _) | ExprKind::DeleteProp(a, _) | ExprKind::NewNamespace(a)
            | ExprKind::NsUri(a) => {
                let (s1, x) = eval(w, *a, s);
                outer_op(w, "member"@, seq![x], s1)
            },
            ExprKind::AnyIndexGet(a, b) | ExprKind::HasProp(a, b) | ExprKind::PropSet(a, _, b)
            | ExprKind::NsGet(a, b, _) => {
                let (s1, x) = eval(w, *a, s);
                let (s2, y) = eval(w, *b, s1);
                outer_op(w, "member"@, seq![x, y], s2)
            },
            ExprKind::AnyIndexSet(a, b, c) => {
                let (s1, x) = eval(w, *a, s);
                let (s2, y) = eval(w, *b, s1);
                let (s3, z) = eval(w, *c, s2);
                outer_op(w, "member"@, seq![x, y, z], s3)
            },
            ExprKind::StaticSet(_, _, a) | ExprKind::EnumLen(a) | ExprKind::FieldGet(a, _, _)
            | ExprKind::BoundMethod(a, _, _) | ExprKind::FieldIncDec { recv: a, .. } => {
                let (s1, x) = eval(w, *a, s);
                object_op(w, "object"@, seq![x], s1)
            },
            ExprKind::EnumKey(a, b) | ExprKind::EnumValue(a, b) | ExprKind::FieldSet(a, _, _, b)
            | ExprKind::SeqSetLen(a, b) => {
                let (s1, x) = eval(w, *a, s);
                let (s2, y) = eval(w, *b, s1);
                object_op(w, "object"@, seq![x, y], s2)
            },
            ExprKind::VectorLit(_, args) => {
                let (s1, xs) = eval_all(w, args@, args@.len(), s);
                object_op(w, "vector"@, xs, s1)
            },
            ExprKind::ArrayLit(els) => {
                let (s1, xs) = eval_some(w, els@, els@.len(), s);
                object_op(w, "array"@, xs, s1)
            },
            ExprKind::ObjectLit(props) => {
                let (s1, xs) = eval_props(w, props@, props@.len(), s);
                object_op(w, "object"@, xs, s1)
            },
            _ => object_op(w, "object"@, Seq::empty(), s),
        }
    }
}

/// Evaluates the first `n` expressions, in order.
pub open spec fn eval_all(w: World, es: Seq<Expr>, n: nat, s: Store) -> (Store, Seq<Val>)
    decreases es, n,
{
    if 0 < n <= es.len() {
        let (s1, xs) = eval_all(w, es, (n - 1) as nat, s);
        let (s2, x) = eval(w, es[n - 1], s1);
        (s2, xs.push(x))
    } else {
        (s, Seq::empty())
    }
}

/// Evaluates those of the first `n` elements that are there.
pub open spec fn eval_some(w: World, es: Seq<Option<Expr>>, n: nat, s: Store) -> (Store, Seq<Val>)
    decreases es, n,
{
    if 0 < n <= es.len() {
        let (s1, xs) = eval_some(w, es, (n - 1) as nat, s);
        match es[n - 1] {
            Some(e) => {
                let (s2, x) = eval(w, e, s1);
                (s2, xs.push(x))
            },
            None => (s1, xs.push(Val::Undefined)),
        }
    } else {
        (s, Seq::empty())
    }
}

/// Evaluates the values of the first `n` properties.
pub open spec fn eval_props(w: World, ps: Seq<(String, Expr)>, n: nat, s: Store) -> (
    Store,
    Seq<Val>,
)
    decreases ps, n,
{
    if 0 < n <= ps.len() {
        let (s1, xs) = eval_props(w, ps, (n - 1) as nat, s);
        let (s2, x) = eval(w, ps[n - 1].1, s1);
        (s2, xs.push(x))
    } else {
        (s, Seq::empty())
    }
}

// --- statements ---------------------------------------------------------------------------

pub open spec fn label_of(l: Option<String>) -> Option<Seq<char>> {
    match l {
        Some(x) => Some(x@),
        None => None,
    }
}

/// A `break` or `continue` with this label means the loop with that one.
pub open spec fn means(wanted: Option<Seq<char>>, label: Option<Seq<char>>) -> bool {
    wanted is None || wanted == label
}

/// After a round of a loop: a `continue` that means the loop has arrived.
pub open spec fn next_round(s: Store, label: Option<Seq<char>>) -> Store {
    match s.jump {
        Jump::Continue(l) => if means(l, label) {
            s.go(Jump::Go)
        } else {
            s
        },
        _ => s,
    }
}

/// After a loop or `switch`: a `break` that means it has arrived.
pub open spec fn left(s: Store, label: Option<Seq<char>>) -> Store {
    match s.jump {
        Jump::Break(l) => if means(l, label) {
            s.go(Jump::Go)
        } else {
            s
        },
        _ => s,
    }
}

/// Evaluates a condition: the state after it, and whether it holds.
pub open spec fn tested(w: World, c: Option<Expr>, s: Store) -> (Store, bool) {
    match c {
        Some(e) => {
            let (s1, x) = eval(w, e, s);
            (s1, (w.truth)(x))
        },
        None => (s, true),
    }
}

/// Evaluates what there is for its effect.
pub open spec fn done(w: World, e: Option<Expr>, s: Store) -> Store {
    match e {
        Some(x) => eval(w, x, s).0,
        None => s,
    }
}

/// Runs a statement; a loop makes at most `n` rounds.
pub open spec fn exec(w: World, st: Stmt, n: nat, s: Store) -> Store
    decreases st, n, 1nat,
{
    if !s.runs() {
        s
    } else {
        match st {
            Stmt::Expr(e) => eval(w, e, s).0,
            Stmt::Assign(l, e) => {
                let (s1, x) = eval(w, e, s);
                s1.set(l, x)
            },
            Stmt::Block(b) => exec_all(w, b@, b@.len(), n, s),
            Stmt::If { cond, then_branch, else_branch } => {
                let (s1, c) = tested(w, Some(cond), s);
                if c {
                    exec(w, *then_branch, n, s1)
                } else {
                    match else_branch {
                        Some(x) => exec(w, *x, n, s1),
                        None => s1,
                    }
                }
            },
            Stmt::While { label, .. } => left(rounds(w, st, n, s), label_of(label)),
            Stmt::DoWhile { label, .. } => left(rounds(w, st, n, s), label_of(label)),
            Stmt::For { label, init, .. } => {
                let s1 = match init {
                    Some(x) => exec(w, *x, n, s),
                    None => s,
                };
                if s1.runs() {
                    left(rounds(w, st, n, s1), label_of(label))
                } else {
                    s1
                }
            },
            Stmt::Switch { scrutinee, cases } => {
                let (s1, x) = eval(w, scrutinee, s);
                let (s2, k) = chosen(w, cases@, cases@.len(), x, s1);
                match k {
                    Some(k) => left(bodies(w, cases@, k, cases@.len(), n, s2), None),
                    None => s2,
                }
            },
            Stmt::Break { label } => s.go(Jump::Break(label_of(label))),
            Stmt::Continue { label } => s.go(Jump::Continue(label_of(label))),
            Stmt::Return { value: Some(e) } => {
                let (s1, x) = eval(w, e, s);
                s1.jumps(Jump::Return(Some(x)))
            },
            Stmt::Return { value: None } => s.go(Jump::Return(None)),
            Stmt::Throw(e) => {
                let (s1, x) = eval(w, e, s);
                s1.jumps(Jump::Throw(x))
            },
            Stmt::Try { body, catches, finally } => {
                let s1 = exec_all(w, body@, body@.len(), n, s);
                let s2 = match s1.jump {
                    Jump::Throw(x) => handled(w, catches@, 0, x, n, s1),
                    _ => s1,
                };
                match finally {
                    // It runs on every way out, and then control goes on its way,
                    // unless the block itself sent it elsewhere.
                    Some(f) => exec_all(w, f@, f@.len(), n, s2.go(Jump::Go)).jumps(s2.jump),
                    None => s2,
                }
            },
            Stmt::Empty => s,
        }
    }
}

/// Runs the first `k` statements in order.
pub open spec fn exec_all(w: World, l: Seq<Stmt>, k: nat, n: nat, s: Store) -> Store
    decreases l, n, k,
{
    if 0 < k <= l.len() {
        exec(w, l[k - 1], n, exec_all(w, l, (k - 1) as nat, n, s))
    } else {
        s
    }
}

/// The rounds of a loop, from the test of its condition on (for `do`, from its
/// body on).
pub open spec fn rounds(w: World, st: Stmt, n: nat, s: Store) -> Store
    decreases st, n, 0nat,
{
    if !s.runs() {
        s
    } else if n == 0 {
        s.go(Jump::Over)
    } else {
        let m = (n - 1) as nat;
        match st {
            Stmt::While { label, cond, body } => {
                let (s1, c) = tested(w, Some(cond), s);
                if s1.runs() && c {
                    rounds(w, st, m, next_round(exec(w, *body, m, s1), label_of(label)))
                } else {
                    s1
                }
            },
            Stmt::DoWhile { label, body, cond } => {
                let s1 = next_round(exec(w, *body, m, s), label_of(label));
                let (s2, c) = tested(w, Some(cond), s1);
                if s2.runs() && c {
                    rounds(w, st, m, s2)
                } else {
                    s2
                }
            },
            // After a round, and after a `continue`, the update runs, once.
            Stmt::For { label, cond, update, body, .. } => {
                let (s1, c) = tested(w, cond, s);
                if s1.runs() && c {
                    let s2 = next_round(exec(w, *body, m, s1), label_of(label));
                    rounds(w, st, m, done(w, update, s2))
                } else {
                    s1
                }
            },
            _ => s,
        }
    }
}

/// The clause of a `switch` that is chosen among the first `k`: the first one whose
/// test equals the value, else the first `default`.
pub open spec fn chosen(w: World, cs: Seq<Case>, k: nat, x: Val, s: Store) -> (Store, Option<int>) {
    let (s1, hit) = matching(w, cs, k, x, s);
    (
        s1,
        match hit {
            Some(i) => Some(i),
            None => default_of(cs, k),
        },
    )
}

/// The first of the first `k` clauses whose test equals the value; the tests are
/// evaluated in order up to that one.
pub open spec fn matching(w: World, cs: Seq<Case>, k: nat, x: Val, s: Store) -> (
    Store,
    Option<int>,
)
    decreases k,
{
    if 0 < k <= cs.len() {
        let (s1, hit) = matching(w, cs, (k - 1) as nat, x, s);
        match (hit, cs[k - 1].test) {
            (None, Some(t)) => {
                let (s2, y) = eval(w, t, s1);
                if s2.runs() && (w.apply)("==="@, seq![x, y], 0) == Val::Bool(true) {
                    (s2, Some(k - 1))
                } else {
                    (s2, None)
                }
            },
            _ => (s1, hit),
        }
    } else {
        (s, None)
    }
}

pub open spec fn default_of(cs: Seq<Case>, k: nat) -> Option<int>
    decreases k,
{
    if 0 < k <= cs.len() {
        match default_of(cs, (k - 1) as nat) {
            Some(i) => Some(i),
            None => if cs[k - 1].test is None {
                Some(k - 1)
            } else {
                None
            },
        }
    } else {
        None
    }
}

/// Runs the bodies of the clauses from `i` to `k`, one into the next.
pub open spec fn bodies(w: World, cs: Seq<Case>, i: int, k: nat, n: nat, s: Store) -> Store
    decreases cs, n, k,
{
    if i < k <= cs.len() && 0 < k {
        exec_all(
            w,
            cs[k - 1].body@,
            cs[k - 1].body@.len(),
            n,
            bodies(w, cs, i, (k - 1) as nat, n, s),
        )
    } else {
        s
    }
}

/// The first `catch` clause from `i` on that catches the exception runs, with the
/// exception in its local.
pub open spec fn handled(w: World, cs: Seq<Catch>, i: int, x: Val, n: nat, s: Store) -> Store
    decreases cs, n, cs.len() - i,
{
    if 0 <= i < cs.len() {
        let l = cs[i].binding;
        if (w.caught)(l.0 as int, x) {
            exec_all(w, cs[i].body@, cs[i].body@.len(), n, s.go(Jump::Go).set(l, x))
        } else {
            handled(w, cs, i + 1, x, n, s)
        }
    } else {
        s
    }
}

} // verus!
