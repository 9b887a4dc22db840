//! A dump as rows: each line of it is a row, and the dump at a deeper place is the
//! same rows, moved to the right.

use vstd::prelude::*;

use crate::ast::dump::{
    args_dump, assign_name, atom_line, binary_name, binding_line, bindings_dump, bits, block_dump,
    cases_dump, catch_line, catches_dump, char_bit, class_dump, class_line, deeper, dotted, dumped,
    elements_dump, expr_dump, function_dump, function_line, init_dump, interface_line,
    labeled_expr, labeled_opt, labeled_stmt, line, member_line, members_dump, number_line,
    param_line, params_dump, plain_line, postfix_name, prop_line, props_dump, quote, sig_line, sigs_dump,
    stmt_dump, stmts_dump, target_dump, type_text_of, types_text, unary_name, var_decl_dump, Bit,
};
use crate::ast::nodes::{
    Binding, Block, CatchClause, ClassDecl, Expr, ExprKind, ForInTarget, ForInit, FunctionDecl,
    InterfaceMember, Member, MemberKind, Param, Program, PropName, Stmt, StmtKind, SwitchCase,
    VarDecl,
};
use crate::lexer::token::NumView;

verus! {

// --- rows -----------------------------------------------------------------------------------

/// A line of a dump: how far it stands to the right, and what it says.
pub ghost struct Row {
    pub depth: nat,
    pub text: Seq<Bit>,
}

/// The rows, one step further to the right.
pub open spec fn nested(rows: Seq<Row>) -> Seq<Row> {
    Seq::new(rows.len(), |i: int| Row { depth: rows[i].depth + 1, text: rows[i].text })
}

/// The pad, `depth` steps deeper.
pub open spec fn pad_at(pad: Seq<char>, depth: nat) -> Seq<char>
    decreases depth,
{
    if depth == 0 {
        pad
    } else {
        pad_at(deeper(pad), (depth - 1) as nat)
    }
}

/// A row at a pad, with its line break.
pub open spec fn row_bits(r: Row, pad: Seq<char>) -> Seq<Bit> {
    bits(pad_at(pad, r.depth)) + r.text + bits("\n"@)
}

/// The rows at a pad, one after the other.
pub open spec fn laid(rows: Seq<Row>, pad: Seq<char>) -> Seq<Bit>
    decreases rows.len(),
{
    if rows.len() == 0 {
        Seq::empty()
    } else {
        laid(rows.drop_last(), pad) + row_bits(rows.last(), pad)
    }
}

pub open spec fn row(t: Seq<char>) -> Seq<Row> {
    seq![Row { depth: 0, text: bits(t) }]
}

pub open spec fn number_row(before: Seq<char>, n: NumView, after: Seq<char>) -> Seq<Row> {
    seq![Row { depth: 0, text: bits(before).push(Bit::Number(n)) + bits(after) }]
}

/// `b` is `a` and then the rows at the pad.
#[verifier::opaque]
pub open spec fn adds(a: Seq<Bit>, b: Seq<Bit>, rows: Seq<Row>, pad: Seq<char>) -> bool {
    b == a + laid(rows, pad)
}

proof fn lemma_bits_cat(a: Seq<char>, b: Seq<char>)
    ensures
        bits(a + b) == bits(a) + bits(b),
{
    assert(bits(a + b) =~= bits(a) + bits(b));
}

proof fn lemma_laid_cat(a: Seq<Row>, b: Seq<Row>, pad: Seq<char>)
    ensures
        laid(a + b, pad) == laid(a, pad) + laid(b, pad),
    decreases b.len(),
{
    if b.len() == 0 {
        assert(a + b =~= a);
        assert(laid(a, pad) + laid(b, pad) =~= laid(a, pad));
    } else {
        lemma_laid_cat(a, b.drop_last(), pad);
        assert((a + b).drop_last() =~= a + b.drop_last());
        assert((a + b).last() == b.last());
        assert(laid(a + b, pad) =~= laid(a, pad) + laid(b, pad));
    }
}

proof fn lemma_laid_nested(rows: Seq<Row>, pad: Seq<char>)
    ensures
        laid(nested(rows), pad) == laid(rows, deeper(pad)),
    decreases rows.len(),
{
    if rows.len() > 0 {
        lemma_laid_nested(rows.drop_last(), pad);
        assert(nested(rows).drop_last() =~= nested(rows.drop_last()));
        assert(row_bits(nested(rows).last(), pad) == row_bits(rows.last(), deeper(pad)));
    }
}

proof fn lemma_laid_one(r: Row, pad: Seq<char>)
    ensures
        laid(seq![r], pad) == row_bits(r, pad),
{
    assert(seq![r].drop_last() =~= Seq::<Row>::empty());
    assert(laid(Seq::<Row>::empty(), pad) =~= Seq::<Bit>::empty());
    assert(laid(seq![r], pad) =~= row_bits(r, pad));
}

broadcast proof fn lemma_adds_line(out: Seq<Bit>, pad: Seq<char>, t: Seq<char>)
    ensures
        adds(out, #[trigger] line(out, pad, t), row(t), pad),
{
    reveal(adds);
    reveal(line);
    lemma_laid_one(Row { depth: 0, text: bits(t) }, pad);
    lemma_bits_cat(pad + t, "\n"@);
    lemma_bits_cat(pad, t);
    assert(line(out, pad, t) =~= out + laid(row(t), pad));
}

broadcast proof fn lemma_adds_number(
    out: Seq<Bit>,
    pad: Seq<char>,
    before: Seq<char>,
    n: NumView,
    after: Seq<char>,
)
    ensures
        adds(
            out,
            #[trigger] number_line(out, pad, before, n, after),
            number_row(before, n, after),
            pad,
        ),
{
    reveal(adds);
    reveal(number_line);
    lemma_laid_one(number_row(before, n, after)[0], pad);
    lemma_bits_cat(pad, before);
    lemma_bits_cat(after, "\n"@);
    assert(number_row(before, n, after) =~= seq![number_row(before, n, after)[0]]);
    assert(number_line(out, pad, before, n, after) =~= out + laid(
        number_row(before, n, after),
        pad,
    ));
}

/// Rows, and then more of them.
proof fn put(
    a: Seq<Bit>,
    b: Seq<Bit>,
    c: Seq<Bit>,
    r: Seq<Row>,
    s: Seq<Row>,
    pad: Seq<char>,
)
    requires
        adds(a, b, r, pad),
        adds(b, c, s, pad),
    ensures
        adds(a, c, r + s, pad),
{
    reveal(adds);
    lemma_laid_cat(r, s, pad);
    assert(c =~= a + laid(r + s, pad));
}

/// Rows, and then more of them one step deeper.
proof fn put_in(
    a: Seq<Bit>,
    b: Seq<Bit>,
    c: Seq<Bit>,
    r: Seq<Row>,
    s: Seq<Row>,
    pad: Seq<char>,
)
    requires
        adds(a, b, r, pad),
        adds(b, c, s, deeper(pad)),
    ensures
        adds(a, c, r + nested(s), pad),
{
    reveal(adds);
    lemma_laid_nested(s, pad);
    lemma_laid_cat(r, nested(s), pad);
    assert(c =~= a + laid(r + nested(s), pad));
}

broadcast group group_rows {
    lemma_adds_line,
    lemma_adds_number,
}

proof fn lemma_adds_none(a: Seq<Bit>, pad: Seq<char>)
    ensures
        adds(a, a, Seq::empty(), pad),
{
    reveal(adds);
    assert(a + laid(Seq::empty(), pad) =~= a);
}

// --- the rows of a tree ---------------------------------------------------------------------

/// The rows of an expression.
pub open spec fn expr_rows(e: Expr) -> Seq<Row>
    decreases e, 0nat,
{
    match e.kind {
        ExprKind::Number(v) => number_row("Number "@, v@, ""@),
        ExprKind::Array(l) => row("Array"@) + nested(elements_rows(l@, l@.len())),
        ExprKind::Object(l) => row("Object"@) + nested(props_rows(l@, l@.len())),
        ExprKind::Function(f) => function_rows(*f),
        ExprKind::Unary(op, a) => row("Unary "@ + unary_name(op)@) + nested(expr_rows(*a)),
        ExprKind::Postfix(op, a) => row("Postfix "@ + postfix_name(op)@) + nested(expr_rows(*a)),
        ExprKind::Binary(op, a, b) => row("Binary "@ + binary_name(op)@) + nested(expr_rows(*a))
            + nested(expr_rows(*b)),
        ExprKind::Assign(op, a, b) => row("Assign "@ + assign_name(op)@) + nested(expr_rows(*a))
            + nested(expr_rows(*b)),
        ExprKind::Conditional(c, a, b) => row("Conditional"@) + nested(expr_rows(*c)) + nested(
            expr_rows(*a),
        ) + nested(expr_rows(*b)),
        ExprKind::Call(c, args) => row("Call"@) + nested(expr_rows(*c)) + nested(
            args_rows(args@, args@.len()),
        ),
        ExprKind::New(c, args) => row("New"@) + nested(expr_rows(*c)) + nested(
            args_rows(args@, args@.len()),
        ),
        ExprKind::Member(a, name) => row("Member ."@ + name@) + nested(expr_rows(*a)),
        ExprKind::Index(a, b) => row("Index"@) + nested(expr_rows(*a)) + nested(expr_rows(*b)),
        ExprKind::ApplyType(a, ts) => row("ApplyType "@ + types_text(ts@, ts@.len())) + nested(
            expr_rows(*a),
        ),
        ExprKind::VectorLit { elem, elements } => row("VectorLit "@ + type_text_of(elem)) + nested(
            args_rows(elements@, elements@.len()),
        ),
        ExprKind::Comma(a, b) => row("Comma"@) + nested(expr_rows(*a)) + nested(expr_rows(*b)),
        k => row(atom_line(k)),
    }
}

/// The rows of the first `n` arguments.
pub open spec fn args_rows(l: Seq<Expr>, n: nat) -> Seq<Row>
    decreases l, n,
{
    if 0 < n <= l.len() {
        args_rows(l, (n - 1) as nat) + row("arg:"@) + nested(expr_rows(l[n - 1]))
    } else {
        Seq::empty()
    }
}

/// The rows of the first `n` elements of an array literal.
pub open spec fn elements_rows(l: Seq<Option<Expr>>, n: nat) -> Seq<Row>
    decreases l, n,
{
    if 0 < n <= l.len() {
        elements_rows(l, (n - 1) as nat) + (match l[n - 1] {
            Some(e) => expr_rows(e),
            None => row("Hole"@),
        })
    } else {
        Seq::empty()
    }
}

#[verifier::opaque]
pub open spec fn prop_row(name: PropName) -> Seq<Row> {
    match name {
        PropName::Ident(s) => row("prop "@ + s@ + ":"@),
        PropName::Str(s) => row("prop "@ + quote(s@) + ":"@),
        PropName::Number(v) => number_row("prop "@, v@, ":"@),
    }
}

/// The rows of the first `n` properties of an object literal.
pub open spec fn props_rows(l: Seq<(PropName, Expr)>, n: nat) -> Seq<Row>
    decreases l, n,
{
    if 0 < n <= l.len() {
        props_rows(l, (n - 1) as nat) + prop_row(l[n - 1].0) + nested(expr_rows(l[n - 1].1))
    } else {
        Seq::empty()
    }
}

/// The rows of a labelled expression, if it is there.
pub open spec fn labeled_opt_rows(label: Seq<char>, e: Option<Expr>) -> Seq<Row>
    decreases e, 1nat,
{
    match e {
        Some(x) => row(label) + nested(expr_rows(x)),
        None => Seq::empty(),
    }
}

/// The rows of a function.
pub open spec fn function_rows(f: FunctionDecl) -> Seq<Row>
    decreases f, 0nat,
{
    row(function_line(f)) + nested(params_rows(f.params@, f.params@.len())) + nested(
        block_rows(f.body),
    )
}

/// The rows of the first `n` parameters.
pub open spec fn params_rows(l: Seq<Param>, n: nat) -> Seq<Row>
    decreases l, n,
{
    if 0 < n <= l.len() {
        params_rows(l, (n - 1) as nat) + row(param_line(l[n - 1])) + nested(
            labeled_opt_rows("default:"@, l[n - 1].default),
        )
    } else {
        Seq::empty()
    }
}

/// The rows of a block.
pub open spec fn block_rows(b: Block) -> Seq<Row>
    decreases b, 0nat,
{
    row("Block"@) + nested(stmts_rows(b.stmts@, b.stmts@.len()))
}

/// The rows of the first `n` statements.
pub open spec fn stmts_rows(l: Seq<Stmt>, n: nat) -> Seq<Row>
    decreases l, n,
{
    if 0 < n <= l.len() {
        stmts_rows(l, (n - 1) as nat) + stmt_rows(l[n - 1])
    } else {
        Seq::empty()
    }
}

/// The rows of a declaration of variables.
pub open spec fn var_decl_rows(d: VarDecl) -> Seq<Row>
    decreases d, 0nat,
{
    row(
        if d.is_const {
            "ConstDecl"@
        } else {
            "VarDecl"@
        },
    ) + nested(bindings_rows(d.bindings@, d.bindings@.len()))
}

/// The rows of the first `n` bindings.
pub open spec fn bindings_rows(l: Seq<Binding>, n: nat) -> Seq<Row>
    decreases l, n,
{
    if 0 < n <= l.len() {
        bindings_rows(l, (n - 1) as nat) + row(binding_line(l[n - 1])) + nested(
            labeled_opt_rows("init:"@, l[n - 1].init),
        )
    } else {
        Seq::empty()
    }
}

/// The rows of the first `n` clauses of a `switch`.
pub open spec fn cases_rows(l: Seq<SwitchCase>, n: nat) -> Seq<Row>
    decreases l, n,
{
    if 0 < n <= l.len() {
        cases_rows(l, (n - 1) as nat) + (match l[n - 1].test {
            Some(t) => row("Case"@) + nested(row("test:"@) + nested(expr_rows(t))),
            None => row("Default"@),
        }) + nested(stmts_rows(l[n - 1].body@, l[n - 1].body@.len()))
    } else {
        Seq::empty()
    }
}

/// The rows of the first `n` `catch` clauses.
pub open spec fn catches_rows(l: Seq<CatchClause>, n: nat) -> Seq<Row>
    decreases l, n,
{
    if 0 < n <= l.len() {
        catches_rows(l, (n - 1) as nat) + row(catch_line(l[n - 1])) + nested(
            block_rows(l[n - 1].body),
        )
    } else {
        Seq::empty()
    }
}

pub open spec fn init_rows(i: ForInit) -> Seq<Row>
    decreases i, 0nat,
{
    match i {
        ForInit::VarDecl(d) => var_decl_rows(d),
        ForInit::Expr(e) => expr_rows(e),
    }
}

pub open spec fn target_rows(t: ForInTarget) -> Seq<Row>
    decreases t, 0nat,
{
    match t {
        ForInTarget::VarDecl(d) => var_decl_rows(d),
        ForInTarget::Expr(e) => expr_rows(e),
    }
}

/// The rows of a statement.
pub open spec fn stmt_rows(s: Stmt) -> Seq<Row>
    decreases s, 0nat,
{
    match s.kind {
        StmtKind::Expr(e) => row("ExprStmt"@) + nested(expr_rows(e)),
        StmtKind::VarDecl(d) => var_decl_rows(d),
        StmtKind::Function(f) => function_rows(*f),
        StmtKind::Block(b) => block_rows(b),
        StmtKind::If { cond, then_branch, else_branch } => row("If"@) + nested(
            row("cond:"@) + nested(expr_rows(cond)),
        ) + nested(row("then:"@) + nested(stmt_rows(*then_branch))) + (match else_branch {
            Some(e) => nested(row("else:"@) + nested(stmt_rows(*e))),
            None => Seq::empty(),
        }),
        StmtKind::While { cond, body } => row("While"@) + nested(
            row("cond:"@) + nested(expr_rows(cond)),
        ) + nested(row("body:"@) + nested(stmt_rows(*body))),
        StmtKind::DoWhile { body, cond } => row("DoWhile"@) + nested(
            row("body:"@) + nested(stmt_rows(*body)),
        ) + nested(row("cond:"@) + nested(expr_rows(cond))),
        StmtKind::For { init, cond, update, body } => row("For"@) + (match init {
            Some(i) => nested(row("init:"@) + nested(init_rows(*i))),
            None => Seq::empty(),
        }) + nested(labeled_opt_rows("cond:"@, cond)) + nested(labeled_opt_rows("update:"@, update))
            + nested(row("body:"@) + nested(stmt_rows(*body))),
        StmtKind::ForIn { is_each, target, object, body } => row(
            if is_each {
                "ForEachIn"@
            } else {
                "ForIn"@
            },
        ) + nested(row("target:"@) + nested(target_rows(target))) + nested(
            row("object:"@) + nested(expr_rows(object)),
        ) + nested(row("body:"@) + nested(stmt_rows(*body))),
        StmtKind::Switch { scrutinee, cases } => row("Switch"@) + nested(
            row("scrutinee:"@) + nested(expr_rows(scrutinee)),
        ) + nested(cases_rows(cases@, cases@.len())),
        StmtKind::Return { value } => match value {
            Some(v) => row("Return"@) + nested(expr_rows(v)),
            None => row("Return"@),
        },
        StmtKind::Throw { value } => row("Throw"@) + nested(expr_rows(value)),
        StmtKind::Try { block, catches, finally } => row("Try"@) + nested(block_rows(block))
            + nested(catches_rows(catches@, catches@.len())) + (match finally {
            Some(f) => nested(row("Finally"@) + nested(block_rows(f))),
            None => Seq::empty(),
        }),
        StmtKind::Labeled { label, body } => row("Labeled label="@ + label@) + nested(
            stmt_rows(*body),
        ),
        StmtKind::Package { path, body } => row("Package "@ + dotted(path@, path@.len())) + nested(
            stmts_rows(body@, body@.len()),
        ),
        StmtKind::Class(c) => class_rows(*c),
        StmtKind::Interface(i) => row(interface_line(*i)) + nested(
            sigs_rows(i.members@, i.members@.len()),
        ),
        k => row(plain_line(k)),
    }
}

/// The rows of a class.
pub open spec fn class_rows(c: ClassDecl) -> Seq<Row>
    decreases c, 0nat,
{
    row(class_line(c)) + nested(members_rows(c.members@, c.members@.len()))
}

/// The rows of the first `n` members of a class.
pub open spec fn members_rows(l: Seq<Member>, n: nat) -> Seq<Row>
    decreases l, n,
{
    if 0 < n <= l.len() {
        members_rows(l, (n - 1) as nat) + row(member_line(l[n - 1])) + nested(
            match l[n - 1].kind {
                MemberKind::Field(d) => var_decl_rows(d),
                MemberKind::Method(f) => function_rows(*f),
                MemberKind::Getter(f) => function_rows(*f),
                MemberKind::Setter(f) => function_rows(*f),
            },
        )
    } else {
        Seq::empty()
    }
}

/// The rows of the first `n` members of an interface.
pub open spec fn sigs_rows(l: Seq<InterfaceMember>, n: nat) -> Seq<Row>
    decreases l, n,
{
    if 0 < n <= l.len() {
        sigs_rows(l, (n - 1) as nat) + row(sig_line(l[n - 1])) + nested(
            params_rows(l[n - 1].params@, l[n - 1].params@.len()),
        )
    } else {
        Seq::empty()
    }
}

// --- a dump is its rows ---------------------------------------------------------------------

proof fn args_added(out: Seq<Bit>, l: Seq<Expr>, n: nat, pad: Seq<char>)
    requires
        n <= l.len(),
    ensures
        adds(out, args_dump(out, l, n, pad), args_rows(l, n), pad),
    decreases l, n,
{
    broadcast use group_rows;

    if n > 0 {
        let m = (n - 1) as nat;
        args_added(out, l, m, pad);
        let o = args_dump(out, l, m, pad);
        assert(decreases_to!(l => l[n - 1]));
        let o0 = line(o, pad, "arg:"@);
        let q = args_rows(l, m);
        put(out, o, o0, q, row("arg:"@), pad);
        let r0 = q + row("arg:"@);
        expr_added(o0, l[n - 1], deeper(pad));
        let o1 = expr_dump(o0, l[n - 1], deeper(pad));
        put_in(out, o0, o1, r0, expr_rows(l[n - 1]), pad);
    } else {
        lemma_adds_none(out, pad);
    }
}

proof fn elements_added(out: Seq<Bit>, l: Seq<Option<Expr>>, n: nat, pad: Seq<char>)
    requires
        n <= l.len(),
    ensures
        adds(out, elements_dump(out, l, n, pad), elements_rows(l, n), pad),
    decreases l, n,
{
    broadcast use group_rows;

    if n > 0 {
        let m = (n - 1) as nat;
        elements_added(out, l, m, pad);
        let o = elements_dump(out, l, m, pad);
        assert(decreases_to!(l => l[n - 1]));
        let q = elements_rows(l, m);
        match l[n - 1] {
            Some(e) => {
                assert(decreases_to!(l[n - 1] => l[n - 1]->0));
                expr_added(o, e, pad);
                put(out, o, expr_dump(o, e, pad), q, expr_rows(e), pad);
            },
            None => {
                put(out, o, line(o, pad, "Hole"@), q, row("Hole"@), pad);
            },
        }
    } else {
        lemma_adds_none(out, pad);
    }
}

proof fn prop_added(out: Seq<Bit>, name: PropName, pad: Seq<char>)
    ensures
        adds(out, prop_line(out, name, pad), prop_row(name), pad),
{
    broadcast use group_rows;

    reveal(prop_line);
    reveal(prop_row);
}

proof fn props_added(out: Seq<Bit>, l: Seq<(PropName, Expr)>, n: nat, pad: Seq<char>)
    requires
        n <= l.len(),
    ensures
        adds(out, props_dump(out, l, n, pad), props_rows(l, n), pad),
    decreases l, n,
{
    broadcast use group_rows;

    if n > 0 {
        let m = (n - 1) as nat;
        props_added(out, l, m, pad);
        let o = props_dump(out, l, m, pad);
        assert(decreases_to!(l => l[n - 1]));
        assert(decreases_to!(l[n - 1] => l[n - 1].1));
        let q = props_rows(l, m);
        prop_added(o, l[n - 1].0, pad);
        let o0 = prop_line(o, l[n - 1].0, pad);
        put(out, o, o0, q, prop_row(l[n - 1].0), pad);
        let r0 = q + prop_row(l[n - 1].0);
        expr_added(o0, l[n - 1].1, deeper(pad));
        let o1 = expr_dump(o0, l[n - 1].1, deeper(pad));
        put_in(out, o0, o1, r0, expr_rows(l[n - 1].1), pad);
    } else {
        lemma_adds_none(out, pad);
    }
}

proof fn expr_added(out: Seq<Bit>, e: Expr, pad: Seq<char>)
    ensures
        adds(out, expr_dump(out, e, pad), expr_rows(e), pad),
    decreases e, 0nat,
{
    broadcast use group_rows;

    let inner = deeper(pad);
    match e.kind {
        ExprKind::Array(l) => {
            let o0 = line(out, pad, "Array"@);
            let r0 = row("Array"@);
            elements_added(o0, l@, l@.len(), inner);
            let o1 = elements_dump(o0, l@, l@.len(), inner);
            put_in(out, o0, o1, r0, elements_rows(l@, l@.len()), pad);
        },
        ExprKind::Object(l) => {
            let o0 = line(out, pad, "Object"@);
            let r0 = row("Object"@);
            props_added(o0, l@, l@.len(), inner);
            let o1 = props_dump(o0, l@, l@.len(), inner);
            put_in(out, o0, o1, r0, props_rows(l@, l@.len()), pad);
        },
        ExprKind::Function(f) => {
            function_added(out, *f, pad);
        },
        ExprKind::Unary(op, a) => {
            let o0 = line(out, pad, "Unary "@ + unary_name(op)@);
            let r0 = row("Unary "@ + unary_name(op)@);
            expr_added(o0, *a, inner);
            let o1 = expr_dump(o0, *a, inner);
            put_in(out, o0, o1, r0, expr_rows(*a), pad);
        },
        ExprKind::Postfix(op, a) => {
            let o0 = line(out, pad, "Postfix "@ + postfix_name(op)@);
            let r0 = row("Postfix "@ + postfix_name(op)@);
            expr_added(o0, *a, inner);
            let o1 = expr_dump(o0, *a, inner);
            put_in(out, o0, o1, r0, expr_rows(*a), pad);
        },
        ExprKind::Binary(op, a, b) => {
            let o0 = line(out, pad, "Binary "@ + binary_name(op)@);
            let r0 = row("Binary "@ + binary_name(op)@);
            expr_added(o0, *a, inner);
            let o1 = expr_dump(o0, *a, inner);
            put_in(out, o0, o1, r0, expr_rows(*a), pad);
            let r1 = r0 + nested(expr_rows(*a));
            expr_added(o1, *b, inner);
            let o2 = expr_dump(o1, *b, inner);
            put_in(out, o1, o2, r1, expr_rows(*b), pad);
        },
        ExprKind::Assign(op, a, b) => {
            let o0 = line(out, pad, "Assign "@ + assign_name(op)@);
            let r0 = row("Assign "@ + assign_name(op)@);
            expr_added(o0, *a, inner);
            let o1 = expr_dump(o0, *a, inner);
            put_in(out, o0, o1, r0, expr_rows(*a), pad);
            let r1 = r0 + nested(expr_rows(*a));
            expr_added(o1, *b, inner);
            let o2 = expr_dump(o1, *b, inner);
            put_in(out, o1, o2, r1, expr_rows(*b), pad);
        },
        ExprKind::Conditional(c, a, b) => {
            let o0 = line(out, pad, "Conditional"@);
            let r0 = row("Conditional"@);
            expr_added(o0, *c, inner);
            let o1 = expr_dump(o0, *c, inner);
            put_in(out, o0, o1, r0, expr_rows(*c), pad);
            let r1 = r0 + nested(expr_rows(*c));
            expr_added(o1, *a, inner);
            let o2 = expr_dump(o1, *a, inner);
            put_in(out, o1, o2, r1, expr_rows(*a), pad);
            let r2 = r1 + nested(expr_rows(*a));
            expr_added(o2, *b, inner);
            let o3 = expr_dump(o2, *b, inner);
            put_in(out, o2, o3, r2, expr_rows(*b), pad);
        },
        ExprKind::Call(c, args) => {
            let o0 = line(out, pad, "Call"@);
            let r0 = row("Call"@);
            expr_added(o0, *c, inner);
            let o1 = expr_dump(o0, *c, inner);
            put_in(out, o0, o1, r0, expr_rows(*c), pad);
            let r1 = r0 + nested(expr_rows(*c));
            args_added(o1, args@, args@.len(), inner);
            let o2 = args_dump(o1, args@, args@.len(), inner);
            put_in(out, o1, o2, r1, args_rows(args@, args@.len()), pad);
        },
        ExprKind::New(c, args) => {
            let o0 = line(out, pad, "New"@);
            let r0 = row("New"@);
            expr_added(o0, *c, inner);
            let o1 = expr_dump(o0, *c, inner);
            put_in(out, o0, o1, r0, expr_rows(*c), pad);
            let r1 = r0 + nested(expr_rows(*c));
            args_added(o1, args@, args@.len(), inner);
            let o2 = args_dump(o1, args@, args@.len(), inner);
            put_in(out, o1, o2, r1, args_rows(args@, args@.len()), pad);
        },
        ExprKind::Member(a, name) => {
            let o0 = line(out, pad, "Member ."@ + name@);
            let r0 = row("Member ."@ + name@);
            expr_added(o0, *a, inner);
            let o1 = expr_dump(o0, *a, inner);
            put_in(out, o0, o1, r0, expr_rows(*a), pad);
        },
        ExprKind::Index(a, b) => {
            let o0 = line(out, pad, "Index"@);
            let r0 = row("Index"@);
            expr_added(o0, *a, inner);
            let o1 = expr_dump(o0, *a, inner);
            put_in(out, o0, o1, r0, expr_rows(*a), pad);
            let r1 = r0 + nested(expr_rows(*a));
            expr_added(o1, *b, inner);
            let o2 = expr_dump(o1, *b, inner);
            put_in(out, o1, o2, r1, expr_rows(*b), pad);
        },
        ExprKind::ApplyType(a, ts) => {
            let o0 = line(out, pad, "ApplyType "@ + types_text(ts@, ts@.len()));
            let r0 = row("ApplyType "@ + types_text(ts@, ts@.len()));
            expr_added(o0, *a, inner);
            let o1 = expr_dump(o0, *a, inner);
            put_in(out, o0, o1, r0, expr_rows(*a), pad);
        },
        ExprKind::VectorLit { elem, elements } => {
            let o0 = line(out, pad, "VectorLit "@ + type_text_of(elem));
            let r0 = row("VectorLit "@ + type_text_of(elem));
            args_added(o0, elements@, elements@.len(), inner);
            let o1 = args_dump(o0, elements@, elements@.len(), inner);
            put_in(out, o0, o1, r0, args_rows(elements@, elements@.len()), pad);
        },
        ExprKind::Comma(a, b) => {
            let o0 = line(out, pad, "Comma"@);
            let r0 = row("Comma"@);
            expr_added(o0, *a, inner);
            let o1 = expr_dump(o0, *a, inner);
            put_in(out, o0, o1, r0, expr_rows(*a), pad);
            let r1 = r0 + nested(expr_rows(*a));
            expr_added(o1, *b, inner);
            let o2 = expr_dump(o1, *b, inner);
            put_in(out, o1, o2, r1, expr_rows(*b), pad);
        },
        _ => {},
    }
}

proof fn labeled_expr_added(out: Seq<Bit>, label: Seq<char>, e: Expr, pad: Seq<char>)
    ensures
        adds(out, labeled_expr(out, label, e, pad), row(label) + nested(expr_rows(e)), pad),
    decreases e, 1nat,
{
    broadcast use group_rows;

    let o0 = line(out, pad, label);
    let r0 = row(label);
    expr_added(o0, e, deeper(pad));
    let o1 = expr_dump(o0, e, deeper(pad));
    put_in(out, o0, o1, r0, expr_rows(e), pad);
}

proof fn labeled_opt_added(out: Seq<Bit>, label: Seq<char>, e: Option<Expr>, pad: Seq<char>)
    ensures
        adds(out, labeled_opt(out, label, e, pad), labeled_opt_rows(label, e), pad),
    decreases e, 1nat,
{
    broadcast use group_rows;

    match e {
        Some(x) => {
            let o0 = line(out, pad, label);
            let r0 = row(label);
            expr_added(o0, x, deeper(pad));
            let o1 = expr_dump(o0, x, deeper(pad));
            put_in(out, o0, o1, r0, expr_rows(x), pad);
        },
        None => {
            lemma_adds_none(out, pad);
        },
    }
}

proof fn labeled_stmt_added(out: Seq<Bit>, label: Seq<char>, s: Stmt, pad: Seq<char>)
    ensures
        adds(out, labeled_stmt(out, label, s, pad), row(label) + nested(stmt_rows(s)), pad),
    decreases s, 1nat,
{
    broadcast use group_rows;

    let o0 = line(out, pad, label);
    let r0 = row(label);
    stmt_added(o0, s, deeper(pad));
    let o1 = stmt_dump(o0, s, deeper(pad));
    put_in(out, o0, o1, r0, stmt_rows(s), pad);
}

proof fn function_added(out: Seq<Bit>, f: FunctionDecl, pad: Seq<char>)
    ensures
        adds(out, function_dump(out, f, pad), function_rows(f), pad),
    decreases f, 0nat,
{
    broadcast use group_rows;

    let o0 = line(out, pad, function_line(f));
    let r0 = row(function_line(f));
    params_added(o0, f.params@, f.params@.len(), deeper(pad));
    let o1 = params_dump(o0, f.params@, f.params@.len(), deeper(pad));
    put_in(out, o0, o1, r0, params_rows(f.params@, f.params@.len()), pad);
    let r1 = r0 + nested(params_rows(f.params@, f.params@.len()));
    block_added(o1, f.body, deeper(pad));
    let o2 = block_dump(o1, f.body, deeper(pad));
    put_in(out, o1, o2, r1, block_rows(f.body), pad);
}

proof fn params_added(out: Seq<Bit>, l: Seq<Param>, n: nat, pad: Seq<char>)
    requires
        n <= l.len(),
    ensures
        adds(out, params_dump(out, l, n, pad), params_rows(l, n), pad),
    decreases l, n,
{
    broadcast use group_rows;

    if n > 0 {
        let m = (n - 1) as nat;
        params_added(out, l, m, pad);
        let o = params_dump(out, l, m, pad);
        assert(decreases_to!(l => l[n - 1]));
        let o0 = line(o, pad, param_line(l[n - 1]));
        let q = params_rows(l, m);
        put(out, o, o0, q, row(param_line(l[n - 1])), pad);
        let r0 = q + row(param_line(l[n - 1]));
        labeled_opt_added(o0, "default:"@, l[n - 1].default, deeper(pad));
        let o1 = labeled_opt(o0, "default:"@, l[n - 1].default, deeper(pad));
        put_in(out, o0, o1, r0, labeled_opt_rows("default:"@, l[n - 1].default), pad);
    } else {
        lemma_adds_none(out, pad);
    }
}

proof fn block_added(out: Seq<Bit>, b: Block, pad: Seq<char>)
    ensures
        adds(out, block_dump(out, b, pad), block_rows(b), pad),
    decreases b, 0nat,
{
    broadcast use group_rows;

    let o0 = line(out, pad, "Block"@);
    let r0 = row("Block"@);
    stmts_added(o0, b.stmts@, b.stmts@.len(), deeper(pad));
    let o1 = stmts_dump(o0, b.stmts@, b.stmts@.len(), deeper(pad));
    put_in(out, o0, o1, r0, stmts_rows(b.stmts@, b.stmts@.len()), pad);
}

proof fn stmts_added(out: Seq<Bit>, l: Seq<Stmt>, n: nat, pad: Seq<char>)
    requires
        n <= l.len(),
    ensures
        adds(out, stmts_dump(out, l, n, pad), stmts_rows(l, n), pad),
    decreases l, n,
{
    broadcast use group_rows;

    if n > 0 {
        let m = (n - 1) as nat;
        stmts_added(out, l, m, pad);
        let o = stmts_dump(out, l, m, pad);
        assert(decreases_to!(l => l[n - 1]));
        stmt_added(o, l[n - 1], pad);
        put(out, o, stmt_dump(o, l[n - 1], pad), stmts_rows(l, m), stmt_rows(l[n - 1]), pad);
    } else {
        lemma_adds_none(out, pad);
    }
}

proof fn var_decl_added(out: Seq<Bit>, d: VarDecl, pad: Seq<char>)
    ensures
        adds(out, var_decl_dump(out, d, pad), var_decl_rows(d), pad),
    decreases d, 0nat,
{
    broadcast use group_rows;

    let t = if d.is_const {
        "ConstDecl"@
    } else {
        "VarDecl"@
    };
    let o0 = line(out, pad, t);
    let r0 = row(t);
    bindings_added(o0, d.bindings@, d.bindings@.len(), deeper(pad));
    let o1 = bindings_dump(o0, d.bindings@, d.bindings@.len(), deeper(pad));
    put_in(out, o0, o1, r0, bindings_rows(d.bindings@, d.bindings@.len()), pad);
}

proof fn bindings_added(out: Seq<Bit>, l: Seq<Binding>, n: nat, pad: Seq<char>)
    requires
        n <= l.len(),
    ensures
        adds(out, bindings_dump(out, l, n, pad), bindings_rows(l, n), pad),
    decreases l, n,
{
    broadcast use group_rows;

    if n > 0 {
        let m = (n - 1) as nat;
        bindings_added(out, l, m, pad);
        let o = bindings_dump(out, l, m, pad);
        assert(decreases_to!(l => l[n - 1]));
        let o0 = line(o, pad, binding_line(l[n - 1]));
        let q = bindings_rows(l, m);
        put(out, o, o0, q, row(binding_line(l[n - 1])), pad);
        let r0 = q + row(binding_line(l[n - 1]));
        labeled_opt_added(o0, "init:"@, l[n - 1].init, deeper(pad));
        let o1 = labeled_opt(o0, "init:"@, l[n - 1].init, deeper(pad));
        put_in(out, o0, o1, r0, labeled_opt_rows("init:"@, l[n - 1].init), pad);
    } else {
        lemma_adds_none(out, pad);
    }
}

proof fn cases_added(out: Seq<Bit>, l: Seq<SwitchCase>, n: nat, pad: Seq<char>)
    requires
        n <= l.len(),
    ensures
        adds(out, cases_dump(out, l, n, pad), cases_rows(l, n), pad),
    decreases l, n,
{
    broadcast use group_rows;

    if n > 0 {
        let m = (n - 1) as nat;
        cases_added(out, l, m, pad);
        let o = cases_dump(out, l, m, pad);
        assert(decreases_to!(l => l[n - 1]));
        let c = l[n - 1];
        let q = cases_rows(l, m);
        let test = match c.test {
            Some(t) => row("Case"@) + nested(row("test:"@) + nested(expr_rows(t))),
            None => row("Default"@),
        };
        let o0 = match c.test {
            Some(t) => labeled_expr(line(o, pad, "Case"@), "test:"@, t, deeper(pad)),
            None => line(o, pad, "Default"@),
        };
        if let Some(t) = c.test {
            let head = line(o, pad, "Case"@);
            labeled_expr_added(head, "test:"@, t, deeper(pad));
            put_in(o, head, o0, row("Case"@), row("test:"@) + nested(expr_rows(t)), pad);
        }
        put(out, o, o0, q, test, pad);
        let r0 = q + test;
        stmts_added(o0, c.body@, c.body@.len(), deeper(pad));
        let o1 = stmts_dump(o0, c.body@, c.body@.len(), deeper(pad));
        put_in(out, o0, o1, r0, stmts_rows(c.body@, c.body@.len()), pad);
    } else {
        lemma_adds_none(out, pad);
    }
}

proof fn catches_added(out: Seq<Bit>, l: Seq<CatchClause>, n: nat, pad: Seq<char>)
    requires
        n <= l.len(),
    ensures
        adds(out, catches_dump(out, l, n, pad), catches_rows(l, n), pad),
    decreases l, n,
{
    broadcast use group_rows;

    if n > 0 {
        let m = (n - 1) as nat;
        catches_added(out, l, m, pad);
        let o = catches_dump(out, l, m, pad);
        assert(decreases_to!(l => l[n - 1]));
        let o0 = line(o, pad, catch_line(l[n - 1]));
        let q = catches_rows(l, m);
        put(out, o, o0, q, row(catch_line(l[n - 1])), pad);
        let r0 = q + row(catch_line(l[n - 1]));
        block_added(o0, l[n - 1].body, deeper(pad));
        let o1 = block_dump(o0, l[n - 1].body, deeper(pad));
        put_in(out, o0, o1, r0, block_rows(l[n - 1].body), pad);
    } else {
        lemma_adds_none(out, pad);
    }
}

proof fn init_added(out: Seq<Bit>, i: ForInit, pad: Seq<char>)
    ensures
        adds(out, init_dump(out, i, pad), init_rows(i), pad),
    decreases i, 0nat,
{
    broadcast use group_rows;

    match i {
        ForInit::VarDecl(d) => var_decl_added(out, d, pad),
        ForInit::Expr(e) => expr_added(out, e, pad),
    }
}

proof fn target_added(out: Seq<Bit>, t: ForInTarget, pad: Seq<char>)
    ensures
        adds(out, target_dump(out, t, pad), target_rows(t), pad),
    decreases t, 0nat,
{
    broadcast use group_rows;

    match t {
        ForInTarget::VarDecl(d) => var_decl_added(out, d, pad),
        ForInTarget::Expr(e) => expr_added(out, e, pad),
    }
}

#[verifier::rlimit(40)]
proof fn stmt_added(out: Seq<Bit>, s: Stmt, pad: Seq<char>)
    ensures
        adds(out, stmt_dump(out, s, pad), stmt_rows(s), pad),
    decreases s, 0nat,
{
    broadcast use group_rows;

    let inner = deeper(pad);
    match s.kind {
        StmtKind::Expr(e) => {
            let o0 = line(out, pad, "ExprStmt"@);
            let r0 = row("ExprStmt"@);
            expr_added(o0, e, inner);
            let o1 = expr_dump(o0, e, inner);
            put_in(out, o0, o1, r0, expr_rows(e), pad);
        },
        StmtKind::VarDecl(d) => {
            var_decl_added(out, d, pad);
        },
        StmtKind::Function(f) => {
            function_added(out, *f, pad);
        },
        StmtKind::Block(b) => {
            block_added(out, b, pad);
        },
        StmtKind::If { cond, then_branch, else_branch } => {
            let o0 = line(out, pad, "If"@);
            let r0 = row("If"@);
            labeled_expr_added(o0, "cond:"@, cond, inner);
            let o1 = labeled_expr(o0, "cond:"@, cond, inner);
            put_in(out, o0, o1, r0, row("cond:"@) + nested(expr_rows(cond)), pad);
            let r1 = r0 + nested(row("cond:"@) + nested(expr_rows(cond)));
            labeled_stmt_added(o1, "then:"@, *then_branch, inner);
            let o2 = labeled_stmt(o1, "then:"@, *then_branch, inner);
            put_in(out, o1, o2, r1, row("then:"@) + nested(stmt_rows(*then_branch)), pad);
            let r2 = r1 + nested(row("then:"@) + nested(stmt_rows(*then_branch)));
            match else_branch {
                Some(e) => {
                    labeled_stmt_added(o2, "else:"@, *e, inner);
                    let o3 = labeled_stmt(o2, "else:"@, *e, inner);
                    put_in(out, o2, o3, r2, row("else:"@) + nested(stmt_rows(*e)), pad);
                },
                None => {
                    lemma_adds_none(o2, pad);
                    put(out, o2, o2, r2, Seq::empty(), pad);
                },
            }
        },
        StmtKind::While { cond, body } => {
            let o0 = line(out, pad, "While"@);
            let r0 = row("While"@);
            labeled_expr_added(o0, "cond:"@, cond, inner);
            let o1 = labeled_expr(o0, "cond:"@, cond, inner);
            put_in(out, o0, o1, r0, row("cond:"@) + nested(expr_rows(cond)), pad);
            let r1 = r0 + nested(row("cond:"@) + nested(expr_rows(cond)));
            labeled_stmt_added(o1, "body:"@, *body, inner);
            let o2 = labeled_stmt(o1, "body:"@, *body, inner);
            put_in(out, o1, o2, r1, row("body:"@) + nested(stmt_rows(*body)), pad);
        },
        StmtKind::DoWhile { body, cond } => {
            let o0 = line(out, pad, "DoWhile"@);
            let r0 = row("DoWhile"@);
            labeled_stmt_added(o0, "body:"@, *body, inner);
            let o1 = labeled_stmt(o0, "body:"@, *body, inner);
            put_in(out, o0, o1, r0, row("body:"@) + nested(stmt_rows(*body)), pad);
            let r1 = r0 + nested(row("body:"@) + nested(stmt_rows(*body)));
            labeled_expr_added(o1, "cond:"@, cond, inner);
            let o2 = labeled_expr(o1, "cond:"@, cond, inner);
            put_in(out, o1, o2, r1, row("cond:"@) + nested(expr_rows(cond)), pad);
        },
        StmtKind::For { init, cond, update, body } => {
            let o = line(out, pad, "For"@);
            let o0 = match init {
                Some(i) => init_dump(line(o, inner, "init:"@), *i, deeper(inner)),
                None => o,
            };
            let first = match init {
                Some(i) => nested(row("init:"@) + nested(init_rows(*i))),
                None => Seq::empty(),
            };
            match init {
                Some(i) => {
                    let head = line(o, inner, "init:"@);
                    init_added(head, *i, deeper(inner));
                    put_in(o, head, o0, row("init:"@), init_rows(*i), inner);
                    put_in(out, o, o0, row("For"@), row("init:"@) + nested(init_rows(*i)), pad);
                },
                None => {
                    lemma_adds_none(o, pad);
                    put(out, o, o, row("For"@), Seq::empty(), pad);
                },
            }
            let r0 = row("For"@) + first;
            labeled_opt_added(o0, "cond:"@, cond, inner);
            let o1 = labeled_opt(o0, "cond:"@, cond, inner);
            put_in(out, o0, o1, r0, labeled_opt_rows("cond:"@, cond), pad);
            let r1 = r0 + nested(labeled_opt_rows("cond:"@, cond));
            labeled_opt_added(o1, "update:"@, update, inner);
            let o2 = labeled_opt(o1, "update:"@, update, inner);
            put_in(out, o1, o2, r1, labeled_opt_rows("update:"@, update), pad);
            let r2 = r1 + nested(labeled_opt_rows("update:"@, update));
            labeled_stmt_added(o2, "body:"@, *body, inner);
            let o3 = labeled_stmt(o2, "body:"@, *body, inner);
            put_in(out, o2, o3, r2, row("body:"@) + nested(stmt_rows(*body)), pad);
        },
        StmtKind::ForIn { is_each, target, object, body } => {
            let t = if is_each {
                "ForEachIn"@
            } else {
                "ForIn"@
            };
            let o = line(out, pad, t);
            let head = line(o, inner, "target:"@);
            target_added(head, target, deeper(inner));
            let o0 = target_dump(head, target, deeper(inner));
            put_in(o, head, o0, row("target:"@), target_rows(target), inner);
            put_in(out, o, o0, row(t), row("target:"@) + nested(target_rows(target)), pad);
            let r0 = row(t) + nested(row("target:"@) + nested(target_rows(target)));
            labeled_expr_added(o0, "object:"@, object, inner);
            let o1 = labeled_expr(o0, "object:"@, object, inner);
            put_in(out, o0, o1, r0, row("object:"@) + nested(expr_rows(object)), pad);
            let r1 = r0 + nested(row("object:"@) + nested(expr_rows(object)));
            labeled_stmt_added(o1, "body:"@, *body, inner);
            let o2 = labeled_stmt(o1, "body:"@, *body, inner);
            put_in(out, o1, o2, r1, row("body:"@) + nested(stmt_rows(*body)), pad);
        },
        StmtKind::Switch { scrutinee, cases } => {
            let o0 = line(out, pad, "Switch"@);
            let r0 = row("Switch"@);
            labeled_expr_added(o0, "scrutinee:"@, scrutinee, inner);
            let o1 = labeled_expr(o0, "scrutinee:"@, scrutinee, inner);
            put_in(out, o0, o1, r0, row("scrutinee:"@) + nested(expr_rows(scrutinee)), pad);
            let r1 = r0 + nested(row("scrutinee:"@) + nested(expr_rows(scrutinee)));
            cases_added(o1, cases@, cases@.len(), inner);
            let o2 = cases_dump(o1, cases@, cases@.len(), inner);
            put_in(out, o1, o2, r1, cases_rows(cases@, cases@.len()), pad);
        },
        StmtKind::Return { value } => {
            if let Some(v) = value {
                let o0 = line(out, pad, "Return"@);
                let r0 = row("Return"@);
                expr_added(o0, v, inner);
                let o1 = expr_dump(o0, v, inner);
                put_in(out, o0, o1, r0, expr_rows(v), pad);
            }
        },
        StmtKind::Throw { value } => {
            let o0 = line(out, pad, "Throw"@);
            let r0 = row("Throw"@);
            expr_added(o0, value, inner);
            let o1 = expr_dump(o0, value, inner);
            put_in(out, o0, o1, r0, expr_rows(value), pad);
        },
        StmtKind::Try { block, catches, finally } => {
            let o0 = line(out, pad, "Try"@);
            let r0 = row("Try"@);
            block_added(o0, block, inner);
            let o1 = block_dump(o0, block, inner);
            put_in(out, o0, o1, r0, block_rows(block), pad);
            let r1 = r0 + nested(block_rows(block));
            catches_added(o1, catches@, catches@.len(), inner);
            let o2 = catches_dump(o1, catches@, catches@.len(), inner);
            put_in(out, o1, o2, r1, catches_rows(catches@, catches@.len()), pad);
            let r2 = r1 + nested(catches_rows(catches@, catches@.len()));
            match finally {
                Some(f) => {
                    let head = line(o2, inner, "Finally"@);
                    block_added(head, f, deeper(inner));
                    let o3 = block_dump(head, f, deeper(inner));
                    put_in(o2, head, o3, row("Finally"@), block_rows(f), inner);
                    put_in(out, o2, o3, r2, row("Finally"@) + nested(block_rows(f)), pad);
                },
                None => {
                    lemma_adds_none(o2, pad);
                    put(out, o2, o2, r2, Seq::empty(), pad);
                },
            }
        },
        StmtKind::Labeled { label, body } => {
            let o0 = line(out, pad, "Labeled label="@ + label@);
            let r0 = row("Labeled label="@ + label@);
            stmt_added(o0, *body, inner);
            let o1 = stmt_dump(o0, *body, inner);
            put_in(out, o0, o1, r0, stmt_rows(*body), pad);
        },
        StmtKind::Package { path, body } => {
            let o0 = line(out, pad, "Package "@ + dotted(path@, path@.len()));
            let r0 = row("Package "@ + dotted(path@, path@.len()));
            stmts_added(o0, body@, body@.len(), inner);
            let o1 = stmts_dump(o0, body@, body@.len(), inner);
            put_in(out, o0, o1, r0, stmts_rows(body@, body@.len()), pad);
        },
        StmtKind::Class(c) => {
            class_added(out, *c, pad);
        },
        StmtKind::Interface(i) => {
            let o0 = line(out, pad, interface_line(*i));
            let r0 = row(interface_line(*i));
            sigs_added(o0, i.members@, i.members@.len(), inner);
            let o1 = sigs_dump(o0, i.members@, i.members@.len(), inner);
            put_in(out, o0, o1, r0, sigs_rows(i.members@, i.members@.len()), pad);
        },
        _ => {},
    }
}

proof fn class_added(out: Seq<Bit>, c: ClassDecl, pad: Seq<char>)
    ensures
        adds(out, class_dump(out, c, pad), class_rows(c), pad),
    decreases c, 0nat,
{
    broadcast use group_rows;

    let o0 = line(out, pad, class_line(c));
    let r0 = row(class_line(c));
    members_added(o0, c.members@, c.members@.len(), deeper(pad));
    let o1 = members_dump(o0, c.members@, c.members@.len(), deeper(pad));
    put_in(out, o0, o1, r0, members_rows(c.members@, c.members@.len()), pad);
}

proof fn members_added(out: Seq<Bit>, l: Seq<Member>, n: nat, pad: Seq<char>)
    requires
        n <= l.len(),
    ensures
        adds(out, members_dump(out, l, n, pad), members_rows(l, n), pad),
    decreases l, n,
{
    broadcast use group_rows;

    if n > 0 {
        let m = (n - 1) as nat;
        members_added(out, l, m, pad);
        let o = members_dump(out, l, m, pad);
        assert(decreases_to!(l => l[n - 1]));
        let q = members_rows(l, m);
        let o0 = line(o, pad, member_line(l[n - 1]));
        put(out, o, o0, q, row(member_line(l[n - 1])), pad);
        let r0 = q + row(member_line(l[n - 1]));
        match l[n - 1].kind {
            MemberKind::Field(d) => {
                var_decl_added(o0, d, deeper(pad));
                put_in(out, o0, var_decl_dump(o0, d, deeper(pad)), r0, var_decl_rows(d), pad);
            },
            MemberKind::Method(f) | MemberKind::Getter(f) | MemberKind::Setter(f) => {
                function_added(o0, *f, deeper(pad));
                put_in(out, o0, function_dump(o0, *f, deeper(pad)), r0, function_rows(*f), pad);
            },
        }
    } else {
        lemma_adds_none(out, pad);
    }
}

proof fn sigs_added(out: Seq<Bit>, l: Seq<InterfaceMember>, n: nat, pad: Seq<char>)
    requires
        n <= l.len(),
    ensures
        adds(out, sigs_dump(out, l, n, pad), sigs_rows(l, n), pad),
    decreases l, n,
{
    broadcast use group_rows;

    if n > 0 {
        let m = (n - 1) as nat;
        sigs_added(out, l, m, pad);
        let o = sigs_dump(out, l, m, pad);
        assert(decreases_to!(l => l[n - 1]));
        let o0 = line(o, pad, sig_line(l[n - 1]));
        let q = sigs_rows(l, m);
        put(out, o, o0, q, row(sig_line(l[n - 1])), pad);
        let r0 = q + row(sig_line(l[n - 1]));
        params_added(o0, l[n - 1].params@, l[n - 1].params@.len(), deeper(pad));
        let o1 = params_dump(o0, l[n - 1].params@, l[n - 1].params@.len(), deeper(pad));
        put_in(out, o0, o1, r0, params_rows(l[n - 1].params@, l[n - 1].params@.len()), pad);
    } else {
        lemma_adds_none(out, pad);
    }
}

// --- lines ----------------------------------------------------------------------------------

/// The text holds no line break.
pub open spec fn unbroken(t: Seq<Bit>) -> bool {
    forall|i: int| 0 <= i < t.len() ==> #[trigger] t[i] != char_bit('\n')
}

/// No row holds a line break.
#[verifier::opaque]
pub open spec fn flat(rows: Seq<Row>) -> bool {
    forall|i: int| 0 <= i < rows.len() ==> unbroken((#[trigger] rows[i]).text)
}

/// A line starts at `i`.
pub open spec fn starts_line(t: Seq<Bit>, i: int) -> bool {
    i == 0 || t[i - 1] == char_bit('\n')
}

/// The text with the pad put in front of each of its lines.
pub open spec fn indented(t: Seq<Bit>, pad: Seq<char>) -> Seq<Bit>
    decreases t.len(),
{
    if t.len() == 0 {
        Seq::empty()
    } else {
        let before = indented(t.drop_last(), pad);
        (if starts_line(t, t.len() - 1) {
            before + bits(pad)
        } else {
            before
        }).push(t.last())
    }
}

/// The text is empty or ends with a line break.
pub open spec fn whole(t: Seq<Bit>) -> bool {
    t.len() == 0 || t.last() == char_bit('\n')
}

/// One line more, which is not empty before its line break or is.
proof fn lemma_indented_line(a: Seq<Bit>, t: Seq<Bit>, pad: Seq<char>)
    requires
        whole(a),
        t.len() > 0,
        unbroken(t.drop_last()),
    ensures
        indented(a + t, pad) == indented(a, pad) + bits(pad) + t,
    decreases t.len(),
{
    let u = t.drop_last();
    assert((a + t).drop_last() =~= a + u);
    assert((a + t).last() == t.last());
    if u.len() == 0 {
        assert(a + u =~= a);
        assert(a.len() > 0 ==> (a + t)[a.len() - 1] == a.last());
        assert(indented(a + t, pad) =~= indented(a, pad) + bits(pad) + t);
    } else {
        assert(unbroken(u.drop_last())) by {
            assert forall|i: int| 0 <= i < u.drop_last().len() implies #[trigger] u.drop_last()[i]
                != char_bit('\n') by {
                assert(u[i] != char_bit('\n'));
            }
        }
        lemma_indented_line(a, u, pad);
        assert((a + t)[(a + t).len() - 2] == u.last());
        assert(u[u.len() - 1] != char_bit('\n'));
        assert(indented(a + t, pad) =~= indented(a, pad) + bits(pad) + t);
    }
}

proof fn lemma_pad_moves(pad: Seq<char>, base: Seq<char>, depth: nat)
    ensures
        pad_at(pad + base, depth) == pad + pad_at(base, depth),
    decreases depth,
{
    if depth > 0 {
        assert(deeper(pad + base) =~= pad + deeper(base));
        lemma_pad_moves(pad, deeper(base), (depth - 1) as nat);
    }
}

/// A pad made of spaces holds no line break.
proof fn lemma_pad_unbroken(base: Seq<char>, depth: nat)
    requires
        unbroken(bits(base)),
    ensures
        unbroken(bits(pad_at(base, depth))),
    decreases depth,
{
    if depth > 0 {
        reveal_strlit("  ");
        let d = deeper(base);
        assert forall|i: int| 0 <= i < bits(d).len() implies #[trigger] bits(d)[i] != char_bit(
            '\n',
        ) by {
            if i < base.len() {
                assert(bits(d)[i] == bits(base)[i]);
            }
        }
        lemma_pad_unbroken(d, (depth - 1) as nat);
    }
}

proof fn lemma_laid_whole(rows: Seq<Row>, pad: Seq<char>)
    ensures
        whole(laid(rows, pad)),
        rows.len() > 0 ==> laid(rows, pad).len() > 0,
{
    reveal_strlit("\n");
    if rows.len() > 0 {
        let r = row_bits(rows.last(), pad);
        assert(r.last() == char_bit('\n'));
    }
}

proof fn lemma_laid_indented(rows: Seq<Row>, pad: Seq<char>)
    requires
        flat(rows),
    ensures
        laid(rows, pad) == indented(laid(rows, Seq::empty()), pad),
    decreases rows.len(),
{
    reveal(flat);
    let none: Seq<char> = Seq::empty();
    if rows.len() > 0 {
        let a = laid(rows.drop_last(), none);
        let r = rows.last();
        let t = row_bits(r, none);
        assert forall|i: int| 0 <= i < rows.drop_last().len() implies unbroken(
            (#[trigger] rows.drop_last()[i]).text,
        ) by {
            assert(rows.drop_last()[i] == rows[i]);
        }
        lemma_laid_indented(rows.drop_last(), pad);
        lemma_laid_whole(rows.drop_last(), none);
        reveal_strlit("\n");
        lemma_pad_unbroken(none, r.depth);
        let p = bits(pad_at(none, r.depth));
        assert(unbroken(r.text)) by {
            assert(rows[rows.len() - 1] == r);
        }
        assert(t.drop_last() =~= p + r.text);
        assert(unbroken(t.drop_last())) by {
            assert forall|i: int| 0 <= i < (p + r.text).len() implies #[trigger] (p + r.text)[i]
                != char_bit('\n') by {
                if i < p.len() {
                    assert((p + r.text)[i] == p[i]);
                } else {
                    assert((p + r.text)[i] == r.text[i - p.len()]);
                }
            }
        }
        lemma_indented_line(a, t, pad);
        assert(pad + none =~= pad);
        lemma_pad_moves(pad, none, r.depth);
        lemma_bits_cat(pad, pad_at(none, r.depth));
        assert(row_bits(r, pad) =~= bits(pad) + t);
        assert(laid(rows, pad) =~= indented(a + t, pad));
    }
}

proof fn lemma_stmt_rows_some(s: Stmt)
    ensures
        stmt_rows(s).len() > 0,
{
    match s.kind {
        StmtKind::VarDecl(d) => {
            assert(var_decl_rows(d).len() > 0);
        },
        StmtKind::Function(f) => {
            assert(function_rows(*f).len() > 0);
        },
        StmtKind::Block(b) => {
            assert(block_rows(b).len() > 0);
        },
        StmtKind::Class(c) => {
            assert(class_rows(*c).len() > 0);
        },
        _ => {},
    }
}

// --- laws -----------------------------------------------------------------------------------

/// A text in a dump is its characters.
pub proof fn law_bits(t: Seq<char>)
    ensures
        bits(t).len() == t.len(),
        forall|i: int| 0 <= i < t.len() ==> #[trigger] bits(t)[i] == Bit::Char(t[i]),
{
}

/// The dump of a statement is appended to what stands already, is not empty and
/// ends with a line break. It consists of rows that do not depend on the pad; so
/// if none of them holds a line break, the dump at a pad is the dump at the left
/// margin with the pad in front of every line.
pub proof fn law_dump_moves_right(out: Seq<Bit>, s: Stmt, pad: Seq<char>)
    ensures
        stmt_rows(s).len() > 0,
        stmt_dump(out, s, pad) == out + laid(stmt_rows(s), pad),
        stmt_dump(out, s, pad).len() > out.len(),
        stmt_dump(out, s, pad).last() == Bit::Char('\n'),
        flat(stmt_rows(s)) ==> stmt_dump(out, s, pad) == out + indented(
            stmt_dump(Seq::empty(), s, Seq::empty()),
            pad,
        ),
{
    stmt_added(out, s, pad);
    stmt_added(Seq::empty(), s, Seq::empty());
    lemma_stmt_rows_some(s);
    lemma_laid_whole(stmt_rows(s), pad);
    reveal(adds);
    let margin = stmt_dump(Seq::empty(), s, Seq::empty());
    assert(margin =~= laid(stmt_rows(s), Seq::empty()));
    if flat(stmt_rows(s)) {
        lemma_laid_indented(stmt_rows(s), pad);
    }
}

/// The dump of a program is the row `Program` with the rows of its directives
/// below it, one step to the right.
pub proof fn law_program_dump(p: Program)
    ensures
        dumped(p) == laid(
            row("Program"@) + nested(stmts_rows(p.directives@, p.directives@.len())),
            ""@,
        ),
        dumped(p).last() == Bit::Char('\n'),
{
    broadcast use group_rows;

    let o = line(Seq::empty(), ""@, "Program"@);
    let rows = row("Program"@) + nested(stmts_rows(p.directives@, p.directives@.len()));
    let rest = stmts_rows(p.directives@, p.directives@.len());
    stmts_added(o, p.directives@, p.directives@.len(), deeper(""@));
    put_in(Seq::empty(), o, dumped(p), row("Program"@), rest, ""@);
    reveal(adds);
    lemma_laid_whole(rows, ""@);
    assert(dumped(p) =~= laid(rows, ""@));
}

} // verus!
