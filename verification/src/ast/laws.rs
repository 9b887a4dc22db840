//! The dump of a tree depends on what the tree says only.

use vstd::prelude::*;

use crate::ast::dump::{
    args_dump, atom_line, attrs_text, binding_line, bindings_dump, block_dump, cases_dump,
    catch_line, catches_dump, class_dump, class_line, deeper, dotted, dumped, elements_dump,
    expr_dump, function_dump, function_line, init_dump, interface_line, labeled_expr, labeled_opt,
    labeled_stmt, line, member_line, members_dump, param_line, params_dump, plain_line, prop_line,
    props_dump, sig_line, sigs_dump, stmt_dump, stmts_dump, target_dump, type_text_of, typed,
    types_text, var_decl_dump, Bit,
};
use crate::ast::dump::{assign_name, binary_name, postfix_name, unary_name};
use crate::ast::nodes::{
    Binding, Block, CatchClause, ClassDecl, Expr, ExprKind, ForInTarget, ForInit, FunctionDecl,
    InterfaceDecl, InterfaceMember, Member, MemberKind, Param, Program, PropName, Stmt, StmtKind,
    SwitchCase, TypeRef, TypeRefKind, VarDecl,
};
use crate::ast::view::{
    binding_unfold, binding_view, bindings_unfold, bindings_view, block_unfold, block_view,
    cases_unfold, cases_view, catch_clause_unfold, catch_clause_view, catches_unfold, catches_view,
    class_decl_unfold, class_decl_view, elements_unfold, elements_view, expr_unfold, expr_view,
    exprs_unfold, exprs_view, for_in_target_unfold, for_in_target_view, for_init_unfold,
    for_init_view, function_decl_unfold, function_decl_view, interface_decl_unfold,
    interface_decl_view, interface_member_unfold, interface_member_view, member_unfold, member_view,
    members_unfold, members_view, opt_expr_view, opt_type_view, param_unfold, param_view,
    params_unfold, params_view, program_view, prop_name_view, props_unfold, props_view, sigs_unfold,
    sigs_view, stmt_unfold, stmt_view, stmts_unfold, stmts_view, switch_case_unfold,
    switch_case_view, texts, type_ref_unfold, type_ref_view, type_refs_unfold, type_refs_view,
    var_decl_unfold, var_decl_view,
};

verus! {

// --- texts and types ------------------------------------------------------------------------

proof fn same_dotted(a: Seq<String>, b: Seq<String>, n: nat)
    requires
        texts(a) == texts(b),
        n <= a.len(),
    ensures
        a.len() == b.len(),
        dotted(a, n) == dotted(b, n),
    decreases n,
{
    assert(texts(a).len() == a.len());
    assert(texts(b).len() == b.len());
    if n > 0 {
        same_dotted(a, b, (n - 1) as nat);
        assert(texts(a)[n - 1] == a[n - 1]@);
        assert(texts(b)[n - 1] == b[n - 1]@);
        assert(texts(a)[0] == a[0]@);
        assert(texts(b)[0] == b[0]@);
    }
}

proof fn same_type(a: TypeRef, b: TypeRef)
    requires
        type_ref_view(a) == type_ref_view(b),
    ensures
        type_text_of(a) == type_text_of(b),
    decreases a, 0nat,
{
    type_ref_unfold(a);
    type_ref_unfold(b);
    match (a.kind, b.kind) {
        (
            TypeRefKind::Name { path: p, type_args: s },
            TypeRefKind::Name { path: q, type_args: t },
        ) => {
            same_dotted(p@, q@, p@.len());
            type_refs_unfold(s@);
            type_refs_unfold(t@);
            same_types(s@, t@, s@.len());
        },
        _ => {},
    }
}

proof fn same_types(a: Seq<TypeRef>, b: Seq<TypeRef>, n: nat)
    requires
        type_refs_view(a) == type_refs_view(b),
        n <= a.len(),
    ensures
        a.len() == b.len(),
        types_text(a, n) == types_text(b, n),
    decreases a, n,
{
    type_refs_unfold(a);
    type_refs_unfold(b);
    if n > 0 {
        same_types(a, b, (n - 1) as nat);
        assert(type_refs_view(a)[n - 1] == type_ref_view(a[n - 1]));
        assert(type_refs_view(b)[n - 1] == type_ref_view(b[n - 1]));
        assert(type_refs_view(a)[0] == type_ref_view(a[0]));
        assert(type_refs_view(b)[0] == type_ref_view(b[0]));
        assert(decreases_to!(a => a[n - 1]));
        assert(decreases_to!(a => a[0]));
        same_type(a[n - 1], b[n - 1]);
        same_type(a[0], b[0]);
    }
}

proof fn same_typed(label: Seq<char>, a: Option<TypeRef>, b: Option<TypeRef>)
    requires
        opt_type_view(a) == opt_type_view(b),
    ensures
        typed(label, a) == typed(label, b),
{
    reveal(typed);
    if let (Some(x), Some(y)) = (a, b) {
        same_type(x, y);
    }
}

// --- expressions ----------------------------------------------------------------------------

proof fn same_args(out: Seq<Bit>, a: Seq<Expr>, b: Seq<Expr>, n: nat, pad: Seq<char>)
    requires
        exprs_view(a) == exprs_view(b),
        n <= a.len(),
    ensures
        a.len() == b.len(),
        args_dump(out, a, n, pad) == args_dump(out, b, n, pad),
    decreases a, n,
{
    exprs_unfold(a);
    exprs_unfold(b);
    if n > 0 {
        same_args(out, a, b, (n - 1) as nat, pad);
        assert(exprs_view(a)[n - 1] == expr_view(a[n - 1]));
        assert(exprs_view(b)[n - 1] == expr_view(b[n - 1]));
        assert(decreases_to!(a => a[n - 1]));
        let o = line(args_dump(out, a, (n - 1) as nat, pad), pad, "arg:"@);
        same_expr(o, a[n - 1], b[n - 1], deeper(pad));
    }
}

proof fn same_elements(
    out: Seq<Bit>,
    a: Seq<Option<Expr>>,
    b: Seq<Option<Expr>>,
    n: nat,
    pad: Seq<char>,
)
    requires
        elements_view(a) == elements_view(b),
        n <= a.len(),
    ensures
        a.len() == b.len(),
        elements_dump(out, a, n, pad) == elements_dump(out, b, n, pad),
    decreases a, n,
{
    elements_unfold(a);
    elements_unfold(b);
    if n > 0 {
        same_elements(out, a, b, (n - 1) as nat, pad);
        assert(elements_view(a)[n - 1] == opt_expr_view(a[n - 1]));
        assert(elements_view(b)[n - 1] == opt_expr_view(b[n - 1]));
        assert(decreases_to!(a => a[n - 1]));
        if let (Some(x), Some(y)) = (a[n - 1], b[n - 1]) {
            assert(decreases_to!(a[n - 1] => a[n - 1]->0));
            same_expr(elements_dump(out, a, (n - 1) as nat, pad), x, y, pad);
        }
    }
}

proof fn same_prop_line(out: Seq<Bit>, a: PropName, b: PropName, pad: Seq<char>)
    requires
        prop_name_view(a) == prop_name_view(b),
    ensures
        prop_line(out, a, pad) == prop_line(out, b, pad),
{
    reveal(prop_line);
}

proof fn same_props(
    out: Seq<Bit>,
    a: Seq<(PropName, Expr)>,
    b: Seq<(PropName, Expr)>,
    n: nat,
    pad: Seq<char>,
)
    requires
        props_view(a) == props_view(b),
        n <= a.len(),
    ensures
        a.len() == b.len(),
        props_dump(out, a, n, pad) == props_dump(out, b, n, pad),
    decreases a, n,
{
    props_unfold(a);
    props_unfold(b);
    if n > 0 {
        same_props(out, a, b, (n - 1) as nat, pad);
        assert(props_view(a)[n - 1] == (prop_name_view(a[n - 1].0), expr_view(a[n - 1].1)));
        assert(props_view(b)[n - 1] == (prop_name_view(b[n - 1].0), expr_view(b[n - 1].1)));
        assert(decreases_to!(a => a[n - 1]));
        assert(decreases_to!(a[n - 1] => a[n - 1].1));
        let o = props_dump(out, a, (n - 1) as nat, pad);
        same_prop_line(o, a[n - 1].0, b[n - 1].0, pad);
        same_expr(prop_line(o, a[n - 1].0, pad), a[n - 1].1, b[n - 1].1, deeper(pad));
    }
}

proof fn same_atom(a: Expr, b: Expr)
    requires
        expr_view(a) == expr_view(b),
    ensures
        atom_line(a.kind) == atom_line(b.kind),
{
    expr_unfold(a);
    expr_unfold(b);
    reveal(atom_line);
}

proof fn same_expr(out: Seq<Bit>, a: Expr, b: Expr, pad: Seq<char>)
    requires
        expr_view(a) == expr_view(b),
    ensures
        expr_dump(out, a, pad) == expr_dump(out, b, pad),
    decreases a, 0nat,
{
    expr_unfold(a);
    expr_unfold(b);
    let inner = deeper(pad);
    match (a.kind, b.kind) {
        (ExprKind::Array(x), ExprKind::Array(y)) => {
            elements_unfold(x@);
            same_elements(line(out, pad, "Array"@), x@, y@, x@.len(), inner);
        },
        (ExprKind::Object(x), ExprKind::Object(y)) => {
            props_unfold(x@);
            same_props(line(out, pad, "Object"@), x@, y@, x@.len(), inner);
        },
        (ExprKind::Function(x), ExprKind::Function(y)) => {
            same_function(out, *x, *y, pad);
        },
        (ExprKind::Unary(op, x), ExprKind::Unary(_, y)) => {
            same_expr(line(out, pad, "Unary "@ + unary_name(op)@), *x, *y, inner);
        },
        (ExprKind::Postfix(op, x), ExprKind::Postfix(_, y)) => {
            same_expr(line(out, pad, "Postfix "@ + postfix_name(op)@), *x, *y, inner);
        },
        (ExprKind::Binary(op, x, x2), ExprKind::Binary(_, y, y2)) => {
            let o = line(out, pad, "Binary "@ + binary_name(op)@);
            same_expr(o, *x, *y, inner);
            same_expr(expr_dump(o, *x, inner), *x2, *y2, inner);
        },
        (ExprKind::Assign(op, x, x2), ExprKind::Assign(_, y, y2)) => {
            let o = line(out, pad, "Assign "@ + assign_name(op)@);
            same_expr(o, *x, *y, inner);
            same_expr(expr_dump(o, *x, inner), *x2, *y2, inner);
        },
        (ExprKind::Conditional(x, x2, x3), ExprKind::Conditional(y, y2, y3)) => {
            let o = line(out, pad, "Conditional"@);
            same_expr(o, *x, *y, inner);
            let o2 = expr_dump(o, *x, inner);
            same_expr(o2, *x2, *y2, inner);
            same_expr(expr_dump(o2, *x2, inner), *x3, *y3, inner);
        },
        (ExprKind::Call(x, xs), ExprKind::Call(y, ys)) => {
            let o = line(out, pad, "Call"@);
            same_expr(o, *x, *y, inner);
            exprs_unfold(xs@);
            same_args(expr_dump(o, *x, inner), xs@, ys@, xs@.len(), inner);
        },
        (ExprKind::New(x, xs), ExprKind::New(y, ys)) => {
            let o = line(out, pad, "New"@);
            same_expr(o, *x, *y, inner);
            exprs_unfold(xs@);
            same_args(expr_dump(o, *x, inner), xs@, ys@, xs@.len(), inner);
        },
        (ExprKind::Member(x, name), ExprKind::Member(y, _)) => {
            same_expr(line(out, pad, "Member ."@ + name@), *x, *y, inner);
        },
        (ExprKind::Index(x, x2), ExprKind::Index(y, y2)) => {
            let o = line(out, pad, "Index"@);
            same_expr(o, *x, *y, inner);
            same_expr(expr_dump(o, *x, inner), *x2, *y2, inner);
        },
        (ExprKind::ApplyType(x, ts), ExprKind::ApplyType(y, us)) => {
            type_refs_unfold(ts@);
            same_types(ts@, us@, ts@.len());
            same_expr(
                line(out, pad, "ApplyType "@ + types_text(ts@, ts@.len())),
                *x,
                *y,
                inner,
            );
        },
        (
            ExprKind::VectorLit { elem: t, elements: xs },
            ExprKind::VectorLit { elem: u, elements: ys },
        ) => {
            same_type(t, u);
            exprs_unfold(xs@);
            same_args(line(out, pad, "VectorLit "@ + type_text_of(t)), xs@, ys@, xs@.len(), inner);
        },
        (ExprKind::Comma(x, x2), ExprKind::Comma(y, y2)) => {
            let o = line(out, pad, "Comma"@);
            same_expr(o, *x, *y, inner);
            same_expr(expr_dump(o, *x, inner), *x2, *y2, inner);
        },
        _ => {
            same_atom(a, b);
        },
    }
}

proof fn same_labeled_expr(out: Seq<Bit>, label: Seq<char>, a: Expr, b: Expr, pad: Seq<char>)
    requires
        expr_view(a) == expr_view(b),
    ensures
        labeled_expr(out, label, a, pad) == labeled_expr(out, label, b, pad),
    decreases a, 1nat,
{
    same_expr(line(out, pad, label), a, b, deeper(pad));
}

proof fn same_labeled_opt(
    out: Seq<Bit>,
    label: Seq<char>,
    a: Option<Expr>,
    b: Option<Expr>,
    pad: Seq<char>,
)
    requires
        opt_expr_view(a) == opt_expr_view(b),
    ensures
        labeled_opt(out, label, a, pad) == labeled_opt(out, label, b, pad),
    decreases a, 1nat,
{
    if let (Some(x), Some(y)) = (a, b) {
        same_expr(line(out, pad, label), x, y, deeper(pad));
    }
}

// --- functions and variables ----------------------------------------------------------------

proof fn same_function(out: Seq<Bit>, a: FunctionDecl, b: FunctionDecl, pad: Seq<char>)
    requires
        function_decl_view(a) == function_decl_view(b),
    ensures
        function_dump(out, a, pad) == function_dump(out, b, pad),
    decreases a, 0nat,
{
    function_decl_unfold(a);
    function_decl_unfold(b);
    assert(function_line(a) == function_line(b)) by {
        reveal(function_line);
        same_typed(" returns="@, a.return_type, b.return_type);
    }
    let o = line(out, pad, function_line(a));
    params_unfold(a.params@);
    same_params(o, a.params@, b.params@, a.params@.len(), deeper(pad));
    same_block(params_dump(o, a.params@, a.params@.len(), deeper(pad)), a.body, b.body, deeper(pad));
}

proof fn same_params(out: Seq<Bit>, a: Seq<Param>, b: Seq<Param>, n: nat, pad: Seq<char>)
    requires
        params_view(a) == params_view(b),
        n <= a.len(),
    ensures
        a.len() == b.len(),
        params_dump(out, a, n, pad) == params_dump(out, b, n, pad),
    decreases a, n,
{
    params_unfold(a);
    params_unfold(b);
    if n > 0 {
        same_params(out, a, b, (n - 1) as nat, pad);
        assert(params_view(a)[n - 1] == param_view(a[n - 1]));
        assert(params_view(b)[n - 1] == param_view(b[n - 1]));
        let x = a[n - 1];
        let y = b[n - 1];
        param_unfold(x);
        param_unfold(y);
        assert(param_line(x) == param_line(y)) by {
            reveal(param_line);
            same_typed(" type="@, x.ty, y.ty);
        }
        assert(decreases_to!(a => a[n - 1]));
        let o = line(params_dump(out, a, (n - 1) as nat, pad), pad, param_line(x));
        same_labeled_opt(o, "default:"@, x.default, y.default, deeper(pad));
    }
}

proof fn same_block(out: Seq<Bit>, a: Block, b: Block, pad: Seq<char>)
    requires
        block_view(a) == block_view(b),
    ensures
        block_dump(out, a, pad) == block_dump(out, b, pad),
    decreases a, 0nat,
{
    block_unfold(a);
    block_unfold(b);
    stmts_unfold(a.stmts@);
    same_stmts(line(out, pad, "Block"@), a.stmts@, b.stmts@, a.stmts@.len(), deeper(pad));
}

proof fn same_stmts(out: Seq<Bit>, a: Seq<Stmt>, b: Seq<Stmt>, n: nat, pad: Seq<char>)
    requires
        stmts_view(a) == stmts_view(b),
        n <= a.len(),
    ensures
        a.len() == b.len(),
        stmts_dump(out, a, n, pad) == stmts_dump(out, b, n, pad),
    decreases a, n,
{
    stmts_unfold(a);
    stmts_unfold(b);
    if n > 0 {
        same_stmts(out, a, b, (n - 1) as nat, pad);
        assert(stmts_view(a)[n - 1] == stmt_view(a[n - 1]));
        assert(stmts_view(b)[n - 1] == stmt_view(b[n - 1]));
        assert(decreases_to!(a => a[n - 1]));
        same_stmt(stmts_dump(out, a, (n - 1) as nat, pad), a[n - 1], b[n - 1], pad);
    }
}

proof fn same_var_decl(out: Seq<Bit>, a: VarDecl, b: VarDecl, pad: Seq<char>)
    requires
        var_decl_view(a) == var_decl_view(b),
    ensures
        var_decl_dump(out, a, pad) == var_decl_dump(out, b, pad),
    decreases a, 0nat,
{
    var_decl_unfold(a);
    var_decl_unfold(b);
    bindings_unfold(a.bindings@);
    let o = line(
        out,
        pad,
        if a.is_const {
            "ConstDecl"@
        } else {
            "VarDecl"@
        },
    );
    same_bindings(o, a.bindings@, b.bindings@, a.bindings@.len(), deeper(pad));
}

proof fn same_bindings(out: Seq<Bit>, a: Seq<Binding>, b: Seq<Binding>, n: nat, pad: Seq<char>)
    requires
        bindings_view(a) == bindings_view(b),
        n <= a.len(),
    ensures
        a.len() == b.len(),
        bindings_dump(out, a, n, pad) == bindings_dump(out, b, n, pad),
    decreases a, n,
{
    bindings_unfold(a);
    bindings_unfold(b);
    if n > 0 {
        same_bindings(out, a, b, (n - 1) as nat, pad);
        assert(bindings_view(a)[n - 1] == binding_view(a[n - 1]));
        assert(bindings_view(b)[n - 1] == binding_view(b[n - 1]));
        let x = a[n - 1];
        let y = b[n - 1];
        binding_unfold(x.name, x.ty, x.init, x.span);
        binding_unfold(y.name, y.ty, y.init, y.span);
        assert(binding_line(x) == binding_line(y)) by {
            reveal(binding_line);
            same_typed(" type="@, x.ty, y.ty);
        }
        assert(decreases_to!(a => a[n - 1]));
        let o = line(bindings_dump(out, a, (n - 1) as nat, pad), pad, binding_line(x));
        same_labeled_opt(o, "init:"@, x.init, y.init, deeper(pad));
    }
}

// --- statements -----------------------------------------------------------------------------

proof fn same_labeled_stmt(out: Seq<Bit>, label: Seq<char>, a: Stmt, b: Stmt, pad: Seq<char>)
    requires
        stmt_view(a) == stmt_view(b),
    ensures
        labeled_stmt(out, label, a, pad) == labeled_stmt(out, label, b, pad),
    decreases a, 1nat,
{
    same_stmt(line(out, pad, label), a, b, deeper(pad));
}

proof fn same_cases(out: Seq<Bit>, a: Seq<SwitchCase>, b: Seq<SwitchCase>, n: nat, pad: Seq<char>)
    requires
        cases_view(a) == cases_view(b),
        n <= a.len(),
    ensures
        a.len() == b.len(),
        cases_dump(out, a, n, pad) == cases_dump(out, b, n, pad),
    decreases a, n,
{
    cases_unfold(a);
    cases_unfold(b);
    if n > 0 {
        same_cases(out, a, b, (n - 1) as nat, pad);
        assert(cases_view(a)[n - 1] == switch_case_view(a[n - 1]));
        assert(cases_view(b)[n - 1] == switch_case_view(b[n - 1]));
        let x = a[n - 1];
        let y = b[n - 1];
        switch_case_unfold(x);
        switch_case_unfold(y);
        assert(decreases_to!(a => a[n - 1]));
        let o = cases_dump(out, a, (n - 1) as nat, pad);
        let c = line(o, pad, "Case"@);
        if let (Some(s), Some(t)) = (x.test, y.test) {
            same_labeled_expr(c, "test:"@, s, t, deeper(pad));
        }
        let o1 = match x.test {
            Some(t) => labeled_expr(c, "test:"@, t, deeper(pad)),
            None => line(o, pad, "Default"@),
        };
        stmts_unfold(x.body@);
        same_stmts(o1, x.body@, y.body@, x.body@.len(), deeper(pad));
    }
}

proof fn same_catches(
    out: Seq<Bit>,
    a: Seq<CatchClause>,
    b: Seq<CatchClause>,
    n: nat,
    pad: Seq<char>,
)
    requires
        catches_view(a) == catches_view(b),
        n <= a.len(),
    ensures
        a.len() == b.len(),
        catches_dump(out, a, n, pad) == catches_dump(out, b, n, pad),
    decreases a, n,
{
    catches_unfold(a);
    catches_unfold(b);
    if n > 0 {
        same_catches(out, a, b, (n - 1) as nat, pad);
        assert(catches_view(a)[n - 1] == catch_clause_view(a[n - 1]));
        assert(catches_view(b)[n - 1] == catch_clause_view(b[n - 1]));
        let x = a[n - 1];
        let y = b[n - 1];
        catch_clause_unfold(x);
        catch_clause_unfold(y);
        assert(catch_line(x) == catch_line(y)) by {
            reveal(catch_line);
            same_typed(" type="@, x.ty, y.ty);
        }
        assert(decreases_to!(a => a[n - 1]));
        let o = line(catches_dump(out, a, (n - 1) as nat, pad), pad, catch_line(x));
        same_block(o, x.body, y.body, deeper(pad));
    }
}

proof fn same_init(out: Seq<Bit>, a: ForInit, b: ForInit, pad: Seq<char>)
    requires
        for_init_view(a) == for_init_view(b),
    ensures
        init_dump(out, a, pad) == init_dump(out, b, pad),
    decreases a, 0nat,
{
    for_init_unfold(a);
    for_init_unfold(b);
    match (a, b) {
        (ForInit::VarDecl(x), ForInit::VarDecl(y)) => same_var_decl(out, x, y, pad),
        (ForInit::Expr(x), ForInit::Expr(y)) => same_expr(out, x, y, pad),
        _ => {},
    }
}

proof fn same_target(out: Seq<Bit>, a: ForInTarget, b: ForInTarget, pad: Seq<char>)
    requires
        for_in_target_view(a) == for_in_target_view(b),
    ensures
        target_dump(out, a, pad) == target_dump(out, b, pad),
    decreases a, 0nat,
{
    for_in_target_unfold(a);
    for_in_target_unfold(b);
    match (a, b) {
        (ForInTarget::VarDecl(x), ForInTarget::VarDecl(y)) => same_var_decl(out, x, y, pad),
        (ForInTarget::Expr(x), ForInTarget::Expr(y)) => same_expr(out, x, y, pad),
        _ => {},
    }
}

proof fn same_plain(a: Stmt, b: Stmt)
    requires
        stmt_view(a) == stmt_view(b),
    ensures
        plain_line(a.kind) == plain_line(b.kind),
{
    stmt_unfold(a);
    stmt_unfold(b);
    reveal(plain_line);
    if let (
        StmtKind::Import { path: p, wildcard: _ },
        StmtKind::Import { path: q, wildcard: _ },
    ) = (a.kind, b.kind) {
        same_dotted(p@, q@, p@.len());
    }
}

proof fn same_stmt(out: Seq<Bit>, a: Stmt, b: Stmt, pad: Seq<char>)
    requires
        stmt_view(a) == stmt_view(b),
    ensures
        stmt_dump(out, a, pad) == stmt_dump(out, b, pad),
    decreases a, 0nat,
{
    stmt_unfold(a);
    stmt_unfold(b);
    let inner = deeper(pad);
    match (a.kind, b.kind) {
        (StmtKind::Expr(x), StmtKind::Expr(y)) => {
            same_expr(line(out, pad, "ExprStmt"@), x, y, inner);
        },
        (StmtKind::VarDecl(x), StmtKind::VarDecl(y)) => {
            same_var_decl(out, x, y, pad);
        },
        (StmtKind::Function(x), StmtKind::Function(y)) => {
            same_function(out, *x, *y, pad);
        },
        (StmtKind::Block(x), StmtKind::Block(y)) => {
            same_block(out, x, y, pad);
        },
        (
            StmtKind::If { cond: c, then_branch: t, else_branch: e },
            StmtKind::If { cond: d, then_branch: u, else_branch: f },
        ) => {
            let o = line(out, pad, "If"@);
            same_labeled_expr(o, "cond:"@, c, d, inner);
            let o1 = labeled_expr(o, "cond:"@, c, inner);
            same_labeled_stmt(o1, "then:"@, *t, *u, inner);
            if let (Some(x), Some(y)) = (e, f) {
                same_labeled_stmt(labeled_stmt(o1, "then:"@, *t, inner), "else:"@, *x, *y, inner);
            }
        },
        (StmtKind::While { cond: c, body: x }, StmtKind::While { cond: d, body: y }) => {
            let o = line(out, pad, "While"@);
            same_labeled_expr(o, "cond:"@, c, d, inner);
            same_labeled_stmt(labeled_expr(o, "cond:"@, c, inner), "body:"@, *x, *y, inner);
        },
        (StmtKind::DoWhile { body: x, cond: c }, StmtKind::DoWhile { body: y, cond: d }) => {
            let o = line(out, pad, "DoWhile"@);
            same_labeled_stmt(o, "body:"@, *x, *y, inner);
            same_labeled_expr(labeled_stmt(o, "body:"@, *x, inner), "cond:"@, c, d, inner);
        },
        (
            StmtKind::For { init: i, cond: c, update: u, body: x },
            StmtKind::For { init: j, cond: d, update: v, body: y },
        ) => {
            let o = line(out, pad, "For"@);
            if let (Some(s), Some(t)) = (i, j) {
                same_init(line(o, inner, "init:"@), *s, *t, deeper(inner));
            }
            let o1 = match i {
                Some(s) => init_dump(line(o, inner, "init:"@), *s, deeper(inner)),
                None => o,
            };
            same_labeled_opt(o1, "cond:"@, c, d, inner);
            let o2 = labeled_opt(o1, "cond:"@, c, inner);
            same_labeled_opt(o2, "update:"@, u, v, inner);
            same_labeled_stmt(labeled_opt(o2, "update:"@, u, inner), "body:"@, *x, *y, inner);
        },
        (
            StmtKind::ForIn { is_each, target: t, object: e, body: x },
            StmtKind::ForIn { is_each: _, target: u, object: f, body: y },
        ) => {
            let o = line(
                out,
                pad,
                if is_each {
                    "ForEachIn"@
                } else {
                    "ForIn"@
                },
            );
            let o1 = line(o, inner, "target:"@);
            same_target(o1, t, u, deeper(inner));
            let o2 = target_dump(o1, t, deeper(inner));
            same_labeled_expr(o2, "object:"@, e, f, inner);
            same_labeled_stmt(labeled_expr(o2, "object:"@, e, inner), "body:"@, *x, *y, inner);
        },
        (
            StmtKind::Switch { scrutinee: e, cases: x },
            StmtKind::Switch { scrutinee: f, cases: y },
        ) => {
            let o = line(out, pad, "Switch"@);
            same_labeled_expr(o, "scrutinee:"@, e, f, inner);
            cases_unfold(x@);
            same_cases(labeled_expr(o, "scrutinee:"@, e, inner), x@, y@, x@.len(), inner);
        },
        (StmtKind::Return { value: e }, StmtKind::Return { value: f }) => {
            if let (Some(x), Some(y)) = (e, f) {
                same_expr(line(out, pad, "Return"@), x, y, inner);
            }
        },
        (StmtKind::Throw { value: x }, StmtKind::Throw { value: y }) => {
            same_expr(line(out, pad, "Throw"@), x, y, inner);
        },
        (
            StmtKind::Try { block: x, catches: c, finally: f },
            StmtKind::Try { block: y, catches: d, finally: g },
        ) => {
            let o = line(out, pad, "Try"@);
            same_block(o, x, y, inner);
            let o1 = block_dump(o, x, inner);
            catches_unfold(c@);
            same_catches(o1, c@, d@, c@.len(), inner);
            if let (Some(s), Some(t)) = (f, g) {
                let o2 = line(catches_dump(o1, c@, c@.len(), inner), inner, "Finally"@);
                same_block(o2, s, t, deeper(inner));
            }
        },
        (StmtKind::Labeled { label, body: x }, StmtKind::Labeled { label: _, body: y }) => {
            same_stmt(line(out, pad, "Labeled label="@ + label@), *x, *y, inner);
        },
        (StmtKind::Package { path: p, body: x }, StmtKind::Package { path: q, body: y }) => {
            same_dotted(p@, q@, p@.len());
            let o = line(out, pad, "Package "@ + dotted(p@, p@.len()));
            stmts_unfold(x@);
            same_stmts(o, x@, y@, x@.len(), inner);
        },
        (StmtKind::Class(x), StmtKind::Class(y)) => {
            same_class(out, *x, *y, pad);
        },
        (StmtKind::Interface(x), StmtKind::Interface(y)) => {
            interface_decl_unfold(*x);
            interface_decl_unfold(*y);
            same_interface_line(*x, *y);
            sigs_unfold(x.members@);
            same_sigs(
                line(out, pad, interface_line(*x)),
                x.members@,
                y.members@,
                x.members@.len(),
                inner,
            );
        },
        _ => {
            same_plain(a, b);
        },
    }
}

// --- classes and interfaces -----------------------------------------------------------------

proof fn same_class(out: Seq<Bit>, a: ClassDecl, b: ClassDecl, pad: Seq<char>)
    requires
        class_decl_view(a) == class_decl_view(b),
    ensures
        class_dump(out, a, pad) == class_dump(out, b, pad),
    decreases a, 0nat,
{
    class_decl_unfold(a);
    class_decl_unfold(b);
    assert(class_line(a) == class_line(b)) by {
        reveal(class_line);
        reveal(attrs_text);
        same_typed(" extends="@, a.extends, b.extends);
        type_refs_unfold(a.implements@);
        same_types(a.implements@, b.implements@, a.implements@.len());
    }
    members_unfold(a.members@);
    same_members(
        line(out, pad, class_line(a)),
        a.members@,
        b.members@,
        a.members@.len(),
        deeper(pad),
    );
}

proof fn same_interface_line(a: InterfaceDecl, b: InterfaceDecl)
    requires
        interface_decl_view(a) == interface_decl_view(b),
    ensures
        interface_line(a) == interface_line(b),
{
    interface_decl_unfold(a);
    interface_decl_unfold(b);
    reveal(interface_line);
    reveal(attrs_text);
    type_refs_unfold(a.extends@);
    same_types(a.extends@, b.extends@, a.extends@.len());
}

proof fn same_members(out: Seq<Bit>, a: Seq<Member>, b: Seq<Member>, n: nat, pad: Seq<char>)
    requires
        members_view(a) == members_view(b),
        n <= a.len(),
    ensures
        a.len() == b.len(),
        members_dump(out, a, n, pad) == members_dump(out, b, n, pad),
    decreases a, n,
{
    members_unfold(a);
    members_unfold(b);
    if n > 0 {
        same_members(out, a, b, (n - 1) as nat, pad);
        assert(members_view(a)[n - 1] == member_view(a[n - 1]));
        assert(members_view(b)[n - 1] == member_view(b[n - 1]));
        let x = a[n - 1];
        let y = b[n - 1];
        member_unfold(x);
        member_unfold(y);
        assert(member_line(x) == member_line(y)) by {
            reveal(member_line);
            reveal(attrs_text);
        }
        assert(decreases_to!(a => a[n - 1]));
        let o = line(members_dump(out, a, (n - 1) as nat, pad), pad, member_line(x));
        match (x.kind, y.kind) {
            (MemberKind::Field(d), MemberKind::Field(e)) => {
                same_var_decl(o, d, e, deeper(pad));
            },
            (MemberKind::Method(f), MemberKind::Method(g)) => {
                same_function(o, *f, *g, deeper(pad));
            },
            (MemberKind::Getter(f), MemberKind::Getter(g)) => {
                same_function(o, *f, *g, deeper(pad));
            },
            (MemberKind::Setter(f), MemberKind::Setter(g)) => {
                same_function(o, *f, *g, deeper(pad));
            },
            _ => {},
        }
    }
}

proof fn same_sigs(
    out: Seq<Bit>,
    a: Seq<InterfaceMember>,
    b: Seq<InterfaceMember>,
    n: nat,
    pad: Seq<char>,
)
    requires
        sigs_view(a) == sigs_view(b),
        n <= a.len(),
    ensures
        a.len() == b.len(),
        sigs_dump(out, a, n, pad) == sigs_dump(out, b, n, pad),
    decreases a, n,
{
    sigs_unfold(a);
    sigs_unfold(b);
    if n > 0 {
        same_sigs(out, a, b, (n - 1) as nat, pad);
        assert(sigs_view(a)[n - 1] == interface_member_view(a[n - 1]));
        assert(sigs_view(b)[n - 1] == interface_member_view(b[n - 1]));
        let x = a[n - 1];
        let y = b[n - 1];
        interface_member_unfold(x);
        interface_member_unfold(y);
        assert(sig_line(x) == sig_line(y)) by {
            reveal(sig_line);
            same_typed(" returns="@, x.return_type, y.return_type);
        }
        assert(decreases_to!(a => a[n - 1]));
        let o = line(sigs_dump(out, a, (n - 1) as nat, pad), pad, sig_line(x));
        params_unfold(x.params@);
        same_params(o, x.params@, y.params@, x.params@.len(), deeper(pad));
    }
}

/// Two programs that say the same have the same dump.
pub proof fn law_dump_is_of_what_is_said(a: Program, b: Program)
    requires
        program_view(a) == program_view(b),
    ensures
        dumped(a) == dumped(b),
{
    stmts_unfold(a.directives@);
    same_stmts(
        line(Seq::empty(), ""@, "Program"@),
        a.directives@,
        b.directives@,
        a.directives@.len(),
        deeper(""@),
    );
}

} // verus!
