//! Names of one line make dumps whose lines are its rows.

use vstd::prelude::*;

use crate::ast::dump::{
    assign_name, atom_line, attrs_text, binary_name, binding_line, bits, catch_line, char_bit,
    class_line, dotted, function_line, interface_line, member_line, one_line, param_line,
    plain_line, postfix_name, quote, sig_line, stmt_dump, type_text_of, typed, types_text,
    unary_name, Bit,
};
use crate::ast::nodes::{
    AssignOp, Attributes, BinaryOp, Binding, Block, CatchClause, ClassDecl, Expr, ExprKind,
    ForInTarget, ForInit, FunctionDecl, InterfaceDecl, InterfaceMember, Member, MemberKind, Param,
    PostfixOp, PropName, Stmt, StmtKind, SwitchCase, TypeRef, TypeRefKind, UnaryOp, VarDecl,
};
use crate::ast::rows::{
    args_rows, bindings_rows, block_rows, cases_rows, catches_rows, class_rows, elements_rows,
    expr_rows, flat, function_rows, indented, init_rows, labeled_opt_rows, law_dump_moves_right,
    members_rows, nested, number_row, params_rows, prop_row, props_rows, row, sigs_rows, stmt_rows,
    stmts_rows, target_rows, unbroken, var_decl_rows, Row,
};
use crate::lexer::token::NumView;
use crate::text::{decimal, signed_decimal};

verus! {

// --- trees without line breaks in their names -----------------------------------------------

pub open spec fn opt_named(s: Option<String>) -> bool {
    s matches Some(x) ==> one_line(x@)
}

pub open spec fn path_named(path: Seq<String>) -> bool {
    forall|i: int| 0 <= i < path.len() ==> one_line((#[trigger] path[i])@)
}

/// No name in the type holds a line break.
pub open spec fn type_named(t: TypeRef) -> bool
    decreases t, 0nat,
{
    match t.kind {
        TypeRefKind::Name { path, type_args } => path_named(path@) && types_named(type_args@),
        _ => true,
    }
}

pub open spec fn types_named(ts: Seq<TypeRef>) -> bool
    decreases ts, 0nat,
{
    forall|i: int| 0 <= i < ts.len() ==> type_named(#[trigger] ts[i])
}

pub open spec fn opt_type_named(t: Option<TypeRef>) -> bool {
    t matches Some(x) ==> type_named(x)
}

pub open spec fn attrs_named(a: Attributes) -> bool {
    opt_named(a.namespace_)
}

pub open spec fn prop_named(p: PropName) -> bool {
    p matches PropName::Ident(s) ==> one_line(s@)
}

/// No identifier in the expression holds a line break.
pub open spec fn expr_named(e: Expr) -> bool
    decreases e, 0nat,
{
    match e.kind {
        ExprKind::Ident(name) => one_line(name@),
        ExprKind::Array(l) => elements_named(l@),
        ExprKind::Object(l) => props_named(l@),
        ExprKind::Function(f) => function_named(*f),
        ExprKind::Unary(_, a) => expr_named(*a),
        ExprKind::Postfix(_, a) => expr_named(*a),
        ExprKind::Binary(_, a, b) => expr_named(*a) && expr_named(*b),
        ExprKind::Assign(_, a, b) => expr_named(*a) && expr_named(*b),
        ExprKind::Conditional(c, a, b) => expr_named(*c) && expr_named(*a) && expr_named(*b),
        ExprKind::Call(c, args) => expr_named(*c) && args_named(args@),
        ExprKind::New(c, args) => expr_named(*c) && args_named(args@),
        ExprKind::Member(a, name) => expr_named(*a) && one_line(name@),
        ExprKind::Index(a, b) => expr_named(*a) && expr_named(*b),
        ExprKind::ApplyType(a, ts) => expr_named(*a) && types_named(ts@),
        ExprKind::VectorLit { elem, elements } => type_named(elem) && args_named(elements@),
        ExprKind::Comma(a, b) => expr_named(*a) && expr_named(*b),
        _ => true,
    }
}

pub open spec fn args_named(l: Seq<Expr>) -> bool
    decreases l, 0nat,
{
    forall|i: int| 0 <= i < l.len() ==> expr_named(#[trigger] l[i])
}

pub open spec fn elements_named(l: Seq<Option<Expr>>) -> bool
    decreases l, 0nat,
{
    forall|i: int| 0 <= i < l.len() ==> opt_expr_named(#[trigger] l[i])
}

pub open spec fn props_named(l: Seq<(PropName, Expr)>) -> bool
    decreases l, 0nat,
{
    forall|i: int|
        0 <= i < l.len() ==> prop_named((#[trigger] l[i]).0) && expr_named(l[i].1)
}

pub open spec fn opt_expr_named(e: Option<Expr>) -> bool
    decreases e, 1nat,
{
    match e {
        Some(x) => expr_named(x),
        None => true,
    }
}

/// No name in the function holds a line break.
pub open spec fn function_named(f: FunctionDecl) -> bool
    decreases f, 0nat,
{
    opt_named(f.name) && opt_type_named(f.return_type) && params_named(f.params@) && block_named(
        f.body,
    )
}

pub open spec fn params_named(l: Seq<Param>) -> bool
    decreases l, 0nat,
{
    forall|i: int|
        0 <= i < l.len() ==> one_line((#[trigger] l[i]).name@) && opt_type_named(l[i].ty)
            && opt_expr_named(l[i].default)
}

pub open spec fn block_named(b: Block) -> bool
    decreases b, 0nat,
{
    stmts_named(b.stmts@)
}

pub open spec fn stmts_named(l: Seq<Stmt>) -> bool
    decreases l, 0nat,
{
    forall|i: int| 0 <= i < l.len() ==> stmt_named(#[trigger] l[i])
}

pub open spec fn var_decl_named(d: VarDecl) -> bool
    decreases d, 0nat,
{
    bindings_named(d.bindings@)
}

pub open spec fn bindings_named(l: Seq<Binding>) -> bool
    decreases l, 0nat,
{
    forall|i: int|
        0 <= i < l.len() ==> one_line((#[trigger] l[i]).name@) && opt_type_named(l[i].ty)
            && opt_expr_named(l[i].init)
}

pub open spec fn cases_named(l: Seq<SwitchCase>) -> bool
    decreases l, 0nat,
{
    forall|i: int|
        0 <= i < l.len() ==> opt_expr_named((#[trigger] l[i]).test) && stmts_named(l[i].body@)
}

pub open spec fn catches_named(l: Seq<CatchClause>) -> bool
    decreases l, 0nat,
{
    forall|i: int|
        0 <= i < l.len() ==> one_line((#[trigger] l[i]).name@) && opt_type_named(l[i].ty)
            && block_named(l[i].body)
}

pub open spec fn init_named(i: ForInit) -> bool
    decreases i, 0nat,
{
    match i {
        ForInit::VarDecl(d) => var_decl_named(d),
        ForInit::Expr(e) => expr_named(e),
    }
}

pub open spec fn target_named(t: ForInTarget) -> bool
    decreases t, 0nat,
{
    match t {
        ForInTarget::VarDecl(d) => var_decl_named(d),
        ForInTarget::Expr(e) => expr_named(e),
    }
}

/// No identifier or label in the statement holds a line break.
pub open spec fn stmt_named(s: Stmt) -> bool
    decreases s, 0nat,
{
    match s.kind {
        StmtKind::Expr(e) => expr_named(e),
        StmtKind::VarDecl(d) => var_decl_named(d),
        StmtKind::Function(f) => function_named(*f),
        StmtKind::Block(b) => block_named(b),
        StmtKind::If { cond, then_branch, else_branch } => expr_named(cond) && stmt_named(
            *then_branch,
        ) && (else_branch matches Some(x) ==> stmt_named(*x)),
        StmtKind::While { cond, body } => expr_named(cond) && stmt_named(*body),
        StmtKind::DoWhile { body, cond } => expr_named(cond) && stmt_named(*body),
        StmtKind::For { init, cond, update, body } => (init matches Some(x) ==> init_named(*x))
            && opt_expr_named(cond) && opt_expr_named(update) && stmt_named(*body),
        StmtKind::ForIn { is_each: _, target, object, body } => target_named(target) && expr_named(
            object,
        ) && stmt_named(*body),
        StmtKind::Switch { scrutinee, cases } => expr_named(scrutinee) && cases_named(cases@),
        StmtKind::Break { label } => opt_named(label),
        StmtKind::Continue { label } => opt_named(label),
        StmtKind::Return { value } => opt_expr_named(value),
        StmtKind::Throw { value } => expr_named(value),
        StmtKind::Try { block, catches, finally } => block_named(block) && catches_named(catches@)
            && (finally matches Some(f) ==> block_named(f)),
        StmtKind::Labeled { label, body } => one_line(label@) && stmt_named(*body),
        StmtKind::Empty => true,
        StmtKind::Package { path, body } => path_named(path@) && stmts_named(body@),
        StmtKind::Import { path, wildcard: _ } => path_named(path@),
        StmtKind::NamespaceDecl { name, uri: _ } => one_line(name@),
        StmtKind::UseNamespace(name) => one_line(name@),
        StmtKind::Class(c) => class_named(*c),
        StmtKind::Interface(i) => interface_named(*i),
    }
}

pub open spec fn class_named(c: ClassDecl) -> bool
    decreases c, 0nat,
{
    attrs_named(c.attrs) && one_line(c.name@) && opt_type_named(c.extends) && types_named(
        c.implements@,
    ) && members_named(c.members@)
}

pub open spec fn members_named(l: Seq<Member>) -> bool
    decreases l, 0nat,
{
    forall|i: int|
        0 <= i < l.len() ==> attrs_named((#[trigger] l[i]).attrs) && match l[i].kind {
            MemberKind::Field(d) => var_decl_named(d),
            MemberKind::Method(f) => function_named(*f),
            MemberKind::Getter(f) => function_named(*f),
            MemberKind::Setter(f) => function_named(*f),
        }
}

pub open spec fn interface_named(i: InterfaceDecl) -> bool
    decreases i, 0nat,
{
    attrs_named(i.attrs) && one_line(i.name@) && types_named(i.extends@) && sigs_named(i.members@)
}

pub open spec fn sigs_named(l: Seq<InterfaceMember>) -> bool
    decreases l, 0nat,
{
    forall|i: int|
        0 <= i < l.len() ==> one_line((#[trigger] l[i]).name@) && opt_type_named(l[i].return_type)
            && params_named(l[i].params@)
}

// --- lines ----------------------------------------------------------------------------------

broadcast proof fn lemma_line_cat(a: Seq<char>, b: Seq<char>)
    requires
        one_line(a),
        one_line(b),
    ensures
        one_line(#[trigger] (a + b)),
{
    reveal(one_line);
    assert forall|i: int| 0 <= i < (a + b).len() implies #[trigger] (a + b)[i] != '\n' by {
        if i < a.len() {
            assert((a + b)[i] == a[i]);
        } else {
            assert((a + b)[i] == b[i - a.len()]);
        }
    }
}

broadcast proof fn lemma_flat_row(t: Seq<char>)
    requires
        one_line(t),
    ensures
        #[trigger] flat(row(t)),
{
    reveal(one_line);
    reveal(flat);
    assert forall|i: int| 0 <= i < row(t).len() implies unbroken((#[trigger] row(t)[i]).text) by {
        assert forall|k: int| 0 <= k < bits(t).len() implies #[trigger] bits(t)[k] != char_bit(
            '\n',
        ) by {
            assert(t[k] != '\n');
        }
    }
}

broadcast proof fn lemma_flat_number(before: Seq<char>, n: NumView, after: Seq<char>)
    requires
        one_line(before),
        one_line(after),
    ensures
        #[trigger] flat(number_row(before, n, after)),
{
    reveal(one_line);
    reveal(flat);
    let r = number_row(before, n, after);
    let text = bits(before).push(Bit::Number(n)) + bits(after);
    assert(unbroken(text)) by {
        assert forall|k: int| 0 <= k < text.len() implies #[trigger] text[k] != char_bit('\n') by {
            if k < before.len() {
                assert(before[k] != '\n');
            } else if k > before.len() {
                assert(after[k - before.len() - 1] != '\n');
            }
        }
    }
    assert forall|i: int| 0 <= i < r.len() implies unbroken((#[trigger] r[i]).text) by {}
}

broadcast proof fn lemma_flat_cat(a: Seq<Row>, b: Seq<Row>)
    requires
        flat(a),
        flat(b),
    ensures
        flat(#[trigger] (a + b)),
{
    reveal(flat);
    assert forall|i: int| 0 <= i < (a + b).len() implies unbroken((#[trigger] (a + b)[i]).text) by {
        if i < a.len() {
            assert((a + b)[i] == a[i]);
        } else {
            assert((a + b)[i] == b[i - a.len()]);
        }
    }
}

broadcast proof fn lemma_flat_nested(a: Seq<Row>)
    requires
        flat(a),
    ensures
        #[trigger] flat(nested(a)),
{
    reveal(flat);
    assert forall|i: int| 0 <= i < nested(a).len() implies unbroken(
        (#[trigger] nested(a)[i]).text,
    ) by {
        assert(unbroken(a[i].text));
    }
}

broadcast proof fn lemma_quote_line(t: Seq<char>)
    ensures
        #[trigger] one_line(quote(t)),
{
    reveal(one_line);
}

broadcast group group_flat {
    lemma_line_cat,
    lemma_flat_row,
    lemma_flat_number,
    lemma_flat_cat,
    lemma_flat_nested,
    lemma_quote_line,
}

proof fn lemma_none_flat()
    ensures
        flat(Seq::empty()),
{
    reveal(flat);
}

proof fn lemma_nothing_line()
    ensures
        one_line(""@),
        one_line(Seq::empty()),
{
    reveal(one_line);
    reveal_strlit("");
}

proof fn lemma_decimal_line(n: nat)
    ensures
        one_line(decimal(n)),
    decreases n,
{
    reveal(one_line);
    if n >= 10 {
        lemma_decimal_line(n / 10);
        assert forall|i: int| 0 <= i < decimal(n).len() implies #[trigger] decimal(n)[i] != '\n' by {
            if i < decimal(n / 10).len() {
                assert(decimal(n)[i] == decimal(n / 10)[i]);
            }
        }
    }
}

proof fn lemma_signed_line(n: int)
    ensures
        one_line(signed_decimal(n)),
{
    broadcast use group_flat;

    if n < 0 {
        lemma_decimal_line((-n) as nat);
        assert(one_line(seq!['-'])) by {
            reveal(one_line);
        }
    } else {
        lemma_decimal_line(n as nat);
    }
}

proof fn lemma_words_0()
    ensures
        one_line(" "@),
        one_line(" extends="@),
        one_line(" implements="@),
        one_line(" name="@),
        one_line(" returns="@),
        one_line(" type="@),
        one_line(" uri="@),
        one_line("*"@),
        one_line(","@),
        one_line("."@),
        one_line(".*"@),
        one_line("..."@),
{
    reveal(one_line);
    reveal_strlit(" ");
    reveal_strlit(" extends=");
    reveal_strlit(" implements=");
    reveal_strlit(" name=");
    reveal_strlit(" returns=");
    reveal_strlit(" type=");
    reveal_strlit(" uri=");
    reveal_strlit("*");
    reveal_strlit(",");
    reveal_strlit(".");
    reveal_strlit(".*");
    reveal_strlit("...");
}

proof fn lemma_words_1()
    ensures
        one_line(".<"@),
        one_line(":"@),
        one_line(">"@),
        one_line("?"@),
        one_line("ApplyType "@),
        one_line("Array"@),
        one_line("Assign "@),
        one_line("Binary "@),
        one_line("Binding name="@),
        one_line("Block"@),
        one_line("Bool false"@),
        one_line("Bool true"@),
{
    reveal(one_line);
    reveal_strlit(".<");
    reveal_strlit(":");
    reveal_strlit(">");
    reveal_strlit("?");
    reveal_strlit("ApplyType ");
    reveal_strlit("Array");
    reveal_strlit("Assign ");
    reveal_strlit("Binary ");
    reveal_strlit("Binding name=");
    reveal_strlit("Block");
    reveal_strlit("Bool false");
    reveal_strlit("Bool true");
}

proof fn lemma_words_2()
    ensures
        one_line("Break"@),
        one_line("Break label="@),
        one_line("Call"@),
        one_line("Case"@),
        one_line("Catch name="@),
        one_line("Class name="@),
        one_line("Comma"@),
        one_line("Conditional"@),
        one_line("ConstDecl"@),
        one_line("Continue"@),
        one_line("Continue label="@),
        one_line("Default"@),
{
    reveal(one_line);
    reveal_strlit("Break");
    reveal_strlit("Break label=");
    reveal_strlit("Call");
    reveal_strlit("Case");
    reveal_strlit("Catch name=");
    reveal_strlit("Class name=");
    reveal_strlit("Comma");
    reveal_strlit("Conditional");
    reveal_strlit("ConstDecl");
    reveal_strlit("Continue");
    reveal_strlit("Continue label=");
    reveal_strlit("Default");
}

proof fn lemma_words_3()
    ensures
        one_line("DoWhile"@),
        one_line("Empty"@),
        one_line("ExprStmt"@),
        one_line("Field"@),
        one_line("Finally"@),
        one_line("For"@),
        one_line("ForEachIn"@),
        one_line("ForIn"@),
        one_line("Function"@),
        one_line("Getter"@),
        one_line("Getter name="@),
        one_line("Hole"@),
{
    reveal(one_line);
    reveal_strlit("DoWhile");
    reveal_strlit("Empty");
    reveal_strlit("ExprStmt");
    reveal_strlit("Field");
    reveal_strlit("Finally");
    reveal_strlit("For");
    reveal_strlit("ForEachIn");
    reveal_strlit("ForIn");
    reveal_strlit("Function");
    reveal_strlit("Getter");
    reveal_strlit("Getter name=");
    reveal_strlit("Hole");
}

proof fn lemma_words_4()
    ensures
        one_line("Ident "@),
        one_line("If"@),
        one_line("Import "@),
        one_line("Index"@),
        one_line("Int "@),
        one_line("Interface name="@),
        one_line("Labeled label="@),
        one_line("Member ."@),
        one_line("Method"@),
        one_line("Method name="@),
        one_line("Namespace "@),
        one_line("New"@),
{
    reveal(one_line);
    reveal_strlit("Ident ");
    reveal_strlit("If");
    reveal_strlit("Import ");
    reveal_strlit("Index");
    reveal_strlit("Int ");
    reveal_strlit("Interface name=");
    reveal_strlit("Labeled label=");
    reveal_strlit("Member .");
    reveal_strlit("Method");
    reveal_strlit("Method name=");
    reveal_strlit("Namespace ");
    reveal_strlit("New");
}

proof fn lemma_words_5()
    ensures
        one_line("Null"@),
        one_line("Number "@),
        one_line("Object"@),
        one_line("Package "@),
        one_line("Param "@),
        one_line("Postfix "@),
        one_line("Return"@),
        one_line("Setter"@),
        one_line("Setter name="@),
        one_line("Str "@),
        one_line("Super"@),
        one_line("Switch"@),
{
    reveal(one_line);
    reveal_strlit("Null");
    reveal_strlit("Number ");
    reveal_strlit("Object");
    reveal_strlit("Package ");
    reveal_strlit("Param ");
    reveal_strlit("Postfix ");
    reveal_strlit("Return");
    reveal_strlit("Setter");
    reveal_strlit("Setter name=");
    reveal_strlit("Str ");
    reveal_strlit("Super");
    reveal_strlit("Switch");
}

proof fn lemma_words_6()
    ensures
        one_line("This"@),
        one_line("Throw"@),
        one_line("Try"@),
        one_line("UInt "@),
        one_line("Unary "@),
        one_line("UseNamespace "@),
        one_line("VarDecl"@),
        one_line("VectorLit "@),
        one_line("While"@),
        one_line("arg:"@),
        one_line("body:"@),
        one_line("cond:"@),
{
    reveal(one_line);
    reveal_strlit("This");
    reveal_strlit("Throw");
    reveal_strlit("Try");
    reveal_strlit("UInt ");
    reveal_strlit("Unary ");
    reveal_strlit("UseNamespace ");
    reveal_strlit("VarDecl");
    reveal_strlit("VectorLit ");
    reveal_strlit("While");
    reveal_strlit("arg:");
    reveal_strlit("body:");
    reveal_strlit("cond:");
}

proof fn lemma_words_7()
    ensures
        one_line("default:"@),
        one_line("dynamic "@),
        one_line("else:"@),
        one_line("final "@),
        one_line("init:"@),
        one_line("internal "@),
        one_line("native "@),
        one_line("object:"@),
        one_line("override "@),
        one_line("private "@),
        one_line("prop "@),
        one_line("protected "@),
{
    reveal(one_line);
    reveal_strlit("default:");
    reveal_strlit("dynamic ");
    reveal_strlit("else:");
    reveal_strlit("final ");
    reveal_strlit("init:");
    reveal_strlit("internal ");
    reveal_strlit("native ");
    reveal_strlit("object:");
    reveal_strlit("override ");
    reveal_strlit("private ");
    reveal_strlit("prop ");
    reveal_strlit("protected ");
}

proof fn lemma_words_8()
    ensures
        one_line("public "@),
        one_line("scrutinee:"@),
        one_line("static "@),
        one_line("target:"@),
        one_line("test:"@),
        one_line("then:"@),
        one_line("update:"@),
        one_line("void"@),
{
    reveal(one_line);
    reveal_strlit("public ");
    reveal_strlit("scrutinee:");
    reveal_strlit("static ");
    reveal_strlit("target:");
    reveal_strlit("test:");
    reveal_strlit("then:");
    reveal_strlit("update:");
    reveal_strlit("void");
}

/// The fixed words of a dump are one line each.
proof fn lemma_words()
    ensures
        one_line(" "@),
        one_line(" extends="@),
        one_line(" implements="@),
        one_line(" name="@),
        one_line(" returns="@),
        one_line(" type="@),
        one_line(" uri="@),
        one_line("*"@),
        one_line(","@),
        one_line("."@),
        one_line(".*"@),
        one_line("..."@),
        one_line(".<"@),
        one_line(":"@),
        one_line(">"@),
        one_line("?"@),
        one_line("ApplyType "@),
        one_line("Array"@),
        one_line("Assign "@),
        one_line("Binary "@),
        one_line("Binding name="@),
        one_line("Block"@),
        one_line("Bool false"@),
        one_line("Bool true"@),
        one_line("Break"@),
        one_line("Break label="@),
        one_line("Call"@),
        one_line("Case"@),
        one_line("Catch name="@),
        one_line("Class name="@),
        one_line("Comma"@),
        one_line("Conditional"@),
        one_line("ConstDecl"@),
        one_line("Continue"@),
        one_line("Continue label="@),
        one_line("Default"@),
        one_line("DoWhile"@),
        one_line("Empty"@),
        one_line("ExprStmt"@),
        one_line("Field"@),
        one_line("Finally"@),
        one_line("For"@),
        one_line("ForEachIn"@),
        one_line("ForIn"@),
        one_line("Function"@),
        one_line("Getter"@),
        one_line("Getter name="@),
        one_line("Hole"@),
        one_line("Ident "@),
        one_line("If"@),
        one_line("Import "@),
        one_line("Index"@),
        one_line("Int "@),
        one_line("Interface name="@),
        one_line("Labeled label="@),
        one_line("Member ."@),
        one_line("Method"@),
        one_line("Method name="@),
        one_line("Namespace "@),
        one_line("New"@),
        one_line("Null"@),
        one_line("Number "@),
        one_line("Object"@),
        one_line("Package "@),
        one_line("Param "@),
        one_line("Postfix "@),
        one_line("Return"@),
        one_line("Setter"@),
        one_line("Setter name="@),
        one_line("Str "@),
        one_line("Super"@),
        one_line("Switch"@),
        one_line("This"@),
        one_line("Throw"@),
        one_line("Try"@),
        one_line("UInt "@),
        one_line("Unary "@),
        one_line("UseNamespace "@),
        one_line("VarDecl"@),
        one_line("VectorLit "@),
        one_line("While"@),
        one_line("arg:"@),
        one_line("body:"@),
        one_line("cond:"@),
        one_line("default:"@),
        one_line("dynamic "@),
        one_line("else:"@),
        one_line("final "@),
        one_line("init:"@),
        one_line("internal "@),
        one_line("native "@),
        one_line("object:"@),
        one_line("override "@),
        one_line("private "@),
        one_line("prop "@),
        one_line("protected "@),
        one_line("public "@),
        one_line("scrutinee:"@),
        one_line("static "@),
        one_line("target:"@),
        one_line("test:"@),
        one_line("then:"@),
        one_line("update:"@),
        one_line("void"@),
        one_line(""@),
{
    lemma_nothing_line();
    lemma_words_0();
    lemma_words_1();
    lemma_words_2();
    lemma_words_3();
    lemma_words_4();
    lemma_words_5();
    lemma_words_6();
    lemma_words_7();
    lemma_words_8();
}

proof fn lemma_unary_line(op: UnaryOp)
    ensures
        one_line(unary_name(op)@),
{
    reveal(one_line);
    reveal_strlit("Delete");
    reveal_strlit("Void");
    reveal_strlit("Typeof");
    reveal_strlit("PreInc");
    reveal_strlit("PreDec");
    reveal_strlit("Plus");
    reveal_strlit("Minus");
    reveal_strlit("BitNot");
    reveal_strlit("Not");
}

proof fn lemma_postfix_line(op: PostfixOp)
    ensures
        one_line(postfix_name(op)@),
{
    reveal(one_line);
    reveal_strlit("Inc");
    reveal_strlit("Dec");
}

proof fn lemma_binary_line(op: BinaryOp)
    ensures
        one_line(binary_name(op)@),
{
    reveal(one_line);
    reveal_strlit("Mul");
    reveal_strlit("Div");
    reveal_strlit("Rem");
    reveal_strlit("Add");
    reveal_strlit("Sub");
    reveal_strlit("Shl");
    reveal_strlit("Shr");
    reveal_strlit("Ushr");
    reveal_strlit("Lt");
    reveal_strlit("Gt");
    reveal_strlit("Le");
    reveal_strlit("Ge");
    reveal_strlit("In");
    reveal_strlit("Instanceof");
    reveal_strlit("Is");
    reveal_strlit("As");
    reveal_strlit("Eq");
    reveal_strlit("Ne");
    reveal_strlit("StrictEq");
    reveal_strlit("StrictNe");
    reveal_strlit("BitAnd");
    reveal_strlit("BitXor");
    reveal_strlit("BitOr");
    reveal_strlit("LogAnd");
    reveal_strlit("LogOr");
}

proof fn lemma_assign_line(op: AssignOp)
    ensures
        one_line(assign_name(op)@),
{
    reveal(one_line);
    reveal_strlit("Assign");
    reveal_strlit("Add");
    reveal_strlit("Sub");
    reveal_strlit("Mul");
    reveal_strlit("Div");
    reveal_strlit("Rem");
    reveal_strlit("Shl");
    reveal_strlit("Shr");
    reveal_strlit("Ushr");
    reveal_strlit("BitAnd");
    reveal_strlit("BitOr");
    reveal_strlit("BitXor");
    reveal_strlit("LogAnd");
    reveal_strlit("LogOr");
}

proof fn lemma_dotted_line(path: Seq<String>, n: nat)
    requires
        path_named(path),
        n <= path.len(),
    ensures
        one_line(dotted(path, n)),
    decreases n,
{
    broadcast use group_flat;

    lemma_words();
    lemma_nothing_line();
    if n > 0 {
        lemma_dotted_line(path, (n - 1) as nat);
        assert(one_line(path[n - 1]@));
    }
}

proof fn lemma_type_line(t: TypeRef)
    requires
        type_named(t),
    ensures
        one_line(type_text_of(t)),
    decreases t, 1nat,
{
    broadcast use group_flat;

    lemma_words();
    if let TypeRefKind::Name { path, type_args } = t.kind {
        lemma_dotted_line(path@, path@.len());
        lemma_types_line(type_args@, type_args@.len());
    }
}

proof fn lemma_types_line(ts: Seq<TypeRef>, n: nat)
    requires
        types_named(ts),
        n <= ts.len(),
    ensures
        one_line(types_text(ts, n)),
    decreases ts, n,
{
    broadcast use group_flat;

    lemma_words();
    lemma_nothing_line();
    if n > 0 {
        lemma_types_line(ts, (n - 1) as nat);
        assert(decreases_to!(ts => ts[n - 1]));
        assert(decreases_to!(ts => ts[0]));
        lemma_type_line(ts[n - 1]);
        lemma_type_line(ts[0]);
    }
}

proof fn lemma_typed_line(label: Seq<char>, t: Option<TypeRef>)
    requires
        one_line(label),
        opt_type_named(t),
    ensures
        one_line(typed(label, t)),
{
    broadcast use group_flat;

    reveal(typed);
    lemma_words();
    if let Some(x) = t {
        lemma_type_line(x);
    }
}

proof fn lemma_attrs_line(a: Attributes)
    requires
        attrs_named(a),
    ensures
        one_line(attrs_text(a)),
{
    broadcast use group_flat;

    reveal(attrs_text);
    lemma_words();
}

proof fn lemma_function_line(f: FunctionDecl)
    requires
        opt_named(f.name) && opt_type_named(f.return_type),
    ensures
        one_line(function_line(f)),
{
    broadcast use group_flat;

    reveal(function_line);
    lemma_words();
    lemma_typed_line(" returns="@, f.return_type);
}

proof fn lemma_param_line(p: Param)
    requires
        one_line(p.name@) && opt_type_named(p.ty),
    ensures
        one_line(param_line(p)),
{
    broadcast use group_flat;

    reveal(param_line);
    lemma_words();
    lemma_typed_line(" type="@, p.ty);
}

proof fn lemma_binding_line(b: Binding)
    requires
        one_line(b.name@) && opt_type_named(b.ty),
    ensures
        one_line(binding_line(b)),
{
    broadcast use group_flat;

    reveal(binding_line);
    lemma_words();
    lemma_typed_line(" type="@, b.ty);
}

proof fn lemma_catch_line(c: CatchClause)
    requires
        one_line(c.name@) && opt_type_named(c.ty),
    ensures
        one_line(catch_line(c)),
{
    broadcast use group_flat;

    reveal(catch_line);
    lemma_words();
    lemma_typed_line(" type="@, c.ty);
}

proof fn lemma_class_line(c: ClassDecl)
    requires
        class_named(c),
    ensures
        one_line(class_line(c)),
{
    broadcast use group_flat;

    reveal(class_line);
    lemma_words();
    lemma_attrs_line(c.attrs);
    lemma_typed_line(" extends="@, c.extends);
    lemma_types_line(c.implements@, c.implements@.len());
}

proof fn lemma_interface_line(i: InterfaceDecl)
    requires
        interface_named(i),
    ensures
        one_line(interface_line(i)),
{
    broadcast use group_flat;

    reveal(interface_line);
    lemma_words();
    lemma_attrs_line(i.attrs);
    lemma_types_line(i.extends@, i.extends@.len());
}

proof fn lemma_member_line(m: Member)
    requires
        attrs_named(m.attrs),
    ensures
        one_line(member_line(m)),
{
    broadcast use group_flat;

    reveal(member_line);
    lemma_words();
    lemma_attrs_line(m.attrs);
}

proof fn lemma_sig_line(m: InterfaceMember)
    requires
        one_line(m.name@) && opt_type_named(m.return_type),
    ensures
        one_line(sig_line(m)),
{
    broadcast use group_flat;

    reveal(sig_line);
    lemma_words();
    lemma_typed_line(" returns="@, m.return_type);
}

proof fn lemma_atom_line(e: Expr)
    requires
        expr_named(e),
    ensures
        one_line(atom_line(e.kind)),
{
    broadcast use group_flat;

    reveal(atom_line);
    lemma_words();
    match e.kind {
        ExprKind::Int(v) => lemma_signed_line(v as int),
        ExprKind::UInt(v) => lemma_signed_line(v as int),
        _ => {},
    }
}

proof fn lemma_plain_line(s: Stmt)
    requires
        stmt_named(s),
    ensures
        one_line(plain_line(s.kind)),
{
    broadcast use group_flat;

    reveal(plain_line);
    lemma_words();
    if let StmtKind::Import { path, wildcard: _ } = s.kind {
        lemma_dotted_line(path@, path@.len());
    }
}

// --- rows -----------------------------------------------------------------------------------

proof fn args_flat(l: Seq<Expr>, n: nat)
    requires
        args_named(l),
        n <= l.len(),
    ensures
        flat(args_rows(l, n)),
    decreases l, n,
{
    broadcast use group_flat;

    lemma_words();
    lemma_none_flat();
    if n > 0 {
        args_flat(l, (n - 1) as nat);
        let x = l[n - 1];
        assert(decreases_to!(l => l[n - 1]));
        expr_flat(x);
    }
}

proof fn elements_flat(l: Seq<Option<Expr>>, n: nat)
    requires
        elements_named(l),
        n <= l.len(),
    ensures
        flat(elements_rows(l, n)),
    decreases l, n,
{
    broadcast use group_flat;

    lemma_words();
    lemma_none_flat();
    if n > 0 {
        elements_flat(l, (n - 1) as nat);
        let x = l[n - 1];
        assert(decreases_to!(l => l[n - 1]));
        if let Some(e) = x {
            assert(decreases_to!(l[n - 1] => l[n - 1]->0));
            expr_flat(e);
        }
    }
}

proof fn props_flat(l: Seq<(PropName, Expr)>, n: nat)
    requires
        props_named(l),
        n <= l.len(),
    ensures
        flat(props_rows(l, n)),
    decreases l, n,
{
    broadcast use group_flat;

    lemma_words();
    lemma_none_flat();
    if n > 0 {
        props_flat(l, (n - 1) as nat);
        let x = l[n - 1];
        assert(decreases_to!(l => l[n - 1]));
        assert(decreases_to!(l[n - 1] => l[n - 1].1));
        assert(flat(prop_row(x.0))) by {
            reveal(prop_row);
        }
        expr_flat(x.1);
    }
}

proof fn expr_flat(e: Expr)
    requires
        expr_named(e),
    ensures
        flat(expr_rows(e)),
    decreases e, 0nat,
{
    broadcast use group_flat;

    lemma_words();
    lemma_none_flat();
    match e.kind {
        ExprKind::Array(l) => {
            elements_flat(l@, l@.len());
        },
        ExprKind::Object(l) => {
            props_flat(l@, l@.len());
        },
        ExprKind::Function(f) => {
            function_flat(*f);
        },
        ExprKind::Unary(op, a) => {
            lemma_unary_line(op);
            expr_flat(*a);
        },
        ExprKind::Postfix(op, a) => {
            lemma_postfix_line(op);
            expr_flat(*a);
        },
        ExprKind::Binary(op, a, b) => {
            lemma_binary_line(op);
            expr_flat(*a);
            expr_flat(*b);
        },
        ExprKind::Assign(op, a, b) => {
            lemma_assign_line(op);
            expr_flat(*a);
            expr_flat(*b);
        },
        ExprKind::Conditional(c, a, b) => {
            expr_flat(*c);
            expr_flat(*a);
            expr_flat(*b);
        },
        ExprKind::Call(c, args) => {
            expr_flat(*c);
            args_flat(args@, args@.len());
        },
        ExprKind::New(c, args) => {
            expr_flat(*c);
            args_flat(args@, args@.len());
        },
        ExprKind::Member(a, name) => {
            expr_flat(*a);
        },
        ExprKind::Index(a, b) => {
            expr_flat(*a);
            expr_flat(*b);
        },
        ExprKind::ApplyType(a, ts) => {
            lemma_types_line(ts@, ts@.len());
            expr_flat(*a);
        },
        ExprKind::VectorLit { elem, elements } => {
            lemma_type_line(elem);
            args_flat(elements@, elements@.len());
        },
        ExprKind::Comma(a, b) => {
            expr_flat(*a);
            expr_flat(*b);
        },
        _ => {
            lemma_atom_line(e);
        },
    }
}

proof fn labeled_opt_flat(label: Seq<char>, e: Option<Expr>)
    requires
        one_line(label),
        opt_expr_named(e),
    ensures
        flat(labeled_opt_rows(label, e)),
    decreases e, 1nat,
{
    broadcast use group_flat;

    lemma_none_flat();
    if let Some(x) = e {
        expr_flat(x);
    }
}

proof fn function_flat(f: FunctionDecl)
    requires
        function_named(f),
    ensures
        flat(function_rows(f)),
    decreases f, 0nat,
{
    broadcast use group_flat;

    lemma_words();
    lemma_none_flat();
    lemma_function_line(f);
    params_flat(f.params@, f.params@.len());
    block_flat(f.body);
}

proof fn params_flat(l: Seq<Param>, n: nat)
    requires
        params_named(l),
        n <= l.len(),
    ensures
        flat(params_rows(l, n)),
    decreases l, n,
{
    broadcast use group_flat;

    lemma_words();
    lemma_none_flat();
    if n > 0 {
        params_flat(l, (n - 1) as nat);
        let x = l[n - 1];
        assert(decreases_to!(l => l[n - 1]));
        lemma_param_line(x);
        labeled_opt_flat("default:"@, x.default);
    }
}

proof fn block_flat(b: Block)
    requires
        block_named(b),
    ensures
        flat(block_rows(b)),
    decreases b, 0nat,
{
    broadcast use group_flat;

    lemma_words();
    lemma_none_flat();
    stmts_flat(b.stmts@, b.stmts@.len());
}

proof fn stmts_flat(l: Seq<Stmt>, n: nat)
    requires
        stmts_named(l),
        n <= l.len(),
    ensures
        flat(stmts_rows(l, n)),
    decreases l, n,
{
    broadcast use group_flat;

    lemma_words();
    lemma_none_flat();
    if n > 0 {
        stmts_flat(l, (n - 1) as nat);
        let x = l[n - 1];
        assert(decreases_to!(l => l[n - 1]));
        stmt_flat(x);
    }
}

proof fn var_decl_flat(d: VarDecl)
    requires
        var_decl_named(d),
    ensures
        flat(var_decl_rows(d)),
    decreases d, 0nat,
{
    broadcast use group_flat;

    lemma_words();
    lemma_none_flat();
    bindings_flat(d.bindings@, d.bindings@.len());
}

proof fn bindings_flat(l: Seq<Binding>, n: nat)
    requires
        bindings_named(l),
        n <= l.len(),
    ensures
        flat(bindings_rows(l, n)),
    decreases l, n,
{
    broadcast use group_flat;

    lemma_words();
    lemma_none_flat();
    if n > 0 {
        bindings_flat(l, (n - 1) as nat);
        let x = l[n - 1];
        assert(decreases_to!(l => l[n - 1]));
        lemma_binding_line(x);
        labeled_opt_flat("init:"@, x.init);
    }
}

proof fn cases_flat(l: Seq<SwitchCase>, n: nat)
    requires
        cases_named(l),
        n <= l.len(),
    ensures
        flat(cases_rows(l, n)),
    decreases l, n,
{
    broadcast use group_flat;

    lemma_words();
    lemma_none_flat();
    if n > 0 {
        cases_flat(l, (n - 1) as nat);
        let x = l[n - 1];
        assert(decreases_to!(l => l[n - 1]));
        if let Some(t) = x.test {
            expr_flat(t);
        }
        stmts_flat(x.body@, x.body@.len());
    }
}

proof fn catches_flat(l: Seq<CatchClause>, n: nat)
    requires
        catches_named(l),
        n <= l.len(),
    ensures
        flat(catches_rows(l, n)),
    decreases l, n,
{
    broadcast use group_flat;

    lemma_words();
    lemma_none_flat();
    if n > 0 {
        catches_flat(l, (n - 1) as nat);
        let x = l[n - 1];
        assert(decreases_to!(l => l[n - 1]));
        lemma_catch_line(x);
        block_flat(x.body);
    }
}

proof fn init_flat(i: ForInit)
    requires
        init_named(i),
    ensures
        flat(init_rows(i)),
    decreases i, 0nat,
{
    broadcast use group_flat;

    lemma_words();
    lemma_none_flat();
    match i {
        ForInit::VarDecl(d) => var_decl_flat(d),
        ForInit::Expr(e) => expr_flat(e),
    }
}

proof fn target_flat(t: ForInTarget)
    requires
        target_named(t),
    ensures
        flat(target_rows(t)),
    decreases t, 0nat,
{
    broadcast use group_flat;

    lemma_words();
    lemma_none_flat();
    match t {
        ForInTarget::VarDecl(d) => var_decl_flat(d),
        ForInTarget::Expr(e) => expr_flat(e),
    }
}

proof fn stmt_flat(s: Stmt)
    requires
        stmt_named(s),
    ensures
        flat(stmt_rows(s)),
    decreases s, 0nat,
{
    broadcast use group_flat;

    lemma_words();
    lemma_none_flat();
    match s.kind {
        StmtKind::Expr(e) => {
            expr_flat(e);
        },
        StmtKind::VarDecl(d) => {
            var_decl_flat(d);
        },
        StmtKind::Function(f) => {
            function_flat(*f);
        },
        StmtKind::Block(b) => {
            block_flat(b);
        },
        StmtKind::If { cond, then_branch, else_branch } => {
            expr_flat(cond);
            stmt_flat(*then_branch);
            if let Some(x) = else_branch {
                stmt_flat(*x);
            }
        },
        StmtKind::While { cond, body } => {
            expr_flat(cond);
            stmt_flat(*body);
        },
        StmtKind::DoWhile { body, cond } => {
            expr_flat(cond);
            stmt_flat(*body);
        },
        StmtKind::For { init, cond, update, body } => {
            if let Some(x) = init {
                init_flat(*x);
            }
            labeled_opt_flat("cond:"@, cond);
            labeled_opt_flat("update:"@, update);
            stmt_flat(*body);
        },
        StmtKind::ForIn { is_each: _, target, object, body } => {
            target_flat(target);
            expr_flat(object);
            stmt_flat(*body);
        },
        StmtKind::Switch { scrutinee, cases } => {
            expr_flat(scrutinee);
            cases_flat(cases@, cases@.len());
        },
        StmtKind::Return { value } => {
            assert(opt_expr_named(value));
            if let Some(v) = value {
                expr_flat(v);
            }
        },
        StmtKind::Throw { value } => {
            expr_flat(value);
        },
        StmtKind::Try { block, catches, finally } => {
            block_flat(block);
            catches_flat(catches@, catches@.len());
            if let Some(f) = finally {
                block_flat(f);
            }
        },
        StmtKind::Labeled { label, body } => {
            stmt_flat(*body);
        },
        StmtKind::Package { path, body } => {
            lemma_dotted_line(path@, path@.len());
            stmts_flat(body@, body@.len());
        },
        StmtKind::Class(c) => {
            class_flat(*c);
        },
        StmtKind::Interface(i) => {
            assert(interface_named(*i));
            lemma_interface_line(*i);
            sigs_flat(i.members@, i.members@.len());
        },
        _ => {
            lemma_plain_line(s);
        },
    }
}

proof fn class_flat(c: ClassDecl)
    requires
        class_named(c),
    ensures
        flat(class_rows(c)),
    decreases c, 0nat,
{
    broadcast use group_flat;

    lemma_words();
    lemma_none_flat();
    lemma_class_line(c);
    members_flat(c.members@, c.members@.len());
}

proof fn members_flat(l: Seq<Member>, n: nat)
    requires
        members_named(l),
        n <= l.len(),
    ensures
        flat(members_rows(l, n)),
    decreases l, n,
{
    broadcast use group_flat;

    lemma_words();
    lemma_none_flat();
    if n > 0 {
        members_flat(l, (n - 1) as nat);
        let x = l[n - 1];
        assert(decreases_to!(l => l[n - 1]));
        lemma_member_line(x);
        match x.kind {
            MemberKind::Field(d) => var_decl_flat(d),
            MemberKind::Method(f) => function_flat(*f),
            MemberKind::Getter(f) => function_flat(*f),
            MemberKind::Setter(f) => function_flat(*f),
        }
    }
}

proof fn sigs_flat(l: Seq<InterfaceMember>, n: nat)
    requires
        sigs_named(l),
        n <= l.len(),
    ensures
        flat(sigs_rows(l, n)),
    decreases l, n,
{
    broadcast use group_flat;

    lemma_words();
    lemma_none_flat();
    if n > 0 {
        sigs_flat(l, (n - 1) as nat);
        let x = l[n - 1];
        assert(decreases_to!(l => l[n - 1]));
        lemma_sig_line(x);
        params_flat(x.params@, x.params@.len());
    }
}

/// Where no identifier or label of a statement holds a line break, its dump at a
/// pad is its dump at the left margin with the pad in front of every line: what a
/// string literal holds adds no line. Either dump is appended to what stands
/// already, is not empty and ends with a line break.
pub proof fn law_dump_is_indented(out: Seq<Bit>, s: Stmt, pad: Seq<char>)
    requires
        stmt_named(s),
    ensures
        stmt_dump(out, s, pad) == out + indented(stmt_dump(Seq::empty(), s, Seq::empty()), pad),
        stmt_dump(out, s, pad).len() > out.len(),
        stmt_dump(out, s, pad).last() == Bit::Char('\n'),
{
    stmt_flat(s);
    law_dump_moves_right(out, s, pad);
}

} // verus!
