//! Laws of the grammar.

use vstd::prelude::*;

use crate::ast::view::{
    AttributesView, BindingView, CatchClauseView, ExprKindView, ExprView, InterfaceMemberView, MemberView, ParamView, PropNameView, StmtKindView, StmtView, SwitchCaseView, TypeRefView,
};
use crate::diagnostics::{DiagView, UNEXPECTED_TOKEN, UNSUPPORTED_SYNTAX};
use crate::ast::nodes::BinaryOp;
use crate::lexer::chars::byte_len;
use crate::lexer::laws::{law_stream_ends_with_eof, law_tokens_roomy};
use crate::lexer::scan::lexed;
use crate::lexer::token::{KindView, TokenKind};
use crate::parser::grammar::{
    annotation, application, argument_list, arguments, array_elements, assign_op_of, assignment, atom, attributed, binary, binary_op_of, binary_rest, binding, binding_list, block, block_rest, break_or_continue, call, call_rest, case_body, case_list, catch_list, check_target, class, class_member, comma_rest, conditional, control, declaration, directives, do_while_statement, dotted_rest, element, expression, expression_statement, follows_namespace, for_expr_rest, for_in_tail, for_statement, for_tail, for_var_rest, function, function_statement, grammar, head, if_statement, import_rest, initializer, interface, interface_member, lemma_rules, member, member_list, member_modifiers, modified, modifiers, name_list, namespace, new_expr, new_rest, no_attributes, object_props, optional_expression, package, parameter, parameter_list, paren_expression, path_rest, postfix, primary, prop_name, recover, restarts, return_statement, sig_list, signature, statement, stmt_list, switch_statement, throw_statement, try_statement, type_list, type_params, type_ref, unary, unary_op_of, unstick, var_declaration, var_statement, vector_elements, vector_literal, visibility_of, while_statement, Grammar,
};
use crate::parser::order::{law_sorted, sorted};
use crate::parser::parse::{depth, errors_of, opening, parsed};
use crate::parser::state::{lemma_close_type, lemma_next, PState};
use crate::span::{SourceId, Span};

verus! {

// --- parsing goes forward -----------------------------------------------------------------

/// From a proper state parsing gets to a proper state that is no earlier, with
/// no more left to parse and with all its errors kept.
#[verifier::opaque]
pub open spec fn onward(s: PState, t: PState) -> bool {
    s.ok() ==> s.to(t) && s.diags.len() <= t.diags.len() && t.diags.take(s.diags.len() as int)
        == s.diags
}

pub broadcast proof fn lemma_onward_same(s: PState)
    ensures
        #[trigger] onward(s, s),
{
    reveal(onward);
    assert(s.diags.take(s.diags.len() as int) =~= s.diags);
}

pub broadcast proof fn lemma_onward_on(a: PState, b: PState, c: PState)
    requires
        #[trigger] onward(a, b),
        #[trigger] onward(b, c),
    ensures
        onward(a, c),
{
    reveal(onward);
    if a.ok() {
        assert(c.diags.take(a.diags.len() as int) =~= c.diags.take(b.diags.len() as int).take(
            a.diags.len() as int,
        ));
    }
}

pub broadcast proof fn lemma_onward_next(s: PState)
    ensures
        onward(s, #[trigger] s.next()),
{
    reveal(onward);
    if s.ok() {
        lemma_next(s);
        assert(s.diags.take(s.diags.len() as int) =~= s.diags);
    }
}

pub broadcast proof fn lemma_onward_complain(s: PState, code: u16, m: Seq<char>, span: Span)
    ensures
        onward(s, #[trigger] s.complain(code, m, span)),
{
    reveal(onward);
    reveal(PState::complain);
    let t = s.complain(code, m, span);
    assert(t.diags.take(s.diags.len() as int) =~= s.diags);
}

pub broadcast proof fn lemma_onward_complain_found(s: PState, what: Seq<char>)
    ensures
        onward(s, #[trigger] s.complain_found(what)),
{
    broadcast use lemma_onward_complain;

    reveal(PState::complain_found);
}

pub broadcast proof fn lemma_onward_eat(s: PState, k: TokenKind)
    ensures
        onward(s, #[trigger] s.eat(k)),
{
    broadcast use {lemma_onward_same, lemma_onward_next};

}

pub broadcast proof fn lemma_onward_expect(s: PState, k: TokenKind)
    ensures
        onward(s, #[trigger] s.expect(k)),
{
    broadcast use {lemma_onward_next, lemma_onward_complain};

    reveal(PState::expect);
}

pub broadcast proof fn lemma_onward_ident(s: PState)
    ensures
        onward(s, #[trigger] s.ident()),
{
    broadcast use {lemma_onward_next, lemma_onward_complain_found};

    reveal(PState::ident);
}

pub broadcast proof fn lemma_onward_semicolon(s: PState)
    ensures
        onward(s, #[trigger] s.semicolon()),
{
    broadcast use {lemma_onward_same, lemma_onward_next, lemma_onward_complain};

    reveal(PState::semicolon);
}

pub broadcast proof fn lemma_onward_close_type(s: PState)
    ensures
        onward(s, #[trigger] s.close_type()),
{
    broadcast use {lemma_onward_next, lemma_onward_complain_found};

    if s.ok() {
        lemma_close_type(s);
    }
    reveal(onward);
    reveal(PState::close_type);
    assert(s.diags.take(s.diags.len() as int) =~= s.diags);
}

pub broadcast proof fn lemma_onward_check_target(s: PState, e: ExprView)
    ensures
        onward(s, #[trigger] check_target(s, e)),
{
    broadcast use {lemma_onward_same, lemma_onward_complain};

    reveal(check_target);
}

pub broadcast proof fn lemma_onward_unstick(s: PState, t: PState)
    ensures
        onward(t, #[trigger] unstick(s, t)),
{
    broadcast use {lemma_onward_same, lemma_onward_next};

}

pub broadcast group group_onward {
    lemma_onward_same,
    lemma_onward_on,
    lemma_onward_next,
    lemma_onward_complain,
    lemma_onward_complain_found,
    lemma_onward_eat,
    lemma_onward_expect,
    lemma_onward_ident,
    lemma_onward_semicolon,
    lemma_onward_close_type,
    lemma_onward_check_target,
    lemma_onward_unstick,
}

proof fn lemma_onward_no_in(s: PState, b: bool)
    ensures
        onward(s, PState { no_in: b, ..s }),
{
    reveal(onward);
    assert(s.diags.take(s.diags.len() as int) =~= s.diags);
}

proof fn lemma_onward_recover(s: PState)
    ensures
        onward(s, recover(s)),
    decreases s.toks.len() - s.pos,
{
    broadcast use group_onward;

    if !(s.at(TokenKind::Eof) || s.at(TokenKind::Semicolon) || s.at(TokenKind::RBrace))
        && !(restarts(s.cur().kind) || s.pos + 1 >= s.toks.len()) {
        lemma_onward_recover(s.next());
    }
}

/// A name in the middle of a stream.
proof fn lemma_ident_place(s: PState)
    ensures
        s.ident().toks == s.toks,
        s.ident().pos == s.pos || s.ident().pos == s.pos + 1,
{
    reveal(PState::ident);
    reveal(PState::complain_found);
    reveal(PState::complain);
}

proof fn lemma_onward_path(s: PState, path: Seq<Seq<char>>)
    ensures
        onward(s, path_rest(s, path).0),
    decreases s.toks.len() - s.pos,
{
    broadcast use group_onward;

    if s.at(TokenKind::Dot) && s.ahead(1) is Ident && s.pos + 1 < s.toks.len() {
        lemma_ident_place(s.next());
        lemma_onward_path(s.next().ident(), path.push(s.next().name()));
    }
}

proof fn lemma_onward_dotted(s: PState, path: Seq<Seq<char>>)
    ensures
        onward(s, dotted_rest(s, path).0),
    decreases s.toks.len() - s.pos,
{
    broadcast use group_onward;

    if s.at(TokenKind::Dot) && s.pos + 1 < s.toks.len() {
        lemma_ident_place(s.next());
        lemma_onward_dotted(s.next().ident(), path.push(s.next().name()));
    }
}

proof fn lemma_onward_import(s: PState, path: Seq<Seq<char>>)
    ensures
        onward(s, import_rest(s, path).0),
    decreases s.toks.len() - s.pos,
{
    broadcast use group_onward;

    if s.at(TokenKind::Dot) && s.pos + 1 < s.toks.len() && !s.next().at(TokenKind::Star) {
        lemma_ident_place(s.next());
        lemma_onward_import(s.next().ident(), path.push(s.next().name()));
    }
}

proof fn lemma_onward_names(s: PState, acc: Seq<Seq<char>>)
    ensures
        onward(s, name_list(s, acc).0),
    decreases s.toks.len() - s.pos,
{
    broadcast use group_onward;

    let s1 = s.ident();
    if s1.at(TokenKind::Comma) && s.pos <= s1.pos && s1.pos + 1 < s1.toks.len() && s1.toks
        == s.toks {
        lemma_onward_names(s1.next(), acc.push(s.name()));
    }
}

proof fn lemma_onward_type_params(s: PState)
    ensures
        onward(s, type_params(s).0),
{
    broadcast use group_onward;

    lemma_onward_names(s.next(), Seq::empty());
}

proof fn lemma_onward_modifiers(s: PState, a: AttributesView)
    ensures
        onward(s, modifiers(s, a).0),
    decreases s.toks.len() - s.pos,
{
    broadcast use group_onward;

    reveal(PState::complain);
    if s.pos + 1 < s.toks.len() {
        match visibility_of(s.cur().kind) {
            Some(v) => {
                let s1 = if a.visibility is Some {
                    s.complain(
                        UNEXPECTED_TOKEN,
                        "only one access modifier is allowed"@,
                        s.cur().span,
                    )
                } else {
                    s
                };
                lemma_onward_modifiers(s1.next(), AttributesView { visibility: Some(v), ..a });
            },
            None => match modified(s.cur().kind, a) {
                Some(b) => lemma_onward_modifiers(s.next(), b),
                None => {},
            },
        }
    }
}

proof fn lemma_onward_member_modifiers(s: PState, a: AttributesView)
    ensures
        onward(s, member_modifiers(s, a).0),
    decreases s.toks.len() - s.pos,
{
    broadcast use group_onward;

    reveal(PState::complain);
    if s.pos + 1 < s.toks.len() {
        match visibility_of(s.cur().kind) {
            Some(v) => lemma_onward_member_modifiers(
                s.next(),
                AttributesView { visibility: Some(v), ..a },
            ),
            None => match s.cur().kind {
                KindView::Ident(name) => if follows_namespace(s.ahead(1)) {
                    let s1 = if a.visibility is Some {
                        s.next().complain(
                            UNEXPECTED_TOKEN,
                            "a namespace qualifier cannot be combined with an access modifier"@,
                            s.cur().span,
                        )
                    } else {
                        s.next()
                    };
                    lemma_onward_member_modifiers(
                        s1,
                        AttributesView { namespace_: Some(name), ..a },
                    );
                },
                k => match modified(k, a) {
                    Some(b) => lemma_onward_member_modifiers(s.next(), b),
                    None => {},
                },
            },
        }
    }
}

/// Every rule of the grammar goes onward.
#[verifier::opaque]
pub open spec fn forward(g: Grammar) -> bool {
    &&& forall|s: PState| onward(s, (#[trigger] (g.type_ref)(s)).0)
    &&& forall|s: PState, acc: Seq<TypeRefView>| onward(s, (#[trigger] (g.type_list)(s, acc)).0)
    &&& forall|s: PState| onward(s, (#[trigger] (g.annotation)(s)).0)
    &&& forall|s: PState| onward(s, (#[trigger] (g.expression)(s)).0)
    &&& forall|s: PState, e: ExprView| onward(s, (#[trigger] (g.comma_rest)(s, e)).0)
    &&& forall|s: PState| onward(s, (#[trigger] (g.assignment)(s)).0)
    &&& forall|s: PState| onward(s, (#[trigger] (g.conditional)(s)).0)
    &&& forall|s: PState, min: int| onward(s, (#[trigger] (g.binary)(s, min)).0)
    &&& forall|s: PState, l: ExprView, min: int| onward(s, (#[trigger] (g.binary_rest)(s, l, min)).0)
    &&& forall|s: PState| onward(s, (#[trigger] (g.unary)(s)).0)
    &&& forall|s: PState| onward(s, (#[trigger] (g.postfix)(s)).0)
    &&& forall|s: PState| onward(s, (#[trigger] (g.head)(s)).0)
    &&& forall|s: PState| onward(s, (#[trigger] (g.call)(s)).0)
    &&& forall|s: PState, e: ExprView| onward(s, (#[trigger] (g.element)(s, e)).0)
    &&& forall|s: PState, e: ExprView| onward(s, (#[trigger] (g.application)(s, e)).0)
    &&& forall|s: PState, e: ExprView| onward(s, (#[trigger] (g.call_rest)(s, e)).0)
    &&& forall|s: PState| onward(s, (#[trigger] (g.new_expr)(s)).0)
    &&& forall|s: PState, start: Span| onward(s, (#[trigger] (g.vector_literal)(s, start)).0)
    &&& forall|s: PState, acc: Seq<ExprView>| onward(s, (#[trigger] (g.vector_elements)(s, acc)).0)
    &&& forall|s: PState, e: ExprView| onward(s, (#[trigger] (g.new_rest)(s, e)).0)
    &&& forall|s: PState| onward(s, (#[trigger] (g.arguments)(s)).0)
    &&& forall|s: PState, acc: Seq<ExprView>| onward(s, (#[trigger] (g.argument_list)(s, acc)).0)
    &&& forall|s: PState| onward(s, (#[trigger] (g.primary)(s)).0)
    &&& forall|s: PState, acc: Seq<Option<ExprView>>| onward(s, (#[trigger] (g.array_elements)(s, acc)).0)
    &&& forall|s: PState, acc: Seq<(PropNameView, ExprView)>| onward(s, (#[trigger] (g.object_props)(s, acc)).0)
    &&& forall|s: PState| onward(s, (#[trigger] (g.initializer)(s)).0)
    &&& forall|s: PState| onward(s, (#[trigger] (g.parameter)(s)).0)
    &&& forall|s: PState, acc: Seq<ParamView>| onward(s, (#[trigger] (g.parameter_list)(s, acc)).0)
    &&& forall|s: PState| onward(s, (#[trigger] (g.signature)(s)).0)
    &&& forall|s: PState, keyword: Span, needs_name: bool| onward(s, (#[trigger] (g.function)(s, keyword, needs_name)).0)
    &&& forall|s: PState, in_case: bool, acc: Seq<StmtView>| onward(s, (#[trigger] (g.stmt_list)(s, in_case, acc)).0)
    &&& forall|s: PState, start: Span| onward(s, (#[trigger] (g.block_rest)(s, start)).0)
    &&& forall|s: PState| onward(s, (#[trigger] (g.block)(s)).0)
    &&& forall|s: PState| onward(s, (#[trigger] (g.paren_expression)(s)).0)
    &&& forall|s: PState| onward(s, (#[trigger] (g.statement)(s)).0)
    &&& forall|s: PState| onward(s, (#[trigger] (g.expression_statement)(s)).0)
    &&& forall|s: PState| onward(s, (#[trigger] (g.binding)(s)).0)
    &&& forall|s: PState, acc: Seq<BindingView>| onward(s, (#[trigger] (g.binding_list)(s, acc)).0)
    &&& forall|s: PState| onward(s, (#[trigger] (g.var_declaration)(s)).0)
    &&& forall|s: PState| onward(s, (#[trigger] (g.var_statement)(s)).0)
    &&& forall|s: PState| onward(s, (#[trigger] (g.function_statement)(s)).0)
    &&& forall|s: PState| onward(s, (#[trigger] (g.control)(s)).0)
    &&& forall|s: PState| onward(s, (#[trigger] (g.if_statement)(s)).0)
    &&& forall|s: PState| onward(s, (#[trigger] (g.while_statement)(s)).0)
    &&& forall|s: PState| onward(s, (#[trigger] (g.do_while_statement)(s)).0)
    &&& forall|s: PState| onward(s, (#[trigger] (g.for_statement)(s)).0)
    &&& forall|s: PState, end: TokenKind| onward(s, (#[trigger] (g.optional_expression)(s, end)).0)
    &&& forall|s: PState| onward(s, (#[trigger] (g.for_tail)(s)).0)
    &&& forall|s: PState| onward(s, (#[trigger] (g.for_in_tail)(s)).0)
    &&& forall|s: PState| onward(s, (#[trigger] (g.switch_statement)(s)).0)
    &&& forall|s: PState, seen: bool, acc: Seq<SwitchCaseView>| onward(s, (#[trigger] (g.case_list)(s, seen, acc)).0)
    &&& forall|s: PState, start: Span, test: Option<ExprView>| onward(s, (#[trigger] (g.case_body)(s, start, test)).0)
    &&& forall|s: PState| onward(s, (#[trigger] (g.return_statement)(s)).0)
    &&& forall|s: PState| onward(s, (#[trigger] (g.throw_statement)(s)).0)
    &&& forall|s: PState, acc: Seq<CatchClauseView>| onward(s, (#[trigger] (g.catch_list)(s, acc)).0)
    &&& forall|s: PState| onward(s, (#[trigger] (g.try_statement)(s)).0)
    &&& forall|s: PState| onward(s, (#[trigger] (g.declaration)(s)).0)
    &&& forall|s: PState| onward(s, (#[trigger] (g.package)(s)).0)
    &&& forall|s: PState| onward(s, (#[trigger] (g.attributed)(s)).0)
    &&& forall|s: PState, start: Span, attrs: AttributesView| onward(s, (#[trigger] (g.class)(s, start, attrs)).0)
    &&& forall|s: PState, acc: Seq<MemberView>| onward(s, (#[trigger] (g.member_list)(s, acc)).0)
    &&& forall|s: PState| onward(s, (#[trigger] (g.class_member)(s)).0)
    &&& forall|s: PState, start: Span, attrs: AttributesView| onward(s, (#[trigger] (g.interface)(s, start, attrs)).0)
    &&& forall|s: PState, acc: Seq<InterfaceMemberView>| onward(s, (#[trigger] (g.sig_list)(s, acc)).0)
    &&& forall|s: PState| onward(s, (#[trigger] (g.interface_member)(s)).0)
    &&& forall|s: PState, acc: Seq<StmtView>| onward(s, (#[trigger] (g.directives)(s, acc)).0)
}

proof fn forward_type_ref(g: Grammar, s: PState)
    requires
        forward(g),
    ensures
        onward(s, type_ref(g, s).0),
{
    broadcast use group_onward;

    reveal(forward);
    reveal(type_ref);
    lemma_onward_path(s.ident(), seq![s.name()]);
}

proof fn forward_type_list(g: Grammar, s: PState, acc: Seq<TypeRefView>)
    requires
        forward(g),
    ensures
        onward(s, type_list(g, s, acc).0),
{
    broadcast use group_onward;

    reveal(forward);
    reveal(type_list);
}

proof fn forward_annotation(g: Grammar, s: PState)
    requires
        forward(g),
    ensures
        onward(s, annotation(g, s).0),
{
    broadcast use group_onward;

    reveal(forward);
    reveal(annotation);
}

proof fn forward_expression(g: Grammar, s: PState)
    requires
        forward(g),
    ensures
        onward(s, expression(g, s).0),
{
    broadcast use group_onward;

    reveal(forward);
    reveal(expression);
}

proof fn forward_comma_rest(g: Grammar, s: PState, e: ExprView)
    requires
        forward(g),
    ensures
        onward(s, comma_rest(g, s, e).0),
{
    broadcast use group_onward;

    reveal(forward);
    reveal(comma_rest);
}

proof fn forward_assignment(g: Grammar, s: PState)
    requires
        forward(g),
    ensures
        onward(s, assignment(g, s).0),
{
    broadcast use group_onward;

    reveal(forward);
    reveal(assignment);
}

proof fn forward_conditional(g: Grammar, s: PState)
    requires
        forward(g),
    ensures
        onward(s, conditional(g, s).0),
{
    broadcast use group_onward;

    reveal(forward);
    reveal(conditional);
}

proof fn forward_binary(g: Grammar, s: PState, min: int)
    requires
        forward(g),
    ensures
        onward(s, binary(g, s, min).0),
{
    broadcast use group_onward;

    reveal(forward);
    reveal(binary);
}

proof fn forward_binary_rest(g: Grammar, s: PState, l: ExprView, min: int)
    requires
        forward(g),
    ensures
        onward(s, binary_rest(g, s, l, min).0),
{
    broadcast use group_onward;

    reveal(forward);
    reveal(binary_rest);
}

proof fn forward_unary(g: Grammar, s: PState)
    requires
        forward(g),
    ensures
        onward(s, unary(g, s).0),
{
    broadcast use group_onward;

    reveal(forward);
    reveal(unary);
}

proof fn forward_postfix(g: Grammar, s: PState)
    requires
        forward(g),
    ensures
        onward(s, postfix(g, s).0),
{
    broadcast use group_onward;

    reveal(forward);
    reveal(postfix);
}

proof fn forward_head(g: Grammar, s: PState)
    requires
        forward(g),
    ensures
        onward(s, head(g, s).0),
{
    broadcast use group_onward;

    reveal(forward);
    reveal(head);
}

proof fn forward_call(g: Grammar, s: PState)
    requires
        forward(g),
    ensures
        onward(s, call(g, s).0),
{
    broadcast use group_onward;

    reveal(forward);
    reveal(call);
}

proof fn forward_element(g: Grammar, s: PState, e: ExprView)
    requires
        forward(g),
    ensures
        onward(s, element(g, s, e).0),
{
    broadcast use group_onward;

    reveal(forward);
    reveal(element);
}

proof fn forward_application(g: Grammar, s: PState, e: ExprView)
    requires
        forward(g),
    ensures
        onward(s, application(g, s, e).0),
{
    broadcast use group_onward;

    reveal(forward);
    reveal(application);
}

proof fn forward_call_rest(g: Grammar, s: PState, e: ExprView)
    requires
        forward(g),
    ensures
        onward(s, call_rest(g, s, e).0),
{
    broadcast use group_onward;

    reveal(forward);
    reveal(call_rest);
}

proof fn forward_new_expr(g: Grammar, s: PState)
    requires
        forward(g),
    ensures
        onward(s, new_expr(g, s).0),
{
    broadcast use group_onward;

    reveal(forward);
    reveal(new_expr);
}

proof fn forward_vector_literal(g: Grammar, s: PState, start: Span)
    requires
        forward(g),
    ensures
        onward(s, vector_literal(g, s, start).0),
{
    broadcast use group_onward;

    reveal(forward);
    reveal(vector_literal);
}

proof fn forward_vector_elements(g: Grammar, s: PState, acc: Seq<ExprView>)
    requires
        forward(g),
    ensures
        onward(s, vector_elements(g, s, acc).0),
{
    broadcast use group_onward;

    reveal(forward);
    reveal(vector_elements);
}

proof fn forward_new_rest(g: Grammar, s: PState, e: ExprView)
    requires
        forward(g),
    ensures
        onward(s, new_rest(g, s, e).0),
{
    broadcast use group_onward;

    reveal(forward);
    reveal(new_rest);
}

proof fn forward_arguments(g: Grammar, s: PState)
    requires
        forward(g),
    ensures
        onward(s, arguments(g, s).0),
{
    broadcast use group_onward;

    reveal(forward);
    reveal(arguments);
}

proof fn forward_argument_list(g: Grammar, s: PState, acc: Seq<ExprView>)
    requires
        forward(g),
    ensures
        onward(s, argument_list(g, s, acc).0),
{
    broadcast use group_onward;

    reveal(forward);
    reveal(argument_list);
}

proof fn forward_primary(g: Grammar, s: PState)
    requires
        forward(g),
    ensures
        onward(s, primary(g, s).0),
{
    broadcast use group_onward;

    reveal(forward);
    reveal(primary);
}

proof fn forward_array_elements(g: Grammar, s: PState, acc: Seq<Option<ExprView>>)
    requires
        forward(g),
    ensures
        onward(s, array_elements(g, s, acc).0),
{
    broadcast use group_onward;

    reveal(forward);
    reveal(array_elements);
}

proof fn forward_object_props(g: Grammar, s: PState, acc: Seq<(PropNameView, ExprView)>)
    requires
        forward(g),
    ensures
        onward(s, object_props(g, s, acc).0),
{
    broadcast use group_onward;

    reveal(forward);
    reveal(object_props);
}

proof fn forward_initializer(g: Grammar, s: PState)
    requires
        forward(g),
    ensures
        onward(s, initializer(g, s).0),
{
    broadcast use group_onward;

    reveal(forward);
    reveal(initializer);
}

proof fn forward_parameter(g: Grammar, s: PState)
    requires
        forward(g),
    ensures
        onward(s, parameter(g, s).0),
{
    broadcast use group_onward;

    reveal(forward);
    reveal(parameter);
}

proof fn forward_parameter_list(g: Grammar, s: PState, acc: Seq<ParamView>)
    requires
        forward(g),
    ensures
        onward(s, parameter_list(g, s, acc).0),
{
    broadcast use group_onward;

    reveal(forward);
    reveal(parameter_list);
}

proof fn forward_signature(g: Grammar, s: PState)
    requires
        forward(g),
    ensures
        onward(s, signature(g, s).0),
{
    broadcast use group_onward;

    reveal(forward);
    reveal(signature);
}

proof fn forward_function(g: Grammar, s: PState, keyword: Span, needs_name: bool)
    requires
        forward(g),
    ensures
        onward(s, function(g, s, keyword, needs_name).0),
{
    broadcast use group_onward;

    reveal(forward);
    reveal(function);
    lemma_onward_type_params(
        if s.at_ident() {
            s.next()
        } else if needs_name {
            s.complain(UNEXPECTED_TOKEN, "function declaration needs a name"@, s.cur().span)
        } else {
            s
        },
    );
}

proof fn forward_stmt_list(g: Grammar, s: PState, in_case: bool, acc: Seq<StmtView>)
    requires
        forward(g),
    ensures
        onward(s, stmt_list(g, s, in_case, acc).0),
{
    broadcast use group_onward;

    reveal(forward);
    reveal(stmt_list);
}

proof fn forward_block_rest(g: Grammar, s: PState, start: Span)
    requires
        forward(g),
    ensures
        onward(s, block_rest(g, s, start).0),
{
    broadcast use group_onward;

    reveal(forward);
    reveal(block_rest);
}

proof fn forward_block(g: Grammar, s: PState)
    requires
        forward(g),
    ensures
        onward(s, block(g, s).0),
{
    broadcast use group_onward;

    reveal(forward);
    reveal(block);
}

proof fn forward_paren_expression(g: Grammar, s: PState)
    requires
        forward(g),
    ensures
        onward(s, paren_expression(g, s).0),
{
    broadcast use group_onward;

    reveal(forward);
    reveal(paren_expression);
}

proof fn forward_statement(g: Grammar, s: PState)
    requires
        forward(g),
    ensures
        onward(s, statement(g, s).0),
{
    broadcast use group_onward;

    reveal(forward);
    reveal(statement);
    lemma_onward_recover(
        s.next().complain(
            UNSUPPORTED_SYNTAX,
            "`goto` is a reserved word with no meaning in AS3"@,
            s.cur().span,
        ),
    );
}

proof fn forward_expression_statement(g: Grammar, s: PState)
    requires
        forward(g),
    ensures
        onward(s, expression_statement(g, s).0),
{
    broadcast use group_onward;

    reveal(forward);
    reveal(expression_statement);
}

proof fn forward_binding(g: Grammar, s: PState)
    requires
        forward(g),
    ensures
        onward(s, binding(g, s).0),
{
    broadcast use group_onward;

    reveal(forward);
    reveal(binding);
}

proof fn forward_binding_list(g: Grammar, s: PState, acc: Seq<BindingView>)
    requires
        forward(g),
    ensures
        onward(s, binding_list(g, s, acc).0),
{
    broadcast use group_onward;

    reveal(forward);
    reveal(binding_list);
}

proof fn forward_var_declaration(g: Grammar, s: PState)
    requires
        forward(g),
    ensures
        onward(s, var_declaration(g, s).0),
{
    broadcast use group_onward;

    reveal(forward);
    reveal(var_declaration);
}

proof fn forward_var_statement(g: Grammar, s: PState)
    requires
        forward(g),
    ensures
        onward(s, var_statement(g, s).0),
{
    broadcast use group_onward;

    reveal(forward);
    reveal(var_statement);
}

proof fn forward_function_statement(g: Grammar, s: PState)
    requires
        forward(g),
    ensures
        onward(s, function_statement(g, s).0),
{
    broadcast use group_onward;

    reveal(forward);
    reveal(function_statement);
}

proof fn forward_control(g: Grammar, s: PState)
    requires
        forward(g),
    ensures
        onward(s, control(g, s).0),
{
    broadcast use group_onward;

    reveal(forward);
    reveal(control);
}

proof fn forward_if_statement(g: Grammar, s: PState)
    requires
        forward(g),
    ensures
        onward(s, if_statement(g, s).0),
{
    broadcast use group_onward;

    reveal(forward);
    reveal(if_statement);
}

proof fn forward_while_statement(g: Grammar, s: PState)
    requires
        forward(g),
    ensures
        onward(s, while_statement(g, s).0),
{
    broadcast use group_onward;

    reveal(forward);
    reveal(while_statement);
}

proof fn forward_do_while_statement(g: Grammar, s: PState)
    requires
        forward(g),
    ensures
        onward(s, do_while_statement(g, s).0),
{
    broadcast use group_onward;

    reveal(forward);
    reveal(do_while_statement);
}

proof fn forward_for_statement(g: Grammar, s: PState)
    requires
        forward(g),
    ensures
        onward(s, for_statement(g, s).0),
{
    broadcast use group_onward;

    reveal(forward);
    reveal(for_statement);
    reveal(for_var_rest);
    reveal(for_expr_rest);
    let s1 = (if s.next().at_word("each") {
        s.next().next()
    } else {
        s.next()
    }).expect(TokenKind::LParen);
    lemma_onward_no_in(s1, true);
    let h = PState { no_in: true, ..s1 };
    lemma_onward_no_in((g.var_declaration)(h).0, s1.no_in);
    lemma_onward_no_in((g.expression)(h).0, s1.no_in);
}

proof fn forward_optional_expression(g: Grammar, s: PState, end: TokenKind)
    requires
        forward(g),
    ensures
        onward(s, optional_expression(g, s, end).0),
{
    broadcast use group_onward;

    reveal(forward);
    reveal(optional_expression);
}

proof fn forward_for_tail(g: Grammar, s: PState)
    requires
        forward(g),
    ensures
        onward(s, for_tail(g, s).0),
{
    broadcast use group_onward;

    reveal(forward);
    reveal(for_tail);
}

proof fn forward_for_in_tail(g: Grammar, s: PState)
    requires
        forward(g),
    ensures
        onward(s, for_in_tail(g, s).0),
{
    broadcast use group_onward;

    reveal(forward);
    reveal(for_in_tail);
}

proof fn forward_switch_statement(g: Grammar, s: PState)
    requires
        forward(g),
    ensures
        onward(s, switch_statement(g, s).0),
{
    broadcast use group_onward;

    reveal(forward);
    reveal(switch_statement);
}

proof fn forward_case_list(g: Grammar, s: PState, seen: bool, acc: Seq<SwitchCaseView>)
    requires
        forward(g),
    ensures
        onward(s, case_list(g, s, seen, acc).0),
{
    broadcast use group_onward;

    reveal(forward);
    reveal(case_list);
    lemma_onward_recover(s.complain_found("expected `case` or `default`, found "@));
}

proof fn forward_case_body(g: Grammar, s: PState, start: Span, test: Option<ExprView>)
    requires
        forward(g),
    ensures
        onward(s, case_body(g, s, start, test).0),
{
    broadcast use group_onward;

    reveal(forward);
    reveal(case_body);
}

proof fn forward_return_statement(g: Grammar, s: PState)
    requires
        forward(g),
    ensures
        onward(s, return_statement(g, s).0),
{
    broadcast use group_onward;

    reveal(forward);
    reveal(return_statement);
}

proof fn forward_throw_statement(g: Grammar, s: PState)
    requires
        forward(g),
    ensures
        onward(s, throw_statement(g, s).0),
{
    broadcast use group_onward;

    reveal(forward);
    reveal(throw_statement);
}

proof fn forward_catch_list(g: Grammar, s: PState, acc: Seq<CatchClauseView>)
    requires
        forward(g),
    ensures
        onward(s, catch_list(g, s, acc).0),
{
    broadcast use group_onward;

    reveal(forward);
    reveal(catch_list);
}

proof fn forward_try_statement(g: Grammar, s: PState)
    requires
        forward(g),
    ensures
        onward(s, try_statement(g, s).0),
{
    broadcast use group_onward;

    reveal(forward);
    reveal(try_statement);
}

proof fn forward_declaration(g: Grammar, s: PState)
    requires
        forward(g),
    ensures
        onward(s, declaration(g, s).0),
{
    broadcast use group_onward;

    reveal(forward);
    reveal(declaration);
    lemma_onward_import(s.next().ident(), seq![s.next().name()]);
    let v = s.next().ident().next();
    lemma_onward_recover(
        v.complain(
            UNEXPECTED_TOKEN,
            "a namespace initializer must be a string literal"@,
            v.cur().span,
        ),
    );
}

proof fn forward_package(g: Grammar, s: PState)
    requires
        forward(g),
    ensures
        onward(s, package(g, s).0),
{
    broadcast use group_onward;

    reveal(forward);
    reveal(package);
    lemma_onward_dotted(s.next().next(), seq![s.next().name()]);
}

proof fn forward_attributed(g: Grammar, s: PState)
    requires
        forward(g),
    ensures
        onward(s, attributed(g, s).0),
{
    broadcast use group_onward;

    reveal(forward);
    reveal(attributed);
    lemma_onward_modifiers(s, no_attributes());
    let s1 = modifiers(s, no_attributes()).0;
    lemma_onward_recover(s1.complain_found("expected a declaration after modifiers, found "@));
}

proof fn forward_class(g: Grammar, s: PState, start: Span, attrs: AttributesView)
    requires
        forward(g),
    ensures
        onward(s, class(g, s, start, attrs).0),
{
    broadcast use group_onward;

    reveal(forward);
    reveal(class);
    lemma_onward_type_params(s.next().ident());
}

proof fn forward_member_list(g: Grammar, s: PState, acc: Seq<MemberView>)
    requires
        forward(g),
    ensures
        onward(s, member_list(g, s, acc).0),
{
    broadcast use group_onward;

    reveal(forward);
    reveal(member_list);
}

proof fn forward_class_member(g: Grammar, s: PState)
    requires
        forward(g),
    ensures
        onward(s, class_member(g, s).0),
{
    broadcast use group_onward;

    reveal(forward);
    reveal(class_member);
    lemma_onward_member_modifiers(s, no_attributes());
    let s1 = member_modifiers(s, no_attributes()).0;
    lemma_onward_recover(s1.complain_found("expected a class member, found "@));
}

proof fn forward_interface(g: Grammar, s: PState, start: Span, attrs: AttributesView)
    requires
        forward(g),
    ensures
        onward(s, interface(g, s, start, attrs).0),
{
    broadcast use group_onward;

    reveal(forward);
    reveal(interface);
}

proof fn forward_sig_list(g: Grammar, s: PState, acc: Seq<InterfaceMemberView>)
    requires
        forward(g),
    ensures
        onward(s, sig_list(g, s, acc).0),
{
    broadcast use group_onward;

    reveal(forward);
    reveal(sig_list);
}

proof fn forward_interface_member(g: Grammar, s: PState)
    requires
        forward(g),
    ensures
        onward(s, interface_member(g, s).0),
{
    broadcast use group_onward;

    reveal(forward);
    reveal(interface_member);
}

proof fn forward_directives(g: Grammar, s: PState, acc: Seq<StmtView>)
    requires
        forward(g),
    ensures
        onward(s, directives(g, s, acc).0),
{
    broadcast use group_onward;

    reveal(forward);
    reveal(directives);
}

/// Every rule goes onward, however many rules may stand one inside the other.
pub proof fn law_rules_go_onward(n: nat)
    ensures
        forward(grammar(n)),
    decreases n,
{
    if n == 0 {
        broadcast use lemma_onward_same;

        reveal(forward);
        reveal_with_fuel(grammar, 1);
    } else {
        law_rules_go_onward((n - 1) as nat);
        lemma_rules(n);
        let g = grammar((n - 1) as nat);
        assert forall|s: PState| onward(s, (#[trigger] (grammar(n).type_ref)(s)).0) by {
            forward_type_ref(g, s);
        }
        assert forall|s: PState, acc: Seq<TypeRefView>| onward(s, (#[trigger] (grammar(n).type_list)(s, acc)).0) by {
            forward_type_list(g, s, acc);
        }
        assert forall|s: PState| onward(s, (#[trigger] (grammar(n).annotation)(s)).0) by {
            forward_annotation(g, s);
        }
        assert forall|s: PState| onward(s, (#[trigger] (grammar(n).expression)(s)).0) by {
            forward_expression(g, s);
        }
        assert forall|s: PState, e: ExprView| onward(s, (#[trigger] (grammar(n).comma_rest)(s, e)).0) by {
            forward_comma_rest(g, s, e);
        }
        assert forall|s: PState| onward(s, (#[trigger] (grammar(n).assignment)(s)).0) by {
            forward_assignment(g, s);
        }
        assert forall|s: PState| onward(s, (#[trigger] (grammar(n).conditional)(s)).0) by {
            forward_conditional(g, s);
        }
        assert forall|s: PState, min: int| onward(s, (#[trigger] (grammar(n).binary)(s, min)).0) by {
            forward_binary(g, s, min);
        }
        assert forall|s: PState, l: ExprView, min: int| onward(s, (#[trigger] (grammar(n).binary_rest)(s, l, min)).0) by {
            forward_binary_rest(g, s, l, min);
        }
        assert forall|s: PState| onward(s, (#[trigger] (grammar(n).unary)(s)).0) by {
            forward_unary(g, s);
        }
        assert forall|s: PState| onward(s, (#[trigger] (grammar(n).postfix)(s)).0) by {
            forward_postfix(g, s);
        }
        assert forall|s: PState| onward(s, (#[trigger] (grammar(n).head)(s)).0) by {
            forward_head(g, s);
        }
        assert forall|s: PState| onward(s, (#[trigger] (grammar(n).call)(s)).0) by {
            forward_call(g, s);
        }
        assert forall|s: PState, e: ExprView| onward(s, (#[trigger] (grammar(n).element)(s, e)).0) by {
            forward_element(g, s, e);
        }
        assert forall|s: PState, e: ExprView| onward(s, (#[trigger] (grammar(n).application)(s, e)).0) by {
            forward_application(g, s, e);
        }
        assert forall|s: PState, e: ExprView| onward(s, (#[trigger] (grammar(n).call_rest)(s, e)).0) by {
            forward_call_rest(g, s, e);
        }
        assert forall|s: PState| onward(s, (#[trigger] (grammar(n).new_expr)(s)).0) by {
            forward_new_expr(g, s);
        }
        assert forall|s: PState, start: Span| onward(s, (#[trigger] (grammar(n).vector_literal)(s, start)).0) by {
            forward_vector_literal(g, s, start);
        }
        assert forall|s: PState, acc: Seq<ExprView>| onward(s, (#[trigger] (grammar(n).vector_elements)(s, acc)).0) by {
            forward_vector_elements(g, s, acc);
        }
        assert forall|s: PState, e: ExprView| onward(s, (#[trigger] (grammar(n).new_rest)(s, e)).0) by {
            forward_new_rest(g, s, e);
        }
        assert forall|s: PState| onward(s, (#[trigger] (grammar(n).arguments)(s)).0) by {
            forward_arguments(g, s);
        }
        assert forall|s: PState, acc: Seq<ExprView>| onward(s, (#[trigger] (grammar(n).argument_list)(s, acc)).0) by {
            forward_argument_list(g, s, acc);
        }
        assert forall|s: PState| onward(s, (#[trigger] (grammar(n).primary)(s)).0) by {
            forward_primary(g, s);
        }
        assert forall|s: PState, acc: Seq<Option<ExprView>>| onward(s, (#[trigger] (grammar(n).array_elements)(s, acc)).0) by {
            forward_array_elements(g, s, acc);
        }
        assert forall|s: PState, acc: Seq<(PropNameView, ExprView)>| onward(s, (#[trigger] (grammar(n).object_props)(s, acc)).0) by {
            forward_object_props(g, s, acc);
        }
        assert forall|s: PState| onward(s, (#[trigger] (grammar(n).initializer)(s)).0) by {
            forward_initializer(g, s);
        }
        assert forall|s: PState| onward(s, (#[trigger] (grammar(n).parameter)(s)).0) by {
            forward_parameter(g, s);
        }
        assert forall|s: PState, acc: Seq<ParamView>| onward(s, (#[trigger] (grammar(n).parameter_list)(s, acc)).0) by {
            forward_parameter_list(g, s, acc);
        }
        assert forall|s: PState| onward(s, (#[trigger] (grammar(n).signature)(s)).0) by {
            forward_signature(g, s);
        }
        assert forall|s: PState, keyword: Span, needs_name: bool| onward(s, (#[trigger] (grammar(n).function)(s, keyword, needs_name)).0) by {
            forward_function(g, s, keyword, needs_name);
        }
        assert forall|s: PState, in_case: bool, acc: Seq<StmtView>| onward(s, (#[trigger] (grammar(n).stmt_list)(s, in_case, acc)).0) by {
            forward_stmt_list(g, s, in_case, acc);
        }
        assert forall|s: PState, start: Span| onward(s, (#[trigger] (grammar(n).block_rest)(s, start)).0) by {
            forward_block_rest(g, s, start);
        }
        assert forall|s: PState| onward(s, (#[trigger] (grammar(n).block)(s)).0) by {
            forward_block(g, s);
        }
        assert forall|s: PState| onward(s, (#[trigger] (grammar(n).paren_expression)(s)).0) by {
            forward_paren_expression(g, s);
        }
        assert forall|s: PState| onward(s, (#[trigger] (grammar(n).statement)(s)).0) by {
            forward_statement(g, s);
        }
        assert forall|s: PState| onward(s, (#[trigger] (grammar(n).expression_statement)(s)).0) by {
            forward_expression_statement(g, s);
        }
        assert forall|s: PState| onward(s, (#[trigger] (grammar(n).binding)(s)).0) by {
            forward_binding(g, s);
        }
        assert forall|s: PState, acc: Seq<BindingView>| onward(s, (#[trigger] (grammar(n).binding_list)(s, acc)).0) by {
            forward_binding_list(g, s, acc);
        }
        assert forall|s: PState| onward(s, (#[trigger] (grammar(n).var_declaration)(s)).0) by {
            forward_var_declaration(g, s);
        }
        assert forall|s: PState| onward(s, (#[trigger] (grammar(n).var_statement)(s)).0) by {
            forward_var_statement(g, s);
        }
        assert forall|s: PState| onward(s, (#[trigger] (grammar(n).function_statement)(s)).0) by {
            forward_function_statement(g, s);
        }
        assert forall|s: PState| onward(s, (#[trigger] (grammar(n).control)(s)).0) by {
            forward_control(g, s);
        }
        assert forall|s: PState| onward(s, (#[trigger] (grammar(n).if_statement)(s)).0) by {
            forward_if_statement(g, s);
        }
        assert forall|s: PState| onward(s, (#[trigger] (grammar(n).while_statement)(s)).0) by {
            forward_while_statement(g, s);
        }
        assert forall|s: PState| onward(s, (#[trigger] (grammar(n).do_while_statement)(s)).0) by {
            forward_do_while_statement(g, s);
        }
        assert forall|s: PState| onward(s, (#[trigger] (grammar(n).for_statement)(s)).0) by {
            forward_for_statement(g, s);
        }
        assert forall|s: PState, end: TokenKind| onward(s, (#[trigger] (grammar(n).optional_expression)(s, end)).0) by {
            forward_optional_expression(g, s, end);
        }
        assert forall|s: PState| onward(s, (#[trigger] (grammar(n).for_tail)(s)).0) by {
            forward_for_tail(g, s);
        }
        assert forall|s: PState| onward(s, (#[trigger] (grammar(n).for_in_tail)(s)).0) by {
            forward_for_in_tail(g, s);
        }
        assert forall|s: PState| onward(s, (#[trigger] (grammar(n).switch_statement)(s)).0) by {
            forward_switch_statement(g, s);
        }
        assert forall|s: PState, seen: bool, acc: Seq<SwitchCaseView>| onward(s, (#[trigger] (grammar(n).case_list)(s, seen, acc)).0) by {
            forward_case_list(g, s, seen, acc);
        }
        assert forall|s: PState, start: Span, test: Option<ExprView>| onward(s, (#[trigger] (grammar(n).case_body)(s, start, test)).0) by {
            forward_case_body(g, s, start, test);
        }
        assert forall|s: PState| onward(s, (#[trigger] (grammar(n).return_statement)(s)).0) by {
            forward_return_statement(g, s);
        }
        assert forall|s: PState| onward(s, (#[trigger] (grammar(n).throw_statement)(s)).0) by {
            forward_throw_statement(g, s);
        }
        assert forall|s: PState, acc: Seq<CatchClauseView>| onward(s, (#[trigger] (grammar(n).catch_list)(s, acc)).0) by {
            forward_catch_list(g, s, acc);
        }
        assert forall|s: PState| onward(s, (#[trigger] (grammar(n).try_statement)(s)).0) by {
            forward_try_statement(g, s);
        }
        assert forall|s: PState| onward(s, (#[trigger] (grammar(n).declaration)(s)).0) by {
            forward_declaration(g, s);
        }
        assert forall|s: PState| onward(s, (#[trigger] (grammar(n).package)(s)).0) by {
            forward_package(g, s);
        }
        assert forall|s: PState| onward(s, (#[trigger] (grammar(n).attributed)(s)).0) by {
            forward_attributed(g, s);
        }
        assert forall|s: PState, start: Span, attrs: AttributesView| onward(s, (#[trigger] (grammar(n).class)(s, start, attrs)).0) by {
            forward_class(g, s, start, attrs);
        }
        assert forall|s: PState, acc: Seq<MemberView>| onward(s, (#[trigger] (grammar(n).member_list)(s, acc)).0) by {
            forward_member_list(g, s, acc);
        }
        assert forall|s: PState| onward(s, (#[trigger] (grammar(n).class_member)(s)).0) by {
            forward_class_member(g, s);
        }
        assert forall|s: PState, start: Span, attrs: AttributesView| onward(s, (#[trigger] (grammar(n).interface)(s, start, attrs)).0) by {
            forward_interface(g, s, start, attrs);
        }
        assert forall|s: PState, acc: Seq<InterfaceMemberView>| onward(s, (#[trigger] (grammar(n).sig_list)(s, acc)).0) by {
            forward_sig_list(g, s, acc);
        }
        assert forall|s: PState| onward(s, (#[trigger] (grammar(n).interface_member)(s)).0) by {
            forward_interface_member(g, s);
        }
        assert forall|s: PState, acc: Seq<StmtView>| onward(s, (#[trigger] (grammar(n).directives)(s, acc)).0) by {
            forward_directives(g, s, acc);
        }
        reveal(forward);
    }
}

// --- how deep the rules nest does not matter ----------------------------------------------

pub broadcast proof fn lemma_onward_left(s: PState, t: PState)
    requires
        #[trigger] onward(s, t),
        s.ok(),
    ensures
        t.ok(),
        t.left() <= s.left(),
        s.pos <= t.pos,
        s.pos < t.pos ==> t.left() < s.left(),
{
    reveal(onward);
}

pub broadcast proof fn lemma_next_left(s: PState)
    requires
        s.ok(),
        !s.at(TokenKind::Eof),
    ensures
        (#[trigger] s.next()).left() < s.left(),
        s.next().pos == s.pos + 1,
{
    lemma_next(s);
}

pub broadcast proof fn lemma_expect_left(s: PState, k: TokenKind)
    requires
        s.ok(),
        s.at(k),
        !s.at(TokenKind::Eof),
    ensures
        (#[trigger] s.expect(k)).left() < s.left(),
{
    reveal(PState::expect);
    lemma_next(s);
}

pub broadcast group group_left {
    lemma_onward_left,
    lemma_next_left,
    lemma_expect_left,
}

/// The two depths suffice for a rule of this rank.
pub open spec fn both(n: nat, m: nat, s: PState, rank: nat) -> bool {
    s.ok() && n >= 64 * s.left() + rank && m >= 64 * s.left() + rank
}

/// The rules of `g`, with `n` inside one another, and those of `h`, with `m`,
/// do the same wherever these suffice.
#[verifier::opaque]
pub open spec fn agree(g: Grammar, n: nat, h: Grammar, m: nat) -> bool {
    &&& forall|s: PState| both(n, m, s, 2) ==> #[trigger] (g.type_ref)(s) == (h.type_ref)(s)
    &&& forall|s: PState, acc: Seq<TypeRefView>| both(n, m, s, 3) ==> #[trigger] (g.type_list)(s, acc) == (h.type_list)(s, acc)
    &&& forall|s: PState| both(n, m, s, 3) ==> #[trigger] (g.annotation)(s) == (h.annotation)(s)
    &&& forall|s: PState| both(n, m, s, 13) ==> #[trigger] (g.expression)(s) == (h.expression)(s)
    &&& forall|s: PState, e: ExprView| both(n, m, s, 12) ==> #[trigger] (g.comma_rest)(s, e) == (h.comma_rest)(s, e)
    &&& forall|s: PState| both(n, m, s, 11) ==> #[trigger] (g.assignment)(s) == (h.assignment)(s)
    &&& forall|s: PState| both(n, m, s, 10) ==> #[trigger] (g.conditional)(s) == (h.conditional)(s)
    &&& forall|s: PState, min: int| both(n, m, s, 9) ==> #[trigger] (g.binary)(s, min) == (h.binary)(s, min)
    &&& forall|s: PState, l: ExprView, min: int| both(n, m, s, 8) ==> #[trigger] (g.binary_rest)(s, l, min) == (h.binary_rest)(s, l, min)
    &&& forall|s: PState| both(n, m, s, 7) ==> #[trigger] (g.unary)(s) == (h.unary)(s)
    &&& forall|s: PState| both(n, m, s, 6) ==> #[trigger] (g.postfix)(s) == (h.postfix)(s)
    &&& forall|s: PState| both(n, m, s, 4) ==> #[trigger] (g.head)(s) == (h.head)(s)
    &&& forall|s: PState| both(n, m, s, 5) ==> #[trigger] (g.call)(s) == (h.call)(s)
    &&& forall|s: PState, e: ExprView| both(n, m, s, 2) && !s.at(TokenKind::Eof) ==> #[trigger] (g.element)(s, e) == (h.element)(s, e)
    &&& forall|s: PState, e: ExprView| both(n, m, s, 2) && !s.at(TokenKind::Eof) ==> #[trigger] (g.application)(s, e) == (h.application)(s, e)
    &&& forall|s: PState, e: ExprView| both(n, m, s, 3) ==> #[trigger] (g.call_rest)(s, e) == (h.call_rest)(s, e)
    &&& forall|s: PState| both(n, m, s, 3) && !s.at(TokenKind::Eof) ==> #[trigger] (g.new_expr)(s) == (h.new_expr)(s)
    &&& forall|s: PState, start: Span| both(n, m, s, 2) && !s.at(TokenKind::Eof) ==> #[trigger] (g.vector_literal)(s, start) == (h.vector_literal)(s, start)
    &&& forall|s: PState, acc: Seq<ExprView>| both(n, m, s, 12) ==> #[trigger] (g.vector_elements)(s, acc) == (h.vector_elements)(s, acc)
    &&& forall|s: PState, e: ExprView| both(n, m, s, 3) ==> #[trigger] (g.new_rest)(s, e) == (h.new_rest)(s, e)
    &&& forall|s: PState| both(n, m, s, 2) && s.at(TokenKind::LParen) ==> #[trigger] (g.arguments)(s) == (h.arguments)(s)
    &&& forall|s: PState, acc: Seq<ExprView>| both(n, m, s, 12) ==> #[trigger] (g.argument_list)(s, acc) == (h.argument_list)(s, acc)
    &&& forall|s: PState| both(n, m, s, 3) ==> #[trigger] (g.primary)(s) == (h.primary)(s)
    &&& forall|s: PState, acc: Seq<Option<ExprView>>| both(n, m, s, 12) ==> #[trigger] (g.array_elements)(s, acc) == (h.array_elements)(s, acc)
    &&& forall|s: PState, acc: Seq<(PropNameView, ExprView)>| both(n, m, s, 12) ==> #[trigger] (g.object_props)(s, acc) == (h.object_props)(s, acc)
    &&& forall|s: PState| both(n, m, s, 3) ==> #[trigger] (g.initializer)(s) == (h.initializer)(s)
    &&& forall|s: PState| both(n, m, s, 30) ==> #[trigger] (g.parameter)(s) == (h.parameter)(s)
    &&& forall|s: PState, acc: Seq<ParamView>| both(n, m, s, 31) ==> #[trigger] (g.parameter_list)(s, acc) == (h.parameter_list)(s, acc)
    &&& forall|s: PState| both(n, m, s, 33) ==> #[trigger] (g.signature)(s) == (h.signature)(s)
    &&& forall|s: PState, keyword: Span, needs_name: bool| both(n, m, s, 41) ==> #[trigger] (g.function)(s, keyword, needs_name) == (h.function)(s, keyword, needs_name)
    &&& forall|s: PState, in_case: bool, acc: Seq<StmtView>| both(n, m, s, 37) ==> #[trigger] (g.stmt_list)(s, in_case, acc) == (h.stmt_list)(s, in_case, acc)
    &&& forall|s: PState, start: Span| both(n, m, s, 38) ==> #[trigger] (g.block_rest)(s, start) == (h.block_rest)(s, start)
    &&& forall|s: PState| both(n, m, s, 39) ==> #[trigger] (g.block)(s) == (h.block)(s)
    &&& forall|s: PState| both(n, m, s, 14) ==> #[trigger] (g.paren_expression)(s) == (h.paren_expression)(s)
    &&& forall|s: PState| both(n, m, s, 36) ==> #[trigger] (g.statement)(s) == (h.statement)(s)
    &&& forall|s: PState| both(n, m, s, 35) ==> #[trigger] (g.expression_statement)(s) == (h.expression_statement)(s)
    &&& forall|s: PState| both(n, m, s, 30) ==> #[trigger] (g.binding)(s) == (h.binding)(s)
    &&& forall|s: PState, acc: Seq<BindingView>| both(n, m, s, 31) ==> #[trigger] (g.binding_list)(s, acc) == (h.binding_list)(s, acc)
    &&& forall|s: PState| both(n, m, s, 3) && !s.at(TokenKind::Eof) ==> #[trigger] (g.var_declaration)(s) == (h.var_declaration)(s)
    &&& forall|s: PState| both(n, m, s, 4) && !s.at(TokenKind::Eof) ==> #[trigger] (g.var_statement)(s) == (h.var_statement)(s)
    &&& forall|s: PState| both(n, m, s, 3) && !s.at(TokenKind::Eof) ==> #[trigger] (g.function_statement)(s) == (h.function_statement)(s)
    &&& forall|s: PState| both(n, m, s, 35) && !s.at(TokenKind::Eof) ==> #[trigger] (g.control)(s) == (h.control)(s)
    &&& forall|s: PState| both(n, m, s, 3) && !s.at(TokenKind::Eof) ==> #[trigger] (g.if_statement)(s) == (h.if_statement)(s)
    &&& forall|s: PState| both(n, m, s, 3) && !s.at(TokenKind::Eof) ==> #[trigger] (g.while_statement)(s) == (h.while_statement)(s)
    &&& forall|s: PState| both(n, m, s, 3) && !s.at(TokenKind::Eof) ==> #[trigger] (g.do_while_statement)(s) == (h.do_while_statement)(s)
    &&& forall|s: PState| both(n, m, s, 3) && !s.at(TokenKind::Eof) ==> #[trigger] (g.for_statement)(s) == (h.for_statement)(s)
    &&& forall|s: PState, end: TokenKind| both(n, m, s, 14) ==> #[trigger] (g.optional_expression)(s, end) == (h.optional_expression)(s, end)
    &&& forall|s: PState| both(n, m, s, 40) ==> #[trigger] (g.for_tail)(s) == (h.for_tail)(s)
    &&& forall|s: PState| both(n, m, s, 40) ==> #[trigger] (g.for_in_tail)(s) == (h.for_in_tail)(s)
    &&& forall|s: PState| both(n, m, s, 3) && !s.at(TokenKind::Eof) ==> #[trigger] (g.switch_statement)(s) == (h.switch_statement)(s)
    &&& forall|s: PState, seen: bool, acc: Seq<SwitchCaseView>| both(n, m, s, 40) ==> #[trigger] (g.case_list)(s, seen, acc) == (h.case_list)(s, seen, acc)
    &&& forall|s: PState, start: Span, test: Option<ExprView>| both(n, m, s, 38) ==> #[trigger] (g.case_body)(s, start, test) == (h.case_body)(s, start, test)
    &&& forall|s: PState| both(n, m, s, 3) && !s.at(TokenKind::Eof) ==> #[trigger] (g.return_statement)(s) == (h.return_statement)(s)
    &&& forall|s: PState| both(n, m, s, 3) && !s.at(TokenKind::Eof) ==> #[trigger] (g.throw_statement)(s) == (h.throw_statement)(s)
    &&& forall|s: PState, acc: Seq<CatchClauseView>| both(n, m, s, 3) ==> #[trigger] (g.catch_list)(s, acc) == (h.catch_list)(s, acc)
    &&& forall|s: PState| both(n, m, s, 3) && !s.at(TokenKind::Eof) ==> #[trigger] (g.try_statement)(s) == (h.try_statement)(s)
    &&& forall|s: PState| both(n, m, s, 35) && !s.at(TokenKind::Eof) ==> #[trigger] (g.declaration)(s) == (h.declaration)(s)
    &&& forall|s: PState| both(n, m, s, 3) && !s.at(TokenKind::Eof) ==> #[trigger] (g.package)(s) == (h.package)(s)
    &&& forall|s: PState| both(n, m, s, 34) ==> #[trigger] (g.attributed)(s) == (h.attributed)(s)
    &&& forall|s: PState, start: Span, attrs: AttributesView| both(n, m, s, 3) && !s.at(TokenKind::Eof) ==> #[trigger] (g.class)(s, start, attrs) == (h.class)(s, start, attrs)
    &&& forall|s: PState, acc: Seq<MemberView>| both(n, m, s, 38) ==> #[trigger] (g.member_list)(s, acc) == (h.member_list)(s, acc)
    &&& forall|s: PState| both(n, m, s, 37) ==> #[trigger] (g.class_member)(s) == (h.class_member)(s)
    &&& forall|s: PState, start: Span, attrs: AttributesView| both(n, m, s, 3) && !s.at(TokenKind::Eof) ==> #[trigger] (g.interface)(s, start, attrs) == (h.interface)(s, start, attrs)
    &&& forall|s: PState, acc: Seq<InterfaceMemberView>| both(n, m, s, 38) ==> #[trigger] (g.sig_list)(s, acc) == (h.sig_list)(s, acc)
    &&& forall|s: PState| both(n, m, s, 37) ==> #[trigger] (g.interface_member)(s) == (h.interface_member)(s)
    &&& forall|s: PState, acc: Seq<StmtView>| both(n, m, s, 37) ==> #[trigger] (g.directives)(s, acc) == (h.directives)(s, acc)
}

/// The parts after an expression consume something.
#[verifier::opaque]
pub open spec fn steps(g: Grammar) -> bool {
    &&& forall|s: PState, e: ExprView| s.ok() && !s.at(TokenKind::Eof) ==> (#[trigger] (g.element)(s, e)).0.left() < s.left()
    &&& forall|s: PState, e: ExprView| s.ok() && !s.at(TokenKind::Eof) ==> (#[trigger] (g.application)(s, e)).0.left() < s.left()
    &&& forall|s: PState| s.ok() && s.at(TokenKind::LParen) ==> (#[trigger] (g.arguments)(s)).0.left() < s.left()
}

proof fn lemma_steps(n: nat)
    requires
        n > 0,
    ensures
        steps(grammar(n)),
{
    broadcast use {group_onward, group_left};

    lemma_rules(n);
    law_rules_go_onward((n - 1) as nat);
    reveal(forward);
    reveal(steps);
    reveal(element);
    reveal(application);
    reveal(arguments);
}

proof fn agree_type_ref(g: Grammar, n: nat, h: Grammar, m: nat, s: PState)
    requires
        forward(g),
        agree(g, n, h, m),
        both(n + 1, m + 1, s, 2),
    ensures
        type_ref(g, s) == type_ref(h, s),
{
    broadcast use {group_onward, group_left};

    reveal(forward);
    reveal(agree);
    reveal(type_ref);
    lemma_onward_path(s.ident(), seq![s.name()]);
}

proof fn agree_type_list(g: Grammar, n: nat, h: Grammar, m: nat, s: PState, acc: Seq<TypeRefView>)
    requires
        forward(g),
        agree(g, n, h, m),
        both(n + 1, m + 1, s, 3),
    ensures
        type_list(g, s, acc) == type_list(h, s, acc),
{
    broadcast use {group_onward, group_left};

    reveal(forward);
    reveal(agree);
    reveal(type_list);
}

proof fn agree_annotation(g: Grammar, n: nat, h: Grammar, m: nat, s: PState)
    requires
        forward(g),
        agree(g, n, h, m),
        both(n + 1, m + 1, s, 3),
    ensures
        annotation(g, s) == annotation(h, s),
{
    broadcast use {group_onward, group_left};

    reveal(forward);
    reveal(agree);
    reveal(annotation);
}

proof fn agree_expression(g: Grammar, n: nat, h: Grammar, m: nat, s: PState)
    requires
        forward(g),
        agree(g, n, h, m),
        both(n + 1, m + 1, s, 13),
    ensures
        expression(g, s) == expression(h, s),
{
    broadcast use {group_onward, group_left};

    reveal(forward);
    reveal(agree);
    reveal(expression);
}

proof fn agree_comma_rest(g: Grammar, n: nat, h: Grammar, m: nat, s: PState, e: ExprView)
    requires
        forward(g),
        agree(g, n, h, m),
        both(n + 1, m + 1, s, 12),
    ensures
        comma_rest(g, s, e) == comma_rest(h, s, e),
{
    broadcast use {group_onward, group_left};

    reveal(forward);
    reveal(agree);
    reveal(comma_rest);
}

proof fn agree_assignment(g: Grammar, n: nat, h: Grammar, m: nat, s: PState)
    requires
        forward(g),
        agree(g, n, h, m),
        both(n + 1, m + 1, s, 11),
    ensures
        assignment(g, s) == assignment(h, s),
{
    broadcast use {group_onward, group_left};

    reveal(forward);
    reveal(agree);
    reveal(assignment);
    reveal(assign_op_of);
}

proof fn agree_conditional(g: Grammar, n: nat, h: Grammar, m: nat, s: PState)
    requires
        forward(g),
        agree(g, n, h, m),
        both(n + 1, m + 1, s, 10),
    ensures
        conditional(g, s) == conditional(h, s),
{
    broadcast use {group_onward, group_left};

    reveal(forward);
    reveal(agree);
    reveal(conditional);
}

proof fn agree_binary(g: Grammar, n: nat, h: Grammar, m: nat, s: PState, min: int)
    requires
        forward(g),
        agree(g, n, h, m),
        both(n + 1, m + 1, s, 9),
    ensures
        binary(g, s, min) == binary(h, s, min),
{
    broadcast use {group_onward, group_left};

    reveal(forward);
    reveal(agree);
    reveal(binary);
}

proof fn agree_binary_rest(g: Grammar, n: nat, h: Grammar, m: nat, s: PState, l: ExprView, min: int)
    requires
        forward(g),
        agree(g, n, h, m),
        both(n + 1, m + 1, s, 8),
    ensures
        binary_rest(g, s, l, min) == binary_rest(h, s, l, min),
{
    broadcast use {group_onward, group_left};

    reveal(forward);
    reveal(agree);
    reveal(binary_rest);
    reveal(binary_op_of);
}

proof fn agree_unary(g: Grammar, n: nat, h: Grammar, m: nat, s: PState)
    requires
        forward(g),
        agree(g, n, h, m),
        both(n + 1, m + 1, s, 7),
    ensures
        unary(g, s) == unary(h, s),
{
    broadcast use {group_onward, group_left};

    reveal(forward);
    reveal(agree);
    reveal(unary);
    reveal(unary_op_of);
}

proof fn agree_postfix(g: Grammar, n: nat, h: Grammar, m: nat, s: PState)
    requires
        forward(g),
        agree(g, n, h, m),
        both(n + 1, m + 1, s, 6),
    ensures
        postfix(g, s) == postfix(h, s),
{
    broadcast use {group_onward, group_left};

    reveal(forward);
    reveal(agree);
    reveal(postfix);
}

proof fn agree_head(g: Grammar, n: nat, h: Grammar, m: nat, s: PState)
    requires
        forward(g),
        agree(g, n, h, m),
        both(n + 1, m + 1, s, 4),
    ensures
        head(g, s) == head(h, s),
{
    broadcast use {group_onward, group_left};

    reveal(forward);
    reveal(agree);
    reveal(head);
}

proof fn agree_call(g: Grammar, n: nat, h: Grammar, m: nat, s: PState)
    requires
        forward(g),
        agree(g, n, h, m),
        both(n + 1, m + 1, s, 5),
    ensures
        call(g, s) == call(h, s),
{
    broadcast use {group_onward, group_left};

    reveal(forward);
    reveal(agree);
    reveal(call);
}

proof fn agree_element(g: Grammar, n: nat, h: Grammar, m: nat, s: PState, e: ExprView)
    requires
        forward(g),
        agree(g, n, h, m),
        both(n + 1, m + 1, s, 2),
        !s.at(TokenKind::Eof),
    ensures
        element(g, s, e) == element(h, s, e),
{
    broadcast use {group_onward, group_left};

    reveal(forward);
    reveal(agree);
    reveal(element);
}

proof fn agree_application(g: Grammar, n: nat, h: Grammar, m: nat, s: PState, e: ExprView)
    requires
        forward(g),
        agree(g, n, h, m),
        both(n + 1, m + 1, s, 2),
        !s.at(TokenKind::Eof),
    ensures
        application(g, s, e) == application(h, s, e),
{
    broadcast use {group_onward, group_left};

    reveal(forward);
    reveal(agree);
    reveal(application);
}

proof fn agree_call_rest(g: Grammar, n: nat, h: Grammar, m: nat, s: PState, e: ExprView)
    requires
        forward(g),
        agree(g, n, h, m),
        both(n + 1, m + 1, s, 3),
        steps(g),
    ensures
        call_rest(g, s, e) == call_rest(h, s, e),
{
    broadcast use {group_onward, group_left};

    reveal(forward);
    reveal(agree);
    reveal(call_rest);
    reveal(steps);
}

proof fn agree_new_expr(g: Grammar, n: nat, h: Grammar, m: nat, s: PState)
    requires
        forward(g),
        agree(g, n, h, m),
        both(n + 1, m + 1, s, 3),
        !s.at(TokenKind::Eof),
    ensures
        new_expr(g, s) == new_expr(h, s),
{
    broadcast use {group_onward, group_left};

    reveal(forward);
    reveal(agree);
    reveal(new_expr);
}

proof fn agree_vector_literal(g: Grammar, n: nat, h: Grammar, m: nat, s: PState, start: Span)
    requires
        forward(g),
        agree(g, n, h, m),
        both(n + 1, m + 1, s, 2),
        !s.at(TokenKind::Eof),
    ensures
        vector_literal(g, s, start) == vector_literal(h, s, start),
{
    broadcast use {group_onward, group_left};

    reveal(forward);
    reveal(agree);
    reveal(vector_literal);
}

proof fn agree_vector_elements(g: Grammar, n: nat, h: Grammar, m: nat, s: PState, acc: Seq<ExprView>)
    requires
        forward(g),
        agree(g, n, h, m),
        both(n + 1, m + 1, s, 12),
    ensures
        vector_elements(g, s, acc) == vector_elements(h, s, acc),
{
    broadcast use {group_onward, group_left};

    reveal(forward);
    reveal(agree);
    reveal(vector_elements);
}

proof fn agree_new_rest(g: Grammar, n: nat, h: Grammar, m: nat, s: PState, e: ExprView)
    requires
        forward(g),
        agree(g, n, h, m),
        both(n + 1, m + 1, s, 3),
        steps(g),
    ensures
        new_rest(g, s, e) == new_rest(h, s, e),
{
    broadcast use {group_onward, group_left};

    reveal(forward);
    reveal(agree);
    reveal(new_rest);
    reveal(steps);
}

proof fn agree_arguments(g: Grammar, n: nat, h: Grammar, m: nat, s: PState)
    requires
        forward(g),
        agree(g, n, h, m),
        both(n + 1, m + 1, s, 2),
        s.at(TokenKind::LParen),
    ensures
        arguments(g, s) == arguments(h, s),
{
    broadcast use {group_onward, group_left};

    reveal(forward);
    reveal(agree);
    reveal(arguments);
}

proof fn agree_argument_list(g: Grammar, n: nat, h: Grammar, m: nat, s: PState, acc: Seq<ExprView>)
    requires
        forward(g),
        agree(g, n, h, m),
        both(n + 1, m + 1, s, 12),
    ensures
        argument_list(g, s, acc) == argument_list(h, s, acc),
{
    broadcast use {group_onward, group_left};

    reveal(forward);
    reveal(agree);
    reveal(argument_list);
}

proof fn agree_primary(g: Grammar, n: nat, h: Grammar, m: nat, s: PState)
    requires
        forward(g),
        agree(g, n, h, m),
        both(n + 1, m + 1, s, 3),
    ensures
        primary(g, s) == primary(h, s),
{
    broadcast use {group_onward, group_left};

    reveal(forward);
    reveal(agree);
    reveal(primary);
    reveal(atom);
}

proof fn agree_array_elements(g: Grammar, n: nat, h: Grammar, m: nat, s: PState, acc: Seq<Option<ExprView>>)
    requires
        forward(g),
        agree(g, n, h, m),
        both(n + 1, m + 1, s, 12),
    ensures
        array_elements(g, s, acc) == array_elements(h, s, acc),
{
    broadcast use {group_onward, group_left};

    reveal(forward);
    reveal(agree);
    reveal(array_elements);
}

proof fn agree_object_props(g: Grammar, n: nat, h: Grammar, m: nat, s: PState, acc: Seq<(PropNameView, ExprView)>)
    requires
        forward(g),
        agree(g, n, h, m),
        both(n + 1, m + 1, s, 12),
    ensures
        object_props(g, s, acc) == object_props(h, s, acc),
{
    broadcast use {group_onward, group_left};

    reveal(forward);
    reveal(agree);
    reveal(object_props);
    reveal(prop_name);
}

proof fn agree_initializer(g: Grammar, n: nat, h: Grammar, m: nat, s: PState)
    requires
        forward(g),
        agree(g, n, h, m),
        both(n + 1, m + 1, s, 3),
    ensures
        initializer(g, s) == initializer(h, s),
{
    broadcast use {group_onward, group_left};

    reveal(forward);
    reveal(agree);
    reveal(initializer);
}

proof fn agree_parameter(g: Grammar, n: nat, h: Grammar, m: nat, s: PState)
    requires
        forward(g),
        agree(g, n, h, m),
        both(n + 1, m + 1, s, 30),
    ensures
        parameter(g, s) == parameter(h, s),
{
    broadcast use {group_onward, group_left};

    reveal(forward);
    reveal(agree);
    reveal(parameter);
}

proof fn agree_parameter_list(g: Grammar, n: nat, h: Grammar, m: nat, s: PState, acc: Seq<ParamView>)
    requires
        forward(g),
        agree(g, n, h, m),
        both(n + 1, m + 1, s, 31),
    ensures
        parameter_list(g, s, acc) == parameter_list(h, s, acc),
{
    broadcast use {group_onward, group_left};

    reveal(forward);
    reveal(agree);
    reveal(parameter_list);
}

proof fn agree_signature(g: Grammar, n: nat, h: Grammar, m: nat, s: PState)
    requires
        forward(g),
        agree(g, n, h, m),
        both(n + 1, m + 1, s, 33),
    ensures
        signature(g, s) == signature(h, s),
{
    broadcast use {group_onward, group_left};

    reveal(forward);
    reveal(agree);
    reveal(signature);
}

proof fn agree_function(g: Grammar, n: nat, h: Grammar, m: nat, s: PState, keyword: Span, needs_name: bool)
    requires
        forward(g),
        agree(g, n, h, m),
        both(n + 1, m + 1, s, 41),
    ensures
        function(g, s, keyword, needs_name) == function(h, s, keyword, needs_name),
{
    broadcast use {group_onward, group_left};

    reveal(forward);
    reveal(agree);
    reveal(function);
    lemma_onward_type_params(
        if s.at_ident() {
            s.next()
        } else if needs_name {
            s.complain(UNEXPECTED_TOKEN, "function declaration needs a name"@, s.cur().span)
        } else {
            s
        },
    );
}

proof fn agree_stmt_list(g: Grammar, n: nat, h: Grammar, m: nat, s: PState, in_case: bool, acc: Seq<StmtView>)
    requires
        forward(g),
        agree(g, n, h, m),
        both(n + 1, m + 1, s, 37),
    ensures
        stmt_list(g, s, in_case, acc) == stmt_list(h, s, in_case, acc),
{
    broadcast use {group_onward, group_left};

    reveal(forward);
    reveal(agree);
    reveal(stmt_list);
}

proof fn agree_block_rest(g: Grammar, n: nat, h: Grammar, m: nat, s: PState, start: Span)
    requires
        forward(g),
        agree(g, n, h, m),
        both(n + 1, m + 1, s, 38),
    ensures
        block_rest(g, s, start) == block_rest(h, s, start),
{
    broadcast use {group_onward, group_left};

    reveal(forward);
    reveal(agree);
    reveal(block_rest);
}

proof fn agree_block(g: Grammar, n: nat, h: Grammar, m: nat, s: PState)
    requires
        forward(g),
        agree(g, n, h, m),
        both(n + 1, m + 1, s, 39),
    ensures
        block(g, s) == block(h, s),
{
    broadcast use {group_onward, group_left};

    reveal(forward);
    reveal(agree);
    reveal(block);
}

proof fn agree_paren_expression(g: Grammar, n: nat, h: Grammar, m: nat, s: PState)
    requires
        forward(g),
        agree(g, n, h, m),
        both(n + 1, m + 1, s, 14),
    ensures
        paren_expression(g, s) == paren_expression(h, s),
{
    broadcast use {group_onward, group_left};

    reveal(forward);
    reveal(agree);
    reveal(paren_expression);
}

proof fn agree_statement(g: Grammar, n: nat, h: Grammar, m: nat, s: PState)
    requires
        forward(g),
        agree(g, n, h, m),
        both(n + 1, m + 1, s, 36),
    ensures
        statement(g, s) == statement(h, s),
{
    broadcast use {group_onward, group_left};

    reveal(forward);
    reveal(agree);
    reveal(statement);
    lemma_onward_recover(
        s.next().complain(
            UNSUPPORTED_SYNTAX,
            "`goto` is a reserved word with no meaning in AS3"@,
            s.cur().span,
        ),
    );
}

proof fn agree_expression_statement(g: Grammar, n: nat, h: Grammar, m: nat, s: PState)
    requires
        forward(g),
        agree(g, n, h, m),
        both(n + 1, m + 1, s, 35),
    ensures
        expression_statement(g, s) == expression_statement(h, s),
{
    broadcast use {group_onward, group_left};

    reveal(forward);
    reveal(agree);
    reveal(expression_statement);
}

proof fn agree_binding(g: Grammar, n: nat, h: Grammar, m: nat, s: PState)
    requires
        forward(g),
        agree(g, n, h, m),
        both(n + 1, m + 1, s, 30),
    ensures
        binding(g, s) == binding(h, s),
{
    broadcast use {group_onward, group_left};

    reveal(forward);
    reveal(agree);
    reveal(binding);
}

proof fn agree_binding_list(g: Grammar, n: nat, h: Grammar, m: nat, s: PState, acc: Seq<BindingView>)
    requires
        forward(g),
        agree(g, n, h, m),
        both(n + 1, m + 1, s, 31),
    ensures
        binding_list(g, s, acc) == binding_list(h, s, acc),
{
    broadcast use {group_onward, group_left};

    reveal(forward);
    reveal(agree);
    reveal(binding_list);
}

proof fn agree_var_declaration(g: Grammar, n: nat, h: Grammar, m: nat, s: PState)
    requires
        forward(g),
        agree(g, n, h, m),
        both(n + 1, m + 1, s, 3),
        !s.at(TokenKind::Eof),
    ensures
        var_declaration(g, s) == var_declaration(h, s),
{
    broadcast use {group_onward, group_left};

    reveal(forward);
    reveal(agree);
    reveal(var_declaration);
}

proof fn agree_var_statement(g: Grammar, n: nat, h: Grammar, m: nat, s: PState)
    requires
        forward(g),
        agree(g, n, h, m),
        both(n + 1, m + 1, s, 4),
        !s.at(TokenKind::Eof),
    ensures
        var_statement(g, s) == var_statement(h, s),
{
    broadcast use {group_onward, group_left};

    reveal(forward);
    reveal(agree);
    reveal(var_statement);
}

proof fn agree_function_statement(g: Grammar, n: nat, h: Grammar, m: nat, s: PState)
    requires
        forward(g),
        agree(g, n, h, m),
        both(n + 1, m + 1, s, 3),
        !s.at(TokenKind::Eof),
    ensures
        function_statement(g, s) == function_statement(h, s),
{
    broadcast use {group_onward, group_left};

    reveal(forward);
    reveal(agree);
    reveal(function_statement);
}

proof fn agree_control(g: Grammar, n: nat, h: Grammar, m: nat, s: PState)
    requires
        forward(g),
        agree(g, n, h, m),
        both(n + 1, m + 1, s, 35),
        !s.at(TokenKind::Eof),
    ensures
        control(g, s) == control(h, s),
{
    broadcast use {group_onward, group_left};

    reveal(forward);
    reveal(agree);
    reveal(control);
}

proof fn agree_if_statement(g: Grammar, n: nat, h: Grammar, m: nat, s: PState)
    requires
        forward(g),
        agree(g, n, h, m),
        both(n + 1, m + 1, s, 3),
        !s.at(TokenKind::Eof),
    ensures
        if_statement(g, s) == if_statement(h, s),
{
    broadcast use {group_onward, group_left};

    reveal(forward);
    reveal(agree);
    reveal(if_statement);
}

proof fn agree_while_statement(g: Grammar, n: nat, h: Grammar, m: nat, s: PState)
    requires
        forward(g),
        agree(g, n, h, m),
        both(n + 1, m + 1, s, 3),
        !s.at(TokenKind::Eof),
    ensures
        while_statement(g, s) == while_statement(h, s),
{
    broadcast use {group_onward, group_left};

    reveal(forward);
    reveal(agree);
    reveal(while_statement);
}

proof fn agree_do_while_statement(g: Grammar, n: nat, h: Grammar, m: nat, s: PState)
    requires
        forward(g),
        agree(g, n, h, m),
        both(n + 1, m + 1, s, 3),
        !s.at(TokenKind::Eof),
    ensures
        do_while_statement(g, s) == do_while_statement(h, s),
{
    broadcast use {group_onward, group_left};

    reveal(forward);
    reveal(agree);
    reveal(do_while_statement);
}

proof fn agree_for_statement(g: Grammar, n: nat, h: Grammar, m: nat, s: PState)
    requires
        forward(g),
        agree(g, n, h, m),
        both(n + 1, m + 1, s, 3),
        !s.at(TokenKind::Eof),
    ensures
        for_statement(g, s) == for_statement(h, s),
{
    broadcast use {group_onward, group_left};

    reveal(forward);
    reveal(agree);
    reveal(for_statement);
    reveal(for_var_rest);
    reveal(for_expr_rest);
    let s1 = (if s.next().at_word("each") {
        s.next().next()
    } else {
        s.next()
    }).expect(TokenKind::LParen);
    lemma_onward_no_in(s1, true);
    let h = PState { no_in: true, ..s1 };
    lemma_onward_no_in((g.var_declaration)(h).0, s1.no_in);
    lemma_onward_no_in((g.expression)(h).0, s1.no_in);
}

proof fn agree_optional_expression(g: Grammar, n: nat, h: Grammar, m: nat, s: PState, end: TokenKind)
    requires
        forward(g),
        agree(g, n, h, m),
        both(n + 1, m + 1, s, 14),
    ensures
        optional_expression(g, s, end) == optional_expression(h, s, end),
{
    broadcast use {group_onward, group_left};

    reveal(forward);
    reveal(agree);
    reveal(optional_expression);
}

proof fn agree_for_tail(g: Grammar, n: nat, h: Grammar, m: nat, s: PState)
    requires
        forward(g),
        agree(g, n, h, m),
        both(n + 1, m + 1, s, 40),
    ensures
        for_tail(g, s) == for_tail(h, s),
{
    broadcast use {group_onward, group_left};

    reveal(forward);
    reveal(agree);
    reveal(for_tail);
}

proof fn agree_for_in_tail(g: Grammar, n: nat, h: Grammar, m: nat, s: PState)
    requires
        forward(g),
        agree(g, n, h, m),
        both(n + 1, m + 1, s, 40),
    ensures
        for_in_tail(g, s) == for_in_tail(h, s),
{
    broadcast use {group_onward, group_left};

    reveal(forward);
    reveal(agree);
    reveal(for_in_tail);
}

proof fn agree_switch_statement(g: Grammar, n: nat, h: Grammar, m: nat, s: PState)
    requires
        forward(g),
        agree(g, n, h, m),
        both(n + 1, m + 1, s, 3),
        !s.at(TokenKind::Eof),
    ensures
        switch_statement(g, s) == switch_statement(h, s),
{
    broadcast use {group_onward, group_left};

    reveal(forward);
    reveal(agree);
    reveal(switch_statement);
}

proof fn agree_case_list(g: Grammar, n: nat, h: Grammar, m: nat, s: PState, seen: bool, acc: Seq<SwitchCaseView>)
    requires
        forward(g),
        agree(g, n, h, m),
        both(n + 1, m + 1, s, 40),
    ensures
        case_list(g, s, seen, acc) == case_list(h, s, seen, acc),
{
    broadcast use {group_onward, group_left};

    reveal(forward);
    reveal(agree);
    reveal(case_list);
    lemma_onward_recover(s.complain_found("expected `case` or `default`, found "@));
}

proof fn agree_case_body(g: Grammar, n: nat, h: Grammar, m: nat, s: PState, start: Span, test: Option<ExprView>)
    requires
        forward(g),
        agree(g, n, h, m),
        both(n + 1, m + 1, s, 38),
    ensures
        case_body(g, s, start, test) == case_body(h, s, start, test),
{
    broadcast use {group_onward, group_left};

    reveal(forward);
    reveal(agree);
    reveal(case_body);
}

proof fn agree_return_statement(g: Grammar, n: nat, h: Grammar, m: nat, s: PState)
    requires
        forward(g),
        agree(g, n, h, m),
        both(n + 1, m + 1, s, 3),
        !s.at(TokenKind::Eof),
    ensures
        return_statement(g, s) == return_statement(h, s),
{
    broadcast use {group_onward, group_left};

    reveal(forward);
    reveal(agree);
    reveal(return_statement);
}

proof fn agree_throw_statement(g: Grammar, n: nat, h: Grammar, m: nat, s: PState)
    requires
        forward(g),
        agree(g, n, h, m),
        both(n + 1, m + 1, s, 3),
        !s.at(TokenKind::Eof),
    ensures
        throw_statement(g, s) == throw_statement(h, s),
{
    broadcast use {group_onward, group_left};

    reveal(forward);
    reveal(agree);
    reveal(throw_statement);
}

proof fn agree_catch_list(g: Grammar, n: nat, h: Grammar, m: nat, s: PState, acc: Seq<CatchClauseView>)
    requires
        forward(g),
        agree(g, n, h, m),
        both(n + 1, m + 1, s, 3),
    ensures
        catch_list(g, s, acc) == catch_list(h, s, acc),
{
    broadcast use {group_onward, group_left};

    reveal(forward);
    reveal(agree);
    reveal(catch_list);
}

proof fn agree_try_statement(g: Grammar, n: nat, h: Grammar, m: nat, s: PState)
    requires
        forward(g),
        agree(g, n, h, m),
        both(n + 1, m + 1, s, 3),
        !s.at(TokenKind::Eof),
    ensures
        try_statement(g, s) == try_statement(h, s),
{
    broadcast use {group_onward, group_left};

    reveal(forward);
    reveal(agree);
    reveal(try_statement);
}

proof fn agree_declaration(g: Grammar, n: nat, h: Grammar, m: nat, s: PState)
    requires
        forward(g),
        agree(g, n, h, m),
        both(n + 1, m + 1, s, 35),
        !s.at(TokenKind::Eof),
    ensures
        declaration(g, s) == declaration(h, s),
{
    broadcast use {group_onward, group_left};

    reveal(forward);
    reveal(agree);
    reveal(declaration);
    lemma_onward_import(s.next().ident(), seq![s.next().name()]);
    let v = s.next().ident().next();
    lemma_onward_recover(
        v.complain(
            UNEXPECTED_TOKEN,
            "a namespace initializer must be a string literal"@,
            v.cur().span,
        ),
    );
}

proof fn agree_package(g: Grammar, n: nat, h: Grammar, m: nat, s: PState)
    requires
        forward(g),
        agree(g, n, h, m),
        both(n + 1, m + 1, s, 3),
        !s.at(TokenKind::Eof),
    ensures
        package(g, s) == package(h, s),
{
    broadcast use {group_onward, group_left};

    reveal(forward);
    reveal(agree);
    reveal(package);
    lemma_onward_dotted(s.next().next(), seq![s.next().name()]);
}

proof fn agree_attributed(g: Grammar, n: nat, h: Grammar, m: nat, s: PState)
    requires
        forward(g),
        agree(g, n, h, m),
        both(n + 1, m + 1, s, 34),
    ensures
        attributed(g, s) == attributed(h, s),
{
    broadcast use {group_onward, group_left};

    reveal(forward);
    reveal(agree);
    reveal(attributed);
    lemma_onward_modifiers(s, no_attributes());
    let s1 = modifiers(s, no_attributes()).0;
    lemma_onward_recover(s1.complain_found("expected a declaration after modifiers, found "@));
}

proof fn agree_class(g: Grammar, n: nat, h: Grammar, m: nat, s: PState, start: Span, attrs: AttributesView)
    requires
        forward(g),
        agree(g, n, h, m),
        both(n + 1, m + 1, s, 3),
        !s.at(TokenKind::Eof),
    ensures
        class(g, s, start, attrs) == class(h, s, start, attrs),
{
    broadcast use {group_onward, group_left};

    reveal(forward);
    reveal(agree);
    reveal(class);
    lemma_onward_type_params(s.next().ident());
}

proof fn agree_member_list(g: Grammar, n: nat, h: Grammar, m: nat, s: PState, acc: Seq<MemberView>)
    requires
        forward(g),
        agree(g, n, h, m),
        both(n + 1, m + 1, s, 38),
    ensures
        member_list(g, s, acc) == member_list(h, s, acc),
{
    broadcast use {group_onward, group_left};

    reveal(forward);
    reveal(agree);
    reveal(member_list);
}

proof fn agree_class_member(g: Grammar, n: nat, h: Grammar, m: nat, s: PState)
    requires
        forward(g),
        agree(g, n, h, m),
        both(n + 1, m + 1, s, 37),
    ensures
        class_member(g, s) == class_member(h, s),
{
    broadcast use {group_onward, group_left};

    reveal(forward);
    reveal(agree);
    reveal(class_member);
    lemma_onward_member_modifiers(s, no_attributes());
    let s1 = member_modifiers(s, no_attributes()).0;
    lemma_onward_recover(s1.complain_found("expected a class member, found "@));
}

proof fn agree_interface(g: Grammar, n: nat, h: Grammar, m: nat, s: PState, start: Span, attrs: AttributesView)
    requires
        forward(g),
        agree(g, n, h, m),
        both(n + 1, m + 1, s, 3),
        !s.at(TokenKind::Eof),
    ensures
        interface(g, s, start, attrs) == interface(h, s, start, attrs),
{
    broadcast use {group_onward, group_left};

    reveal(forward);
    reveal(agree);
    reveal(interface);
}

proof fn agree_sig_list(g: Grammar, n: nat, h: Grammar, m: nat, s: PState, acc: Seq<InterfaceMemberView>)
    requires
        forward(g),
        agree(g, n, h, m),
        both(n + 1, m + 1, s, 38),
    ensures
        sig_list(g, s, acc) == sig_list(h, s, acc),
{
    broadcast use {group_onward, group_left};

    reveal(forward);
    reveal(agree);
    reveal(sig_list);
}

proof fn agree_interface_member(g: Grammar, n: nat, h: Grammar, m: nat, s: PState)
    requires
        forward(g),
        agree(g, n, h, m),
        both(n + 1, m + 1, s, 37),
    ensures
        interface_member(g, s) == interface_member(h, s),
{
    broadcast use {group_onward, group_left};

    reveal(forward);
    reveal(agree);
    reveal(interface_member);
}

proof fn agree_directives(g: Grammar, n: nat, h: Grammar, m: nat, s: PState, acc: Seq<StmtView>)
    requires
        forward(g),
        agree(g, n, h, m),
        both(n + 1, m + 1, s, 37),
    ensures
        directives(g, s, acc) == directives(h, s, acc),
{
    broadcast use {group_onward, group_left};

    reveal(forward);
    reveal(agree);
    reveal(directives);
}

proof fn lemma_rules_agree(n: nat, m: nat)
    ensures
        agree(grammar(n), n, grammar(m), m),
    decreases n,
{
    if n == 0 || m == 0 {
        reveal(agree);
    } else {
        let a = (n - 1) as nat;
        let b = (m - 1) as nat;
        lemma_rules_agree(a, b);
        law_rules_go_onward(a);
        lemma_rules(n);
        lemma_rules(m);
        assert forall|s: PState| both(n, m, s, 2) implies #[trigger] (grammar(n).type_ref)(s) == (grammar(m).type_ref)(s) by {
            agree_type_ref(grammar(a), a, grammar(b), b, s);
        }
        assert forall|s: PState, acc: Seq<TypeRefView>| both(n, m, s, 3) implies #[trigger] (grammar(n).type_list)(s, acc) == (grammar(m).type_list)(s, acc) by {
            agree_type_list(grammar(a), a, grammar(b), b, s, acc);
        }
        assert forall|s: PState| both(n, m, s, 3) implies #[trigger] (grammar(n).annotation)(s) == (grammar(m).annotation)(s) by {
            agree_annotation(grammar(a), a, grammar(b), b, s);
        }
        assert forall|s: PState| both(n, m, s, 13) implies #[trigger] (grammar(n).expression)(s) == (grammar(m).expression)(s) by {
            agree_expression(grammar(a), a, grammar(b), b, s);
        }
        assert forall|s: PState, e: ExprView| both(n, m, s, 12) implies #[trigger] (grammar(n).comma_rest)(s, e) == (grammar(m).comma_rest)(s, e) by {
            agree_comma_rest(grammar(a), a, grammar(b), b, s, e);
        }
        assert forall|s: PState| both(n, m, s, 11) implies #[trigger] (grammar(n).assignment)(s) == (grammar(m).assignment)(s) by {
            agree_assignment(grammar(a), a, grammar(b), b, s);
        }
        assert forall|s: PState| both(n, m, s, 10) implies #[trigger] (grammar(n).conditional)(s) == (grammar(m).conditional)(s) by {
            agree_conditional(grammar(a), a, grammar(b), b, s);
        }
        assert forall|s: PState, min: int| both(n, m, s, 9) implies #[trigger] (grammar(n).binary)(s, min) == (grammar(m).binary)(s, min) by {
            agree_binary(grammar(a), a, grammar(b), b, s, min);
        }
        assert forall|s: PState, l: ExprView, min: int| both(n, m, s, 8) implies #[trigger] (grammar(n).binary_rest)(s, l, min) == (grammar(m).binary_rest)(s, l, min) by {
            agree_binary_rest(grammar(a), a, grammar(b), b, s, l, min);
        }
        assert forall|s: PState| both(n, m, s, 7) implies #[trigger] (grammar(n).unary)(s) == (grammar(m).unary)(s) by {
            agree_unary(grammar(a), a, grammar(b), b, s);
        }
        assert forall|s: PState| both(n, m, s, 6) implies #[trigger] (grammar(n).postfix)(s) == (grammar(m).postfix)(s) by {
            agree_postfix(grammar(a), a, grammar(b), b, s);
        }
        assert forall|s: PState| both(n, m, s, 4) implies #[trigger] (grammar(n).head)(s) == (grammar(m).head)(s) by {
            agree_head(grammar(a), a, grammar(b), b, s);
        }
        assert forall|s: PState| both(n, m, s, 5) implies #[trigger] (grammar(n).call)(s) == (grammar(m).call)(s) by {
            agree_call(grammar(a), a, grammar(b), b, s);
        }
        assert forall|s: PState, e: ExprView| both(n, m, s, 2) && !s.at(TokenKind::Eof) implies #[trigger] (grammar(n).element)(s, e) == (grammar(m).element)(s, e) by {
            agree_element(grammar(a), a, grammar(b), b, s, e);
        }
        assert forall|s: PState, e: ExprView| both(n, m, s, 2) && !s.at(TokenKind::Eof) implies #[trigger] (grammar(n).application)(s, e) == (grammar(m).application)(s, e) by {
            agree_application(grammar(a), a, grammar(b), b, s, e);
        }
        assert forall|s: PState, e: ExprView| both(n, m, s, 3) implies #[trigger] (grammar(n).call_rest)(s, e) == (grammar(m).call_rest)(s, e) by {
            lemma_steps(a);
            agree_call_rest(grammar(a), a, grammar(b), b, s, e);
        }
        assert forall|s: PState| both(n, m, s, 3) && !s.at(TokenKind::Eof) implies #[trigger] (grammar(n).new_expr)(s) == (grammar(m).new_expr)(s) by {
            agree_new_expr(grammar(a), a, grammar(b), b, s);
        }
        assert forall|s: PState, start: Span| both(n, m, s, 2) && !s.at(TokenKind::Eof) implies #[trigger] (grammar(n).vector_literal)(s, start) == (grammar(m).vector_literal)(s, start) by {
            agree_vector_literal(grammar(a), a, grammar(b), b, s, start);
        }
        assert forall|s: PState, acc: Seq<ExprView>| both(n, m, s, 12) implies #[trigger] (grammar(n).vector_elements)(s, acc) == (grammar(m).vector_elements)(s, acc) by {
            agree_vector_elements(grammar(a), a, grammar(b), b, s, acc);
        }
        assert forall|s: PState, e: ExprView| both(n, m, s, 3) implies #[trigger] (grammar(n).new_rest)(s, e) == (grammar(m).new_rest)(s, e) by {
            lemma_steps(a);
            agree_new_rest(grammar(a), a, grammar(b), b, s, e);
        }
        assert forall|s: PState| both(n, m, s, 2) && s.at(TokenKind::LParen) implies #[trigger] (grammar(n).arguments)(s) == (grammar(m).arguments)(s) by {
            agree_arguments(grammar(a), a, grammar(b), b, s);
        }
        assert forall|s: PState, acc: Seq<ExprView>| both(n, m, s, 12) implies #[trigger] (grammar(n).argument_list)(s, acc) == (grammar(m).argument_list)(s, acc) by {
            agree_argument_list(grammar(a), a, grammar(b), b, s, acc);
        }
        assert forall|s: PState| both(n, m, s, 3) implies #[trigger] (grammar(n).primary)(s) == (grammar(m).primary)(s) by {
            agree_primary(grammar(a), a, grammar(b), b, s);
        }
        assert forall|s: PState, acc: Seq<Option<ExprView>>| both(n, m, s, 12) implies #[trigger] (grammar(n).array_elements)(s, acc) == (grammar(m).array_elements)(s, acc) by {
            agree_array_elements(grammar(a), a, grammar(b), b, s, acc);
        }
        assert forall|s: PState, acc: Seq<(PropNameView, ExprView)>| both(n, m, s, 12) implies #[trigger] (grammar(n).object_props)(s, acc) == (grammar(m).object_props)(s, acc) by {
            agree_object_props(grammar(a), a, grammar(b), b, s, acc);
        }
        assert forall|s: PState| both(n, m, s, 3) implies #[trigger] (grammar(n).initializer)(s) == (grammar(m).initializer)(s) by {
            agree_initializer(grammar(a), a, grammar(b), b, s);
        }
        assert forall|s: PState| both(n, m, s, 30) implies #[trigger] (grammar(n).parameter)(s) == (grammar(m).parameter)(s) by {
            agree_parameter(grammar(a), a, grammar(b), b, s);
        }
        assert forall|s: PState, acc: Seq<ParamView>| both(n, m, s, 31) implies #[trigger] (grammar(n).parameter_list)(s, acc) == (grammar(m).parameter_list)(s, acc) by {
            agree_parameter_list(grammar(a), a, grammar(b), b, s, acc);
        }
        assert forall|s: PState| both(n, m, s, 33) implies #[trigger] (grammar(n).signature)(s) == (grammar(m).signature)(s) by {
            agree_signature(grammar(a), a, grammar(b), b, s);
        }
        assert forall|s: PState, keyword: Span, needs_name: bool| both(n, m, s, 41) implies #[trigger] (grammar(n).function)(s, keyword, needs_name) == (grammar(m).function)(s, keyword, needs_name) by {
            agree_function(grammar(a), a, grammar(b), b, s, keyword, needs_name);
        }
        assert forall|s: PState, in_case: bool, acc: Seq<StmtView>| both(n, m, s, 37) implies #[trigger] (grammar(n).stmt_list)(s, in_case, acc) == (grammar(m).stmt_list)(s, in_case, acc) by {
            agree_stmt_list(grammar(a), a, grammar(b), b, s, in_case, acc);
        }
        assert forall|s: PState, start: Span| both(n, m, s, 38) implies #[trigger] (grammar(n).block_rest)(s, start) == (grammar(m).block_rest)(s, start) by {
            agree_block_rest(grammar(a), a, grammar(b), b, s, start);
        }
        assert forall|s: PState| both(n, m, s, 39) implies #[trigger] (grammar(n).block)(s) == (grammar(m).block)(s) by {
            agree_block(grammar(a), a, grammar(b), b, s);
        }
        assert forall|s: PState| both(n, m, s, 14) implies #[trigger] (grammar(n).paren_expression)(s) == (grammar(m).paren_expression)(s) by {
            agree_paren_expression(grammar(a), a, grammar(b), b, s);
        }
        assert forall|s: PState| both(n, m, s, 36) implies #[trigger] (grammar(n).statement)(s) == (grammar(m).statement)(s) by {
            agree_statement(grammar(a), a, grammar(b), b, s);
        }
        assert forall|s: PState| both(n, m, s, 35) implies #[trigger] (grammar(n).expression_statement)(s) == (grammar(m).expression_statement)(s) by {
            agree_expression_statement(grammar(a), a, grammar(b), b, s);
        }
        assert forall|s: PState| both(n, m, s, 30) implies #[trigger] (grammar(n).binding)(s) == (grammar(m).binding)(s) by {
            agree_binding(grammar(a), a, grammar(b), b, s);
        }
        assert forall|s: PState, acc: Seq<BindingView>| both(n, m, s, 31) implies #[trigger] (grammar(n).binding_list)(s, acc) == (grammar(m).binding_list)(s, acc) by {
            agree_binding_list(grammar(a), a, grammar(b), b, s, acc);
        }
        assert forall|s: PState| both(n, m, s, 3) && !s.at(TokenKind::Eof) implies #[trigger] (grammar(n).var_declaration)(s) == (grammar(m).var_declaration)(s) by {
            agree_var_declaration(grammar(a), a, grammar(b), b, s);
        }
        assert forall|s: PState| both(n, m, s, 4) && !s.at(TokenKind::Eof) implies #[trigger] (grammar(n).var_statement)(s) == (grammar(m).var_statement)(s) by {
            agree_var_statement(grammar(a), a, grammar(b), b, s);
        }
        assert forall|s: PState| both(n, m, s, 3) && !s.at(TokenKind::Eof) implies #[trigger] (grammar(n).function_statement)(s) == (grammar(m).function_statement)(s) by {
            agree_function_statement(grammar(a), a, grammar(b), b, s);
        }
        assert forall|s: PState| both(n, m, s, 35) && !s.at(TokenKind::Eof) implies #[trigger] (grammar(n).control)(s) == (grammar(m).control)(s) by {
            agree_control(grammar(a), a, grammar(b), b, s);
        }
        assert forall|s: PState| both(n, m, s, 3) && !s.at(TokenKind::Eof) implies #[trigger] (grammar(n).if_statement)(s) == (grammar(m).if_statement)(s) by {
            agree_if_statement(grammar(a), a, grammar(b), b, s);
        }
        assert forall|s: PState| both(n, m, s, 3) && !s.at(TokenKind::Eof) implies #[trigger] (grammar(n).while_statement)(s) == (grammar(m).while_statement)(s) by {
            agree_while_statement(grammar(a), a, grammar(b), b, s);
        }
        assert forall|s: PState| both(n, m, s, 3) && !s.at(TokenKind::Eof) implies #[trigger] (grammar(n).do_while_statement)(s) == (grammar(m).do_while_statement)(s) by {
            agree_do_while_statement(grammar(a), a, grammar(b), b, s);
        }
        assert forall|s: PState| both(n, m, s, 3) && !s.at(TokenKind::Eof) implies #[trigger] (grammar(n).for_statement)(s) == (grammar(m).for_statement)(s) by {
            agree_for_statement(grammar(a), a, grammar(b), b, s);
        }
        assert forall|s: PState, end: TokenKind| both(n, m, s, 14) implies #[trigger] (grammar(n).optional_expression)(s, end) == (grammar(m).optional_expression)(s, end) by {
            agree_optional_expression(grammar(a), a, grammar(b), b, s, end);
        }
        assert forall|s: PState| both(n, m, s, 40) implies #[trigger] (grammar(n).for_tail)(s) == (grammar(m).for_tail)(s) by {
            agree_for_tail(grammar(a), a, grammar(b), b, s);
        }
        assert forall|s: PState| both(n, m, s, 40) implies #[trigger] (grammar(n).for_in_tail)(s) == (grammar(m).for_in_tail)(s) by {
            agree_for_in_tail(grammar(a), a, grammar(b), b, s);
        }
        assert forall|s: PState| both(n, m, s, 3) && !s.at(TokenKind::Eof) implies #[trigger] (grammar(n).switch_statement)(s) == (grammar(m).switch_statement)(s) by {
            agree_switch_statement(grammar(a), a, grammar(b), b, s);
        }
        assert forall|s: PState, seen: bool, acc: Seq<SwitchCaseView>| both(n, m, s, 40) implies #[trigger] (grammar(n).case_list)(s, seen, acc) == (grammar(m).case_list)(s, seen, acc) by {
            agree_case_list(grammar(a), a, grammar(b), b, s, seen, acc);
        }
        assert forall|s: PState, start: Span, test: Option<ExprView>| both(n, m, s, 38) implies #[trigger] (grammar(n).case_body)(s, start, test) == (grammar(m).case_body)(s, start, test) by {
            agree_case_body(grammar(a), a, grammar(b), b, s, start, test);
        }
        assert forall|s: PState| both(n, m, s, 3) && !s.at(TokenKind::Eof) implies #[trigger] (grammar(n).return_statement)(s) == (grammar(m).return_statement)(s) by {
            agree_return_statement(grammar(a), a, grammar(b), b, s);
        }
        assert forall|s: PState| both(n, m, s, 3) && !s.at(TokenKind::Eof) implies #[trigger] (grammar(n).throw_statement)(s) == (grammar(m).throw_statement)(s) by {
            agree_throw_statement(grammar(a), a, grammar(b), b, s);
        }
        assert forall|s: PState, acc: Seq<CatchClauseView>| both(n, m, s, 3) implies #[trigger] (grammar(n).catch_list)(s, acc) == (grammar(m).catch_list)(s, acc) by {
            agree_catch_list(grammar(a), a, grammar(b), b, s, acc);
        }
        assert forall|s: PState| both(n, m, s, 3) && !s.at(TokenKind::Eof) implies #[trigger] (grammar(n).try_statement)(s) == (grammar(m).try_statement)(s) by {
            agree_try_statement(grammar(a), a, grammar(b), b, s);
        }
        assert forall|s: PState| both(n, m, s, 35) && !s.at(TokenKind::Eof) implies #[trigger] (grammar(n).declaration)(s) == (grammar(m).declaration)(s) by {
            agree_declaration(grammar(a), a, grammar(b), b, s);
        }
        assert forall|s: PState| both(n, m, s, 3) && !s.at(TokenKind::Eof) implies #[trigger] (grammar(n).package)(s) == (grammar(m).package)(s) by {
            agree_package(grammar(a), a, grammar(b), b, s);
        }
        assert forall|s: PState| both(n, m, s, 34) implies #[trigger] (grammar(n).attributed)(s) == (grammar(m).attributed)(s) by {
            agree_attributed(grammar(a), a, grammar(b), b, s);
        }
        assert forall|s: PState, start: Span, attrs: AttributesView| both(n, m, s, 3) && !s.at(TokenKind::Eof) implies #[trigger] (grammar(n).class)(s, start, attrs) == (grammar(m).class)(s, start, attrs) by {
            agree_class(grammar(a), a, grammar(b), b, s, start, attrs);
        }
        assert forall|s: PState, acc: Seq<MemberView>| both(n, m, s, 38) implies #[trigger] (grammar(n).member_list)(s, acc) == (grammar(m).member_list)(s, acc) by {
            agree_member_list(grammar(a), a, grammar(b), b, s, acc);
        }
        assert forall|s: PState| both(n, m, s, 37) implies #[trigger] (grammar(n).class_member)(s) == (grammar(m).class_member)(s) by {
            agree_class_member(grammar(a), a, grammar(b), b, s);
        }
        assert forall|s: PState, start: Span, attrs: AttributesView| both(n, m, s, 3) && !s.at(TokenKind::Eof) implies #[trigger] (grammar(n).interface)(s, start, attrs) == (grammar(m).interface)(s, start, attrs) by {
            agree_interface(grammar(a), a, grammar(b), b, s, start, attrs);
        }
        assert forall|s: PState, acc: Seq<InterfaceMemberView>| both(n, m, s, 38) implies #[trigger] (grammar(n).sig_list)(s, acc) == (grammar(m).sig_list)(s, acc) by {
            agree_sig_list(grammar(a), a, grammar(b), b, s, acc);
        }
        assert forall|s: PState| both(n, m, s, 37) implies #[trigger] (grammar(n).interface_member)(s) == (grammar(m).interface_member)(s) by {
            agree_interface_member(grammar(a), a, grammar(b), b, s);
        }
        assert forall|s: PState, acc: Seq<StmtView>| both(n, m, s, 37) implies #[trigger] (grammar(n).directives)(s, acc) == (grammar(m).directives)(s, acc) by {
            agree_directives(grammar(a), a, grammar(b), b, s, acc);
        }
        reveal(agree);
    }
}

/// What a text parses to does not depend on the depth that the grammar is cut
/// off at, once that suffices.
pub proof fn law_depth_does_not_matter(s: PState, n: nat)
    requires
        s.ok(),
        n >= depth(s),
    ensures
        (grammar(n).directives)(s, Seq::empty()) == (grammar(depth(s)).directives)(s, Seq::empty()),
{
    lemma_rules_agree(n, depth(s));
    reveal(agree);
}

// --- a whole text -------------------------------------------------------------------------

proof fn lemma_directives_end(n: nat, s: PState, acc: Seq<StmtView>)
    requires
        s.ok(),
        n >= 64 * s.left() + 37,
    ensures
        onward(s, (grammar(n).directives)(s, acc).0),
        (grammar(n).directives)(s, acc).0.at(TokenKind::Eof),
    decreases n,
{
    broadcast use {group_onward, group_left};

    lemma_rules(n);
    reveal(directives);
    let g = grammar((n - 1) as nat);
    if !s.at(TokenKind::Eof) {
        law_rules_go_onward((n - 1) as nat);
        reveal(forward);
        let (s1, x) = (g.statement)(s);
        lemma_directives_end((n - 1) as nat, unstick(s, s1), acc.push(x));
    }
}

proof fn lemma_opening(src: SourceId, t: Seq<char>)
    requires
        byte_len(t) <= u32::MAX,
    ensures
        opening(src, t).ok(),
{
    law_stream_ends_with_eof(src, t);
    law_tokens_roomy(src, t);
}

/// Parsing a text gets to its end, whatever errors it has.
pub proof fn law_parse_reaches_the_end(src: SourceId, t: Seq<char>)
    requires
        byte_len(t) <= u32::MAX,
    ensures
        parsed(src, t).0.at(TokenKind::Eof),
{
    lemma_opening(src, t);
    let s = opening(src, t);
    lemma_directives_end(depth(s), s, Seq::empty());
}

/// Every lexical error of a text is among its errors, whatever the parser
/// makes of it, and so is every syntax error.
pub proof fn law_every_error_is_reported(src: SourceId, t: Seq<char>, d: DiagView)
    ensures
        errors_of(src, t).contains(d) <==> lexed(src, t).diags.contains(d) || parsed(
            src,
            t,
        ).0.diags.contains(d),
{
    let all = lexed(src, t).diags + parsed(src, t).0.diags;
    law_sorted(all);
    all.to_multiset_ensures();
    sorted(all).to_multiset_ensures();
    assert(errors_of(src, t).contains(d) <==> sorted(all).to_multiset().count(d) > 0);
    assert(all.contains(d) <==> all.to_multiset().count(d) > 0);
    if lexed(src, t).diags.contains(d) {
        let i = choose|i: int| 0 <= i < lexed(src, t).diags.len() && lexed(src, t).diags[i] == d;
        assert(all[i] == d);
    }
    if parsed(src, t).0.diags.contains(d) {
        let ps = parsed(src, t).0.diags;
        let i = choose|i: int| 0 <= i < ps.len() && ps[i] == d;
        assert(all[lexed(src, t).diags.len() + i] == d);
    }
}

// --- line breaks --------------------------------------------------------------------------

/// A `++` or `--` after a line break does not belong to the operand before it.
pub proof fn law_postfix_stays_on_its_line(g: Grammar, s: PState)
    requires
        (g.call)(s).0.cur().newline_before,
    ensures
        postfix(g, s) == (g.call)(s),
{
    reveal(postfix);
}

/// After a line break a `return` has no value, and what follows is left for the
/// next statement.
pub proof fn law_return_stays_on_its_line(g: Grammar, s: PState)
    requires
        s.next().cur().newline_before,
    ensures
        return_statement(g, s).1.kind == (StmtKindView::Return { value: None }),
        return_statement(g, s).0 == s.next() || s.next().at(TokenKind::Semicolon) && return_statement(
            g,
            s,
        ).0 == s.next().next(),
{
    reveal(return_statement);
    reveal(PState::semicolon);
}

/// After a line break a `break` or `continue` has no label, and what follows is
/// left for the next statement.
pub proof fn law_label_stays_on_its_line(s: PState)
    requires
        s.next().cur().newline_before,
    ensures
        break_or_continue(s).1.kind == (if s.at(TokenKind::Break) {
            StmtKindView::Break { label: None }
        } else {
            StmtKindView::Continue { label: None }
        }),
        break_or_continue(s).0 == s.next() || s.next().at(TokenKind::Semicolon)
            && break_or_continue(s).0 == s.next().next(),
{
    reveal(PState::semicolon);
}

/// A line break ends a statement without a semicolon and without an error, and
/// nothing is consumed.
pub proof fn law_line_break_ends_a_statement(s: PState)
    requires
        s.cur().newline_before,
        !s.at(TokenKind::Semicolon),
    ensures
        s.semicolon() == s,
{
    reveal(PState::semicolon);
}

// --- nested type arguments ----------------------------------------------------------------

/// The number of `>` that a token made of them alone holds.
pub open spec fn closers(k: KindView) -> nat {
    match k {
        KindView::Plain(TokenKind::Gt) => 1,
        KindView::Plain(TokenKind::Shr) => 2,
        KindView::Plain(TokenKind::Ushr) => 3,
        _ => 0,
    }
}

/// The state after `k` types were closed.
pub open spec fn closed_types(s: PState, k: nat) -> PState
    decreases k,
{
    if k == 0 {
        s
    } else {
        closed_types(s.close_type(), (k - 1) as nat)
    }
}

/// A token of `k` times `>` closes `k` nested types without an error, and is
/// then consumed.
pub proof fn law_shift_tokens_close_types(s: PState)
    requires
        s.ok(),
        closers(s.cur().kind) > 0,
    ensures
        closed_types(s, closers(s.cur().kind)).pos == s.pos + 1,
        closed_types(s, closers(s.cur().kind)).diags == s.diags,
{
    reveal_with_fuel(closed_types, 4);
    reveal(PState::close_type);
    assert(s.pos + 1 < s.toks.len()) by {
        if s.pos + 1 >= s.toks.len() {
            assert(s.cur() == s.toks.last());
        }
    }
}

// --- operators ----------------------------------------------------------------------------

/// An operator that binds looser than the tier being parsed is left alone.
pub proof fn law_looser_operators_wait(g: Grammar, s: PState, l: ExprView, min: int)
    requires
        binary_op_of(s.cur().kind) matches Some(o) && o.1 < min,
    ensures
        binary_rest(g, s, l, min) == (s, l),
{
    reveal(binary_rest);
}

/// Operators of one tier group from the left: the right operand of an operator
/// is parsed with the tiers above it only, and what was parsed so far becomes
/// the left operand of the next one.
pub proof fn law_binary_operators_group_left(g: Grammar, s: PState, l: ExprView, min: int)
    requires
        binary_op_of(s.cur().kind) matches Some(o) && o.1 >= min && o.0 != BinaryOp::In,
    ensures
        ({
            let (op, tier) = binary_op_of(s.cur().kind)->0;
            let (s1, r) = (g.binary)(s.next(), tier + 1);
            binary_rest(g, s, l, min) == (g.binary_rest)(
                s1,
                ExprView {
                    kind: ExprKindView::Binary(op, Box::new(l), Box::new(r)),
                    span: l.span.through(r.span),
                },
                min,
            )
        }),
{
    reveal(binary_rest);
}

/// In the head of a `for` the word `in` is no operator.
pub proof fn law_in_is_no_operator_in_a_for_head(g: Grammar, s: PState, l: ExprView, min: int)
    requires
        s.no_in,
        s.at(TokenKind::In),
    ensures
        binary_rest(g, s, l, min) == (s, l),
{
    reveal(binary_rest);
    reveal(binary_op_of);
}

} // verus!
