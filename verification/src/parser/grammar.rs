//! The grammar: what the parser makes of a token stream.
//!
//! Each rule says what becomes of a state, and which tree comes of the tokens
//! it consumes. A rule uses others through a [`Grammar`]; `grammar(n)` ties the
//! knot, with at most `n` rules one inside the other. The parser gives as much
//! depth as the stream needs.

use vstd::prelude::*;

use crate::ast::nodes::{AssignOp, BinaryOp, PostfixOp, SigKind, UnaryOp, Visibility};
use crate::ast::view::{
    AttributesView, BindingView, BlockView, CatchClauseView, ClassDeclView, ExprKindView,
    ExprView, ForInTargetView, ForInitView, FunctionDeclView, InterfaceDeclView,
    InterfaceMemberView, MemberKindView, MemberView, ParamView, PropNameView, StmtKindView,
    StmtView, SwitchCaseView, TypeRefKindView, TypeRefView, VarDeclView,
};
use crate::diagnostics::{
    FOR_EACH_REQUIRES_IN, INVALID_ASSIGN_TARGET, UNEXPECTED_TOKEN, UNSUPPORTED_SYNTAX,
};
use crate::lexer::token::{KindView, NumView, TokenKind};
use crate::parser::state::PState;
use crate::span::Span;

verus! {

// --- rules --------------------------------------------------------------------------------

/// What each rule makes of a state.
pub ghost struct Grammar {
    pub type_ref: spec_fn(PState) -> (PState, TypeRefView),
    pub type_list: spec_fn(PState, Seq<TypeRefView>) -> (PState, Seq<TypeRefView>),
    pub annotation: spec_fn(PState) -> (PState, Option<TypeRefView>),
    pub expression: spec_fn(PState) -> (PState, ExprView),
    pub comma_rest: spec_fn(PState, ExprView) -> (PState, ExprView),
    pub assignment: spec_fn(PState) -> (PState, ExprView),
    pub conditional: spec_fn(PState) -> (PState, ExprView),
    pub binary: spec_fn(PState, int) -> (PState, ExprView),
    pub binary_rest: spec_fn(PState, ExprView, int) -> (PState, ExprView),
    pub unary: spec_fn(PState) -> (PState, ExprView),
    pub postfix: spec_fn(PState) -> (PState, ExprView),
    pub head: spec_fn(PState) -> (PState, ExprView),
    pub call: spec_fn(PState) -> (PState, ExprView),
    pub element: spec_fn(PState, ExprView) -> (PState, ExprView),
    pub application: spec_fn(PState, ExprView) -> (PState, ExprView),
    pub call_rest: spec_fn(PState, ExprView) -> (PState, ExprView),
    pub new_expr: spec_fn(PState) -> (PState, ExprView),
    pub vector_literal: spec_fn(PState, Span) -> (PState, ExprView),
    pub vector_elements: spec_fn(PState, Seq<ExprView>) -> (PState, Seq<ExprView>),
    pub new_rest: spec_fn(PState, ExprView) -> (PState, ExprView),
    pub arguments: spec_fn(PState) -> (PState, Seq<ExprView>, Span),
    pub argument_list: spec_fn(PState, Seq<ExprView>) -> (PState, Seq<ExprView>),
    pub primary: spec_fn(PState) -> (PState, ExprView),
    pub array_elements: spec_fn(PState, Seq<Option<ExprView>>) -> (PState, Seq<Option<ExprView>>),
    pub object_props: spec_fn(PState, Seq<(PropNameView, ExprView)>) -> (PState, Seq<(PropNameView, ExprView)>),
    pub initializer: spec_fn(PState) -> (PState, Option<ExprView>),
    pub parameter: spec_fn(PState) -> (PState, ParamView),
    pub parameter_list: spec_fn(PState, Seq<ParamView>) -> (PState, Seq<ParamView>),
    pub signature: spec_fn(PState) -> (PState, Seq<ParamView>, Option<TypeRefView>),
    pub function: spec_fn(PState, Span, bool) -> (PState, FunctionDeclView),
    pub stmt_list: spec_fn(PState, bool, Seq<StmtView>) -> (PState, Seq<StmtView>),
    pub block_rest: spec_fn(PState, Span) -> (PState, BlockView),
    pub block: spec_fn(PState) -> (PState, BlockView),
    pub paren_expression: spec_fn(PState) -> (PState, ExprView),
    pub statement: spec_fn(PState) -> (PState, StmtView),
    pub expression_statement: spec_fn(PState) -> (PState, StmtView),
    pub binding: spec_fn(PState) -> (PState, BindingView),
    pub binding_list: spec_fn(PState, Seq<BindingView>) -> (PState, Seq<BindingView>),
    pub var_declaration: spec_fn(PState) -> (PState, VarDeclView),
    pub var_statement: spec_fn(PState) -> (PState, StmtView),
    pub function_statement: spec_fn(PState) -> (PState, StmtView),
    pub control: spec_fn(PState) -> (PState, StmtView),
    pub if_statement: spec_fn(PState) -> (PState, StmtView),
    pub while_statement: spec_fn(PState) -> (PState, StmtView),
    pub do_while_statement: spec_fn(PState) -> (PState, StmtView),
    pub for_statement: spec_fn(PState) -> (PState, StmtView),
    pub optional_expression: spec_fn(PState, TokenKind) -> (PState, Option<ExprView>),
    pub for_tail: spec_fn(PState) -> (PState, Option<ExprView>, Option<ExprView>, StmtView),
    pub for_in_tail: spec_fn(PState) -> (PState, ExprView, StmtView),
    pub switch_statement: spec_fn(PState) -> (PState, StmtView),
    pub case_list: spec_fn(PState, bool, Seq<SwitchCaseView>) -> (PState, Seq<SwitchCaseView>),
    pub case_body: spec_fn(PState, Span, Option<ExprView>) -> (PState, SwitchCaseView),
    pub return_statement: spec_fn(PState) -> (PState, StmtView),
    pub throw_statement: spec_fn(PState) -> (PState, StmtView),
    pub catch_list: spec_fn(PState, Seq<CatchClauseView>) -> (PState, Seq<CatchClauseView>),
    pub try_statement: spec_fn(PState) -> (PState, StmtView),
    pub declaration: spec_fn(PState) -> (PState, StmtView),
    pub package: spec_fn(PState) -> (PState, StmtView),
    pub attributed: spec_fn(PState) -> (PState, StmtView),
    pub class: spec_fn(PState, Span, AttributesView) -> (PState, StmtView),
    pub member_list: spec_fn(PState, Seq<MemberView>) -> (PState, Seq<MemberView>),
    pub class_member: spec_fn(PState) -> (PState, Option<MemberView>),
    pub interface: spec_fn(PState, Span, AttributesView) -> (PState, StmtView),
    pub sig_list: spec_fn(PState, Seq<InterfaceMemberView>) -> (PState, Seq<InterfaceMemberView>),
    pub interface_member: spec_fn(PState) -> (PState, InterfaceMemberView),
    pub directives: spec_fn(PState, Seq<StmtView>) -> (PState, Seq<StmtView>),
}

/// The rules with at most `n` of them one inside the other; with none, nothing
/// is consumed.
#[verifier::opaque]
pub open spec fn grammar(n: nat) -> Grammar
    decreases n,
{
    if n == 0 {
        Grammar {
            type_ref: |s: PState| (s, arbitrary()),
            type_list: |s: PState, acc: Seq<TypeRefView>| (s, arbitrary()),
            annotation: |s: PState| (s, arbitrary()),
            expression: |s: PState| (s, arbitrary()),
            comma_rest: |s: PState, e: ExprView| (s, arbitrary()),
            assignment: |s: PState| (s, arbitrary()),
            conditional: |s: PState| (s, arbitrary()),
            binary: |s: PState, min: int| (s, arbitrary()),
            binary_rest: |s: PState, l: ExprView, min: int| (s, arbitrary()),
            unary: |s: PState| (s, arbitrary()),
            postfix: |s: PState| (s, arbitrary()),
            head: |s: PState| (s, arbitrary()),
            call: |s: PState| (s, arbitrary()),
            element: |s: PState, e: ExprView| (s, arbitrary()),
            application: |s: PState, e: ExprView| (s, arbitrary()),
            call_rest: |s: PState, e: ExprView| (s, arbitrary()),
            new_expr: |s: PState| (s, arbitrary()),
            vector_literal: |s: PState, start: Span| (s, arbitrary()),
            vector_elements: |s: PState, acc: Seq<ExprView>| (s, arbitrary()),
            new_rest: |s: PState, e: ExprView| (s, arbitrary()),
            arguments: |s: PState| (s, arbitrary(), arbitrary()),
            argument_list: |s: PState, acc: Seq<ExprView>| (s, arbitrary()),
            primary: |s: PState| (s, arbitrary()),
            array_elements: |s: PState, acc: Seq<Option<ExprView>>| (s, arbitrary()),
            object_props: |s: PState, acc: Seq<(PropNameView, ExprView)>| (s, arbitrary()),
            initializer: |s: PState| (s, arbitrary()),
            parameter: |s: PState| (s, arbitrary()),
            parameter_list: |s: PState, acc: Seq<ParamView>| (s, arbitrary()),
            signature: |s: PState| (s, arbitrary(), arbitrary()),
            function: |s: PState, keyword: Span, needs_name: bool| (s, arbitrary()),
            stmt_list: |s: PState, in_case: bool, acc: Seq<StmtView>| (s, arbitrary()),
            block_rest: |s: PState, start: Span| (s, arbitrary()),
            block: |s: PState| (s, arbitrary()),
            paren_expression: |s: PState| (s, arbitrary()),
            statement: |s: PState| (s, arbitrary()),
            expression_statement: |s: PState| (s, arbitrary()),
            binding: |s: PState| (s, arbitrary()),
            binding_list: |s: PState, acc: Seq<BindingView>| (s, arbitrary()),
            var_declaration: |s: PState| (s, arbitrary()),
            var_statement: |s: PState| (s, arbitrary()),
            function_statement: |s: PState| (s, arbitrary()),
            control: |s: PState| (s, arbitrary()),
            if_statement: |s: PState| (s, arbitrary()),
            while_statement: |s: PState| (s, arbitrary()),
            do_while_statement: |s: PState| (s, arbitrary()),
            for_statement: |s: PState| (s, arbitrary()),
            optional_expression: |s: PState, end: TokenKind| (s, arbitrary()),
            for_tail: |s: PState| (s, arbitrary(), arbitrary(), arbitrary()),
            for_in_tail: |s: PState| (s, arbitrary(), arbitrary()),
            switch_statement: |s: PState| (s, arbitrary()),
            case_list: |s: PState, seen: bool, acc: Seq<SwitchCaseView>| (s, arbitrary()),
            case_body: |s: PState, start: Span, test: Option<ExprView>| (s, arbitrary()),
            return_statement: |s: PState| (s, arbitrary()),
            throw_statement: |s: PState| (s, arbitrary()),
            catch_list: |s: PState, acc: Seq<CatchClauseView>| (s, arbitrary()),
            try_statement: |s: PState| (s, arbitrary()),
            declaration: |s: PState| (s, arbitrary()),
            package: |s: PState| (s, arbitrary()),
            attributed: |s: PState| (s, arbitrary()),
            class: |s: PState, start: Span, attrs: AttributesView| (s, arbitrary()),
            member_list: |s: PState, acc: Seq<MemberView>| (s, arbitrary()),
            class_member: |s: PState| (s, arbitrary()),
            interface: |s: PState, start: Span, attrs: AttributesView| (s, arbitrary()),
            sig_list: |s: PState, acc: Seq<InterfaceMemberView>| (s, arbitrary()),
            interface_member: |s: PState| (s, arbitrary()),
            directives: |s: PState, acc: Seq<StmtView>| (s, arbitrary()),
        }
    } else {
        let g = grammar((n - 1) as nat);
        Grammar {
            type_ref: |s: PState| type_ref(g, s),
            type_list: |s: PState, acc: Seq<TypeRefView>| type_list(g, s, acc),
            annotation: |s: PState| annotation(g, s),
            expression: |s: PState| expression(g, s),
            comma_rest: |s: PState, e: ExprView| comma_rest(g, s, e),
            assignment: |s: PState| assignment(g, s),
            conditional: |s: PState| conditional(g, s),
            binary: |s: PState, min: int| binary(g, s, min),
            binary_rest: |s: PState, l: ExprView, min: int| binary_rest(g, s, l, min),
            unary: |s: PState| unary(g, s),
            postfix: |s: PState| postfix(g, s),
            head: |s: PState| head(g, s),
            call: |s: PState| call(g, s),
            element: |s: PState, e: ExprView| element(g, s, e),
            application: |s: PState, e: ExprView| application(g, s, e),
            call_rest: |s: PState, e: ExprView| call_rest(g, s, e),
            new_expr: |s: PState| new_expr(g, s),
            vector_literal: |s: PState, start: Span| vector_literal(g, s, start),
            vector_elements: |s: PState, acc: Seq<ExprView>| vector_elements(g, s, acc),
            new_rest: |s: PState, e: ExprView| new_rest(g, s, e),
            arguments: |s: PState| arguments(g, s),
            argument_list: |s: PState, acc: Seq<ExprView>| argument_list(g, s, acc),
            primary: |s: PState| primary(g, s),
            array_elements: |s: PState, acc: Seq<Option<ExprView>>| array_elements(g, s, acc),
            object_props: |s: PState, acc: Seq<(PropNameView, ExprView)>| object_props(g, s, acc),
            initializer: |s: PState| initializer(g, s),
            parameter: |s: PState| parameter(g, s),
            parameter_list: |s: PState, acc: Seq<ParamView>| parameter_list(g, s, acc),
            signature: |s: PState| signature(g, s),
            function: |s: PState, keyword: Span, needs_name: bool| function(g, s, keyword, needs_name),
            stmt_list: |s: PState, in_case: bool, acc: Seq<StmtView>| stmt_list(g, s, in_case, acc),
            block_rest: |s: PState, start: Span| block_rest(g, s, start),
            block: |s: PState| block(g, s),
            paren_expression: |s: PState| paren_expression(g, s),
            statement: |s: PState| statement(g, s),
            expression_statement: |s: PState| expression_statement(g, s),
            binding: |s: PState| binding(g, s),
            binding_list: |s: PState, acc: Seq<BindingView>| binding_list(g, s, acc),
            var_declaration: |s: PState| var_declaration(g, s),
            var_statement: |s: PState| var_statement(g, s),
            function_statement: |s: PState| function_statement(g, s),
            control: |s: PState| control(g, s),
            if_statement: |s: PState| if_statement(g, s),
            while_statement: |s: PState| while_statement(g, s),
            do_while_statement: |s: PState| do_while_statement(g, s),
            for_statement: |s: PState| for_statement(g, s),
            optional_expression: |s: PState, end: TokenKind| optional_expression(g, s, end),
            for_tail: |s: PState| for_tail(g, s),
            for_in_tail: |s: PState| for_in_tail(g, s),
            switch_statement: |s: PState| switch_statement(g, s),
            case_list: |s: PState, seen: bool, acc: Seq<SwitchCaseView>| case_list(g, s, seen, acc),
            case_body: |s: PState, start: Span, test: Option<ExprView>| case_body(g, s, start, test),
            return_statement: |s: PState| return_statement(g, s),
            throw_statement: |s: PState| throw_statement(g, s),
            catch_list: |s: PState, acc: Seq<CatchClauseView>| catch_list(g, s, acc),
            try_statement: |s: PState| try_statement(g, s),
            declaration: |s: PState| declaration(g, s),
            package: |s: PState| package(g, s),
            attributed: |s: PState| attributed(g, s),
            class: |s: PState, start: Span, attrs: AttributesView| class(g, s, start, attrs),
            member_list: |s: PState, acc: Seq<MemberView>| member_list(g, s, acc),
            class_member: |s: PState| class_member(g, s),
            interface: |s: PState, start: Span, attrs: AttributesView| interface(g, s, start, attrs),
            sig_list: |s: PState, acc: Seq<InterfaceMemberView>| sig_list(g, s, acc),
            interface_member: |s: PState| interface_member(g, s),
            directives: |s: PState, acc: Seq<StmtView>| directives(g, s, acc),
        }
    }
}

/// A rule is applied with one rule less inside.
pub proof fn lemma_rules(n: nat)
    requires
        n > 0,
    ensures
        forall|s: PState| #[trigger] (grammar(n).type_ref)(s) == type_ref(grammar((n - 1) as nat), s),
        forall|s: PState, acc: Seq<TypeRefView>| #[trigger] (grammar(n).type_list)(s, acc) == type_list(grammar((n - 1) as nat), s, acc),
        forall|s: PState| #[trigger] (grammar(n).annotation)(s) == annotation(grammar((n - 1) as nat), s),
        forall|s: PState| #[trigger] (grammar(n).expression)(s) == expression(grammar((n - 1) as nat), s),
        forall|s: PState, e: ExprView| #[trigger] (grammar(n).comma_rest)(s, e) == comma_rest(grammar((n - 1) as nat), s, e),
        forall|s: PState| #[trigger] (grammar(n).assignment)(s) == assignment(grammar((n - 1) as nat), s),
        forall|s: PState| #[trigger] (grammar(n).conditional)(s) == conditional(grammar((n - 1) as nat), s),
        forall|s: PState, min: int| #[trigger] (grammar(n).binary)(s, min) == binary(grammar((n - 1) as nat), s, min),
        forall|s: PState, l: ExprView, min: int| #[trigger] (grammar(n).binary_rest)(s, l, min) == binary_rest(grammar((n - 1) as nat), s, l, min),
        forall|s: PState| #[trigger] (grammar(n).unary)(s) == unary(grammar((n - 1) as nat), s),
        forall|s: PState| #[trigger] (grammar(n).postfix)(s) == postfix(grammar((n - 1) as nat), s),
        forall|s: PState| #[trigger] (grammar(n).head)(s) == head(grammar((n - 1) as nat), s),
        forall|s: PState| #[trigger] (grammar(n).call)(s) == call(grammar((n - 1) as nat), s),
        forall|s: PState, e: ExprView| #[trigger] (grammar(n).element)(s, e) == element(grammar((n - 1) as nat), s, e),
        forall|s: PState, e: ExprView| #[trigger] (grammar(n).application)(s, e) == application(grammar((n - 1) as nat), s, e),
        forall|s: PState, e: ExprView| #[trigger] (grammar(n).call_rest)(s, e) == call_rest(grammar((n - 1) as nat), s, e),
        forall|s: PState| #[trigger] (grammar(n).new_expr)(s) == new_expr(grammar((n - 1) as nat), s),
        forall|s: PState, start: Span| #[trigger] (grammar(n).vector_literal)(s, start) == vector_literal(grammar((n - 1) as nat), s, start),
        forall|s: PState, acc: Seq<ExprView>| #[trigger] (grammar(n).vector_elements)(s, acc) == vector_elements(grammar((n - 1) as nat), s, acc),
        forall|s: PState, e: ExprView| #[trigger] (grammar(n).new_rest)(s, e) == new_rest(grammar((n - 1) as nat), s, e),
        forall|s: PState| #[trigger] (grammar(n).arguments)(s) == arguments(grammar((n - 1) as nat), s),
        forall|s: PState, acc: Seq<ExprView>| #[trigger] (grammar(n).argument_list)(s, acc) == argument_list(grammar((n - 1) as nat), s, acc),
        forall|s: PState| #[trigger] (grammar(n).primary)(s) == primary(grammar((n - 1) as nat), s),
        forall|s: PState, acc: Seq<Option<ExprView>>| #[trigger] (grammar(n).array_elements)(s, acc) == array_elements(grammar((n - 1) as nat), s, acc),
        forall|s: PState, acc: Seq<(PropNameView, ExprView)>| #[trigger] (grammar(n).object_props)(s, acc) == object_props(grammar((n - 1) as nat), s, acc),
        forall|s: PState| #[trigger] (grammar(n).initializer)(s) == initializer(grammar((n - 1) as nat), s),
        forall|s: PState| #[trigger] (grammar(n).parameter)(s) == parameter(grammar((n - 1) as nat), s),
        forall|s: PState, acc: Seq<ParamView>| #[trigger] (grammar(n).parameter_list)(s, acc) == parameter_list(grammar((n - 1) as nat), s, acc),
        forall|s: PState| #[trigger] (grammar(n).signature)(s) == signature(grammar((n - 1) as nat), s),
        forall|s: PState, keyword: Span, needs_name: bool| #[trigger] (grammar(n).function)(s, keyword, needs_name) == function(grammar((n - 1) as nat), s, keyword, needs_name),
        forall|s: PState, in_case: bool, acc: Seq<StmtView>| #[trigger] (grammar(n).stmt_list)(s, in_case, acc) == stmt_list(grammar((n - 1) as nat), s, in_case, acc),
        forall|s: PState, start: Span| #[trigger] (grammar(n).block_rest)(s, start) == block_rest(grammar((n - 1) as nat), s, start),
        forall|s: PState| #[trigger] (grammar(n).block)(s) == block(grammar((n - 1) as nat), s),
        forall|s: PState| #[trigger] (grammar(n).paren_expression)(s) == paren_expression(grammar((n - 1) as nat), s),
        forall|s: PState| #[trigger] (grammar(n).statement)(s) == statement(grammar((n - 1) as nat), s),
        forall|s: PState| #[trigger] (grammar(n).expression_statement)(s) == expression_statement(grammar((n - 1) as nat), s),
        forall|s: PState| #[trigger] (grammar(n).binding)(s) == binding(grammar((n - 1) as nat), s),
        forall|s: PState, acc: Seq<BindingView>| #[trigger] (grammar(n).binding_list)(s, acc) == binding_list(grammar((n - 1) as nat), s, acc),
        forall|s: PState| #[trigger] (grammar(n).var_declaration)(s) == var_declaration(grammar((n - 1) as nat), s),
        forall|s: PState| #[trigger] (grammar(n).var_statement)(s) == var_statement(grammar((n - 1) as nat), s),
        forall|s: PState| #[trigger] (grammar(n).function_statement)(s) == function_statement(grammar((n - 1) as nat), s),
        forall|s: PState| #[trigger] (grammar(n).control)(s) == control(grammar((n - 1) as nat), s),
        forall|s: PState| #[trigger] (grammar(n).if_statement)(s) == if_statement(grammar((n - 1) as nat), s),
        forall|s: PState| #[trigger] (grammar(n).while_statement)(s) == while_statement(grammar((n - 1) as nat), s),
        forall|s: PState| #[trigger] (grammar(n).do_while_statement)(s) == do_while_statement(grammar((n - 1) as nat), s),
        forall|s: PState| #[trigger] (grammar(n).for_statement)(s) == for_statement(grammar((n - 1) as nat), s),
        forall|s: PState, end: TokenKind| #[trigger] (grammar(n).optional_expression)(s, end) == optional_expression(grammar((n - 1) as nat), s, end),
        forall|s: PState| #[trigger] (grammar(n).for_tail)(s) == for_tail(grammar((n - 1) as nat), s),
        forall|s: PState| #[trigger] (grammar(n).for_in_tail)(s) == for_in_tail(grammar((n - 1) as nat), s),
        forall|s: PState| #[trigger] (grammar(n).switch_statement)(s) == switch_statement(grammar((n - 1) as nat), s),
        forall|s: PState, seen: bool, acc: Seq<SwitchCaseView>| #[trigger] (grammar(n).case_list)(s, seen, acc) == case_list(grammar((n - 1) as nat), s, seen, acc),
        forall|s: PState, start: Span, test: Option<ExprView>| #[trigger] (grammar(n).case_body)(s, start, test) == case_body(grammar((n - 1) as nat), s, start, test),
        forall|s: PState| #[trigger] (grammar(n).return_statement)(s) == return_statement(grammar((n - 1) as nat), s),
        forall|s: PState| #[trigger] (grammar(n).throw_statement)(s) == throw_statement(grammar((n - 1) as nat), s),
        forall|s: PState, acc: Seq<CatchClauseView>| #[trigger] (grammar(n).catch_list)(s, acc) == catch_list(grammar((n - 1) as nat), s, acc),
        forall|s: PState| #[trigger] (grammar(n).try_statement)(s) == try_statement(grammar((n - 1) as nat), s),
        forall|s: PState| #[trigger] (grammar(n).declaration)(s) == declaration(grammar((n - 1) as nat), s),
        forall|s: PState| #[trigger] (grammar(n).package)(s) == package(grammar((n - 1) as nat), s),
        forall|s: PState| #[trigger] (grammar(n).attributed)(s) == attributed(grammar((n - 1) as nat), s),
        forall|s: PState, start: Span, attrs: AttributesView| #[trigger] (grammar(n).class)(s, start, attrs) == class(grammar((n - 1) as nat), s, start, attrs),
        forall|s: PState, acc: Seq<MemberView>| #[trigger] (grammar(n).member_list)(s, acc) == member_list(grammar((n - 1) as nat), s, acc),
        forall|s: PState| #[trigger] (grammar(n).class_member)(s) == class_member(grammar((n - 1) as nat), s),
        forall|s: PState, start: Span, attrs: AttributesView| #[trigger] (grammar(n).interface)(s, start, attrs) == interface(grammar((n - 1) as nat), s, start, attrs),
        forall|s: PState, acc: Seq<InterfaceMemberView>| #[trigger] (grammar(n).sig_list)(s, acc) == sig_list(grammar((n - 1) as nat), s, acc),
        forall|s: PState| #[trigger] (grammar(n).interface_member)(s) == interface_member(grammar((n - 1) as nat), s),
        forall|s: PState, acc: Seq<StmtView>| #[trigger] (grammar(n).directives)(s, acc) == directives(grammar((n - 1) as nat), s, acc),
{
    reveal_with_fuel(grammar, 1);
}

// --- operators ----------------------------------------------------------------------------

#[verifier::opaque]
pub open spec fn assign_op_of(k: KindView) -> Option<AssignOp> {
    match k {
        KindView::Plain(p) => match p {
            TokenKind::Assign => Some(AssignOp::Assign),
            TokenKind::PlusAssign => Some(AssignOp::Add),
            TokenKind::MinusAssign => Some(AssignOp::Sub),
            TokenKind::StarAssign => Some(AssignOp::Mul),
            TokenKind::SlashAssign => Some(AssignOp::Div),
            TokenKind::PercentAssign => Some(AssignOp::Rem),
            TokenKind::ShlAssign => Some(AssignOp::Shl),
            TokenKind::ShrAssign => Some(AssignOp::Shr),
            TokenKind::UshrAssign => Some(AssignOp::Ushr),
            TokenKind::BitAndAssign => Some(AssignOp::BitAnd),
            TokenKind::BitOrAssign => Some(AssignOp::BitOr),
            TokenKind::BitXorAssign => Some(AssignOp::BitXor),
            TokenKind::LogAndAssign => Some(AssignOp::LogAnd),
            TokenKind::LogOrAssign => Some(AssignOp::LogOr),
            _ => None,
        },
        _ => None,
    }
}

/// The binary operators with their tiers, loosest 0 (`||`), tightest 9
/// (`* / %`).
#[verifier::opaque]
pub open spec fn binary_op_of(k: KindView) -> Option<(BinaryOp, int)> {
    match k {
        KindView::Plain(p) => match p {
            TokenKind::LogOr => Some((BinaryOp::LogOr, 0)),
            TokenKind::LogAnd => Some((BinaryOp::LogAnd, 1)),
            TokenKind::BitOr => Some((BinaryOp::BitOr, 2)),
            TokenKind::BitXor => Some((BinaryOp::BitXor, 3)),
            TokenKind::BitAnd => Some((BinaryOp::BitAnd, 4)),
            TokenKind::Eq => Some((BinaryOp::Eq, 5)),
            TokenKind::Ne => Some((BinaryOp::Ne, 5)),
            TokenKind::StrictEq => Some((BinaryOp::StrictEq, 5)),
            TokenKind::StrictNe => Some((BinaryOp::StrictNe, 5)),
            TokenKind::Lt => Some((BinaryOp::Lt, 6)),
            TokenKind::Gt => Some((BinaryOp::Gt, 6)),
            TokenKind::Le => Some((BinaryOp::Le, 6)),
            TokenKind::Ge => Some((BinaryOp::Ge, 6)),
            TokenKind::In => Some((BinaryOp::In, 6)),
            TokenKind::Instanceof => Some((BinaryOp::Instanceof, 6)),
            TokenKind::Is => Some((BinaryOp::Is, 6)),
            TokenKind::As => Some((BinaryOp::As, 6)),
            TokenKind::Shl => Some((BinaryOp::Shl, 7)),
            TokenKind::Shr => Some((BinaryOp::Shr, 7)),
            TokenKind::Ushr => Some((BinaryOp::Ushr, 7)),
            TokenKind::Plus => Some((BinaryOp::Add, 8)),
            TokenKind::Minus => Some((BinaryOp::Sub, 8)),
            TokenKind::Star => Some((BinaryOp::Mul, 9)),
            TokenKind::Slash => Some((BinaryOp::Div, 9)),
            TokenKind::Percent => Some((BinaryOp::Rem, 9)),
            _ => None,
        },
        _ => None,
    }
}

#[verifier::opaque]
pub open spec fn unary_op_of(k: KindView) -> Option<UnaryOp> {
    match k {
        KindView::Plain(p) => match p {
            TokenKind::Delete => Some(UnaryOp::Delete),
            TokenKind::Void => Some(UnaryOp::Void),
            TokenKind::Typeof => Some(UnaryOp::Typeof),
            TokenKind::PlusPlus => Some(UnaryOp::PreInc),
            TokenKind::MinusMinus => Some(UnaryOp::PreDec),
            TokenKind::Plus => Some(UnaryOp::Plus),
            TokenKind::Minus => Some(UnaryOp::Minus),
            TokenKind::BitNot => Some(UnaryOp::BitNot),
            TokenKind::Not => Some(UnaryOp::Not),
            _ => None,
        },
        _ => None,
    }
}

/// Variables, properties and elements can be assigned to.
pub open spec fn assignable(e: ExprView) -> bool {
    match e.kind {
        ExprKindView::Ident(_) | ExprKindView::Member(_, _) | ExprKindView::Index(_, _) => true,
        _ => false,
    }
}

#[verifier::opaque]
pub open spec fn check_target(s: PState, e: ExprView) -> PState {
    if assignable(e) {
        s
    } else {
        s.complain(
            INVALID_ASSIGN_TARGET,
            "left side of assignment must be a variable, property, or index"@,
            e.span,
        )
    }
}

// --- types --------------------------------------------------------------------------------

/// The names of a dotted path that go on from here: `.name` as long as a name
/// follows the dot.
pub open spec fn path_rest(s: PState, path: Seq<Seq<char>>) -> (PState, Seq<Seq<char>>)
    decreases s.toks.len() - s.pos,
{
    if s.at(TokenKind::Dot) && s.ahead(1) is Ident && s.pos + 1 < s.toks.len() {
        let s1 = s.next();
        let s2 = s1.ident();
        if s.pos < s2.pos <= s.toks.len() && s2.toks == s.toks {
            path_rest(s2, path.push(s1.name()))
        } else {
            arbitrary()
        }
    } else {
        (s, path)
    }
}

/// `*`, `void`, or a dotted name with the arguments of `.<...>`; then `?`.
#[verifier::opaque]
pub open spec fn type_ref(g: Grammar, s: PState) -> (PState, TypeRefView) {
    let (s1, kind) = if s.at(TokenKind::Star) {
        (s.next(), TypeRefKindView::Any)
    } else if s.at(TokenKind::Void) {
        (s.next(), TypeRefKindView::Void)
    } else {
        let (p, path) = path_rest(s.ident(), seq![s.name()]);
        if p.at(TokenKind::LeftDotAngle) {
            let (a, args) = (g.type_list)(p.next(), Seq::empty());
            (a.close_type(), TypeRefKindView::Name { path, type_args: args })
        } else {
            (p, TypeRefKindView::Name { path, type_args: Seq::empty() })
        }
    };
    let s2 = s1.eat(TokenKind::Question);
    (
        s2,
        TypeRefView {
            kind,
            nullable: s1.at(TokenKind::Question),
            span: s.cur().span.through(s2.prev_span()),
        },
    )
}

/// Types with commas between them.
#[verifier::opaque]
pub open spec fn type_list(g: Grammar, s: PState, acc: Seq<TypeRefView>) -> (PState, Seq<TypeRefView>) {
    let (s1, t) = (g.type_ref)(s);
    if s1.at(TokenKind::Comma) {
        (g.type_list)(s1.next(), acc.push(t))
    } else {
        (s1, acc.push(t))
    }
}

/// `:Type`, if there is a colon.
#[verifier::opaque]
pub open spec fn annotation(g: Grammar, s: PState) -> (PState, Option<TypeRefView>) {
    if s.at(TokenKind::Colon) {
        let (s1, t) = (g.type_ref)(s.next());
        (s1, Some(t))
    } else {
        (s, None)
    }
}

// --- expressions --------------------------------------------------------------------------

/// An expression with the comma operator.
#[verifier::opaque]
pub open spec fn expression(g: Grammar, s: PState) -> (PState, ExprView) {
    let (s1, e) = (g.assignment)(s);
    (g.comma_rest)(s1, e)
}

#[verifier::opaque]
pub open spec fn comma_rest(g: Grammar, s: PState, e: ExprView) -> (PState, ExprView) {
    if s.at(TokenKind::Comma) {
        let (s1, r) = (g.assignment)(s.next());
        (g.comma_rest)(
            s1,
            ExprView {
                kind: ExprKindView::Comma(Box::new(e), Box::new(r)),
                span: e.span.through(r.span),
            },
        )
    } else {
        (s, e)
    }
}

/// Assignment is right-associative.
#[verifier::opaque]
pub open spec fn assignment(g: Grammar, s: PState) -> (PState, ExprView) {
    let (s1, l) = (g.conditional)(s);
    match assign_op_of(s1.cur().kind) {
        None => (s1, l),
        Some(op) => {
            let (s2, r) = (g.assignment)(check_target(s1.next(), l));
            (
                s2,
                ExprView {
                    kind: ExprKindView::Assign(op, Box::new(l), Box::new(r)),
                    span: l.span.through(r.span),
                },
            )
        },
    }
}

#[verifier::opaque]
pub open spec fn conditional(g: Grammar, s: PState) -> (PState, ExprView) {
    let (s1, c) = (g.binary)(s, 0);
    if s1.at(TokenKind::Question) {
        let (s2, a) = (g.assignment)(s1.next());
        let (s3, b) = (g.assignment)(s2.expect(TokenKind::Colon));
        (
            s3,
            ExprView {
                kind: ExprKindView::Conditional(Box::new(c), Box::new(a), Box::new(b)),
                span: c.span.through(b.span),
            },
        )
    } else {
        (s1, c)
    }
}

/// The binary tiers from `min` up.
#[verifier::opaque]
pub open spec fn binary(g: Grammar, s: PState, min: int) -> (PState, ExprView) {
    let (s1, l) = (g.unary)(s);
    (g.binary_rest)(s1, l, min)
}

#[verifier::opaque]
pub open spec fn binary_rest(g: Grammar, s: PState, l: ExprView, min: int) -> (PState, ExprView) {
    match binary_op_of(s.cur().kind) {
        None => (s, l),
        Some((op, level)) => if (op == BinaryOp::In && s.no_in) || level < min {
            (s, l)
        } else {
            let (s1, r) = (g.binary)(s.next(), level + 1);
            (g.binary_rest)(
                s1,
                ExprView {
                    kind: ExprKindView::Binary(op, Box::new(l), Box::new(r)),
                    span: l.span.through(r.span),
                },
                min,
            )
        },
    }
}

#[verifier::opaque]
pub open spec fn unary(g: Grammar, s: PState) -> (PState, ExprView) {
    match unary_op_of(s.cur().kind) {
        Some(op) => {
            let (s1, e) = (g.unary)(s.next());
            let s2 = if op == UnaryOp::PreInc || op == UnaryOp::PreDec {
                check_target(s1, e)
            } else {
                s1
            };
            (
                s2,
                ExprView {
                    kind: ExprKindView::Unary(op, Box::new(e)),
                    span: s.cur().span.through(e.span),
                },
            )
        },
        None => (g.postfix)(s),
    }
}

/// Postfix `++` and `--` stand on the line of their operand.
#[verifier::opaque]
pub open spec fn postfix(g: Grammar, s: PState) -> (PState, ExprView) {
    let (s1, e) = (g.call)(s);
    if (s1.at(TokenKind::PlusPlus) || s1.at(TokenKind::MinusMinus))
        && !s1.cur().newline_before {
        (
            check_target(s1, e).next(),
            ExprView {
                kind: ExprKindView::Postfix(
                    if s1.at(TokenKind::PlusPlus) {
                        PostfixOp::Inc
                    } else {
                        PostfixOp::Dec
                    },
                    Box::new(e),
                ),
                span: e.span.through(s1.cur().span),
            },
        )
    } else {
        (s1, e)
    }
}

/// `new` or a primary expression.
#[verifier::opaque]
pub open spec fn head(g: Grammar, s: PState) -> (PState, ExprView) {
    if s.at(TokenKind::New) {
        (g.new_expr)(s)
    } else {
        (g.primary)(s)
    }
}

/// A chain of members, elements, calls and type applications.
#[verifier::opaque]
pub open spec fn call(g: Grammar, s: PState) -> (PState, ExprView) {
    let (s1, e) = (g.head)(s);
    (g.call_rest)(s1, e)
}

/// `.name` after an expression.
pub open spec fn member(s: PState, e: ExprView) -> (PState, ExprView) {
    let s1 = s.next();
    (
        s1.ident(),
        ExprView {
            kind: ExprKindView::Member(Box::new(e), s1.name()),
            span: e.span.through(s1.cur().span),
        },
    )
}

/// `[index]` after an expression.
#[verifier::opaque]
pub open spec fn element(g: Grammar, s: PState, e: ExprView) -> (PState, ExprView) {
    let (s1, i) = (g.expression)(s.next());
    (
        s1.expect(TokenKind::RBracket),
        ExprView {
            kind: ExprKindView::Index(Box::new(e), Box::new(i)),
            span: e.span.through(s1.cur().span),
        },
    )
}

/// `.<types>` after an expression.
#[verifier::opaque]
pub open spec fn application(g: Grammar, s: PState, e: ExprView) -> (PState, ExprView) {
    let (s1, args) = (g.type_list)(s.next(), Seq::empty());
    let s2 = s1.close_type();
    (
        s2,
        ExprView {
            kind: ExprKindView::ApplyType(Box::new(e), args),
            span: e.span.through(s2.prev_span()),
        },
    )
}

#[verifier::opaque]
pub open spec fn call_rest(g: Grammar, s: PState, e: ExprView) -> (PState, ExprView) {
    if s.at(TokenKind::Dot) {
        let (s1, x) = member(s, e);
        (g.call_rest)(s1, x)
    } else if s.at(TokenKind::LBracket) {
        let (s1, x) = (g.element)(s, e);
        (g.call_rest)(s1, x)
    } else if s.at(TokenKind::LParen) {
        let (s1, args, end) = (g.arguments)(s);
        (g.call_rest)(
            s1,
            ExprView {
                kind: ExprKindView::Call(Box::new(e), args),
                span: e.span.through(end),
            },
        )
    } else if s.at(TokenKind::LeftDotAngle) {
        let (s1, x) = (g.application)(s, e);
        (g.call_rest)(s1, x)
    } else if s.at(TokenKind::DotDot) {
        (g.call_rest)(
            s.next().complain(
                UNSUPPORTED_SYNTAX,
                "`..` is the E4X descendant operator, which is not part of this language (SPECS §5)"@,
                s.cur().span,
            ),
            e,
        )
    } else {
        (s, e)
    }
}

/// `new Callee(args)`, where members bind tighter than the call, or the Vector
/// literal `new <T>[...]`.
#[verifier::opaque]
pub open spec fn new_expr(g: Grammar, s: PState) -> (PState, ExprView) {
    if s.next().at(TokenKind::Lt) {
        (g.vector_literal)(s.next(), s.cur().span)
    } else {
        let (s1, c) = (g.head)(s.next());
        let (s2, callee) = (g.new_rest)(s1, c);
        let (s3, args, end) = if s2.at(TokenKind::LParen) {
            (g.arguments)(s2)
        } else {
            (s2, Seq::empty(), callee.span)
        };
        (
            s3,
            ExprView {
                kind: ExprKindView::New(Box::new(callee), args),
                span: s.cur().span.through(end),
            },
        )
    }
}

#[verifier::opaque]
pub open spec fn vector_literal(g: Grammar, s: PState, start: Span) -> (PState, ExprView) {
    let (s1, elem) = (g.type_ref)(s.next());
    let s2 = s1.close_type().expect(TokenKind::LBracket);
    let (s3, elements) = if s2.at(TokenKind::RBracket) {
        (s2, Seq::empty())
    } else {
        (g.vector_elements)(s2, Seq::empty())
    };
    (
        s3.expect(TokenKind::RBracket),
        ExprView {
            kind: ExprKindView::VectorLit { elem, elements },
            span: start.through(s3.cur().span),
        },
    )
}

/// Expressions with commas between them; one more comma may stand before `]`.
#[verifier::opaque]
pub open spec fn vector_elements(g: Grammar, s: PState, acc: Seq<ExprView>) -> (
    PState,
    Seq<ExprView>,
) {
    let (s1, e) = (g.assignment)(s);
    if s1.at(TokenKind::Comma) {
        if s1.next().at(TokenKind::RBracket) {
            (s1.next(), acc.push(e))
        } else {
            (g.vector_elements)(s1.next(), acc.push(e))
        }
    } else {
        (s1, acc.push(e))
    }
}

#[verifier::opaque]
pub open spec fn new_rest(g: Grammar, s: PState, e: ExprView) -> (PState, ExprView) {
    if s.at(TokenKind::LeftDotAngle) {
        let (s1, x) = (g.application)(s, e);
        (g.new_rest)(s1, x)
    } else if s.at(TokenKind::Dot) {
        let (s1, x) = member(s, e);
        (g.new_rest)(s1, x)
    } else if s.at(TokenKind::LBracket) {
        let (s1, x) = (g.element)(s, e);
        (g.new_rest)(s1, x)
    } else {
        (s, e)
    }
}

/// `(args)`, and the span of its last token.
#[verifier::opaque]
pub open spec fn arguments(g: Grammar, s: PState) -> (PState, Seq<ExprView>, Span) {
    let s1 = s.expect(TokenKind::LParen);
    let (s2, args) = if s1.at(TokenKind::RParen) {
        (s1, Seq::empty())
    } else {
        (g.argument_list)(s1, Seq::empty())
    };
    (s2.expect(TokenKind::RParen), args, s2.cur().span)
}

#[verifier::opaque]
pub open spec fn argument_list(g: Grammar, s: PState, acc: Seq<ExprView>) -> (PState, Seq<ExprView>) {
    let (s1, e) = (g.assignment)(s);
    if s1.at(TokenKind::Comma) {
        (g.argument_list)(s1.next(), acc.push(e))
    } else {
        (s1, acc.push(e))
    }
}

/// The expression that a token is by itself.
#[verifier::opaque]
pub open spec fn atom(k: KindView) -> Option<ExprKindView> {
    match k {
        KindView::Number(v) => Some(ExprKindView::Number(v)),
        KindView::Str(v) => Some(ExprKindView::Str(v)),
        KindView::Ident(v) => Some(ExprKindView::Ident(v)),
        KindView::RegExp(_, _) => None,
        KindView::Plain(p) => match p {
            TokenKind::Int(v) => Some(ExprKindView::Int(v)),
            TokenKind::UInt(v) => Some(ExprKindView::UInt(v)),
            TokenKind::True => Some(ExprKindView::Bool(true)),
            TokenKind::False => Some(ExprKindView::Bool(false)),
            TokenKind::Null => Some(ExprKindView::Null),
            TokenKind::This => Some(ExprKindView::This),
            TokenKind::Super => Some(ExprKindView::Super),
            _ => None,
        },
    }
}

/// Literals, names, brackets and functions. Nothing is consumed where no
/// expression starts.
#[verifier::opaque]
pub open spec fn primary(g: Grammar, s: PState) -> (PState, ExprView) {
    let span = s.cur().span;
    match atom(s.cur().kind) {
        Some(kind) => (s.next(), ExprView { kind, span }),
        None => if s.at(TokenKind::LParen) {
            let (s1, e) = (g.expression)(s.next());
            let s2 = s1.expect(TokenKind::RParen);
            (s2, ExprView { kind: e.kind, span: span.through(s2.prev_span()) })
        } else if s.at(TokenKind::LBracket) {
            let (s1, elements) = (g.array_elements)(s.next(), Seq::empty());
            (
                s1.expect(TokenKind::RBracket),
                ExprView {
                    kind: ExprKindView::Array(elements),
                    span: span.through(s1.cur().span),
                },
            )
        } else if s.at(TokenKind::LBrace) {
            let (s1, props) = if s.next().at(TokenKind::RBrace) {
                (s.next(), Seq::empty())
            } else {
                (g.object_props)(s.next(), Seq::empty())
            };
            (
                s1.expect(TokenKind::RBrace),
                ExprView {
                    kind: ExprKindView::Object(props),
                    span: span.through(s1.cur().span),
                },
            )
        } else if s.at(TokenKind::Function) {
            let (s1, f) = (g.function)(s.next(), span, false);
            (s1, ExprView { kind: ExprKindView::Function(Box::new(f)), span: f.span })
        } else {
            (
                s.complain_found("expected expression, found "@),
                ExprView { kind: ExprKindView::Ident("<error>"@), span },
            )
        },
    }
}

/// The elements of an array literal; a comma without an expression before it
/// is an elision, and one after the last expression adds nothing.
#[verifier::opaque]
pub open spec fn array_elements(g: Grammar, s: PState, acc: Seq<Option<ExprView>>) -> (
    PState,
    Seq<Option<ExprView>>,
) {
    if s.at(TokenKind::RBracket) {
        (s, acc)
    } else if s.at(TokenKind::Comma) {
        (g.array_elements)(s.next(), acc.push(None))
    } else {
        let (s1, e) = (g.assignment)(s);
        if s1.at(TokenKind::Comma) {
            (g.array_elements)(s1.next(), acc.push(Some(e)))
        } else {
            (s1, acc.push(Some(e)))
        }
    }
}

/// The property name that a token is.
#[verifier::opaque]
pub open spec fn prop_name(k: KindView) -> Option<PropNameView> {
    match k {
        KindView::Ident(v) => Some(PropNameView::Ident(v)),
        KindView::Str(v) => Some(PropNameView::Str(v)),
        KindView::Number(v) => Some(PropNameView::Number(v)),
        KindView::RegExp(_, _) => None,
        KindView::Plain(p) => match p {
            TokenKind::Int(v) => Some(PropNameView::Number(NumView::Whole(v as u64))),
            TokenKind::UInt(v) => Some(PropNameView::Number(NumView::Whole(v as u64))),
            _ => None,
        },
    }
}

#[verifier::opaque]
pub open spec fn object_props(g: Grammar, s: PState, acc: Seq<(PropNameView, ExprView)>) -> (
    PState,
    Seq<(PropNameView, ExprView)>,
) {
    match prop_name(s.cur().kind) {
        None => (s.complain_found("expected property name, found "@), acc),
        Some(name) => {
            let (s1, v) = (g.assignment)(s.next().expect(TokenKind::Colon));
            if s1.at(TokenKind::Comma) {
                if s1.next().at(TokenKind::RBrace) {
                    (s1.next(), acc.push((name, v)))
                } else {
                    (g.object_props)(s1.next(), acc.push((name, v)))
                }
            } else {
                (s1, acc.push((name, v)))
            }
        },
    }
}

// --- functions ----------------------------------------------------------------------------

/// Names with commas between them.
pub open spec fn name_list(s: PState, acc: Seq<Seq<char>>) -> (PState, Seq<Seq<char>>)
    decreases s.toks.len() - s.pos,
{
    let s1 = s.ident();
    if s1.at(TokenKind::Comma) && s.pos <= s1.pos && s1.pos + 1 < s1.toks.len() && s1.toks
        == s.toks {
        name_list(s1.next(), acc.push(s.name()))
    } else {
        (s1, acc.push(s.name()))
    }
}

/// `.<names>`, if it is there.
pub open spec fn type_params(s: PState) -> (PState, Seq<Seq<char>>) {
    if s.at(TokenKind::LeftDotAngle) {
        let (s1, names) = name_list(s.next(), Seq::empty());
        (s1.close_type(), names)
    } else {
        (s, Seq::empty())
    }
}

/// `= expression`, if there is a `=`.
#[verifier::opaque]
pub open spec fn initializer(g: Grammar, s: PState) -> (PState, Option<ExprView>) {
    if s.at(TokenKind::Assign) {
        let (s1, e) = (g.assignment)(s.next());
        (s1, Some(e))
    } else {
        (s, None)
    }
}

/// Where a declaration ends: with its initializer, else its type, else its
/// name.
pub open spec fn declared_end(
    init: Option<ExprView>,
    ty: Option<TypeRefView>,
    name_span: Span,
) -> Span {
    match init {
        Some(e) => e.span,
        None => match ty {
            Some(t) => t.span,
            None => name_span,
        },
    }
}

#[verifier::opaque]
pub open spec fn parameter(g: Grammar, s: PState) -> (PState, ParamView) {
    let s1 = s.eat(TokenKind::Ellipsis);
    let (s2, ty) = (g.annotation)(s1.ident());
    let (s3, default) = (g.initializer)(s2);
    (
        s3,
        ParamView {
            name: s1.name(),
            ty,
            default,
            rest: s.at(TokenKind::Ellipsis),
            span: s.cur().span.through(declared_end(default, ty, s1.cur().span)),
        },
    )
}

#[verifier::opaque]
pub open spec fn parameter_list(g: Grammar, s: PState, acc: Seq<ParamView>) -> (
    PState,
    Seq<ParamView>,
) {
    let (s1, p) = (g.parameter)(s);
    if s1.at(TokenKind::Comma) {
        (g.parameter_list)(s1.next(), acc.push(p))
    } else {
        (s1, acc.push(p))
    }
}

/// `(params):T`.
#[verifier::opaque]
pub open spec fn signature(g: Grammar, s: PState) -> (PState, Seq<ParamView>, Option<TypeRefView>) {
    let s1 = s.expect(TokenKind::LParen);
    let (s2, params) = if s1.at(TokenKind::RParen) {
        (s1, Seq::empty())
    } else {
        (g.parameter_list)(s1, Seq::empty())
    };
    let (s3, ret) = (g.annotation)(s2.expect(TokenKind::RParen));
    (s3, params, ret)
}

/// Everything after the `function` keyword. A declaration needs a name.
#[verifier::opaque]
pub open spec fn function(g: Grammar, s: PState, keyword: Span, needs_name: bool) -> (
    PState,
    FunctionDeclView,
) {
    let s1 = if s.at_ident() {
        s.next()
    } else if needs_name {
        s.complain(UNEXPECTED_TOKEN, "function declaration needs a name"@, s.cur().span)
    } else {
        s
    };
    let (s2, tps) = type_params(s1);
    let (s3, params, return_type) = (g.signature)(s2);
    let (s4, body) = (g.block)(s3);
    (
        s4,
        FunctionDeclView {
            name: if s.at_ident() {
                Some(s.name())
            } else {
                None
            },
            type_params: tps,
            params,
            return_type,
            body,
            span: keyword.through(body.span),
        },
    )
}

// --- statements ---------------------------------------------------------------------------

/// The token can start a statement after an error.
#[verifier::opaque]
pub open spec fn restarts(k: KindView) -> bool {
    match k {
        KindView::Plain(p) => match p {
            TokenKind::Var | TokenKind::Const | TokenKind::Function | TokenKind::If
            | TokenKind::While | TokenKind::Do | TokenKind::For | TokenKind::Switch
            | TokenKind::Break | TokenKind::Continue | TokenKind::Return | TokenKind::Throw
            | TokenKind::Try | TokenKind::LBrace => true,
            _ => false,
        },
        _ => false,
    }
}

/// Skips to the next place where a statement may start.
pub open spec fn recover(s: PState) -> PState
    decreases s.toks.len() - s.pos,
{
    if s.at(TokenKind::Eof) || s.at(TokenKind::Semicolon) || s.at(TokenKind::RBrace) {
        s.eat(TokenKind::Semicolon)
    } else if restarts(s.cur().kind) || s.pos + 1 >= s.toks.len() {
        s
    } else {
        recover(s.next())
    }
}

/// One token skipped if nothing was consumed since `before`.
pub open spec fn unstick(before: PState, s: PState) -> PState {
    if s.pos == before.pos {
        s.next()
    } else {
        s
    }
}

/// The token ends a list of statements. A clause of a `switch` also ends
/// before the next one.
pub open spec fn ends_stmts(s: PState, in_case: bool) -> bool {
    s.at(TokenKind::RBrace) || s.at(TokenKind::Eof) || (in_case && (s.at(TokenKind::Case) || s.at(
        TokenKind::Default,
    )))
}

#[verifier::opaque]
pub open spec fn stmt_list(g: Grammar, s: PState, in_case: bool, acc: Seq<StmtView>) -> (
    PState,
    Seq<StmtView>,
) {
    if ends_stmts(s, in_case) {
        (s, acc)
    } else {
        let (s1, x) = (g.statement)(s);
        (g.stmt_list)(unstick(s, s1), in_case, acc.push(x))
    }
}

/// A block after its opening brace.
#[verifier::opaque]
pub open spec fn block_rest(g: Grammar, s: PState, start: Span) -> (PState, BlockView) {
    let (s1, stmts) = (g.stmt_list)(s, false, Seq::empty());
    (
        s1.expect(TokenKind::RBrace),
        BlockView { stmts, span: start.through(s1.cur().span) },
    )
}

#[verifier::opaque]
pub open spec fn block(g: Grammar, s: PState) -> (PState, BlockView) {
    (g.block_rest)(s.expect(TokenKind::LBrace), s.cur().span)
}

#[verifier::opaque]
pub open spec fn paren_expression(g: Grammar, s: PState) -> (PState, ExprView) {
    let (s1, e) = (g.expression)(s.expect(TokenKind::LParen));
    (s1.expect(TokenKind::RParen), e)
}

pub open spec fn stmt(kind: StmtKindView, span: Span) -> StmtView {
    StmtView { kind, span }
}

#[verifier::opaque]
pub open spec fn statement(g: Grammar, s: PState) -> (PState, StmtView) {
    match s.cur().kind {
        KindView::Plain(p) => match p {
            TokenKind::LBrace => {
                let (s1, b) = (g.block_rest)(s.next(), s.cur().span);
                (s1, stmt(StmtKindView::Block(b), b.span))
            },
            TokenKind::Semicolon => (s.next(), stmt(StmtKindView::Empty, s.cur().span)),
            TokenKind::Var | TokenKind::Const => (g.var_statement)(s),
            TokenKind::Function => (g.function_statement)(s),
            TokenKind::Package | TokenKind::Import | TokenKind::Namespace | TokenKind::Use
            | TokenKind::Class | TokenKind::Interface | TokenKind::Public
            | TokenKind::Private | TokenKind::Protected | TokenKind::Internal
            | TokenKind::Final | TokenKind::Dynamic | TokenKind::Native
            | TokenKind::Override | TokenKind::Static => (g.declaration)(s),
            TokenKind::If | TokenKind::While | TokenKind::Do | TokenKind::For
            | TokenKind::Switch | TokenKind::Break | TokenKind::Continue
            | TokenKind::Return | TokenKind::Throw | TokenKind::Try => (g.control)(
                s,
            ),
            TokenKind::Goto => (
                recover(
                    s.next().complain(
                        UNSUPPORTED_SYNTAX,
                        "`goto` is a reserved word with no meaning in AS3"@,
                        s.cur().span,
                    ),
                ),
                stmt(StmtKindView::Empty, s.cur().span),
            ),
            _ => (g.expression_statement)(s),
        },
        KindView::Ident(label) => if s.ahead(1) == KindView::Plain(TokenKind::Colon) {
            let (s1, body) = (g.statement)(s.next().next());
            (
                s1,
                stmt(
                    StmtKindView::Labeled { label, body: Box::new(body) },
                    s.cur().span.through(body.span),
                ),
            )
        } else {
            (g.expression_statement)(s)
        },
        _ => (g.expression_statement)(s),
    }
}

#[verifier::opaque]
pub open spec fn expression_statement(g: Grammar, s: PState) -> (PState, StmtView) {
    let (s1, e) = (g.expression)(s);
    (s1.semicolon(), stmt(StmtKindView::Expr(e), e.span))
}

// Variables.

#[verifier::opaque]
pub open spec fn binding(g: Grammar, s: PState) -> (PState, BindingView) {
    let (s1, ty) = (g.annotation)(s.ident());
    let (s2, init) = (g.initializer)(s1);
    (
        s2,
        BindingView {
            name: s.name(),
            ty,
            init,
            span: s.cur().span.through(declared_end(init, ty, s.cur().span)),
        },
    )
}

#[verifier::opaque]
pub open spec fn binding_list(g: Grammar, s: PState, acc: Seq<BindingView>) -> (
    PState,
    Seq<BindingView>,
) {
    let (s1, b) = (g.binding)(s);
    if s1.at(TokenKind::Comma) {
        (g.binding_list)(s1.next(), acc.push(b))
    } else {
        (s1, acc.push(b))
    }
}

/// `var` or `const` and its bindings.
#[verifier::opaque]
pub open spec fn var_declaration(g: Grammar, s: PState) -> (PState, VarDeclView) {
    let (s1, bindings) = (g.binding_list)(s.next(), Seq::empty());
    (
        s1,
        VarDeclView {
            is_const: s.at(TokenKind::Const),
            bindings,
            span: s.cur().span.through(bindings.last().span),
        },
    )
}

#[verifier::opaque]
pub open spec fn var_statement(g: Grammar, s: PState) -> (PState, StmtView) {
    let (s1, d) = (g.var_declaration)(s);
    (s1.semicolon(), stmt(StmtKindView::VarDecl(d), d.span))
}

#[verifier::opaque]
pub open spec fn function_statement(g: Grammar, s: PState) -> (PState, StmtView) {
    let (s1, f) = (g.function)(s.next(), s.cur().span, true);
    (s1, stmt(StmtKindView::Function(Box::new(f)), f.span))
}

// Control flow.

#[verifier::opaque]
pub open spec fn control(g: Grammar, s: PState) -> (PState, StmtView) {
    if s.at(TokenKind::If) {
        (g.if_statement)(s)
    } else if s.at(TokenKind::While) {
        (g.while_statement)(s)
    } else if s.at(TokenKind::Do) {
        (g.do_while_statement)(s)
    } else if s.at(TokenKind::For) {
        (g.for_statement)(s)
    } else if s.at(TokenKind::Switch) {
        (g.switch_statement)(s)
    } else if s.at(TokenKind::Break) || s.at(TokenKind::Continue) {
        break_or_continue(s)
    } else if s.at(TokenKind::Return) {
        (g.return_statement)(s)
    } else if s.at(TokenKind::Throw) {
        (g.throw_statement)(s)
    } else {
        (g.try_statement)(s)
    }
}

#[verifier::opaque]
pub open spec fn if_statement(g: Grammar, s: PState) -> (PState, StmtView) {
    let (s1, cond) = (g.paren_expression)(s.next());
    let (s2, a) = (g.statement)(s1);
    if s2.at(TokenKind::Else) {
        let (s3, b) = (g.statement)(s2.next());
        (
            s3,
            stmt(
                StmtKindView::If {
                    cond,
                    then_branch: Box::new(a),
                    else_branch: Some(Box::new(b)),
                },
                s.cur().span.through(b.span),
            ),
        )
    } else {
        (
            s2,
            stmt(
                StmtKindView::If { cond, then_branch: Box::new(a), else_branch: None },
                s.cur().span.through(a.span),
            ),
        )
    }
}

#[verifier::opaque]
pub open spec fn while_statement(g: Grammar, s: PState) -> (PState, StmtView) {
    let (s1, cond) = (g.paren_expression)(s.next());
    let (s2, body) = (g.statement)(s1);
    (
        s2,
        stmt(
            StmtKindView::While { cond, body: Box::new(body) },
            s.cur().span.through(body.span),
        ),
    )
}

#[verifier::opaque]
pub open spec fn do_while_statement(g: Grammar, s: PState) -> (PState, StmtView) {
    let (s1, body) = (g.statement)(s.next());
    let (s2, cond) = (g.paren_expression)(s1.expect(TokenKind::While));
    (
        s2.semicolon(),
        stmt(
            StmtKindView::DoWhile { body: Box::new(body), cond },
            s.cur().span.through(cond.span),
        ),
    )
}

/// `for (init; cond; update)`, `for (x in obj)` and `for each (x in obj)`. In
/// the head `in` is no operator.
#[verifier::opaque]
pub open spec fn for_statement(g: Grammar, s: PState) -> (PState, StmtView) {
    let start = s.cur().span;
    let is_each = s.next().at_word("each");
    let s1 = (if is_each {
        s.next().next()
    } else {
        s.next()
    }).expect(TokenKind::LParen);
    if !is_each && s1.at(TokenKind::Semicolon) {
        c_style(g, s1.next(), start, None)
    } else if s1.at(TokenKind::Var) || s1.at(TokenKind::Const) {
        let (h, d) = (g.var_declaration)(PState { no_in: true, ..s1 });
        for_var_rest(g, PState { no_in: s1.no_in, ..h }, d, start, is_each)
    } else {
        let (h, e) = (g.expression)(PState { no_in: true, ..s1 });
        for_expr_rest(g, PState { no_in: s1.no_in, ..h }, e, start, is_each)
    }
}

/// `cond; update) body` after an initializer.
pub open spec fn c_style(g: Grammar, s: PState, start: Span, init: Option<Box<ForInitView>>) -> (
    PState,
    StmtView,
) {
    let (s1, cond, update, body) = (g.for_tail)(s);
    (
        s1,
        stmt(
            StmtKindView::For { init, cond, update, body: Box::new(body) },
            start.through(body.span),
        ),
    )
}

/// `object) body` after a loop variable.
pub open spec fn in_style(
    g: Grammar,
    s: PState,
    start: Span,
    is_each: bool,
    target: ForInTargetView,
) -> (PState, StmtView) {
    let (s1, object, body) = (g.for_in_tail)(s);
    (
        s1,
        stmt(
            StmtKindView::ForIn { is_each, target, object, body: Box::new(body) },
            start.through(body.span),
        ),
    )
}

/// A loop whose head declares variables.
#[verifier::opaque]
pub open spec fn for_var_rest(
    g: Grammar,
    s: PState,
    d: VarDeclView,
    start: Span,
    is_each: bool,
) -> (PState, StmtView) {
    if s.at(TokenKind::In) {
        let s1 = if d.bindings.len() > 1 {
            s.next().complain(
                UNEXPECTED_TOKEN,
                "`for..in` allows exactly one loop variable"@,
                d.span,
            )
        } else {
            s.next()
        };
        in_style(g, s1, start, is_each, ForInTargetView::VarDecl(d))
    } else {
        c_style(
            g,
            each_needs_in(s, is_each, start).expect(TokenKind::Semicolon),
            start,
            Some(Box::new(ForInitView::VarDecl(d))),
        )
    }
}

/// A loop whose head starts with an expression.
#[verifier::opaque]
pub open spec fn for_expr_rest(
    g: Grammar,
    s: PState,
    e: ExprView,
    start: Span,
    is_each: bool,
) -> (PState, StmtView) {
    if s.at(TokenKind::In) {
        in_style(g, check_target(s.next(), e), start, is_each, ForInTargetView::Expr(e))
    } else {
        c_style(
            g,
            each_needs_in(s, is_each, start).expect(TokenKind::Semicolon),
            start,
            Some(Box::new(ForInitView::Expr(e))),
        )
    }
}

pub open spec fn each_needs_in(s: PState, is_each: bool, start: Span) -> PState {
    if is_each {
        s.complain(FOR_EACH_REQUIRES_IN, "`for each` requires an `in` loop"@, start)
    } else {
        s
    }
}

/// An expression, unless the token that ends it stands here already.
#[verifier::opaque]
pub open spec fn optional_expression(g: Grammar, s: PState, end: TokenKind) -> (
    PState,
    Option<ExprView>,
) {
    if s.at(end) {
        (s, None)
    } else {
        let (s1, e) = (g.expression)(s);
        (s1, Some(e))
    }
}

#[verifier::opaque]
pub open spec fn for_tail(g: Grammar, s: PState) -> (
    PState,
    Option<ExprView>,
    Option<ExprView>,
    StmtView,
) {
    let (s1, cond) = (g.optional_expression)(s, TokenKind::Semicolon);
    let (s2, update) = (g.optional_expression)(
        s1.expect(TokenKind::Semicolon),
        TokenKind::RParen,
    );
    let (s3, body) = (g.statement)(s2.expect(TokenKind::RParen));
    (s3, cond, update, body)
}

#[verifier::opaque]
pub open spec fn for_in_tail(g: Grammar, s: PState) -> (PState, ExprView, StmtView) {
    let (s1, object) = (g.expression)(s);
    let (s2, body) = (g.statement)(s1.expect(TokenKind::RParen));
    (s2, object, body)
}

#[verifier::opaque]
pub open spec fn switch_statement(g: Grammar, s: PState) -> (PState, StmtView) {
    let (s1, scrutinee) = (g.paren_expression)(s.next());
    let (s2, cases) = (g.case_list)(
        s1.expect(TokenKind::LBrace),
        false,
        Seq::empty(),
    );
    (
        s2.expect(TokenKind::RBrace),
        stmt(
            StmtKindView::Switch { scrutinee, cases },
            s.cur().span.through(s2.cur().span),
        ),
    )
}

/// The clauses of a `switch`; `seen` once there was a `default`.
#[verifier::opaque]
pub open spec fn case_list(g: Grammar, s: PState, seen: bool, acc: Seq<SwitchCaseView>) -> (
    PState,
    Seq<SwitchCaseView>,
) {
    if s.at(TokenKind::RBrace) || s.at(TokenKind::Eof) {
        (s, acc)
    } else if s.at(TokenKind::Case) {
        let (s1, test) = (g.expression)(s.next());
        let (s2, c) = (g.case_body)(
            s1.expect(TokenKind::Colon),
            s.cur().span,
            Some(test),
        );
        (g.case_list)(s2, seen, acc.push(c))
    } else if s.at(TokenKind::Default) {
        let s1 = s.next().expect(TokenKind::Colon);
        let s2 = if seen {
            s1.complain(
                UNEXPECTED_TOKEN,
                "duplicate `default` clause in `switch`"@,
                s.cur().span,
            )
        } else {
            s1
        };
        let (s3, c) = (g.case_body)(s2, s.cur().span, None);
        (g.case_list)(s3, true, acc.push(c))
    } else {
        let s1 = recover(s.complain_found("expected `case` or `default`, found "@));
        (g.case_list)(unstick(s, s1), seen, acc)
    }
}

#[verifier::opaque]
pub open spec fn case_body(g: Grammar, s: PState, start: Span, test: Option<ExprView>) -> (
    PState,
    SwitchCaseView,
) {
    let (s1, body) = (g.stmt_list)(s, true, Seq::empty());
    (
        s1,
        SwitchCaseView {
            test,
            body,
            span: start.through(
                if body.len() > 0 {
                    body.last().span
                } else {
                    start
                },
            ),
        },
    )
}

/// A label stands on the line of its keyword.
pub open spec fn break_or_continue(s: PState) -> (PState, StmtView) {
    let s1 = s.next();
    let (s2, label) = if s1.same_line() && s1.at_ident() {
        (s1.next(), Some(s1.name()))
    } else {
        (s1, None)
    };
    (
        s2.semicolon(),
        stmt(
            if s.at(TokenKind::Break) {
                StmtKindView::Break { label }
            } else {
                StmtKindView::Continue { label }
            },
            s.cur().span,
        ),
    )
}

/// The value stands on the line of the `return`.
#[verifier::opaque]
pub open spec fn return_statement(g: Grammar, s: PState) -> (PState, StmtView) {
    let start = s.cur().span;
    let s1 = s.next();
    if s1.same_line() {
        let (s2, e) = (g.expression)(s1);
        (
            s2.semicolon(),
            stmt(StmtKindView::Return { value: Some(e) }, start.through(e.span)),
        )
    } else {
        (s1.semicolon(), stmt(StmtKindView::Return { value: None }, start.through(start)))
    }
}

#[verifier::opaque]
pub open spec fn throw_statement(g: Grammar, s: PState) -> (PState, StmtView) {
    let (s1, e) = (g.expression)(s.next());
    (s1.semicolon(), stmt(StmtKindView::Throw { value: e }, s.cur().span.through(e.span)))
}

#[verifier::opaque]
pub open spec fn catch_list(g: Grammar, s: PState, acc: Seq<CatchClauseView>) -> (
    PState,
    Seq<CatchClauseView>,
) {
    if s.at(TokenKind::Catch) {
        let s1 = s.next().expect(TokenKind::LParen);
        let (s2, ty) = (g.annotation)(s1.ident());
        let (s3, body) = (g.block)(s2.expect(TokenKind::RParen));
        (g.catch_list)(
            s3,
            acc.push(
                CatchClauseView {
                    name: s1.name(),
                    ty,
                    body,
                    span: s.cur().span.through(body.span),
                },
            ),
        )
    } else {
        (s, acc)
    }
}

/// A `try` needs a `catch` or a `finally`.
#[verifier::opaque]
pub open spec fn try_statement(g: Grammar, s: PState) -> (PState, StmtView) {
    let start = s.cur().span;
    let (s1, b) = (g.block)(s.next());
    let (s2, catches) = (g.catch_list)(s1, Seq::empty());
    if s2.at(TokenKind::Finally) {
        let (s3, f) = (g.block)(s2.next());
        (
            s3,
            stmt(
                StmtKindView::Try { block: b, catches, finally: Some(f) },
                start.through(f.span),
            ),
        )
    } else if catches.len() == 0 {
        (
            s2.complain(
                UNEXPECTED_TOKEN,
                "`try` needs at least one `catch` or a `finally`"@,
                start,
            ),
            stmt(
                StmtKindView::Try { block: b, catches, finally: None },
                start.through(b.span),
            ),
        )
    } else {
        (
            s2,
            stmt(
                StmtKindView::Try { block: b, catches, finally: None },
                start.through(catches.last().span),
            ),
        )
    }
}

// --- declarations ---------------------------------------------------------------------------

#[verifier::opaque]
pub open spec fn declaration(g: Grammar, s: PState) -> (PState, StmtView) {
    if s.at(TokenKind::Package) {
        (g.package)(s)
    } else if s.at(TokenKind::Import) {
        import(s)
    } else if s.at(TokenKind::Namespace) {
        namespace(s)
    } else if s.at(TokenKind::Use) {
        use_namespace(s)
    } else {
        (g.attributed)(s)
    }
}

/// `.name` for each dot.
pub open spec fn dotted_rest(s: PState, path: Seq<Seq<char>>) -> (PState, Seq<Seq<char>>)
    decreases s.toks.len() - s.pos,
{
    if s.at(TokenKind::Dot) && s.pos + 1 < s.toks.len() {
        let s1 = s.next();
        let s2 = s1.ident();
        if s.pos < s2.pos <= s.toks.len() && s2.toks == s.toks {
            dotted_rest(s2, path.push(s1.name()))
        } else {
            arbitrary()
        }
    } else {
        (s, path)
    }
}

/// `package a.b { directives }`.
#[verifier::opaque]
pub open spec fn package(g: Grammar, s: PState) -> (PState, StmtView) {
    let s1 = s.next();
    let (s2, path) = if s1.at_ident() {
        dotted_rest(s1.next(), seq![s1.name()])
    } else {
        (s1, Seq::empty())
    };
    let (s3, body) = (g.stmt_list)(
        s2.expect(TokenKind::LBrace),
        false,
        Seq::empty(),
    );
    (
        s3.expect(TokenKind::RBrace),
        stmt(StmtKindView::Package { path, body }, s.cur().span.through(s3.cur().span)),
    )
}

/// The rest of an import path, and whether it ends in `.*`.
pub open spec fn import_rest(s: PState, path: Seq<Seq<char>>) -> (PState, Seq<Seq<char>>, bool)
    decreases s.toks.len() - s.pos,
{
    if s.at(TokenKind::Dot) && s.pos + 1 < s.toks.len() {
        let s1 = s.next();
        if s1.at(TokenKind::Star) {
            (s1.next(), path, true)
        } else {
            let s2 = s1.ident();
            if s.pos < s2.pos <= s.toks.len() && s2.toks == s.toks {
                import_rest(s2, path.push(s1.name()))
            } else {
                arbitrary()
            }
        }
    } else {
        (s, path, false)
    }
}

pub open spec fn import(s: PState) -> (PState, StmtView) {
    let s1 = s.next();
    let (s2, path, wildcard) = import_rest(s1.ident(), seq![s1.name()]);
    (s2.semicolon(), stmt(StmtKindView::Import { path, wildcard }, s.cur().span))
}

/// `namespace n` or `namespace n = "uri"`.
pub open spec fn namespace(s: PState) -> (PState, StmtView) {
    let s1 = s.next();
    let s2 = s1.ident();
    let (s3, uri) = if s2.at(TokenKind::Assign) {
        let v = s2.next();
        match v.cur().kind {
            KindView::Str(t) => (v.next(), Some(t)),
            _ => (
                recover(
                    v.complain(
                        UNEXPECTED_TOKEN,
                        "a namespace initializer must be a string literal"@,
                        v.cur().span,
                    ),
                ),
                None,
            ),
        }
    } else {
        (s2, None)
    };
    (s3.semicolon(), stmt(StmtKindView::NamespaceDecl { name: s1.name(), uri }, s.cur().span))
}

/// `use namespace n`.
pub open spec fn use_namespace(s: PState) -> (PState, StmtView) {
    let s1 = s.next();
    let s2 = if s1.at(TokenKind::Namespace) {
        s1.next()
    } else {
        s1.complain(
            UNEXPECTED_TOKEN,
            "`use` must be followed by `namespace` (SYNTAXERR_ILLEGAL_USE)"@,
            s1.cur().span,
        )
    };
    (s2.ident().semicolon(), stmt(StmtKindView::UseNamespace(s2.name()), s.cur().span))
}

#[verifier::opaque]
pub open spec fn visibility_of(k: KindView) -> Option<Visibility> {
    match k {
        KindView::Plain(TokenKind::Public) => Some(Visibility::Public),
        KindView::Plain(TokenKind::Private) => Some(Visibility::Private),
        KindView::Plain(TokenKind::Protected) => Some(Visibility::Protected),
        KindView::Plain(TokenKind::Internal) => Some(Visibility::Internal),
        _ => None,
    }
}

/// The modifiers with the one that the token is, if it is one other than an
/// access modifier.
#[verifier::opaque]
pub open spec fn modified(k: KindView, a: AttributesView) -> Option<AttributesView> {
    match k {
        KindView::Plain(TokenKind::Static) => Some(AttributesView { is_static: true, ..a }),
        KindView::Plain(TokenKind::Final) => Some(AttributesView { is_final: true, ..a }),
        KindView::Plain(TokenKind::Override) => Some(AttributesView { is_override: true, ..a }),
        KindView::Plain(TokenKind::Dynamic) => Some(AttributesView { is_dynamic: true, ..a }),
        KindView::Plain(TokenKind::Native) => Some(AttributesView { is_native: true, ..a }),
        _ => None,
    }
}

pub open spec fn no_attributes() -> AttributesView {
    AttributesView {
        visibility: None,
        is_static: false,
        is_final: false,
        is_override: false,
        is_dynamic: false,
        is_native: false,
        namespace_: None,
    }
}

/// The modifiers before a declaration; at most one may be an access modifier.
pub open spec fn modifiers(s: PState, a: AttributesView) -> (PState, AttributesView)
    decreases s.toks.len() - s.pos,
{
    proof {
        reveal(PState::complain);
    }
    if s.pos + 1 >= s.toks.len() {
        (s, a)
    } else {
        match visibility_of(s.cur().kind) {
            Some(v) => {
                let s1 = if a.visibility is Some {
                    s.complain(
                        UNEXPECTED_TOKEN,
                        "only one access modifier is allowed"@,
                        s.cur().span,
                    )
                } else {
                    s
                };
                modifiers(s1.next(), AttributesView { visibility: Some(v), ..a })
            },
            None => match modified(s.cur().kind, a) {
                Some(b) => modifiers(s.next(), b),
                None => (s, a),
            },
        }
    }
}

/// A declaration with the modifiers before it.
#[verifier::opaque]
pub open spec fn attributed(g: Grammar, s: PState) -> (PState, StmtView) {
    let start = s.cur().span;
    let (s1, attrs) = modifiers(s, no_attributes());
    if s1.at(TokenKind::Class) {
        (g.class)(s1, start, attrs)
    } else if s1.at(TokenKind::Interface) {
        (g.interface)(s1, start, attrs)
    } else if s1.at(TokenKind::Function) {
        let (s2, f) = (g.function_statement)(s1);
        (s2, stmt(f.kind, start.through(f.span)))
    } else if s1.at(TokenKind::Var) || s1.at(TokenKind::Const) {
        (g.var_statement)(s1)
    } else {
        (
            recover(s1.complain_found("expected a declaration after modifiers, found "@)),
            stmt(StmtKindView::Empty, s1.cur().span),
        )
    }
}

/// `class C.<T> extends B implements I, J { members }`.
#[verifier::opaque]
pub open spec fn class(g: Grammar, s: PState, start: Span, attrs: AttributesView) -> (
    PState,
    StmtView,
) {
    let s1 = s.next();
    let (s2, tps) = type_params(s1.ident());
    let (s3, extends) = if s2.at(TokenKind::Extends) {
        let (x, t) = (g.type_ref)(s2.next());
        (x, Some(t))
    } else {
        (s2, None)
    };
    let (s4, implements) = if s3.at(TokenKind::Implements) {
        (g.type_list)(s3.next(), Seq::empty())
    } else {
        (s3, Seq::empty())
    };
    let (s5, members) = (g.member_list)(
        s4.expect(TokenKind::LBrace),
        Seq::empty(),
    );
    let span = start.through(s5.cur().span);
    (
        s5.expect(TokenKind::RBrace),
        stmt(
            StmtKindView::Class(
                Box::new(
                    ClassDeclView {
                        attrs,
                        name: s1.name(),
                        type_params: tps,
                        extends,
                        implements,
                        members,
                        span,
                    },
                ),
            ),
            span,
        ),
    )
}

#[verifier::opaque]
pub open spec fn member_list(g: Grammar, s: PState, acc: Seq<MemberView>) -> (PState, Seq<MemberView>) {
    if s.at(TokenKind::RBrace) || s.at(TokenKind::Eof) {
        (s, acc)
    } else {
        let (s1, m) = (g.class_member)(s);
        (g.member_list)(
            unstick(s, s1),
            match m {
                Some(x) => acc.push(x),
                None => acc,
            },
        )
    }
}

/// The token can follow the namespace that qualifies a member.
#[verifier::opaque]
pub open spec fn follows_namespace(k: KindView) -> bool {
    match k {
        KindView::Plain(p) => match p {
            TokenKind::Var | TokenKind::Const | TokenKind::Function | TokenKind::Static
            | TokenKind::Final | TokenKind::Override | TokenKind::Native => true,
            _ => false,
        },
        _ => false,
    }
}

/// The modifiers before a member; a name before the declaration is the
/// namespace that qualifies it, which excludes an access modifier.
pub open spec fn member_modifiers(s: PState, a: AttributesView) -> (PState, AttributesView)
    decreases s.toks.len() - s.pos,
{
    proof {
        reveal(PState::complain);
    }
    if s.pos + 1 >= s.toks.len() {
        (s, a)
    } else {
        match visibility_of(s.cur().kind) {
            Some(v) => member_modifiers(s.next(), AttributesView { visibility: Some(v), ..a }),
            None => match s.cur().kind {
                KindView::Ident(name) => if follows_namespace(s.ahead(1)) {
                    let s1 = if a.visibility is Some {
                        s.next().complain(
                            UNEXPECTED_TOKEN,
                            "a namespace qualifier cannot be combined with an access modifier"@,
                            s.cur().span,
                        )
                    } else {
                        s.next()
                    };
                    member_modifiers(s1, AttributesView { namespace_: Some(name), ..a })
                } else {
                    (s, a)
                },
                k => match modified(k, a) {
                    Some(b) => if s.at(TokenKind::Dynamic) {
                        (s, a)
                    } else {
                        member_modifiers(s.next(), b)
                    },
                    None => (s, a),
                },
            },
        }
    }
}

/// `get` or `set` before another name.
pub open spec fn accessor(s: PState) -> Option<SigKind> {
    if s.ahead(1) is Ident && s.at_word("get") {
        Some(SigKind::Getter)
    } else if s.ahead(1) is Ident && s.at_word("set") {
        Some(SigKind::Setter)
    } else {
        None
    }
}

/// `accessor` consumed, if it is there.
pub open spec fn after_accessor(s: PState) -> PState {
    if accessor(s) is Some {
        s.next()
    } else {
        s
    }
}

/// A field, method, getter or setter; `None` for a stray `;` or an error.
#[verifier::opaque]
pub open spec fn class_member(g: Grammar, s: PState) -> (PState, Option<MemberView>) {
    if s.at(TokenKind::Semicolon) {
        (s.next(), None)
    } else {
        let start = s.cur().span;
        let (s1, attrs) = member_modifiers(s, no_attributes());
        if s1.at(TokenKind::Var) || s1.at(TokenKind::Const) {
            let (d, decl) = (g.var_declaration)(s1);
            let s2 = d.semicolon();
            (
                s2,
                Some(
                    MemberView {
                        attrs,
                        kind: MemberKindView::Field(decl),
                        span: start.through(s2.prev_span()),
                    },
                ),
            )
        } else if s1.at(TokenKind::Function) {
            let s2 = s1.next();
            let (s3, f) = (g.function)(after_accessor(s2), s1.cur().span, true);
            (
                s3,
                Some(
                    MemberView {
                        attrs,
                        kind: match accessor(s2) {
                            Some(SigKind::Getter) => MemberKindView::Getter(Box::new(f)),
                            Some(_) => MemberKindView::Setter(Box::new(f)),
                            None => MemberKindView::Method(Box::new(f)),
                        },
                        span: start.through(s3.prev_span()),
                    },
                ),
            )
        } else {
            (recover(s1.complain_found("expected a class member, found "@)), None)
        }
    }
}

/// `interface I extends J, K { signatures }`.
#[verifier::opaque]
pub open spec fn interface(g: Grammar, s: PState, start: Span, attrs: AttributesView) -> (
    PState,
    StmtView,
) {
    let s1 = s.next();
    let s2 = s1.ident();
    let (s3, extends) = if s2.at(TokenKind::Extends) {
        (g.type_list)(s2.next(), Seq::empty())
    } else {
        (s2, Seq::empty())
    };
    let (s4, members) = (g.sig_list)(s3.expect(TokenKind::LBrace), Seq::empty());
    let span = start.through(s4.cur().span);
    (
        s4.expect(TokenKind::RBrace),
        stmt(
            StmtKindView::Interface(
                Box::new(
                    InterfaceDeclView { attrs, name: s1.name(), extends, members, span },
                ),
            ),
            span,
        ),
    )
}

#[verifier::opaque]
pub open spec fn sig_list(g: Grammar, s: PState, acc: Seq<InterfaceMemberView>) -> (
    PState,
    Seq<InterfaceMemberView>,
) {
    if s.at(TokenKind::RBrace) || s.at(TokenKind::Eof) {
        (s, acc)
    } else if s.at(TokenKind::Semicolon) {
        (g.sig_list)(s.next(), acc)
    } else {
        let (s1, m) = (g.interface_member)(s);
        (g.sig_list)(unstick(s, s1), acc.push(m))
    }
}

/// `function name(params):T;`.
#[verifier::opaque]
pub open spec fn interface_member(g: Grammar, s: PState) -> (PState, InterfaceMemberView) {
    let s1 = s.expect(TokenKind::Function);
    let s2 = after_accessor(s1);
    let (s3, params, return_type) = (g.signature)(s2.ident());
    let s4 = s3.semicolon();
    (
        s4,
        InterfaceMemberView {
            kind: match accessor(s1) {
                Some(k) => k,
                None => SigKind::Method,
            },
            name: s2.name(),
            params,
            return_type,
            span: s.cur().span.through(s4.prev_span()),
        },
    )
}

// --- programs -----------------------------------------------------------------------------

/// The directives up to the end of input.
#[verifier::opaque]
pub open spec fn directives(g: Grammar, s: PState, acc: Seq<StmtView>) -> (PState, Seq<StmtView>) {
    if s.at(TokenKind::Eof) {
        (s, acc)
    } else {
        let (s1, x) = (g.statement)(s);
        (g.directives)(unstick(s, s1), acc.push(x))
    }
}

} // verus!
