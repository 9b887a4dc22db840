use volentscript::ast::dump::{dump, Piece};
use volentscript::ast::nodes::Program;
use volentscript::diagnostics::{
    EXPECTED_SEMICOLON, FOR_EACH_REQUIRES_IN, INVALID_ASSIGN_TARGET, UNEXPECTED_TOKEN,
    UNSUPPORTED_SYNTAX,
};
use volentscript::driver;
use volentscript::lexer::token::NumLit;
use volentscript::parser::parse::{parse, parse_text};
use volentscript::source::SourceMap;
use volentscript::span::SourceId;

fn number_text(n: &NumLit) -> String {
    let v: f64 = match n {
        NumLit::Decimal(t) => t.parse().unwrap(),
        NumLit::Whole(v) => *v as f64,
        NumLit::NotANumber => f64::NAN,
    };
    format!("{v}")
}

fn joined(pieces: &[Piece]) -> String {
    let mut out = String::new();
    for p in pieces {
        match p {
            Piece::Text(t) => out.push_str(t),
            Piece::Number(n) => out.push_str(&number_text(n)),
        }
    }
    out
}

fn dump_text(program: &Program) -> String {
    joined(&dump(program))
}

fn parse_dump(name: &str, text: &str) -> String {
    let mut sources = SourceMap::new();
    let file = sources.add(name, text.to_string());
    match parse(&sources, file) {
        Ok(program) => dump_text(&program),
        Err(diags) => diags
            .iter()
            .map(|d| d.render_full(&sources))
            .collect::<Vec<_>>()
            .join("\n"),
    }
}

#[test]
fn asi_restricted_productions() {
    // `return` + newline returns undefined; the dangling expression becomes
    // its own statement.
    let dump = parse_dump("asi.as", "function f() {\n    return\n    1 + 2\n}\n");
    let ret = dump.find("Return").expect("has return");
    let binary = dump.find("Binary Add").expect("has expr stmt");
    assert!(
        ret < binary,
        "expression must not attach to return:\n{dump}"
    );

    // Postfix ++ must not attach across a line break: `a\n++b` is
    // `a; ++b`.
    let dump = parse_dump("asi2.as", "a\n++b\n");
    assert!(
        dump.contains("Unary PreInc"),
        "++ must parse as prefix on b:\n{dump}"
    );
    assert!(
        !dump.contains("Postfix"),
        "no postfix across newline:\n{dump}"
    );
}

#[test]
fn nested_type_close_splits_shift_tokens() {
    let dump = parse_dump("v.as", "var m:Vector.<Vector.<Vector.<uint>>>;");
    assert!(
        dump.contains("type=Vector.<Vector.<Vector.<uint>>>"),
        "nested .<> must close by splitting >> tokens:\n{dump}"
    );
}

#[test]
fn nullable_type_suffix() {
    let dump = parse_dump("n.as", "var s:String? = null;");
    assert!(dump.contains("type=String?"), "{dump}");
}

#[test]
fn operators_bind_by_precedence() {
    assert_eq!(
        parse_dump("p.as", "a + b * c - d;"),
        "Program\n  ExprStmt\n    Binary Sub\n      Binary Add\n        Ident a\n        Binary Mul\n          Ident b\n          Ident c\n      Ident d\n"
    );
}

#[test]
fn assignment_associates_to_the_right() {
    assert_eq!(
        parse_dump("p.as", "a = b += 1.5;"),
        "Program\n  ExprStmt\n    Assign Assign\n      Ident a\n      Assign Add\n        Ident b\n        Number 1.5\n"
    );
}

/// The codes of the errors of a text, in order.
fn codes(text: &str) -> Vec<u16> {
    match parse_text(SourceId(0), text) {
        Ok(_) => vec![],
        Err(ds) => ds.iter().map(|d| d.code.unwrap().0).collect(),
    }
}

#[test]
fn each_syntax_error_is_reported() {
    assert_eq!(codes("var x = ;"), vec![UNEXPECTED_TOKEN]);
    assert_eq!(codes("a b"), vec![EXPECTED_SEMICOLON]);
    assert_eq!(codes("1 = 2;"), vec![INVALID_ASSIGN_TARGET]);
    assert_eq!(codes("for each (var x; ; ) {}"), vec![FOR_EACH_REQUIRES_IN]);
    assert!(codes("a..b;").contains(&UNSUPPORTED_SYNTAX));
    let refused = driver::parse_dump("d.as", "a..b;".to_string()).unwrap_err();
    assert!(refused.rendered[0].contains("which is not part of this language (SPECS §5)"));
    assert_eq!(codes("a\nb"), vec![]);
}

#[test]
fn errors_are_rendered_with_their_place() {
    assert_eq!(
        parse_dump("e.as", "var ok;\n  a b"),
        "error[E0007]: expected `;` or a line break before identifier `b`\n --> e.as:2:5\n  a b\n    ^"
    );
}

#[test]
fn statements_of_every_kind_parse() {
    let text = "package p { class A extends B implements C, D { var x:int = 1; \
        public function get y():int { return 1; } function A(...rest) { super(1); } } \
        interface I extends J { function f(a:int = 1, b = 2):void; } }\n\
        import a.b.*; namespace n; use namespace n;\n\
        outer: for (var i:int = 0; i < 3; i++) { if (i) continue outer; else break; }\n\
        for (var k in o) {} for each (v in o) {} while (0) {} do { } while (1);\n\
        switch (x) { case 1: a; break; default: b; }\n\
        try { throw e; } catch (q:Error) { } finally { }\n";
    let d = parse_dump("s.as", text);
    assert!(d.starts_with("Program\n"), "{d}");
}

#[test]
fn expressions_of_every_kind_parse() {
    let text = "x = a ? b : c, d; f = function g(n:int):void { }; \
        o = { a: 1, 'b': 2, 3: [1, , 2] }; v = new Vector.<int>(3); w = new <int>[1, 2]; \
        y = a.b.c[d](e, f) is T as U; z = typeof -x + +y - ~z * !w / void 0 % delete q.r; \
        p = a++ + --b; t = x instanceof Y && k in m || !n;";
    let d = parse_dump("x.as", text);
    assert!(d.starts_with("Program\n"), "{d}");
}

#[test]
fn driver_dumps_a_text_or_renders_its_errors() {
    let ok = driver::parse_dump("a.as", "a;".to_string()).unwrap();
    assert_eq!(joined(&ok), "Program\n  ExprStmt\n    Ident a\n");
    let err = driver::parse_dump("a.as", "a b".to_string()).unwrap_err();
    assert_eq!(err.rendered, vec!["error[E0007]: expected `;` or a line break before identifier `b`\n --> a.as:1:3\na b\n  ^"]);
}

#[test]
fn the_prelude_parses_and_goes_in_front() {
    let p = driver::parse_with_prelude(SourceId(1), driver::PRELUDE, SourceId(0), "a;").unwrap();
    assert_eq!(p.directives.len(), 7);
    let d = dump_text(&p);
    assert!(d.contains("Class name=Error"), "{d}");
    assert!(d.ends_with("  ExprStmt\n    Ident a\n"), "{d}");
    let e = driver::parse_with_prelude(SourceId(1), "a b", SourceId(0), "c d").unwrap_err();
    assert_eq!(e.len(), 1);
    assert_eq!(e[0].span.unwrap().source, SourceId(1));
}

#[test]
fn the_dump_depends_on_the_tree_alone() {
    let text = "for (var i:int = 0; i < 3; i++) f(i, {a: [1, 2.5]});";
    assert_eq!(parse_dump("a.as", text), parse_dump("b.as", text));
    assert_eq!(parse_dump("a.as", "x = y;"), parse_dump("a.as", "x   =\ny"));
    assert_ne!(parse_dump("a.as", "x = y;"), parse_dump("a.as", "x = z;"));
}

#[test]
fn a_deeper_dump_is_the_dump_moved_right() {
    let text = "if (a) { f(\"x\\ny\", 2.5); } else for each (var k in o) g(k);";
    let margin = parse_dump("a.as", text);
    let inside = parse_dump("a.as", &format!("{{ {text} }}"));
    assert!(margin.ends_with('\n'));
    let moved: String = margin
        .lines()
        .skip(1)
        .map(|l| format!("  {l}\n"))
        .collect();
    assert_eq!(inside, format!("Program\n  Block\n{moved}"));
}
