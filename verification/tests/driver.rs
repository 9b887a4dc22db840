use volentscript::binarytrees::{check, make};
use volentscript::diagnostics::{Diagnostic, ErrorCode, Severity};
use volentscript::driver::{
    default_output, exit_status, link_command, pick_runtime, runtime_places, settle, zig_target,
    BuildOptions, Errors, LinkArg, RuntimePlace,
};
use volentscript::sema::TProgram;
use volentscript::source::SourceMap;
use volentscript::span::{SourceId, Span};
use volentscript::text::{encode_utf16, push_signed};

#[test]
fn messages_are_rendered_as_errors() {
    assert_eq!(Errors::message("no").rendered, vec!["error: no"]);
}

#[test]
fn targets_map_to_the_linker() {
    assert_eq!(zig_target(&None).unwrap(), None);
    assert_eq!(
        zig_target(&Some("x86_64-unknown-linux-gnu".to_string())).unwrap(),
        Some("x86_64-linux-gnu".to_string())
    );
    assert_eq!(
        zig_target(&Some("aarch64-unknown-linux-gnu".to_string())).unwrap(),
        Some("aarch64-linux-gnu".to_string())
    );
    assert_eq!(
        zig_target(&Some("wasm32".to_string())).unwrap_err().rendered,
        vec!["error: unsupported target `wasm32` — supported: x86_64-unknown-linux-gnu, aarch64-unknown-linux-gnu"]
    );
}

#[test]
fn link_commands_for_host_and_cross_targets() {
    let c = link_command(false, true);
    assert_eq!(c.program, "cc");
    assert_eq!(spelled(&c.args), vec!["a.o", "rt.a", "-o", "a", "-framework", "CoreFoundation"]);
    let c = link_command(false, false);
    assert_eq!(spelled(&c.args), vec!["a.o", "rt.a", "-o", "a"]);
    let c = link_command(true, true);
    assert_eq!(c.program, "zig");
    assert_eq!(
        spelled(&c.args),
        vec!["cc", "-target", "t", "-lunwind", "a.o", "rt.a", "-o", "a"]
    );
}

/// The arguments for the object `a.o`, the runtime `rt.a`, the output `a` and the
/// target `t`.
fn spelled(args: &[LinkArg]) -> Vec<&'static str> {
    args.iter()
        .map(|a| match a {
            LinkArg::Word(w) => *w,
            LinkArg::Target => "t",
            LinkArg::Object => "a.o",
            LinkArg::Runtime => "rt.a",
            LinkArg::Output => "a",
        })
        .collect()
}

#[test]
fn the_executable_is_named_after_the_input() {
    let names = [
        "main.vlt", "main", ".main", ".main.vlt", "a.b.c", "main.", "..a", ".", "é.ü", "",
    ];
    for n in names {
        let path = std::path::Path::new(n);
        let stem = path.file_stem().unwrap_or_default().to_str().unwrap();
        assert_eq!(default_output(path.file_name().map(|f| f.to_str().unwrap())), stem);
    }
    assert_eq!(default_output(Some("main.vlt")), "main");
    assert_eq!(default_output(Some("a.b.c")), "a.b");
    assert_eq!(default_output(Some(".main")), ".main");
    assert_eq!(default_output(Some("main")), "main");
    assert_eq!(default_output(None), "");
}

#[test]
fn the_runtime_is_looked_for_in_order() {
    let host = BuildOptions::default();
    assert_eq!(
        runtime_places(&host, true, true),
        vec![RuntimePlace::Beside, RuntimePlace::Above]
    );
    assert_eq!(
        pick_runtime(&host, true, true, &vec![false, true]).unwrap(),
        RuntimePlace::Above
    );
    assert_eq!(
        pick_runtime(&host, true, true, &vec![false, false]).unwrap_err().rendered,
        vec!["error: cannot locate libruntime.a next to the compiler; pass --runtime-lib"]
    );
    let given = BuildOptions { runtime_lib: Some("r.a".into()), ..BuildOptions::default() };
    assert_eq!(pick_runtime(&given, true, true, &vec![true]).unwrap(), RuntimePlace::Given);
    assert_eq!(
        pick_runtime(&given, true, true, &vec![false]).unwrap_err().rendered,
        vec!["error: runtime library not found at `r.a`"]
    );
    let cross = BuildOptions { target: Some("t".into()), ..BuildOptions::default() };
    assert_eq!(
        pick_runtime(&cross, true, true, &vec![false, true]).unwrap(),
        RuntimePlace::TargetDebug
    );
    assert_eq!(
        pick_runtime(&cross, true, true, &vec![false, false]).unwrap_err().rendered,
        vec!["error: no runtime for `t` — build it with `cargo build -p runtime --target t --release` or pass --runtime-lib"]
    );
}

#[test]
fn checks_settle_into_warnings_or_errors() {
    let mut sources = SourceMap::new();
    let file = sources.add("w.as", "ab\ncd".to_string());
    let warning = || Diagnostic {
        severity: Severity::Warning,
        code: None,
        message: "odd".to_string(),
        span: Some(Span::new(file, 3, 5)),
    };
    let typed = TProgram { functions: vec![] };
    let (_, warnings) = settle(Some(typed), vec![warning()], &sources).unwrap();
    assert_eq!(warnings, vec!["warning: odd\n --> w.as:2:1\ncd\n^^"]);
    let errors = settle(None, vec![warning()], &sources).unwrap_err();
    assert_eq!(errors.rendered.len(), 1);
}

#[test]
fn diagnostics_without_a_place_are_one_line() {
    let d = Diagnostic::error(ErrorCode(12), "m");
    assert_eq!(d.render_full(&SourceMap::new()), "error[E0012]: m");
    let d = Diagnostic::error(ErrorCode(12345), "m").with_span(Span::new(SourceId(4), 0, 1));
    assert_eq!(d.render_full(&SourceMap::new()), "error[E12345]: m");
}

#[test]
fn carets_stay_on_the_first_line_and_count_characters() {
    let mut sources = SourceMap::new();
    let file = sources.add("u.as", "é + ü\nnext".to_string());
    let d = Diagnostic::error(ErrorCode(1), "m").with_span(Span::new(file, 5, 11));
    assert_eq!(d.render_full(&sources), "error[E0001]: m\n --> u.as:1:5\né + ü\n    ^");
    let end = Diagnostic::error(ErrorCode(1), "m").with_span(Span::new(file, 12, 12));
    assert_eq!(end.render_full(&sources), "error[E0001]: m\n --> u.as:2:5\nnext\n    ^");
}

#[test]
fn exit_codes_are_clamped() {
    assert_eq!(exit_status(-5), 0);
    assert_eq!(exit_status(7), 7);
    assert_eq!(exit_status(300), 255);
}

#[test]
fn full_trees_have_a_node_less_than_a_power_of_two() {
    for depth in 0..12 {
        assert_eq!(check(&make(depth)), (1 << (depth + 1)) - 1);
    }
}

#[test]
fn signed_numbers_and_code_units() {
    let mut s = String::new();
    push_signed(&mut s, i64::MIN);
    push_signed(&mut s, 0);
    assert_eq!(s, "-92233720368547758080");
    let units: Vec<u16> = "aé😀".encode_utf16().collect();
    assert_eq!(encode_utf16("aé😀"), units);
}
