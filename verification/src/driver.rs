//! The driver: what happens between reading a file and writing a result.

use vstd::prelude::*;

use crate::ast::dump::{dump, dumped, said, Piece};
use crate::ast::laws::law_dump_is_of_what_is_said;
use crate::ast::nodes::Program;
use crate::ast::view::{program_view, stmts_append, ProgramView};
use crate::codegen::opts::OptLevel;
use crate::diagnostics::{diag_views, DiagView, Diagnostic};
use crate::lexer::chars::byte_len;
use crate::parser::parse::{errors_of, parse, parse_text, parsed, program_of};
use crate::render::{rendered_full, texts_fit};
use crate::sema::TProgram;
use crate::source::{SourceFile, SourceMap};
use crate::span::SourceId;
use crate::text::{chars_of, push_text, same_text};

verus! {

/// Options for one `build` invocation.
#[derive(Debug)]
pub struct BuildOptions {
    /// The entry file.
    pub input: String,
    /// The output executable; `None` is the input's name without extension.
    pub output: Option<String>,
    /// The runtime static library; `None` is `libruntime.a` next to the
    /// compiler.
    pub runtime_lib: Option<String>,
    pub opt: OptLevel,
    /// Target triple; `None` is the host.
    pub target: Option<String>,
}

/// A failed compilation: the diagnostics, rendered in source order.
#[derive(Debug)]
pub struct Errors {
    pub rendered: Vec<String>,
}

/// What checking a file reports.
#[derive(Debug)]
pub struct CheckReport {
    /// Rendered warnings.
    pub warnings: Vec<String>,
    /// The typed tree.
    pub dump: String,
}

pub open spec fn texts_of(l: Seq<String>) -> Seq<Seq<char>> {
    l.map_values(|s: String| s@)
}

/// Each diagnostic, rendered.
pub open spec fn all_rendered(ds: Seq<DiagView>, files: Seq<SourceFile>) -> Seq<Seq<char>> {
    ds.map_values(|d: DiagView| rendered_full(d, files))
}

impl Default for BuildOptions {
    fn default() -> (r: BuildOptions)
        ensures
            r.input@ == Seq::<char>::empty(),
            r.output is None,
            r.runtime_lib is None,
            r.opt == OptLevel::O2,
            r.target is None,
    {
        BuildOptions {
            input: String::new(),
            output: None,
            runtime_lib: None,
            opt: OptLevel::O2,
            target: None,
        }
    }
}

impl Errors {
    /// The diagnostics, rendered against the sources.
    pub fn new(diags: Vec<Diagnostic>, sources: &SourceMap) -> (r: Errors)
        requires
            texts_fit(sources.files@),
        ensures
            texts_of(r.rendered@) == all_rendered(diag_views(diags@), sources.files@),
    {
        let mut rendered: Vec<String> = Vec::new();
        let mut k: usize = 0;
        while k < diags.len()
            invariant
                k <= diags@.len(),
                rendered@.len() == k,
                texts_fit(sources.files@),
                forall|i: int|
                    0 <= i < k ==> (#[trigger] rendered@[i])@ == rendered_full(
                        diags@[i]@,
                        sources.files@,
                    ),
            decreases diags@.len() - k,
        {
            rendered.push(diags[k].render_full(sources));
            k = k + 1;
        }
        assert(texts_of(rendered@) =~= all_rendered(diag_views(diags@), sources.files@));
        Errors { rendered }
    }

    /// One message without a place.
    pub fn message(msg: &str) -> (r: Errors)
        ensures
            texts_of(r.rendered@) == seq!["error: "@ + msg@],
    {
        let mut s = "error: ".to_owned();
        push_text(&mut s, msg);
        let mut rendered: Vec<String> = Vec::new();
        rendered.push(s);
        assert(texts_of(rendered@) =~= seq!["error: "@ + msg@]);
        Errors { rendered }
    }
}

/// The source map with one text.
pub open spec fn one_file(files: Seq<SourceFile>, name: Seq<char>, text: Seq<char>) -> bool {
    files.len() == 1 && files[0].name@ == name && files[0].text@ == text
}

/// Parses one text and dumps its syntax tree.
pub fn parse_dump(name: &str, text: String) -> (r: Result<Vec<Piece>, Errors>)
    requires
        byte_len(text@) <= u32::MAX,
    ensures
        match r {
            Ok(ps) => errors_of(SourceId(0), text@).len() == 0 && (exists|p: Program| #[trigger]
                program_view(p) == program_of(SourceId(0), text@)) && (forall|p: Program| #[trigger]
                program_view(p) == program_of(SourceId(0), text@) ==> dumped(p) == said(
                    ps@,
                    ps@.len(),
                )),
            Err(e) => errors_of(SourceId(0), text@).len() > 0 && exists|files: Seq<SourceFile>|
                one_file(files, name@, text@) && texts_of(e.rendered@) == #[trigger] all_rendered(
                    errors_of(SourceId(0), text@),
                    files,
                ),
        },
{
    let mut sources = SourceMap::new();
    let ghost t = text@;
    let file = sources.add(name, text);
    assert(one_file(sources.files@, name@, t));
    match parse(&sources, file) {
        Ok(program) => {
            let ps = dump(&program);
            proof {
                assert forall|p: Program| #[trigger] program_view(p) == program_of(SourceId(0), t)
                    implies dumped(p) == said(ps@, ps@.len()) by {
                    law_dump_is_of_what_is_said(p, program);
                }
            }
            Ok(ps)
        },
        Err(ds) => Err(Errors::new(ds, &sources)),
    }
}

/// The error classes that every program is compiled with. The field layout of
/// `Error` (message, name, errorID) is a contract with the runtime.
pub const PRELUDE: &'static str = "
public class Error {
    public var message:String?;
    public var name:String? = \"Error\";
    public var errorID:int;
    public function Error(message:* = \"\", id:int = 0) {
        this.message = \"\" + message;
        errorID = id;
    }
    public function toString():String {
        var n:String = name == null ? \"Error\" : \"\" + name;
        if (message == null || message == \"\")
            return n;
        return n + \": \" + message;
    }
}
public class TypeError extends Error {
    public function TypeError(m:* = \"\", id:int = 0) { super(m, id); name = \"TypeError\"; }
}
public class RangeError extends Error {
    public function RangeError(m:* = \"\", id:int = 0) { super(m, id); name = \"RangeError\"; }
}
public class ReferenceError extends Error {
    public function ReferenceError(m:* = \"\", id:int = 0) { super(m, id); name = \"ReferenceError\"; }
}
public class ArgumentError extends Error {
    public function ArgumentError(m:* = \"\", id:int = 0) { super(m, id); name = \"ArgumentError\"; }
}
public class SyntaxError extends Error {
    public function SyntaxError(m:* = \"\", id:int = 0) { super(m, id); name = \"SyntaxError\"; }
}
";

/// Parses a text with the directives of a prelude in front of its own. The
/// errors of the prelude come alone.
pub fn parse_with_prelude(
    prelude_id: SourceId,
    prelude: &str,
    file: SourceId,
    text: &str,
) -> (r: Result<Program, Vec<Diagnostic>>)
    requires
        byte_len(prelude@) <= u32::MAX,
        byte_len(text@) <= u32::MAX,
    ensures
        match r {
            Ok(p) => {
                &&& errors_of(prelude_id, prelude@).len() == 0
                &&& errors_of(file, text@).len() == 0
                &&& program_view(p) == (ProgramView {
                    directives: parsed(prelude_id, prelude@).1 + parsed(file, text@).1,
                    span: program_of(file, text@).span,
                })
            },
            Err(ds) => if errors_of(prelude_id, prelude@).len() > 0 {
                diag_views(ds@) == errors_of(prelude_id, prelude@)
            } else {
                errors_of(file, text@).len() > 0 && diag_views(ds@) == errors_of(file, text@)
            },
        },
{
    let first = match parse_text(prelude_id, prelude) {
        Ok(p) => p,
        Err(ds) => {
            return Err(ds);
        },
    };
    let program = match parse_text(file, text) {
        Ok(p) => p,
        Err(ds) => {
            return Err(ds);
        },
    };
    let span = program.span;
    let mut directives = first.directives;
    let mut own = program.directives;
    proof {
        stmts_append(directives@, own@);
    }
    directives.append(&mut own);
    Ok(Program { directives, span })
}

/// The linker's name of a target.
pub open spec fn zig_name(target: Seq<char>) -> Option<&'static str> {
    if target == "x86_64-unknown-linux-gnu"@ {
        Some("x86_64-linux-gnu")
    } else if target == "aarch64-unknown-linux-gnu"@ {
        Some("aarch64-linux-gnu")
    } else {
        None
    }
}

/// Maps a target triple to the linker's spelling; `None` is the host, which
/// needs none. An unknown triple is an error that names the supported ones.
pub fn zig_target(target: &Option<String>) -> (r: Result<Option<String>, Errors>)
    ensures
        match r {
            Ok(None) => target is None,
            Ok(Some(z)) => target matches Some(t) && zig_name(t@) matches Some(name) && z@
                == name@,
            Err(e) => target matches Some(t) && zig_name(t@) is None && texts_of(e.rendered@)
                == seq![
                "error: "@ + ("unsupported target `"@ + t@
                    + "` — supported: x86_64-unknown-linux-gnu, aarch64-unknown-linux-gnu"@),
            ],
        },
{
    match target {
        None => Ok(None),
        Some(t) => {
            if same_text(t.as_str(), "x86_64-unknown-linux-gnu") {
                Ok(Some("x86_64-linux-gnu".to_owned()))
            } else if same_text(t.as_str(), "aarch64-unknown-linux-gnu") {
                Ok(Some("aarch64-linux-gnu".to_owned()))
            } else {
                let mut m = "unsupported target `".to_owned();
                push_text(&mut m, t.as_str());
                push_text(
                    &mut m,
                    "` — supported: x86_64-unknown-linux-gnu, aarch64-unknown-linux-gnu",
                );
                Err(Errors::message(m.as_str()))
            }
        },
    }
}

// --- Checking ----------------------------------------------------------------------------

/// What becomes of a type check: the typed program with the rendered warnings,
/// or the rendered errors.
pub fn settle(
    program: Option<TProgram>,
    diagnostics: Vec<Diagnostic>,
    sources: &SourceMap,
) -> (r: Result<(TProgram, Vec<String>), Errors>)
    requires
        texts_fit(sources.files@),
    ensures
        match r {
            Ok((typed, warnings)) => program == Some(typed) && texts_of(warnings@) == all_rendered(
                diag_views(diagnostics@),
                sources.files@,
            ),
            Err(e) => program is None && texts_of(e.rendered@) == all_rendered(
                diag_views(diagnostics@),
                sources.files@,
            ),
        },
{
    let all = Errors::new(diagnostics, sources);
    match program {
        Some(typed) => Ok((typed, all.rendered)),
        None => Err(all),
    }
}

// --- The output --------------------------------------------------------------------------

/// A file name up to its last dot before place `k`, the whole name if there is
/// none: a dot in front does not count.
pub open spec fn stem_before(name: Seq<char>, k: int) -> Seq<char>
    decreases k,
{
    if k <= 1 {
        name
    } else if name[k - 1] == '.' {
        name.take(k - 1)
    } else {
        stem_before(name, k - 1)
    }
}

/// A file name without its extension.
pub open spec fn stem(name: Seq<char>) -> Seq<char> {
    stem_before(name, name.len() as int)
}

/// The name of the executable if the options give none: that of the input
/// without its extension, and nothing if the input's path ends in no name.
pub fn default_output(name: Option<&str>) -> (r: String)
    ensures
        r@ == match name {
            Some(n) => stem(n@),
            None => Seq::empty(),
        },
{
    let mut out = String::new();
    if let Some(n) = name {
        let all = chars_of(n);
        let mut end: usize = all.len();
        while end > 1 && all[end - 1] != '.'
            invariant
                all@ == n@,
                end <= all@.len(),
                stem(n@) == stem_before(n@, end as int),
            decreases end,
        {
            end = end - 1;
        }
        let stop: usize = if end > 1 {
            end - 1
        } else {
            all.len()
        };
        assert(stem(n@) =~= all@.take(stop as int));
        let mut i: usize = 0;
        while i < stop
            invariant
                i <= stop <= all@.len(),
                out@ == all@.take(i as int),
            decreases stop - i,
        {
            out.push(all[i]);
            i = i + 1;
            assert(out@ =~= all@.take(i as int));
        }
    }
    assert(name is None ==> out@ =~= Seq::empty());
    out
}

// --- Linking -----------------------------------------------------------------------------

/// One argument of the linker: a word, or what stands for the target that `zig`
/// knows or for the path of a file.
#[derive(Clone, Copy, Debug, PartialEq, Eq)]
pub enum LinkArg {
    Word(&'static str),
    Target,
    Object,
    Runtime,
    Output,
}

/// A command: the program and its arguments.
#[derive(Debug)]
pub struct LinkCommand {
    pub program: &'static str,
    pub args: Vec<LinkArg>,
}

/// The arguments of the linker: for a cross target those of `zig cc` with
/// unwinding support, then the object, the runtime and the output, and on a
/// macOS host the framework that the runtime's time zones need.
pub open spec fn link_args(cross: bool, framework: bool) -> Seq<LinkArg> {
    let front = if cross {
        seq![LinkArg::Word("cc"), LinkArg::Word("-target"), LinkArg::Target, LinkArg::Word("-lunwind")]
    } else {
        Seq::empty()
    };
    let core = front + seq![
        LinkArg::Object,
        LinkArg::Runtime,
        LinkArg::Word("-o"),
        LinkArg::Output,
    ];
    if framework {
        core + seq![LinkArg::Word("-framework"), LinkArg::Word("CoreFoundation")]
    } else {
        core
    }
}

/// The command that links a program, for another target with `zig`.
pub fn link_command(cross: bool, macos: bool) -> (r: LinkCommand)
    ensures
        r.program == (if cross {
            "zig"
        } else {
            "cc"
        }),
        r.args@ == link_args(cross, !cross && macos),
{
    let mut args: Vec<LinkArg> = Vec::new();
    if cross {
        args.push(LinkArg::Word("cc"));
        args.push(LinkArg::Word("-target"));
        args.push(LinkArg::Target);
        args.push(LinkArg::Word("-lunwind"));
    }
    args.push(LinkArg::Object);
    args.push(LinkArg::Runtime);
    args.push(LinkArg::Word("-o"));
    args.push(LinkArg::Output);
    if !cross && macos {
        args.push(LinkArg::Word("-framework"));
        args.push(LinkArg::Word("CoreFoundation"));
    }
    assert(args@ =~= link_args(cross, !cross && macos));
    LinkCommand {
        program: if cross {
            "zig"
        } else {
            "cc"
        },
        args,
    }
}

// --- The runtime library -----------------------------------------------------------------

/// Where the runtime library may be.
#[derive(Clone, Copy, Debug, PartialEq, Eq, Structural)]
pub enum RuntimePlace {
    /// At the path of the options.
    Given,
    /// Two levels above the compiler, in the target's release directory.
    TargetRelease,
    /// As before, in the target's debug directory.
    TargetDebug,
    /// Next to the compiler.
    Beside,
    /// One level above the compiler's directory.
    Above,
}

/// The places to look at, in order. `dir` says whether the compiler's directory
/// is known, `parent` whether that has a parent.
pub open spec fn places(opts: BuildOptions, dir: bool, parent: bool) -> Seq<RuntimePlace> {
    if opts.runtime_lib is Some {
        seq![RuntimePlace::Given]
    } else if !dir {
        Seq::empty()
    } else if opts.target is Some {
        if parent {
            seq![RuntimePlace::TargetRelease, RuntimePlace::TargetDebug]
        } else {
            Seq::empty()
        }
    } else if parent {
        seq![RuntimePlace::Beside, RuntimePlace::Above]
    } else {
        seq![RuntimePlace::Beside]
    }
}

pub fn runtime_places(opts: &BuildOptions, dir: bool, parent: bool) -> (r: Vec<RuntimePlace>)
    ensures
        r@ == places(*opts, dir, parent),
{
    let mut v: Vec<RuntimePlace> = Vec::new();
    if opts.runtime_lib.is_some() {
        v.push(RuntimePlace::Given);
    } else if dir {
        if opts.target.is_some() {
            if parent {
                v.push(RuntimePlace::TargetRelease);
                v.push(RuntimePlace::TargetDebug);
            }
        } else {
            v.push(RuntimePlace::Beside);
            if parent {
                v.push(RuntimePlace::Above);
            }
        }
    }
    assert(v@ =~= places(*opts, dir, parent));
    v
}

/// What is reported if no place holds the library.
pub open spec fn missing_runtime(opts: BuildOptions, dir: bool) -> Seq<char> {
    match (opts.runtime_lib, opts.target) {
        (Some(p), _) => "runtime library not found at `"@ + p@ + "`"@,
        (None, Some(t)) => if dir {
            "no runtime for `"@ + t@ + "` — build it with `cargo build -p runtime --target "@ + t@
                + " --release` or pass --runtime-lib"@
        } else {
            "cannot locate libruntime.a next to the compiler; pass --runtime-lib"@
        },
        (None, None) => "cannot locate libruntime.a next to the compiler; pass --runtime-lib"@,
    }
}

/// The first place that holds the library, given for each place whether it does.
pub open spec fn first_found(
    places: Seq<RuntimePlace>,
    found: Seq<bool>,
    k: int,
) -> Option<RuntimePlace>
    decreases places.len() - k,
{
    if k >= places.len() || k >= found.len() {
        None
    } else if found[k] {
        Some(places[k])
    } else {
        first_found(places, found, k + 1)
    }
}

/// Picks the library, given for each of the [`runtime_places`] whether it holds
/// one.
pub fn pick_runtime(opts: &BuildOptions, dir: bool, parent: bool, found: &Vec<bool>) -> (r: Result<
    RuntimePlace,
    Errors,
>)
    ensures
        match r {
            Ok(p) => first_found(places(*opts, dir, parent), found@, 0) == Some(p),
            Err(e) => first_found(places(*opts, dir, parent), found@, 0) is None && texts_of(
                e.rendered@,
            ) == seq!["error: "@ + missing_runtime(*opts, dir)],
        },
{
    let all = runtime_places(opts, dir, parent);
    let mut k: usize = 0;
    while k < all.len() && k < found.len()
        invariant
            k <= all@.len(),
            k <= found@.len(),
            all@ == places(*opts, dir, parent),
            first_found(all@, found@, 0) == first_found(all@, found@, k as int),
        decreases all@.len() - k,
    {
        if found[k] {
            return Ok(all[k]);
        }
        k = k + 1;
    }
    let mut m = String::new();
    match &opts.runtime_lib {
        Some(p) => {
            push_text(&mut m, "runtime library not found at `");
            push_text(&mut m, p.as_str());
            push_text(&mut m, "`");
            assert(m@ =~= missing_runtime(*opts, dir));
        },
        None => {
            let mut cross = false;
            if dir {
                if let Some(t) = &opts.target {
                    cross = true;
                    push_text(&mut m, "no runtime for `");
                    push_text(&mut m, t.as_str());
                    push_text(&mut m, "` — build it with `cargo build -p runtime --target ");
                    push_text(&mut m, t.as_str());
                    push_text(&mut m, " --release` or pass --runtime-lib");
                    assert(m@ =~= missing_runtime(*opts, dir));
                }
            }
            if !cross {
                push_text(
                    &mut m,
                    "cannot locate libruntime.a next to the compiler; pass --runtime-lib",
                );
                assert(m@ =~= missing_runtime(*opts, dir));
            }
        },
    }
    Err(Errors::message(m.as_str()))
}

/// The exit status for the code of a program: codes out of range are clamped.
pub fn exit_status(code: i32) -> (r: u8)
    ensures
        r == (if code < 0 {
            0int
        } else if code > 255 {
            255int
        } else {
            code as int
        }),
{
    if code < 0 {
        0
    } else if code > 255 {
        255
    } else {
        code as u8
    }
}

} // verus!
