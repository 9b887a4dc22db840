//! Whole programs: every declaration, constant and body of the module.

use vstd::prelude::*;

use crate::codegen::code::{Cmd, FnCx, Op, WrapTarget};
use crate::codegen::function::{function_code, top_env, Body};
use crate::codegen::layout::{
    class_plan, class_valid, decl_params, declare_function, descriptor_header, fn_symbol_of,
    has_row, instance_fields, member_shape, member_table, row_for, static_inits, tables_of,
    ClassPlan, FnDecl, MemberRow, Payload,
};
use crate::codegen::safepoint::any_try;
use crate::codegen::scheme::method_at;
use crate::codegen::sound::{backward, balanced, in_order};
use crate::codegen::value::storage_of;
use crate::codegen::wrapper::wrapper_code;
use crate::meaning::code::is_followed;
use crate::mir::{NsMember, Program};
use crate::text::utf16;

verus! {

/// A wrapper with its code.
#[derive(Debug)]
pub struct Wrapper<'a> {
    pub target: WrapTarget,
    pub code: Vec<Cmd<'a>>,
}

/// Everything that a program compiles to.
#[derive(Debug)]
pub struct Module<'a> {
    /// One per function, in order.
    pub decls: Vec<FnDecl>,
    /// One per function, in order.
    pub bodies: Vec<Body<'a>>,
    /// One per class, in order.
    pub classes: Vec<ClassPlan>,
    /// One reflection table per class, in order.
    pub tables: Vec<Vec<MemberRow>>,
    /// Each wrapper that the tables and the bodies refer to, once, in order of
    /// first use.
    pub wrappers: Vec<Wrapper<'a>>,
}

pub open spec fn wrapper_in(c: Cmd) -> Option<WrapTarget> {
    match c {
        Cmd::Arg(_, Op::Wrapper(t)) => Some(t),
        _ => None,
    }
}

/// Adds a target that is not there yet.
pub open spec fn note(acc: Seq<WrapTarget>, t: Option<WrapTarget>) -> Seq<WrapTarget> {
    match t {
        Some(t) => if acc.contains(t) {
            acc
        } else {
            acc.push(t)
        },
        None => acc,
    }
}

/// Adds the targets of the first `n` commands.
pub open spec fn wanted_in(acc: Seq<WrapTarget>, code: Seq<Cmd>, n: nat) -> Seq<WrapTarget>
    decreases n,
{
    if 0 < n <= code.len() {
        note(wanted_in(acc, code, (n - 1) as nat), wrapper_in(code[n - 1]))
    } else {
        acc
    }
}

pub open spec fn code_at<'a>(p: &'a Program, windows: bool, i: int) -> Seq<Cmd<'a>> {
    function_code(p, &p.functions@[i], windows, i == 0).code
}

/// The wrapper that a reflected method is called through.
pub open spec fn member_wrapper(class: u32, m: NsMember) -> Option<WrapTarget> {
    match member_shape(m) {
        Some((_, _, Payload::Method(vslot))) => Some(WrapTarget::Virtual { class, vslot }),
        _ => None,
    }
}

/// Adds the targets of the first `n` members of a class.
pub open spec fn members_wanted(
    acc: Seq<WrapTarget>,
    class: u32,
    ms: Seq<NsMember>,
    n: nat,
) -> Seq<WrapTarget>
    decreases n,
{
    if 0 < n <= ms.len() {
        note(members_wanted(acc, class, ms, (n - 1) as nat), member_wrapper(class, ms[n - 1]))
    } else {
        acc
    }
}

/// The targets of the reflection tables of the first `n` classes.
pub open spec fn tables_wanted(p: &Program, n: nat) -> Seq<WrapTarget>
    decreases n,
{
    if 0 < n <= p.classes@.len() {
        let ms = p.classes@[n - 1].ns_members@;
        members_wanted(tables_wanted(p, (n - 1) as nat), (n - 1) as u32, ms, ms.len())
    } else {
        Seq::empty()
    }
}

/// The targets of the tables and of the first `n` functions, in order of first
/// use.
pub open spec fn wanted(p: &Program, windows: bool, n: nat) -> Seq<WrapTarget>
    decreases n,
{
    if 0 < n <= p.functions@.len() {
        let code = code_at(p, windows, n - 1);
        wanted_in(wanted(p, windows, (n - 1) as nat), code, code.len())
    } else {
        tables_wanted(p, p.classes@.len())
    }
}

pub open spec fn function_valid(p: &Program, windows: bool, i: int) -> bool {
    decl_params(&p.functions@[i]) is Some && function_code(
        p,
        &p.functions@[i],
        windows,
        i == 0,
    ).ok
}

pub open spec fn class_ok(p: &Program, i: int) -> bool {
    class_valid(p, &p.classes@[i]) && forall|k: int|
        0 <= k < p.classes@[i].ns_members@.len() ==> has_row(
            p,
            #[trigger] p.classes@[i].ns_members@[k],
        )
}

pub open spec fn wrapper_ok(p: &Program, t: WrapTarget) -> bool {
    wrapper_code(p, t).ok
}

/// The program keeps every rule that the type checker guarantees.
pub open spec fn compiles(p: &Program, windows: bool) -> bool {
    &&& forall|i: int| 0 <= i < p.functions@.len() ==> #[trigger] function_valid(p, windows, i)
    &&& forall|i: int| 0 <= i < p.classes@.len() ==> #[trigger] class_ok(p, i)
    &&& forall|i: int|
        0 <= i < wanted(p, windows, p.functions@.len()).len() ==> wrapper_ok(
            p,
            #[trigger] wanted(p, windows, p.functions@.len())[i],
        )
}

pub open spec fn decl_for(p: &Program, i: int, d: FnDecl) -> bool {
    &&& d.name@ == fn_symbol_of(i as nat)
    &&& Some(d.params@) == decl_params(&p.functions@[i])
    &&& d.ret == storage_of(p.functions@[i].ret)
}

pub open spec fn body_for(p: &Program, windows: bool, i: int, b: Body) -> bool {
    &&& b.code@ == code_at(p, windows, i)
    &&& b.pinned == any_try(p.functions@[i].body@, p.functions@[i].body@.len())
}

pub open spec fn plan_for(p: &Program, i: int, a: ClassPlan) -> bool {
    &&& a.index == i as u32
    &&& a.fields@ == instance_fields(&p.classes@[i])
    &&& a.statics@ == static_inits(&p.classes@[i])
    &&& a.name@ == utf16(p.classes@[i].name@)
    &&& a.header@ == descriptor_header(i as u32, &p.classes@[i])
    &&& a.vtable@ == p.classes@[i].vtable@
    &&& tables_of(&p.classes@[i], a.itabs@)
}

pub open spec fn table_for(p: &Program, i: int, rows: Vec<MemberRow>) -> bool {
    &&& rows@.len() == p.classes@[i].ns_members@.len()
    &&& forall|k: int|
        0 <= k < rows@.len() ==> row_for(p, p.classes@[i].ns_members@[k], #[trigger] rows@[k])
}

pub open spec fn wrapper_for(p: &Program, t: WrapTarget, w: Wrapper) -> bool {
    w.target == t && w.code@ == wrapper_code(p, t).code
}

/// The module is what the program compiles to.
pub open spec fn module_for(p: &Program, windows: bool, m: Module) -> bool {
    &&& m.decls@.len() == p.functions@.len()
    &&& forall|i: int| 0 <= i < m.decls@.len() ==> decl_for(p, i, #[trigger] m.decls@[i])
    &&& m.bodies@.len() == p.functions@.len()
    &&& forall|i: int|
        0 <= i < m.bodies@.len() ==> body_for(p, windows, i, #[trigger] m.bodies@[i])
    &&& m.classes@.len() == p.classes@.len()
    &&& forall|i: int| 0 <= i < m.classes@.len() ==> plan_for(p, i, #[trigger] m.classes@[i])
    &&& m.tables@.len() == p.classes@.len()
    &&& forall|i: int| 0 <= i < m.tables@.len() ==> table_for(p, i, #[trigger] m.tables@[i])
    &&& m.wrappers@.len() == wanted(p, windows, p.functions@.len()).len()
    &&& forall|i: int|
        0 <= i < m.wrappers@.len() ==> wrapper_for(
            p,
            wanted(p, windows, p.functions@.len())[i],
            #[trigger] m.wrappers@[i],
        )
}

/// In no code of the module does a command refer to a later one.
pub open spec fn all_backward(m: Module) -> bool {
    &&& forall|i: int| 0 <= i < m.bodies@.len() ==> backward((#[trigger] m.bodies@[i]).code@)
    &&& forall|i: int| 0 <= i < m.wrappers@.len() ==> backward((#[trigger] m.wrappers@[i]).code@)
}

/// In all code of the module each block is filled at most once, up to one
/// terminator, and no command stands outside a block.
pub open spec fn all_in_order(m: Module) -> bool {
    &&& forall|i: int| 0 <= i < m.bodies@.len() ==> in_order((#[trigger] m.bodies@[i]).code@)
    &&& forall|i: int| 0 <= i < m.wrappers@.len() ==> in_order((#[trigger] m.wrappers@[i]).code@)
}

/// In the code of function `i` a jump goes to a loop or `switch` that control is
/// on its way out of.
pub open spec fn astray_at(p: &Program, windows: bool, i: int) -> bool {
    function_code(p, &p.functions@[i], windows, i == 0).astray
}

/// In all code of the module each path uninstalls the handlers that it installed,
/// each once, unless one of its jumps goes astray.
pub open spec fn all_balanced(p: &Program, windows: bool, m: Module) -> bool {
    &&& forall|i: int|
        0 <= i < m.bodies@.len() && !astray_at(p, windows, i) ==> balanced(
            (#[trigger] m.bodies@[i]).code@,
        )
    &&& forall|i: int| 0 <= i < m.wrappers@.len() ==> balanced((#[trigger] m.wrappers@[i]).code@)
}

/// The code of each function follows the run of its body.
pub open spec fn all_followed(p: &Program, m: Module) -> bool {
    forall|i: int|
        0 <= i < m.bodies@.len() ==> is_followed(
            (#[trigger] m.bodies@[i]).code@,
            p.functions@[i].body@,
        )
}

fn contains(acc: &Vec<WrapTarget>, t: WrapTarget) -> (r: bool)
    ensures
        r == acc@.contains(t),
{
    let mut k: usize = 0;
    while k < acc.len()
        invariant
            k <= acc@.len(),
            forall|i: int| 0 <= i < k ==> acc@[i] != t,
        decreases acc@.len() - k,
    {
        if acc[k] == t {
            return true;
        }
        k = k + 1;
    }
    false
}

fn note_wanted<'a>(acc: &mut Vec<WrapTarget>, code: &Vec<Cmd<'a>>)
    ensures
        final(acc)@ == wanted_in(old(acc)@, code@, code@.len()),
{
    let ghost acc0 = acc@;
    let mut k: usize = 0;
    while k < code.len()
        invariant
            k <= code@.len(),
            acc@ == wanted_in(acc0, code@, k as nat),
        decreases code@.len() - k,
    {
        if let Cmd::Arg(_, Op::Wrapper(t)) = code[k] {
            if !contains(acc, t) {
                acc.push(t);
            }
        }
        k = k + 1;
    }
}

fn note_members(
    acc: &mut Vec<WrapTarget>,
    class: u32,
    rows: &Vec<MemberRow>,
    Ghost(p): Ghost<Program>,
    Ghost(ms): Ghost<Seq<NsMember>>,
)
    requires
        rows@.len() == ms.len(),
        forall|i: int| 0 <= i < rows@.len() ==> row_for(&p, ms[i], #[trigger] rows@[i]),
    ensures
        final(acc)@ == members_wanted(old(acc)@, class, ms, ms.len()),
{
    let ghost acc0 = acc@;
    let mut k: usize = 0;
    while k < rows.len()
        invariant
            k <= rows@.len(),
            rows@.len() == ms.len(),
            forall|i: int| 0 <= i < rows@.len() ==> row_for(&p, ms[i], #[trigger] rows@[i]),
            acc@ == members_wanted(acc0, class, ms, k as nat),
        decreases rows@.len() - k,
    {
        if let Payload::Method(vslot) = rows[k].payload {
            let t = WrapTarget::Virtual { class, vslot };
            if !contains(acc, t) {
                acc.push(t);
            }
        }
        k = k + 1;
    }
}

/// Without functions no method can be wrapped.
proof fn lemma_no_method(p: &Program, n: nat)
    requires
        p.functions@.len() == 0,
        n <= p.classes@.len(),
    ensures
        forall|i: int|
            0 <= i < tables_wanted(p, n).len() ==> !wrapper_ok(p, #[trigger] tables_wanted(p, n)[i]),
    decreases n,
{
    if n > 0 {
        let m = (n - 1) as nat;
        lemma_no_method(p, m);
        let ms = p.classes@[n - 1].ns_members@;
        lemma_no_member(p, tables_wanted(p, m), m as u32, ms, ms.len());
    }
}

proof fn lemma_no_member(
    p: &Program,
    acc: Seq<WrapTarget>,
    class: u32,
    ms: Seq<NsMember>,
    n: nat,
)
    requires
        p.functions@.len() == 0,
        n <= ms.len(),
        forall|i: int| 0 <= i < acc.len() ==> !wrapper_ok(p, #[trigger] acc[i]),
    ensures
        forall|i: int|
            0 <= i < members_wanted(acc, class, ms, n).len() ==> !wrapper_ok(
                p,
                #[trigger] members_wanted(acc, class, ms, n)[i],
            ),
    decreases n,
{
    if n > 0 {
        lemma_no_member(p, acc, class, ms, (n - 1) as nat);
        if let Some(t) = member_wrapper(class, ms[n - 1]) {
            let env = top_env(p, &p.functions@[0], false, Seq::empty());
            if let WrapTarget::Virtual { class: c, vslot } = t {
                assert(method_at(env, c, vslot) is None);
            }
            assert(!wrapper_ok(p, t));
        }
        let before = members_wanted(acc, class, ms, (n - 1) as nat);
        let after = members_wanted(acc, class, ms, n);
        assert forall|i: int| 0 <= i < after.len() implies !wrapper_ok(p, #[trigger] after[i]) by {
            if i < before.len() {
                assert(after[i] == before[i]);
            }
        }
    }
}

/// Compiles a program; `None` if it breaks a rule that the type checker
/// guarantees.
pub fn compile<'a>(p: &'a Program, windows: bool) -> (r: Option<Module<'a>>)
    ensures
        r is Some <==> compiles(p, windows),
        r matches Some(m) ==> module_for(p, windows, m) && all_backward(m) && all_in_order(m)
            && all_balanced(p, windows, m) && all_followed(p, m),
{
    let mut classes: Vec<ClassPlan> = Vec::new();
    let mut tables: Vec<Vec<MemberRow>> = Vec::new();
    let mut targets: Vec<WrapTarget> = Vec::new();
    let mut c: usize = 0;
    while c < p.classes.len()
        invariant
            c <= p.classes@.len(),
            classes@.len() == c,
            tables@.len() == c,
            forall|i: int| 0 <= i < c ==> #[trigger] class_ok(p, i),
            forall|i: int| 0 <= i < c ==> plan_for(p, i, #[trigger] classes@[i]),
            forall|i: int| 0 <= i < c ==> table_for(p, i, #[trigger] tables@[i]),
            targets@ == tables_wanted(p, c as nat),
        decreases p.classes@.len() - c,
    {
        match class_plan(p, c) {
            Some(a) => classes.push(a),
            None => {
                assert(!class_ok(p, c as int));
                return None;
            },
        }
        match member_table(p, &p.classes[c]) {
            Some(rows) => {
                note_members(
                    &mut targets,
                    c as u32,
                    &rows,
                    Ghost(*p),
                    Ghost(p.classes@[c as int].ns_members@),
                );
                tables.push(rows);
            },
            None => {
                assert(!class_ok(p, c as int));
                return None;
            },
        }
        c = c + 1;
    }
    let mut decls: Vec<FnDecl> = Vec::new();
    let mut bodies: Vec<Body<'a>> = Vec::new();
    let mut k: usize = 0;
    while k < p.functions.len()
        invariant
            k <= p.functions@.len(),
            decls@.len() == k,
            bodies@.len() == k,
            forall|i: int| 0 <= i < k ==> #[trigger] function_valid(p, windows, i),
            forall|i: int| 0 <= i < k ==> decl_for(p, i, #[trigger] decls@[i]),
            forall|i: int|
                0 <= i < k ==> body_for(p, windows, i, #[trigger] bodies@[i]) && backward(
                    bodies@[i].code@,
                ) && in_order(bodies@[i].code@) && (!astray_at(p, windows, i) ==> balanced(
                    bodies@[i].code@,
                )) && is_followed(bodies@[i].code@, p.functions@[i].body@),
            targets@ == wanted(p, windows, k as nat),
        decreases p.functions@.len() - k,
    {
        match declare_function(k, &p.functions[k]) {
            Some(d) => decls.push(d),
            None => {
                assert(!function_valid(p, windows, k as int));
                return None;
            },
        }
        match FnCx::function(p, &p.functions[k], windows, k == 0) {
            Some(b) => {
                note_wanted(&mut targets, &b.code);
                bodies.push(b);
            },
            None => {
                assert(!function_valid(p, windows, k as int));
                return None;
            },
        }
        k = k + 1;
    }
    if p.functions.len() == 0 && targets.len() > 0 {
        proof {
            lemma_no_method(p, p.classes@.len());
            assert(!wrapper_ok(p, targets@[0]));
        }
        return None;
    }
    let mut wrappers: Vec<Wrapper<'a>> = Vec::new();
    let mut w: usize = 0;
    while w < targets.len()
        invariant
            w <= targets@.len(),
            targets@ == wanted(p, windows, p.functions@.len()),
            targets@.len() > 0 ==> p.functions@.len() > 0,
            wrappers@.len() == w,
            forall|i: int| 0 <= i < w ==> wrapper_ok(p, #[trigger] targets@[i]),
            forall|i: int|
                0 <= i < w ==> wrapper_for(p, targets@[i], #[trigger] wrappers@[i]) && backward(
                    wrappers@[i].code@,
                ) && in_order(wrappers@[i].code@) && balanced(wrappers@[i].code@),
        decreases targets@.len() - w,
    {
        let t = targets[w];
        match FnCx::build_wrapper(p, t) {
            Some(code) => wrappers.push(Wrapper { target: t, code }),
            None => {
                assert(!wrapper_ok(p, targets@[w as int]));
                return None;
            },
        }
        w = w + 1;
    }
    Some(Module { decls, bodies, classes, tables, wrappers })
}

} // verus!
