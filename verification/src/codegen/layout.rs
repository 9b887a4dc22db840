//! Declarations and constant data: function signatures, class descriptors,
//! static storage and reflection tables.

use vstd::prelude::*;

use crate::codegen::code::{LTy, Op};
use crate::codegen::value::{
    default_op, default_op_of, storage, storage_of, ty_tag_reflect, ty_tag_reflect_of,
};
use crate::mir::{Class, FnId, Function, NsMember, Program, Ty};
use crate::text::{decimal, encode_utf16, numbered, numbered_pair, utf16};

verus! {

// --- symbols -------------------------------------------------------------------------

/// The symbol of a compiled function; the script body has a fixed one.
pub open spec fn fn_symbol_of(index: nat) -> Seq<char> {
    if index == 0 {
        "vs_script"@
    } else {
        "vs_fn"@ + decimal(index)
    }
}

pub fn fn_symbol(index: usize) -> (r: String)
    ensures
        r@ == fn_symbol_of(index as nat),
{
    if index == 0 {
        "vs_script".to_owned()
    } else {
        numbered("vs_fn", index as u64)
    }
}

pub fn rtti_symbol(class: u32) -> (r: String)
    ensures
        r@ == "vs_rtti"@ + decimal(class as nat),
{
    numbered("vs_rtti", class as u64)
}

pub fn static_symbol(class: u32, index: usize) -> (r: String)
    ensures
        r@ == "vs_static"@ + decimal(class as nat) + seq!['_'] + decimal(index as nat),
{
    numbered_pair("vs_static", class as u64, index as u64)
}

pub fn name_symbol(class: u32) -> (r: String)
    ensures
        r@ == "vs_name"@ + decimal(class as nat),
{
    numbered("vs_name", class as u64)
}

pub fn name_data_symbol(class: u32) -> (r: String)
    ensures
        r@ == "vs_name_data"@ + decimal(class as nat),
{
    numbered("vs_name_data", class as u64)
}

pub fn itab_symbol(class: u32, iface: u32) -> (r: String)
    ensures
        r@ == "vs_itab"@ + decimal(class as nat) + seq!['_'] + decimal(iface as nat),
{
    numbered_pair("vs_itab", class as u64, iface as u64)
}

pub fn ipairs_symbol(class: u32) -> (r: String)
    ensures
        r@ == "vs_ipairs"@ + decimal(class as nat),
{
    numbered("vs_ipairs", class as u64)
}

pub fn members_symbol(class: u32) -> (r: String)
    ensures
        r@ == "vs_members"@ + decimal(class as nat),
{
    numbered("vs_members", class as u64)
}

pub fn ns_uri_symbol(class: u32, member: usize) -> (r: String)
    ensures
        r@ == "vs_nsuri"@ + decimal(class as nat) + seq!['_'] + decimal(member as nat),
{
    numbered_pair("vs_nsuri", class as u64, member as u64)
}

pub fn ns_name_symbol(class: u32, member: usize) -> (r: String)
    ensures
        r@ == "vs_nsname"@ + decimal(class as nat) + seq!['_'] + decimal(member as nat),
{
    numbered_pair("vs_nsname", class as u64, member as u64)
}

/// The position of a builtin, by which its wrapper is named.
pub open spec fn builtin_number_of(b: crate::mir::Builtin) -> nat {
    match b {
        crate::mir::Builtin::Trace => 0,
        crate::mir::Builtin::ParseInt => 1,
        crate::mir::Builtin::ParseFloat => 2,
        crate::mir::Builtin::IsNaN => 3,
        crate::mir::Builtin::IsFinite => 4,
        crate::mir::Builtin::EncodeUriComponent => 5,
        crate::mir::Builtin::DecodeUriComponent => 6,
        crate::mir::Builtin::Escape => 7,
        crate::mir::Builtin::Unescape => 8,
    }
}

pub open spec fn wrapper_symbol_of(t: crate::codegen::code::WrapTarget) -> Seq<char> {
    match t {
        crate::codegen::code::WrapTarget::Direct(f) => "vs_wrap"@ + decimal(f.0 as nat),
        crate::codegen::code::WrapTarget::Virtual { class, vslot } => "vs_vwrap"@ + decimal(
            class as nat,
        ) + seq!['_'] + decimal(vslot as nat),
        crate::codegen::code::WrapTarget::Builtin(b) => "vs_bwrap"@ + decimal(
            builtin_number_of(b),
        ),
    }
}

pub fn wrapper_symbol(t: crate::codegen::code::WrapTarget) -> (r: String)
    ensures
        r@ == wrapper_symbol_of(t),
{
    match t {
        crate::codegen::code::WrapTarget::Direct(f) => numbered("vs_wrap", f.0 as u64),
        crate::codegen::code::WrapTarget::Virtual { class, vslot } => numbered_pair(
            "vs_vwrap",
            class as u64,
            vslot as u64,
        ),
        crate::codegen::code::WrapTarget::Builtin(b) => {
            let n: u64 = match b {
                crate::mir::Builtin::Trace => 0,
                crate::mir::Builtin::ParseInt => 1,
                crate::mir::Builtin::ParseFloat => 2,
                crate::mir::Builtin::IsNaN => 3,
                crate::mir::Builtin::IsFinite => 4,
                crate::mir::Builtin::EncodeUriComponent => 5,
                crate::mir::Builtin::DecodeUriComponent => 6,
                crate::mir::Builtin::Escape => 7,
                crate::mir::Builtin::Unescape => 8,
            };
            numbered("vs_bwrap", n)
        },
    }
}

/// Attributes of a runtime function's declaration, by name and value.
///
/// A safepoint touches no memory that the program can see (location 1 of the
/// memory-effects word: read and write), and a null throw never returns.
pub open spec fn runtime_attrs_of(name: Seq<char>) -> Seq<(&'static str, u64)> {
    if name == "vs_gc_safepoint"@ {
        seq![("memory", 12u64), ("nounwind", 0u64)]
    } else if name == "vs_null_throw"@ {
        seq![("noreturn", 0u64), ("cold", 0u64)]
    } else {
        Seq::empty()
    }
}

/// Attributes of a runtime function's declaration.
pub fn runtime_attrs(name: &String) -> (r: Vec<(&'static str, u64)>)
    ensures
        r@ == runtime_attrs_of(name@),
{
    let mut out: Vec<(&'static str, u64)> = Vec::new();
    if *name == "vs_gc_safepoint".to_owned() {
        out.push(("memory", 12));
        out.push(("nounwind", 0));
    } else if *name == "vs_null_throw".to_owned() {
        out.push(("noreturn", 0));
        out.push(("cold", 0));
    }
    assert(out@ =~= runtime_attrs_of(name@));
    out
}

// --- signatures ----------------------------------------------------------------------

/// A function's signature as it is declared.
#[derive(Debug)]
pub struct FnDecl {
    pub name: String,
    pub params: Vec<LTy>,
    pub ret: Option<LTy>,
}

/// The storage types of the first `n` slots; none if one is `void`.
pub open spec fn slot_types(tys: Seq<Ty>, n: nat) -> Option<Seq<LTy>>
    decreases n,
{
    if n == 0 {
        Some(Seq::empty())
    } else if n > tys.len() {
        None
    } else {
        match (slot_types(tys, (n - 1) as nat), storage_of(tys[n - 1])) {
            (Some(ts), Some(t)) => Some(ts.push(t)),
            _ => None,
        }
    }
}

/// Appends the storage types of the first `n` slots.
fn push_types(out: &mut Vec<LTy>, tys: &Vec<Ty>, n: usize) -> (ok: bool)
    ensures
        ok == (slot_types(tys@, n as nat) is Some),
        ok ==> final(out)@ == old(out)@ + slot_types(tys@, n as nat)->0,
{
    let ghost base = out@;
    let mut k: usize = 0;
    assert(out@ =~= base + Seq::empty());
    while k < n
        invariant
            k <= n,
            slot_types(tys@, k as nat) is Some,
            out@ == base + slot_types(tys@, k as nat)->0,
        decreases n - k,
    {
        if k >= tys.len() {
            proof {
                lemma_slot_types_none(tys@, (k + 1) as nat, n as nat);
            }
            return false;
        }
        match storage(tys[k]) {
            Some(t) => out.push(t),
            None => {
                proof {
                    lemma_slot_types_none(tys@, (k + 1) as nat, n as nat);
                }
                return false;
            },
        }
        assert(out@ =~= base + slot_types(tys@, (k + 1) as nat)->0);
        k = k + 1;
    }
    true
}

proof fn lemma_slot_types_none(tys: Seq<Ty>, m: nat, n: nat)
    requires
        m <= n,
        slot_types(tys, m) is None,
    ensures
        slot_types(tys, n) is None,
    decreases n,
{
    if m < n {
        lemma_slot_types_none(tys, m, (n - 1) as nat);
    }
}

/// The implicit parameters: the environment of a capturing function, then
/// `this`.
pub open spec fn implicit_params(f: &Function) -> Seq<LTy> {
    let env = if f.captures@.len() > 0 {
        seq![LTy::Ptr]
    } else {
        Seq::empty()
    };
    if f.this_class is Some {
        env.push(LTy::Ptr)
    } else {
        env
    }
}

/// The parameters of a function as declared.
pub open spec fn decl_params(f: &Function) -> Option<Seq<LTy>> {
    match slot_types(f.locals@, f.param_count as nat) {
        Some(ts) => Some(implicit_params(f) + ts),
        None => None,
    }
}

/// Declares a function; `None` if a parameter has no storage type.
pub fn declare_function(index: usize, f: &Function) -> (r: Option<FnDecl>)
    ensures
        r is Some <==> decl_params(f) is Some,
        r matches Some(d) ==> d.name@ == fn_symbol_of(index as nat) && Some(d.params@)
            == decl_params(f) && d.ret == storage_of(f.ret),
{
    let mut params: Vec<LTy> = Vec::new();
    if f.captures.len() > 0 {
        params.push(LTy::Ptr);
    }
    if f.this_class.is_some() {
        params.push(LTy::Ptr);
    }
    assert(params@ =~= implicit_params(f));
    if push_types(&mut params, &f.locals, f.param_count) {
        Some(FnDecl { name: fn_symbol(index), params, ret: storage(f.ret) })
    } else {
        None
    }
}

/// The parameters by which a method is called through a table: `this`, then
/// the declared ones.
pub open spec fn method_params(f: &Function) -> Option<Seq<LTy>> {
    match slot_types(f.locals@, f.param_count as nat) {
        Some(ts) => Some(seq![LTy::Ptr] + ts),
        None => None,
    }
}

/// The signature by which a method is called through a table.
pub fn method_fn_type(f: &Function) -> (r: Option<(Vec<LTy>, Option<LTy>)>)
    ensures
        r is Some <==> method_params(f) is Some,
        r matches Some(s) ==> Some(s.0@) == method_params(f) && s.1 == storage_of(f.ret),
{
    let mut params: Vec<LTy> = Vec::new();
    params.push(LTy::Ptr);
    assert(params@ =~= seq![LTy::Ptr]);
    if push_types(&mut params, &f.locals, f.param_count) {
        Some((params, storage(f.ret)))
    } else {
        None
    }
}

// --- class descriptors ---------------------------------------------------------------

/// A constant of a class descriptor.
#[derive(Clone, Copy, Debug, PartialEq, Eq, Structural)]
pub enum Const {
    I32(u32),
    Null,
    /// The descriptor of a class.
    Rtti(u32),
    /// The name string of a class.
    Name(u32),
    /// The interface table list of a class.
    IfacePairs(u32),
    /// The reflection table of a class.
    Members(u32),
    /// A compiled function.
    Fn(FnId),
    /// The byte offset of the expando slot of a class.
    ExpandoOffset(u32),
}

/// What a class contributes to the module.
#[derive(Debug)]
pub struct ClassPlan {
    pub index: u32,
    /// The instance struct: the descriptor pointer, the slots, and the expando
    /// slot of a dynamic class.
    pub fields: Vec<LTy>,
    /// Static storage with its initial values.
    pub statics: Vec<(LTy, Op)>,
    /// The qualified name in UTF-16.
    pub name: Vec<u16>,
    /// The descriptor up to the vtable.
    pub header: Vec<Const>,
    /// The entries of the vtable, with which the descriptor ends.
    pub vtable: Vec<FnId>,
    /// The interface tables.
    pub itabs: Vec<InterfaceTable>,
}

/// The methods of a class for an interface.
#[derive(Debug)]
pub struct InterfaceTable {
    pub iface: u32,
    pub entries: Vec<FnId>,
}

/// The tables are those of the class, in order.
pub open spec fn tables_of(c: &Class, itabs: Seq<InterfaceTable>) -> bool {
    itabs.len() == c.ifaces@.len() && forall|i: int|
        0 <= i < itabs.len() ==> (#[trigger] itabs[i]).iface == c.ifaces@[i].0 && itabs[i].entries@
            == c.ifaces@[i].1@
}

/// Marks a class without an expando slot.
pub const SEALED: u32 = 0xFFFF_FFFF;

pub open spec fn fn_valid(p: &Program, f: FnId) -> bool {
    f.0 < p.functions@.len()
}

/// Every function, class and slot that the class mentions is there.
pub open spec fn class_valid(p: &Program, c: &Class) -> bool {
    &&& slot_types(c.slots@, c.slots@.len()) is Some
    &&& slot_types(c.statics@, c.statics@.len()) is Some
    &&& forall|i: int| 0 <= i < c.vtable@.len() ==> fn_valid(p, #[trigger] c.vtable@[i])
    &&& forall|i: int|
        0 <= i < c.ifaces@.len() ==> all_fns_valid(p, (#[trigger] c.ifaces@[i]).1@)
    &&& match c.to_string {
        Some(f) => fn_valid(p, f),
        None => true,
    }
    &&& match c.parent {
        Some(q) => q < p.classes@.len(),
        None => true,
    }
}

pub open spec fn all_fns_valid(p: &Program, fs: Seq<FnId>) -> bool {
    forall|i: int| 0 <= i < fs.len() ==> fn_valid(p, #[trigger] fs[i])
}

pub open spec fn instance_fields(c: &Class) -> Seq<LTy> {
    let fields = seq![LTy::Ptr] + slot_types(c.slots@, c.slots@.len())->0;
    if c.is_dynamic {
        fields.push(LTy::Ptr)
    } else {
        fields
    }
}

pub open spec fn static_inits(c: &Class) -> Seq<(LTy, Op)> {
    Seq::new(
        c.statics@.len(),
        |i: int| (storage_of(c.statics@[i])->0, default_op_of(c.statics@[i])->0),
    )
}

/// The descriptor up to the vtable: id, padding, parent, name, interface
/// count, padding, interfaces, `toString`, expando offset, member count,
/// members.
pub open spec fn descriptor_header(index: u32, c: &Class) -> Seq<Const> {
    seq![
        Const::I32(index),
        Const::I32(0),
        match c.parent {
            Some(q) => Const::Rtti(q),
            None => Const::Null,
        },
        Const::Name(index),
        Const::I32(c.ifaces@.len() as u32),
        Const::I32(0),
        if c.ifaces@.len() == 0 {
            Const::Null
        } else {
            Const::IfacePairs(index)
        },
        match c.to_string {
            Some(f) => Const::Fn(f),
            None => Const::Null,
        },
        if c.is_dynamic {
            Const::ExpandoOffset(index)
        } else {
            Const::I32(SEALED)
        },
        Const::I32(c.ns_members@.len() as u32),
        if c.ns_members@.len() == 0 {
            Const::Null
        } else {
            Const::Members(index)
        },
    ]
}

/// The struct field of a descriptor that holds the vtable: the one after the
/// header.
pub const VTABLE_FIELD: u32 = 11;

fn fns_valid(p: &Program, fs: &Vec<FnId>) -> (r: bool)
    ensures
        r == all_fns_valid(p, fs@),
{
    let mut k: usize = 0;
    while k < fs.len()
        invariant
            k <= fs@.len(),
            forall|i: int| 0 <= i < k ==> fn_valid(p, #[trigger] fs@[i]),
        decreases fs@.len() - k,
    {
        if fs[k].0 as usize >= p.functions.len() {
            assert(!fn_valid(p, fs@[k as int]));
            return false;
        }
        k = k + 1;
    }
    true
}

fn ifaces_valid(p: &Program, c: &Class) -> (r: bool)
    ensures
        r == (forall|i: int|
            0 <= i < c.ifaces@.len() ==> all_fns_valid(p, (#[trigger] c.ifaces@[i]).1@)),
{
    let mut k: usize = 0;
    while k < c.ifaces.len()
        invariant
            k <= c.ifaces@.len(),
            forall|i: int| 0 <= i < k ==> all_fns_valid(p, (#[trigger] c.ifaces@[i]).1@),
        decreases c.ifaces@.len() - k,
    {
        if !fns_valid(p, &c.ifaces[k].1) {
            assert(!all_fns_valid(p, c.ifaces@[k as int].1@));
            return false;
        }
        k = k + 1;
    }
    true
}

fn copy_fns(fs: &Vec<FnId>) -> (r: Vec<FnId>)
    ensures
        r@ == fs@,
{
    let mut out: Vec<FnId> = Vec::new();
    let mut k: usize = 0;
    while k < fs.len()
        invariant
            k <= fs@.len(),
            out@ == fs@.take(k as int),
        decreases fs@.len() - k,
    {
        out.push(fs[k]);
        k = k + 1;
        assert(out@ =~= fs@.take(k as int));
    }
    assert(out@ =~= fs@);
    out
}

fn interface_tables(c: &Class) -> (r: Vec<InterfaceTable>)
    ensures
        tables_of(c, r@),
{
    let mut out: Vec<InterfaceTable> = Vec::new();
    let mut k: usize = 0;
    while k < c.ifaces.len()
        invariant
            k <= c.ifaces@.len(),
            out@.len() == k,
            forall|i: int|
                0 <= i < k ==> (#[trigger] out@[i]).iface == c.ifaces@[i].0 && out@[i].entries@
                    == c.ifaces@[i].1@,
        decreases c.ifaces@.len() - k,
    {
        let entries = copy_fns(&c.ifaces[k].1);
        out.push(InterfaceTable { iface: c.ifaces[k].0, entries });
        k = k + 1;
    }
    out
}

/// Lays out a class; `None` if it mentions something that is not there.
pub fn class_plan(p: &Program, index: usize) -> (r: Option<ClassPlan>)
    requires
        index < p.classes@.len(),
    ensures
        r is Some <==> class_valid(p, &p.classes@[index as int]),
        r matches Some(a) ==> a.index == index as u32 && a.fields@ == instance_fields(
            &p.classes@[index as int],
        ) && a.statics@ == static_inits(&p.classes@[index as int]) && a.name@ == utf16(
            p.classes@[index as int].name@,
        ) && a.header@ == descriptor_header(index as u32, &p.classes@[index as int]) && a.vtable@
            == p.classes@[index as int].vtable@ && tables_of(
            &p.classes@[index as int],
            a.itabs@,
        ),
{
    let c = &p.classes[index];
    let id: u32 = index as u32;
    let mut fields: Vec<LTy> = Vec::new();
    fields.push(LTy::Ptr);
    assert(fields@ =~= seq![LTy::Ptr]);
    if !push_types(&mut fields, &c.slots, c.slots.len()) {
        return None;
    }
    if c.is_dynamic {
        fields.push(LTy::Ptr);
    }
    let mut scratch: Vec<LTy> = Vec::new();
    if !push_types(&mut scratch, &c.statics, c.statics.len()) {
        return None;
    }
    let mut statics: Vec<(LTy, Op)> = Vec::new();
    let mut k: usize = 0;
    while k < c.statics.len()
        invariant
            k <= c.statics@.len(),
            slot_types(c.statics@, c.statics@.len()) is Some,
            statics@ == static_inits(c).take(k as int),
        decreases c.statics@.len() - k,
    {
        proof {
            lemma_slot_types_each(c.statics@, c.statics@.len(), k as int);
        }
        if let (Some(t), Some(x)) = (storage(c.statics[k]), default_op(c.statics[k])) {
            statics.push((t, x));
        }
        assert(statics@ =~= static_inits(c).take(k as int + 1));
        k = k + 1;
    }
    assert(statics@ =~= static_inits(c));
    if !fns_valid(p, &c.vtable) || !ifaces_valid(p, c) {
        return None;
    }
    let to_string = match c.to_string {
        Some(f) => {
            if f.0 as usize >= p.functions.len() {
                return None;
            }
            Const::Fn(f)
        },
        None => Const::Null,
    };
    let parent = match c.parent {
        Some(q) => {
            if q as usize >= p.classes.len() {
                return None;
            }
            Const::Rtti(q)
        },
        None => Const::Null,
    };
    let mut header: Vec<Const> = Vec::new();
    header.push(Const::I32(id));
    header.push(Const::I32(0));
    header.push(parent);
    header.push(Const::Name(id));
    header.push(Const::I32(c.ifaces.len() as u32));
    header.push(Const::I32(0));
    header.push(
        if c.ifaces.len() == 0 {
            Const::Null
        } else {
            Const::IfacePairs(id)
        },
    );
    header.push(to_string);
    header.push(
        if c.is_dynamic {
            Const::ExpandoOffset(id)
        } else {
            Const::I32(SEALED)
        },
    );
    header.push(Const::I32(c.ns_members.len() as u32));
    header.push(
        if c.ns_members.len() == 0 {
            Const::Null
        } else {
            Const::Members(id)
        },
    );
    assert(header@ =~= descriptor_header(id, c));
    Some(
        ClassPlan {
            index: id,
            fields,
            statics,
            name: encode_utf16(c.name.as_str()),
            header,
            vtable: copy_fns(&c.vtable),
            itabs: interface_tables(c),
        },
    )
}

proof fn lemma_slot_types_each(tys: Seq<Ty>, n: nat, i: int)
    requires
        slot_types(tys, n) is Some,
        0 <= i < n,
    ensures
        n <= tys.len(),
        storage_of(tys[i]) is Some,
        default_op_of(tys[i]) is Some,
    decreases n,
{
    if i < n - 1 {
        lemma_slot_types_each(tys, (n - 1) as nat, i);
    }
}

// --- reflection tables ---------------------------------------------------------------

/// Where a reflected member is found.
#[derive(Clone, Copy, Debug, PartialEq, Eq, Structural)]
pub enum Payload {
    /// The byte offset of a struct field of the class.
    FieldOffset(u32),
    /// The wrapper of a vtable slot of the class.
    Method(usize),
}

/// A row of a reflection table.
#[derive(Debug)]
pub struct MemberRow {
    pub uri: Vec<u16>,
    pub name: Vec<u16>,
    /// 0 for a field, 1 for a method.
    pub kind: u32,
    /// The tag that a field boxes to.
    pub type_tag: u32,
    pub payload: Payload,
}

/// Kind, tag and payload of a row. Slot `i` is struct field `i + 1`.
pub open spec fn member_shape(m: NsMember) -> Option<(u32, u32, Payload)> {
    match (m.field_slot, m.field_ty) {
        (Some(slot), Some(ty)) => Some(
            (0u32, ty_tag_reflect_of(ty), Payload::FieldOffset(slot.wrapping_add(1))),
        ),
        _ => match m.vslot {
            Some(v) => Some((1u32, 0u32, Payload::Method(v as usize))),
            None => None,
        },
    }
}

/// The row describes the member.
pub open spec fn row_for(p: &Program, m: NsMember, row: MemberRow) -> bool {
    &&& m.ns < p.namespace_uris@.len()
    &&& row.uri@ == utf16(p.namespace_uris@[m.ns as int]@)
    &&& row.name@ == utf16(m.name@)
    &&& member_shape(m) == Some((row.kind, row.type_tag, row.payload))
}

/// The member has a row.
pub open spec fn has_row(p: &Program, m: NsMember) -> bool {
    m.ns < p.namespace_uris@.len() && member_shape(m) is Some
}

pub fn member_row(p: &Program, m: &NsMember) -> (r: Option<MemberRow>)
    ensures
        r is Some <==> has_row(p, *m),
        r matches Some(row) ==> row_for(p, *m, row),
{
    if m.ns as usize >= p.namespace_uris.len() {
        return None;
    }
    let (kind, type_tag, payload): (u32, u32, Payload) = match (m.field_slot, m.field_ty) {
        (Some(slot), Some(ty)) => (
            0,
            ty_tag_reflect(ty),
            Payload::FieldOffset(slot.wrapping_add(1)),
        ),
        _ => match m.vslot {
            Some(v) => (1, 0, Payload::Method(v as usize)),
            None => {
                return None;
            },
        },
    };
    Some(
        MemberRow {
            uri: encode_utf16(p.namespace_uris[m.ns as usize].as_str()),
            name: encode_utf16(m.name.as_str()),
            kind,
            type_tag,
            payload,
        },
    )
}

/// The reflection table of a class, one row per member in order.
pub fn member_table(p: &Program, c: &Class) -> (r: Option<Vec<MemberRow>>)
    ensures
        r is Some <==> forall|i: int|
            0 <= i < c.ns_members@.len() ==> has_row(p, #[trigger] c.ns_members@[i]),
        r matches Some(rows) ==> rows@.len() == c.ns_members@.len() && forall|i: int|
            0 <= i < rows@.len() ==> row_for(p, c.ns_members@[i], #[trigger] rows@[i]),
{
    let mut rows: Vec<MemberRow> = Vec::new();
    let mut k: usize = 0;
    while k < c.ns_members.len()
        invariant
            k <= c.ns_members@.len(),
            rows@.len() == k,
            forall|i: int| 0 <= i < k ==> has_row(p, #[trigger] c.ns_members@[i]),
            forall|i: int| 0 <= i < k ==> row_for(p, c.ns_members@[i], #[trigger] rows@[i]),
        decreases c.ns_members@.len() - k,
    {
        match member_row(p, &c.ns_members[k]) {
            Some(row) => rows.push(row),
            None => {
                assert(!has_row(p, c.ns_members@[k as int]));
                return None;
            },
        }
        k = k + 1;
    }
    Some(rows)
}

} // verus!
