//! Layout of the JSON description of a VMOD object: one `$OBJ` entry per
//! constructor.
use vstd::prelude::*;

use crate::strings::{string_push, string_push_str};

verus! {

/// One element of an object's `$OBJ` JSON array.
#[derive(Debug, Clone, Copy, PartialEq, Eq, Structural)]
pub enum ObjEntry {
    /// The string `$OBJ`.
    Tag,
    /// The VCL name of constructor `i`.
    VclIdent(usize),
    /// The flags object `{"NULL_OK": false}`.
    NullOkFalse,
    /// The C name of the object's struct.
    StructObjName,
    /// The description of constructor `i`.
    CtorJson(usize),
    /// The call-site restriction of constructor `i`.
    CtorRestrict(usize),
    /// The description of method `k` (the destructor first, then the
    /// methods).
    FuncJson(usize),
    /// The call-site restriction of method `k`.
    FuncRestrict(usize),
}

/// The entries of the methods: each description, followed by its
/// restriction when it has one.
pub open spec fn func_entries(fr: Seq<bool>) -> Seq<ObjEntry>
    decreases fr.len(),
{
    if fr.len() == 0 {
        seq![]
    } else {
        let k = fr.len() - 1;
        func_entries(fr.drop_last()) + seq![ObjEntry::FuncJson(k as usize)] + if fr[k] {
            seq![ObjEntry::FuncRestrict(k as usize)]
        } else {
            Seq::<ObjEntry>::empty()
        }
    }
}

/// The `$OBJ` array of constructor `i`: the tag, its VCL name, the flags,
/// the struct name, its description and restriction, then the methods.
pub open spec fn obj_entries(i: int, ctor_restricted: bool, fr: Seq<bool>) -> Seq<ObjEntry> {
    seq![
        ObjEntry::Tag,
        ObjEntry::VclIdent(i as usize),
        ObjEntry::NullOkFalse,
        ObjEntry::StructObjName,
        ObjEntry::CtorJson(i as usize),
    ] + (if ctor_restricted {
        seq![ObjEntry::CtorRestrict(i as usize)]
    } else {
        Seq::<ObjEntry>::empty()
    }) + func_entries(fr)
}

/// The entries of the methods, as [`func_entries`] states.
fn method_entries(fr: &Vec<bool>) -> (r: Vec<ObjEntry>)
    ensures
        r@ == func_entries(fr@),
{
    let mut r: Vec<ObjEntry> = Vec::new();
    let mut k: usize = 0;
    assert(fr@.take(0) =~= Seq::<bool>::empty());
    while k < fr.len()
        invariant
            k <= fr@.len(),
            r@ == func_entries(fr@.take(k as int)),
        decreases fr@.len() - k,
    {
        let ghost before = r@;
        r.push(ObjEntry::FuncJson(k));
        if fr[k] {
            r.push(ObjEntry::FuncRestrict(k));
        }
        assert(fr@.take(k + 1).drop_last() =~= fr@.take(k as int));
        assert(r@ =~= func_entries(fr@.take(k + 1)));
        k = k + 1;
    }
    assert(fr@.take(k as int) =~= fr@);
    r
}

/// One `$OBJ` array per constructor, in constructor order; `cr[i]` tells
/// whether constructor `i` has a restriction, `fr[k]` whether method `k` has.
pub fn obj_json_layout(cr: &Vec<bool>, fr: &Vec<bool>) -> (r: Vec<Vec<ObjEntry>>)
    ensures
        r@.len() == cr@.len(),
        forall|i: int| 0 <= i < cr@.len() ==> (#[trigger] r@[i])@ == obj_entries(i, cr@[i], fr@),
{
    let mut r: Vec<Vec<ObjEntry>> = Vec::new();
    let mut i: usize = 0;
    while i < cr.len()
        invariant
            i <= cr@.len(),
            r@.len() == i,
            forall|j: int| 0 <= j < i ==> (#[trigger] r@[j])@ == obj_entries(j, cr@[j], fr@),
        decreases cr@.len() - i,
    {
        let mut e: Vec<ObjEntry> = Vec::new();
        e.push(ObjEntry::Tag);
        e.push(ObjEntry::VclIdent(i));
        e.push(ObjEntry::NullOkFalse);
        e.push(ObjEntry::StructObjName);
        e.push(ObjEntry::CtorJson(i));
        if cr[i] {
            e.push(ObjEntry::CtorRestrict(i));
        }
        let mut m = method_entries(fr);
        e.append(&mut m);
        assert(e@ =~= obj_entries(i as int, cr@[i as int], fr@));
        r.push(e);
        i = i + 1;
    }
    r
}

/// A function of an object: constructor `i`, or method `k` (the destructor
/// first, then the methods).
#[derive(Debug, Clone, Copy, PartialEq, Eq, Structural)]
pub enum ObjFunc {
    Ctor(usize),
    Method(usize),
}

/// The functions of an object with `n_ctors` constructors and `n_methods`
/// methods (destructor included), in order: the constructors, then the
/// destructor and the methods.
pub open spec fn obj_funcs_of(n_ctors: nat, n_methods: nat) -> Seq<ObjFunc> {
    Seq::new(n_ctors, |i: int| ObjFunc::Ctor(i as usize)) + Seq::new(
        n_methods,
        |k: int| ObjFunc::Method(k as usize),
    )
}

/// The functions of an object, as [`obj_funcs_of`] orders them.
pub fn obj_funcs(n_ctors: usize, n_methods: usize) -> (r: Vec<ObjFunc>)
    ensures
        r@ == obj_funcs_of(n_ctors as nat, n_methods as nat),
{
    let mut r: Vec<ObjFunc> = Vec::new();
    let mut i: usize = 0;
    while i < n_ctors
        invariant
            i <= n_ctors,
            r@ == Seq::new(i as nat, |j: int| ObjFunc::Ctor(j as usize)),
        decreases n_ctors - i,
    {
        r.push(ObjFunc::Ctor(i));
        assert(r@ =~= Seq::new((i + 1) as nat, |j: int| ObjFunc::Ctor(j as usize)));
        i = i + 1;
    }
    let mut k: usize = 0;
    while k < n_methods
        invariant
            k <= n_methods,
            r@ == Seq::new(n_ctors as nat, |j: int| ObjFunc::Ctor(j as usize)) + Seq::new(
                k as nat,
                |j: int| ObjFunc::Method(j as usize),
            ),
        decreases n_methods - k,
    {
        r.push(ObjFunc::Method(k));
        assert(r@ =~= Seq::new(n_ctors as nat, |j: int| ObjFunc::Ctor(j as usize)) + Seq::new(
            (k + 1) as nat,
            |j: int| ObjFunc::Method(j as usize),
        ));
        k = k + 1;
    }
    r
}

/// The per-object part of the C prototypes: the struct declaration on a
/// line of its own.
pub fn gen_cproto(struct_obj_name: &str) -> (decl: String)
    ensures
        decl@ == seq!['\n'] + struct_obj_name@ + seq![';', '\n'],
{
    let mut decl = String::new();
    string_push(&mut decl, '\n');
    string_push_str(&mut decl, struct_obj_name);
    string_push(&mut decl, ';');
    string_push(&mut decl, '\n');
    assert(decl@ =~= seq!['\n'] + struct_obj_name@ + seq![';', '\n']);
    decl
}

} // verus!
