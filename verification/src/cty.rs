//! Lowering of a C type to a type reference of the target language.

use crate::ast::{Ty, TyV};
use crate::model::{type_ok, FKind, IKind, Model, Type};
use crate::naming::{
    ensure_named, escaped, lemma_ensure_named_idempotent, lemma_ensure_named_keeps,
    lemma_ensure_named_wf, rust_id, CtxV, Entity, GenCtx,
};
use crate::text::prefixed;
use vstd::prelude::*;

verus! {

/// The name of the integer type of the target's C-compatibility module that
/// has the signedness and the width of `kind`. A C `_Bool` is held in an `int`.
pub open spec fn int_type_name(kind: IKind) -> Seq<char> {
    match kind {
        IKind::IBool => "c_int"@,
        IKind::ISChar => "c_schar"@,
        IKind::IUChar => "c_uchar"@,
        IKind::IInt => "c_int"@,
        IKind::IUInt => "c_uint"@,
        IKind::IShort => "c_short"@,
        IKind::IUShort => "c_ushort"@,
        IKind::ILong => "c_long"@,
        IKind::IULong => "c_ulong"@,
        IKind::ILongLong => "c_longlong"@,
        IKind::IULongLong => "c_ulonglong"@,
    }
}

/// The name of the floating-point type that has the precision of `kind`.
pub open spec fn float_type_name(kind: FKind) -> Seq<char> {
    match kind {
        FKind::FFloat => "c_float"@,
        FKind::FDouble => "c_double"@,
    }
}

/// The prefix that the type name of a composite carries.
pub open spec fn comp_prefix(cstruct: bool) -> Seq<char> {
    if cstruct {
        "Struct_"@
    } else {
        "Union_"@
    }
}

/// The type name under which the composite `h` is referred to once it has a name.
pub open spec fn comp_type_name(model: Model, s: CtxV, h: usize) -> Seq<char> {
    comp_prefix(model.comps@[h as int].cstruct) + s.ensure_named(Entity::Comp(h)).name_of(
        Entity::Comp(h),
    )
}

/// The type name under which the enum `h` is referred to once it has a name.
pub open spec fn enum_type_name(s: CtxV, h: usize) -> Seq<char> {
    "Enum_"@ + s.ensure_named(Entity::Enum(h)).name_of(Entity::Enum(h))
}

/// The pointer to an untyped byte that stands for every function type.
pub open spec fn fn_type() -> TyV {
    TyV::Ptr(Box::new(TyV::Path("u8"@)))
}

/// The type reference that stands for the C type `ty` in state `s`.
pub open spec fn cty_spec(ty: Type, model: Model, s: CtxV) -> TyV
    decreases ty,
{
    match ty {
        Type::TVoid => TyV::Path("c_void"@),
        Type::TInt(kind) => TyV::Path(int_type_name(kind)),
        Type::TFloat(kind) => TyV::Path(float_type_name(kind)),
        Type::TPtr(t) => TyV::Ptr(Box::new(cty_spec(*t, model, s))),
        Type::TArray(t, n) => TyV::FixedVec(Box::new(cty_spec(*t, model, s)), n as nat),
        Type::TFunc(_, _, _) => fn_type(),
        Type::TNamed(i) => TyV::Path(escaped(s.keywords, model.types@[i as int].name@)),
        Type::TComp(h) => TyV::Path(comp_type_name(model, s, h)),
        Type::TEnum(h) => TyV::Path(enum_type_name(s, h)),
    }
}

/// The state after `ty` has been lowered in state `s`: a composite or an enum
/// that the type ends in has been named.
pub open spec fn cty_state(ty: Type, s: CtxV) -> CtxV
    decreases ty,
{
    match ty {
        Type::TPtr(t) => cty_state(*t, s),
        Type::TArray(t, _) => cty_state(*t, s),
        Type::TComp(h) => s.ensure_named(Entity::Comp(h)),
        Type::TEnum(h) => s.ensure_named(Entity::Enum(h)),
        _ => s,
    }
}

/// Lowering a type keeps the table's shape, the reserved words and the
/// counter's bound, and never takes a name away.
pub proof fn lemma_cty_state(ty: Type, model: Model, s: CtxV)
    requires
        type_ok(ty, model),
        s.covers(model),
        s.wf(),
    ensures
        cty_state(ty, s).covers(model),
        cty_state(ty, s).wf(),
        cty_state(ty, s).keywords == s.keywords,
        cty_state(ty, s).counter >= s.counter,
    decreases ty,
{
    match ty {
        Type::TPtr(t) => lemma_cty_state(*t, model, s),
        Type::TArray(t, _) => lemma_cty_state(*t, model, s),
        Type::TComp(h) => lemma_ensure_named_wf(s, Entity::Comp(h)),
        Type::TEnum(h) => lemma_ensure_named_wf(s, Entity::Enum(h)),
        _ => {},
    }
}

/// Lowering a type leaves every entity that has a name under that name.
pub proof fn lemma_cty_keeps_names(ty: Type, model: Model, s: CtxV, e: Entity)
    requires
        type_ok(ty, model),
        s.covers(model),
        s.has(e),
        s.name_of(e).len() > 0,
    ensures
        cty_state(ty, s).has(e),
        cty_state(ty, s).name_of(e) == s.name_of(e),
    decreases ty,
{
    match ty {
        Type::TPtr(t) => lemma_cty_keeps_names(*t, model, s, e),
        Type::TArray(t, _) => lemma_cty_keeps_names(*t, model, s, e),
        Type::TComp(h) => lemma_ensure_named_keeps(s, Entity::Comp(h), e),
        Type::TEnum(h) => lemma_ensure_named_keeps(s, Entity::Enum(h), e),
        _ => {},
    }
}

/// Lowering the same type a second time changes nothing more and gives the
/// same reference.
pub proof fn lemma_cty_idempotent(ty: Type, model: Model, s: CtxV)
    requires
        type_ok(ty, model),
        s.covers(model),
    ensures
        cty_state(ty, cty_state(ty, s)) == cty_state(ty, s),
        cty_spec(ty, model, cty_state(ty, s)) == cty_spec(ty, model, s),
    decreases ty,
{
    match ty {
        Type::TPtr(t) => lemma_cty_idempotent(*t, model, s),
        Type::TArray(t, _) => lemma_cty_idempotent(*t, model, s),
        Type::TComp(h) => lemma_ensure_named_idempotent(s, Entity::Comp(h)),
        Type::TEnum(h) => lemma_ensure_named_idempotent(s, Entity::Enum(h)),
        _ => {},
    }
}

/// A reference to the type called `name`.
pub fn mk_ty(name: String) -> (t: Ty)
    ensures
        t@ == TyV::Path(name@),
{
    Ty::Path(name)
}

/// An immutable raw pointer to `base`.
pub fn mk_ptrty(base: Ty) -> (t: Ty)
    ensures
        t@ == TyV::Ptr(Box::new(base@)),
{
    Ty::Ptr(Box::new(base))
}

/// A vector of `n` elements of type `base`.
pub fn mk_arrty(base: Ty, n: usize) -> (t: Ty)
    ensures
        t@ == TyV::FixedVec(Box::new(base@), n as nat),
{
    Ty::FixedVec(Box::new(base), n)
}

/// The reference that stands for every function type.
pub fn mk_fnty() -> (t: Ty)
    ensures
        t@ == fn_type(),
{
    mk_ptrty(mk_ty(String::from_str("u8")))
}

/// The name of the integer type for `kind`.
pub fn int_type(kind: IKind) -> (name: &'static str)
    ensures
        name@ == int_type_name(kind),
{
    match kind {
        IKind::IBool => "c_int",
        IKind::ISChar => "c_schar",
        IKind::IUChar => "c_uchar",
        IKind::IInt => "c_int",
        IKind::IUInt => "c_uint",
        IKind::IShort => "c_short",
        IKind::IUShort => "c_ushort",
        IKind::ILong => "c_long",
        IKind::IULong => "c_ulong",
        IKind::ILongLong => "c_longlong",
        IKind::IULongLong => "c_ulonglong",
    }
}

/// The name of the floating-point type for `kind`.
pub fn float_type(kind: FKind) -> (name: &'static str)
    ensures
        name@ == float_type_name(kind),
{
    match kind {
        FKind::FFloat => "c_float",
        FKind::FDouble => "c_double",
    }
}

/// Lowers a C type to a type reference. A composite or an enum that the type
/// ends in is named on the way if it was anonymous.
pub fn cty_to_rs(ctx: &mut GenCtx, model: &Model, ty: &Type) -> (t: Ty)
    requires
        type_ok(*ty, *model),
        old(ctx)@.covers(*model),
        old(ctx)@.wf(),
    ensures
        t@ == cty_spec(*ty, *model, old(ctx)@),
        final(ctx)@ == cty_state(*ty, old(ctx)@),
        final(ctx)@.covers(*model),
        final(ctx)@.wf(),
        final(ctx)@.keywords == old(ctx)@.keywords,
    decreases ty,
{
    proof {
        lemma_cty_state(*ty, *model, ctx@);
    }
    match ty {
        Type::TVoid => mk_ty(String::from_str("c_void")),
        Type::TInt(kind) => mk_ty(String::from_str(int_type(*kind))),
        Type::TFloat(kind) => mk_ty(String::from_str(float_type(*kind))),
        Type::TPtr(t) => {
            let base = cty_to_rs(ctx, model, t);
            mk_ptrty(base)
        },
        Type::TArray(t, n) => {
            let base = cty_to_rs(ctx, model, t);
            mk_arrty(base, *n)
        },
        Type::TFunc(_, _, _) => mk_fnty(),
        Type::TNamed(i) => mk_ty(rust_id(ctx, model.types[*i].name.as_str()).0),
        Type::TComp(h) => {
            let name = ensure_named(ctx, Entity::Comp(*h));
            if model.comps[*h].cstruct {
                mk_ty(prefixed("Struct_", name.as_str()))
            } else {
                mk_ty(prefixed("Union_", name.as_str()))
            }
        },
        Type::TEnum(h) => {
            let name = ensure_named(ctx, Entity::Enum(*h));
            mk_ty(prefixed("Enum_", name.as_str()))
        },
    }
}

} // verus!
