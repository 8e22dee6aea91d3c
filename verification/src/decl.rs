//! Emission of one declaration: aliases, structs, emulated unions, enums,
//! foreign variables and foreign functions.

use crate::ast::{
    views, Arg, Attr, AttrV, Field, ForeignItem, ForeignItemV, ForeignNode,
    ForeignNodeV, Item, ItemV, Method, NamedTyV, Ty, TyV,
};
use crate::cty::{
    cty_spec, cty_state, cty_to_rs, int_type, int_type_name, lemma_cty_keeps_names,
    lemma_cty_state, mk_arrty, mk_ptrty, mk_ty,
};
use crate::model::{comp_ok, params_ok, type_ok, EnumItem, FieldInfo, IKind, Model, Type};
use crate::naming::{
    escaped, lemma_with_name_wf, name_of, rust_id, set_name, CtxV, Entity, GenCtx,
};
use crate::text::{decimal, decimal_string, lemma_prefixed_decimal_injective, prefixed};
use vstd::prelude::*;

verus! {

/// The members of a composite as pairs of name and type.
pub open spec fn field_members(fields: Seq<FieldInfo>) -> Seq<(Seq<char>, Type)> {
    Seq::new(fields.len(), |i: int| (fields[i].name@, fields[i].ty))
}

/// The parameters of a function as pairs of name and type.
pub open spec fn param_members(params: Seq<(String, Type)>) -> Seq<(Seq<char>, Type)> {
    Seq::new(params.len(), |i: int| (params[i].0@, params[i].1))
}

/// How many of the first `k` members have no name.
pub open spec fn anon_count(ms: Seq<(Seq<char>, Type)>, k: int) -> nat
    decreases k,
{
    if k <= 0 {
        0
    } else {
        anon_count(ms, k - 1) + if ms[k - 1].0.len() == 0 {
            1nat
        } else {
            0nat
        }
    }
}

/// The state after the types of the first `k` members have been lowered, in order.
pub open spec fn members_state(ms: Seq<(Seq<char>, Type)>, k: int, s: CtxV) -> CtxV
    decreases k,
{
    if k <= 0 {
        s
    } else {
        cty_state(ms[k - 1].1, members_state(ms, k - 1, s))
    }
}

/// The emitted name of member `i`. A member without a name is called by
/// `prefix` and its rank among the nameless members, counted from 1; a named
/// one keeps its name, with an underscore in front if it is a reserved word.
pub open spec fn member_name(
    keywords: Seq<Seq<char>>,
    prefix: Seq<char>,
    ms: Seq<(Seq<char>, Type)>,
    i: int,
) -> Seq<char> {
    if ms[i].0.len() == 0 {
        prefix + decimal(anon_count(ms, i + 1))
    } else {
        escaped(keywords, ms[i].0)
    }
}

/// The emitted type of member `i`: its C type lowered in the state that the
/// members before it have left, behind a pointer if `by_ptr`.
pub open spec fn member_ty(
    model: Model,
    s: CtxV,
    ms: Seq<(Seq<char>, Type)>,
    i: int,
    by_ptr: bool,
) -> TyV {
    let ty = cty_spec(ms[i].1, model, members_state(ms, i, s));
    if by_ptr {
        TyV::Ptr(Box::new(ty))
    } else {
        ty
    }
}

/// The emitted members: one for each member, in the order declared.
pub open spec fn members_spec(
    model: Model,
    s: CtxV,
    prefix: Seq<char>,
    ms: Seq<(Seq<char>, Type)>,
    by_ptr: bool,
) -> Seq<NamedTyV> {
    Seq::new(
        ms.len(),
        |i: int|
            NamedTyV {
                name: member_name(s.keywords, prefix, ms, i),
                ty: member_ty(model, s, ms, i, by_ptr),
            },
    )
}

/// The count of nameless members never shrinks and grows by at most one per member.
pub proof fn lemma_anon_count_monotone(ms: Seq<(Seq<char>, Type)>, i: int, j: int)
    requires
        0 <= i <= j,
    ensures
        anon_count(ms, i) <= anon_count(ms, j) <= anon_count(ms, i) + (j - i),
    decreases j - i,
{
    if i < j {
        lemma_anon_count_monotone(ms, i, j - 1);
    }
}

/// Two nameless members of one declaration are emitted under different names.
pub proof fn lemma_anonymous_members_distinct(
    keywords: Seq<Seq<char>>,
    prefix: Seq<char>,
    ms: Seq<(Seq<char>, Type)>,
    i: int,
    j: int,
)
    requires
        0 <= i < j < ms.len(),
        ms[i].0.len() == 0,
        ms[j].0.len() == 0,
    ensures
        member_name(keywords, prefix, ms, i) != member_name(keywords, prefix, ms, j),
{
    lemma_anon_count_monotone(ms, i + 1, j);
    if member_name(keywords, prefix, ms, i) == member_name(keywords, prefix, ms, j) {
        lemma_prefixed_decimal_injective(prefix, anon_count(ms, i + 1), anon_count(ms, j + 1));
    }
}

/// Where every member up to `i` is nameless, member `i` is number `i + 1`:
/// nameless members are numbered from 1 in the order declared.
pub proof fn lemma_leading_anonymous_numbering(
    keywords: Seq<Seq<char>>,
    prefix: Seq<char>,
    ms: Seq<(Seq<char>, Type)>,
    i: int,
)
    requires
        0 <= i < ms.len(),
        forall|k: int| 0 <= k <= i ==> (#[trigger] ms[k]).0.len() == 0,
    ensures
        anon_count(ms, i + 1) == i + 1,
        member_name(keywords, prefix, ms, i) == prefix + decimal((i + 1) as nat),
    decreases i,
{
    if i > 0 {
        lemma_leading_anonymous_numbering(keywords, prefix, ms, i - 1);
    }
    assert(ms[i].0.len() == 0);
    assert(anon_count(ms, 0) == 0);
    assert(anon_count(ms, i + 1) == anon_count(ms, i) + 1);
}

/// A named member is emitted under its own name unless that is a reserved
/// word, in which case it gets an underscore in front.
pub proof fn lemma_named_member_escaping(
    keywords: Seq<Seq<char>>,
    prefix: Seq<char>,
    ms: Seq<(Seq<char>, Type)>,
    i: int,
)
    requires
        0 <= i < ms.len(),
        ms[i].0.len() > 0,
    ensures
        keywords.contains(ms[i].0) ==> member_name(keywords, prefix, ms, i) == "_"@ + ms[i].0,
        !keywords.contains(ms[i].0) ==> member_name(keywords, prefix, ms, i) == ms[i].0,
{
}

/// Lowering the member types keeps the table's shape, the reserved words and
/// the counter's bound.
pub proof fn lemma_members_state(ms: Seq<(Seq<char>, Type)>, k: int, model: Model, s: CtxV)
    requires
        0 <= k <= ms.len(),
        forall|i: int| 0 <= i < ms.len() ==> type_ok((#[trigger] ms[i]).1, model),
        s.covers(model),
        s.wf(),
    ensures
        members_state(ms, k, s).covers(model),
        members_state(ms, k, s).wf(),
        members_state(ms, k, s).keywords == s.keywords,
        members_state(ms, k, s).counter >= s.counter,
    decreases k,
{
    if k > 0 {
        lemma_members_state(ms, k - 1, model, s);
        assert(type_ok(ms[k - 1].1, model));
        lemma_cty_state(ms[k - 1].1, model, members_state(ms, k - 1, s));
    }
}

/// Lowering the member types leaves every entity that has a name under that name.
pub proof fn lemma_members_keep_names(
    ms: Seq<(Seq<char>, Type)>,
    k: int,
    model: Model,
    s: CtxV,
    e: Entity,
)
    requires
        0 <= k <= ms.len(),
        forall|i: int| 0 <= i < ms.len() ==> type_ok((#[trigger] ms[i]).1, model),
        s.covers(model),
        s.wf(),
        s.has(e),
        s.name_of(e).len() > 0,
    ensures
        members_state(ms, k, s).has(e),
        members_state(ms, k, s).name_of(e) == s.name_of(e),
    decreases k,
{
    if k > 0 {
        lemma_members_keep_names(ms, k - 1, model, s, e);
        lemma_members_state(ms, k - 1, model, s);
        assert(type_ok(ms[k - 1].1, model));
        lemma_cty_keeps_names(ms[k - 1].1, model, members_state(ms, k - 1, s), e);
    }
}

/// The emitted name of one member, given how many nameless members came before it.
fn member_name_rs(ctx: &GenCtx, prefix: &str, name: &str, unnamed: &mut usize) -> (r: String)
    requires
        *old(unnamed) < usize::MAX,
    ensures
        name@.len() == 0 ==> *final(unnamed) == *old(unnamed) + 1 && r@ == prefix@ + decimal(
            *final(unnamed) as nat,
        ),
        name@.len() > 0 ==> *final(unnamed) == *old(unnamed) && r@ == escaped(
            ctx@.keywords,
            name@,
        ),
{
    if name.is_empty() {
        *unnamed = *unnamed + 1;
        let digits = decimal_string(*unnamed);
        prefixed(prefix, digits.as_str())
    } else {
        rust_id(ctx, name).0
    }
}

/// The alias item `name = ty`.
pub open spec fn alias_item(model: Model, s: CtxV, name: Seq<char>, ty: Type) -> ItemV {
    ItemV::Alias(escaped(s.keywords, name), cty_spec(ty, model, s))
}

/// Emits the alias `name = ty`.
pub fn mk_alias(ctx: &mut GenCtx, model: &Model, name: &str, ty: &Type) -> (item: Item)
    requires
        type_ok(*ty, *model),
        old(ctx)@.covers(*model),
        old(ctx)@.wf(),
    ensures
        item@ == alias_item(*model, old(ctx)@, name@, *ty),
        final(ctx)@ == cty_state(*ty, old(ctx)@),
        final(ctx)@.covers(*model),
        final(ctx)@.wf(),
        final(ctx)@.keywords == old(ctx)@.keywords,
{
    let rust_name = rust_id(ctx, name).0;
    let rust_ty = cty_to_rs(ctx, model, ty);
    Item::Alias(rust_name, rust_ty)
}

/// The struct item for a struct called `name` with the given members.
pub open spec fn struct_item(
    model: Model,
    s: CtxV,
    name: Seq<char>,
    fields: Seq<FieldInfo>,
) -> ItemV {
    ItemV::Struct(
        escaped(s.keywords, name),
        members_spec(model, s, "unnamed_field"@, field_members(fields), false),
    )
}

/// Emits a struct: one public field for each member, in the order declared.
pub fn cstruct_to_rs(ctx: &mut GenCtx, model: &Model, name: &str, fields: &Vec<FieldInfo>) -> (item:
    Item)
    requires
        forall|j: int| 0 <= j < fields@.len() ==> type_ok(#[trigger] fields@[j].ty, *model),
        old(ctx)@.covers(*model),
        old(ctx)@.wf(),
    ensures
        item@ == struct_item(*model, old(ctx)@, name@, fields@),
        final(ctx)@ == members_state(field_members(fields@), fields@.len() as int, old(ctx)@),
        final(ctx)@.covers(*model),
        final(ctx)@.wf(),
        final(ctx)@.keywords == old(ctx)@.keywords,
{
    let ghost ms = field_members(fields@);
    let ghost s0 = ctx@;
    let ghost want = members_spec(*model, s0, "unnamed_field"@, ms, false);
    let mut out: Vec<Field> = Vec::new();
    let mut unnamed: usize = 0;
    let mut i: usize = 0;
    while i < fields.len()
        invariant
            i <= fields@.len(),
            ms == field_members(fields@),
            want == members_spec(*model, s0, "unnamed_field"@, ms, false),
            forall|j: int| 0 <= j < fields@.len() ==> type_ok(#[trigger] fields@[j].ty, *model),
            unnamed == anon_count(ms, i as int),
            unnamed <= i,
            ctx@ == members_state(ms, i as int, s0),
            ctx@.keywords == s0.keywords,
            ctx@.covers(*model),
            ctx@.wf(),
            out@.len() == i,
            forall|k: int| 0 <= k < i ==> (#[trigger] out@[k])@ == want[k],
        decreases fields@.len() - i,
    {
        let f = &fields[i];
        assert(ms[i as int] == (f.name@, f.ty));
        let f_name = member_name_rs(ctx, "unnamed_field", f.name.as_str(), &mut unnamed);
        let f_ty = cty_to_rs(ctx, model, &f.ty);
        out.push(Field { name: f_name, ty: f_ty });
        i += 1;
    }
    let rust_name = rust_id(ctx, name).0;
    assert(views(out@) =~= want);
    Item::Struct(rust_name, out)
}

/// The two items that emulate a union called `name`: a struct whose one
/// field, `data`, is a vector of `size` bytes, and the accessors, one for each
/// member, each returning a pointer to the member's type.
pub open spec fn union_items(
    model: Model,
    s: CtxV,
    name: Seq<char>,
    fields: Seq<FieldInfo>,
    size: usize,
) -> Seq<ItemV> {
    seq![
        ItemV::Struct(
            escaped(s.keywords, name),
            seq![
                NamedTyV {
                    name: "data"@,
                    ty: TyV::FixedVec(Box::new(TyV::Path("c_uchar"@)), size as nat),
                },
            ],
        ),
        ItemV::Impl(
            TyV::Path(escaped(s.keywords, name)),
            members_spec(model, s, "unnamed_field"@, field_members(fields), true),
        ),
    ]
}

/// Emits a union of `size` bytes as a struct of bytes with one accessor for
/// each member.
pub fn cunion_to_rs(
    ctx: &mut GenCtx,
    model: &Model,
    name: &str,
    fields: &Vec<FieldInfo>,
    size: usize,
) -> (items: Vec<Item>)
    requires
        forall|j: int| 0 <= j < fields@.len() ==> type_ok(#[trigger] fields@[j].ty, *model),
        old(ctx)@.covers(*model),
        old(ctx)@.wf(),
    ensures
        views(items@) == union_items(*model, old(ctx)@, name@, fields@, size),
        final(ctx)@ == members_state(field_members(fields@), fields@.len() as int, old(ctx)@),
        final(ctx)@.covers(*model),
        final(ctx)@.wf(),
        final(ctx)@.keywords == old(ctx)@.keywords,
{
    let ghost ms = field_members(fields@);
    let ghost s0 = ctx@;
    let ghost want = members_spec(*model, s0, "unnamed_field"@, ms, true);
    let data_ty = mk_arrty(mk_ty(String::from_str(int_type(IKind::IUChar))), size);
    let mut data: Vec<Field> = Vec::new();
    data.push(Field { name: String::from_str("data"), ty: data_ty });
    let union_def = Item::Struct(rust_id(ctx, name).0, data);
    let mut out: Vec<Method> = Vec::new();
    let mut unnamed: usize = 0;
    let mut i: usize = 0;
    while i < fields.len()
        invariant
            i <= fields@.len(),
            ms == field_members(fields@),
            want == members_spec(*model, s0, "unnamed_field"@, ms, true),
            forall|j: int| 0 <= j < fields@.len() ==> type_ok(#[trigger] fields@[j].ty, *model),
            unnamed == anon_count(ms, i as int),
            unnamed <= i,
            ctx@ == members_state(ms, i as int, s0),
            ctx@.keywords == s0.keywords,
            ctx@.covers(*model),
            ctx@.wf(),
            out@.len() == i,
            forall|k: int| 0 <= k < i ==> (#[trigger] out@[k])@ == want[k],
        decreases fields@.len() - i,
    {
        let f = &fields[i];
        assert(ms[i as int] == (f.name@, f.ty));
        let f_name = member_name_rs(ctx, "unnamed_field", f.name.as_str(), &mut unnamed);
        let ret_ty = mk_ptrty(cty_to_rs(ctx, model, &f.ty));
        out.push(Method { name: f_name, ty: ret_ty });
        i += 1;
    }
    assert(views(out@) =~= want);
    let methods = Item::Impl(mk_ty(rust_id(ctx, name).0), out);
    let mut items: Vec<Item> = Vec::new();
    items.push(union_def);
    items.push(methods);
    assert(views(data@) =~= seq![
        NamedTyV {
            name: "data"@,
            ty: TyV::FixedVec(Box::new(TyV::Path("c_uchar"@)), size as nat),
        },
    ]);
    assert(views(items@) =~= union_items(*model, s0, name@, fields@, size));
    items
}

/// The items for an enum called `name`: an alias of the integer type that
/// stores it, and one constant of that type for each enumerator, in the
/// order declared, with the enumerator's value. The alias's name passes
/// through escaping twice, an enumerator's name once.
pub open spec fn enum_items(
    keywords: Seq<Seq<char>>,
    name: Seq<char>,
    items: Seq<EnumItem>,
    kind: IKind,
) -> Seq<ItemV> {
    Seq::new(
        items.len() + 1,
        |i: int|
            if i == 0 {
                ItemV::Alias(
                    escaped(keywords, escaped(keywords, name)),
                    TyV::Path(int_type_name(kind)),
                )
            } else {
                ItemV::Const(
                    escaped(keywords, items[i - 1].name@),
                    TyV::Path(int_type_name(kind)),
                    items[i - 1].val as int,
                )
            },
    )
}

/// Emits an enum as an integer alias followed by one constant for each enumerator.
pub fn cenum_to_rs(ctx: &GenCtx, name: &str, items: &Vec<EnumItem>, kind: IKind) -> (defs: Vec<
    Item,
>)
    ensures
        views(defs@) == enum_items(ctx@.keywords, name@, items@, kind),
        defs@.len() == items@.len() + 1,
        forall|i: int|
            0 <= i < items@.len() ==> (#[trigger] defs@[i + 1])@ == ItemV::Const(
                escaped(ctx@.keywords, items@[i].name@),
                TyV::Path(int_type_name(kind)),
                items@[i].val as int,
            ),
{
    let ghost want = enum_items(ctx@.keywords, name@, items@, kind);
    let once = rust_id(ctx, name).0;
    let alias_name = rust_id(ctx, once.as_str()).0;
    let mut defs: Vec<Item> = Vec::new();
    defs.push(Item::Alias(alias_name, mk_ty(String::from_str(int_type(kind)))));
    let mut i: usize = 0;
    while i < items.len()
        invariant
            i <= items@.len(),
            want == enum_items(ctx@.keywords, name@, items@, kind),
            defs@.len() == i + 1,
            forall|k: int| 0 <= k < i + 1 ==> (#[trigger] defs@[k])@ == want[k],
        decreases items@.len() - i,
    {
        let it = &items[i];
        let val_ty = mk_ty(String::from_str(int_type(kind)));
        defs.push(Item::Const(rust_id(ctx, it.name.as_str()).0, val_ty, it.val));
        i += 1;
    }
    assert(views(defs@) =~= want);
    assert forall|i: int| 0 <= i < items@.len() implies (#[trigger] defs@[i + 1])@
        == ItemV::Const(
        escaped(ctx@.keywords, items@[i].name@),
        TyV::Path(int_type_name(kind)),
        items@[i].val as int,
    ) by {
        assert(defs@[i + 1]@ == want[i + 1]);
    }
    defs
}

/// Whether an alias of `ty` stands for a composite or an enum that has no name yet.
pub open spec fn aliases_anonymous(s: CtxV, ty: Type) -> bool {
    match ty {
        Type::TComp(h) => s.name_of(Entity::Comp(h)).len() == 0,
        Type::TEnum(h) => s.name_of(Entity::Enum(h)).len() == 0,
        _ => false,
    }
}

/// The items for the alias `name` of `ty`. Where `ty` is a composite or an
/// enum without a name, the entity takes the alias's name and is emitted in
/// full, as `Struct_`, `Union_` or `Enum_` and that name, in place of an
/// alias. In every other case the one item is the alias.
pub open spec fn typedef_items(model: Model, s: CtxV, name: Seq<char>, ty: Type) -> Seq<ItemV> {
    match ty {
        Type::TComp(h) => if aliases_anonymous(s, ty) {
            let named = s.with_name(Entity::Comp(h), name);
            let ci = model.comps@[h as int];
            if ci.cstruct {
                seq![struct_item(model, named, "Struct_"@ + name, ci.fields@)]
            } else {
                union_items(model, named, "Union_"@ + name, ci.fields@, ci.size)
            }
        } else {
            seq![alias_item(model, s, name, ty)]
        },
        Type::TEnum(h) => if aliases_anonymous(s, ty) {
            let ei = model.enums@[h as int];
            enum_items(s.keywords, "Enum_"@ + name, ei.items@, ei.kind)
        } else {
            seq![alias_item(model, s, name, ty)]
        },
        _ => seq![alias_item(model, s, name, ty)],
    }
}

/// The state after the alias `name` of `ty` has been emitted.
pub open spec fn typedef_state(model: Model, s: CtxV, name: Seq<char>, ty: Type) -> CtxV {
    match ty {
        Type::TComp(h) => if aliases_anonymous(s, ty) {
            let fields = model.comps@[h as int].fields@;
            members_state(
                field_members(fields),
                fields.len() as int,
                s.with_name(Entity::Comp(h), name),
            )
        } else {
            cty_state(ty, s)
        },
        Type::TEnum(h) => if aliases_anonymous(s, ty) {
            s.with_name(Entity::Enum(h), name)
        } else {
            cty_state(ty, s)
        },
        _ => cty_state(ty, s),
    }
}

/// An alias of an anonymous struct emits exactly one item, the struct under
/// `Struct_` and the alias's name, and the struct has the alias's name from
/// then on: it is never given a made-up name.
pub proof fn lemma_typedef_of_anonymous_struct(model: Model, s: CtxV, name: Seq<char>, h: usize)
    requires
        model.wf(),
        s.covers(model),
        s.wf(),
        h < model.comps@.len(),
        model.comps@[h as int].cstruct,
        s.name_of(Entity::Comp(h)).len() == 0,
        name.len() > 0,
    ensures
        typedef_items(model, s, name, Type::TComp(h)).len() == 1,
        typedef_items(model, s, name, Type::TComp(h))[0] == struct_item(
            model,
            s.with_name(Entity::Comp(h), name),
            "Struct_"@ + name,
            model.comps@[h as int].fields@,
        ),
        typedef_items(model, s, name, Type::TComp(h))[0] matches ItemV::Struct(n, fs) && n
            == escaped(s.keywords, "Struct_"@ + name) && fs.len()
            == model.comps@[h as int].fields@.len(),
        typedef_state(model, s, name, Type::TComp(h)).name_of(Entity::Comp(h)) == name,
        typedef_state(model, s, name, Type::TComp(h)).counter >= s.counter,
{
    let named = s.with_name(Entity::Comp(h), name);
    let fields = model.comps@[h as int].fields@;
    let ms = field_members(fields);
    assert(comp_ok(model.comps@[h as int], model));
    assert forall|i: int| 0 <= i < ms.len() implies type_ok((#[trigger] ms[i]).1, model) by {
        assert(type_ok(fields[i].ty, model));
    }
    lemma_with_name_wf(s, Entity::Comp(h), name);
    lemma_members_state(ms, ms.len() as int, model, named);
    lemma_members_keep_names(ms, ms.len() as int, model, named, Entity::Comp(h));
}

/// Emits the alias `name` of `ty`, or the full definition of the anonymous
/// composite or enum that `ty` is, which takes the name `name`.
pub fn ctypedef_to_rs(ctx: &mut GenCtx, model: &Model, name: &str, ty: &Type) -> (items: Vec<Item>)
    requires
        model.wf(),
        type_ok(*ty, *model),
        old(ctx)@.covers(*model),
        old(ctx)@.wf(),
    ensures
        views(items@) == typedef_items(*model, old(ctx)@, name@, *ty),
        final(ctx)@ == typedef_state(*model, old(ctx)@, name@, *ty),
        final(ctx)@.covers(*model),
        final(ctx)@.wf(),
        final(ctx)@.keywords == old(ctx)@.keywords,
{
    let ghost s0 = ctx@;
    let mut items: Vec<Item> = Vec::new();
    match ty {
        Type::TComp(h) => {
            if name_of(ctx, Entity::Comp(*h)).as_str().is_empty() {
                proof {
                    lemma_with_name_wf(s0, Entity::Comp(*h), name@);
                }
                set_name(ctx, Entity::Comp(*h), String::from_str(name));
                let ci = &model.comps[*h];
                assert(comp_ok(*ci, *model));
                if ci.cstruct {
                    let full = prefixed("Struct_", name);
                    let item = cstruct_to_rs(ctx, model, full.as_str(), &ci.fields);
                    items.push(item);
                    assert(views(items@) =~= typedef_items(*model, s0, name@, *ty));
                    return items;
                } else {
                    let full = prefixed("Union_", name);
                    return cunion_to_rs(ctx, model, full.as_str(), &ci.fields, ci.size);
                }
            }
        },
        Type::TEnum(h) => {
            if name_of(ctx, Entity::Enum(*h)).as_str().is_empty() {
                proof {
                    lemma_with_name_wf(s0, Entity::Enum(*h), name@);
                }
                set_name(ctx, Entity::Enum(*h), String::from_str(name));
                let ei = &model.enums[*h];
                let full = prefixed("Enum_", name);
                return cenum_to_rs(ctx, full.as_str(), &ei.items, ei.kind);
            }
        },
        _ => {},
    }
    let item = mk_alias(ctx, model, name, ty);
    items.push(item);
    assert(views(items@) =~= typedef_items(*model, s0, name@, *ty));
    items
}

/// The attributes of a linked symbol declared as `name`: where its emitted
/// name differs, the attribute `link_name` holds the declared name, so that
/// the linker still finds the symbol.
pub open spec fn link_name_attrs(keywords: Seq<Seq<char>>, name: Seq<char>) -> Seq<AttrV> {
    if keywords.contains(name) {
        seq![AttrV { name: "link_name"@, value: name }]
    } else {
        Seq::empty()
    }
}

/// The attribute `link_name = "name"`.
pub fn mk_link_name_attr(name: String) -> (attr: Attr)
    ensures
        attr@ == (AttrV { name: "link_name"@, value: name@ }),
{
    Attr { name: String::from_str("link_name"), value: name }
}

/// The emitted name of a linked symbol and its attributes.
fn symbol_name(ctx: &GenCtx, name: &str) -> (r: (String, Vec<Attr>))
    ensures
        r.0@ == escaped(ctx@.keywords, name@),
        views(r.1@) == link_name_attrs(ctx@.keywords, name@),
{
    let (rust_name, was_mangled) = rust_id(ctx, name);
    let mut attrs: Vec<Attr> = Vec::new();
    if was_mangled {
        attrs.push(mk_link_name_attr(String::from_str(name)));
    }
    assert(views(attrs@) =~= link_name_attrs(ctx@.keywords, name@));
    (rust_name, attrs)
}

/// The foreign item for a variable `name` of type `ty`.
pub open spec fn var_item(model: Model, s: CtxV, name: Seq<char>, ty: Type) -> ForeignItemV {
    ForeignItemV {
        name: escaped(s.keywords, name),
        attrs: link_name_attrs(s.keywords, name),
        node: ForeignNodeV::Const(cty_spec(ty, model, s)),
    }
}

/// Emits a variable as a foreign constant of its lowered type.
pub fn cvar_to_rs(ctx: &mut GenCtx, model: &Model, name: &str, ty: &Type) -> (item: ForeignItem)
    requires
        type_ok(*ty, *model),
        old(ctx)@.covers(*model),
        old(ctx)@.wf(),
    ensures
        item@ == var_item(*model, old(ctx)@, name@, *ty),
        final(ctx)@ == cty_state(*ty, old(ctx)@),
        final(ctx)@.covers(*model),
        final(ctx)@.wf(),
        final(ctx)@.keywords == old(ctx)@.keywords,
{
    let (rust_name, attrs) = symbol_name(ctx, name);
    let rust_ty = cty_to_rs(ctx, model, ty);
    ForeignItem { name: rust_name, attrs, node: ForeignNode::Const(rust_ty) }
}

/// The result type of a foreign function: the empty tuple for `void`, else
/// the lowered return type.
pub open spec fn ret_ty(model: Model, s: CtxV, rty: Type) -> TyV {
    if rty is TVoid {
        TyV::Nil
    } else {
        cty_spec(rty, model, s)
    }
}

/// The foreign item for a function `name`. A parameter without a name is
/// called `arg` and its rank among the nameless parameters. That more
/// arguments may follow is not recorded.
pub open spec fn func_item(
    model: Model,
    s: CtxV,
    name: Seq<char>,
    rty: Type,
    params: Seq<(String, Type)>,
) -> ForeignItemV {
    ForeignItemV {
        name: escaped(s.keywords, name),
        attrs: link_name_attrs(s.keywords, name),
        node: ForeignNodeV::Fn(
            members_spec(model, cty_state(rty, s), "arg"@, param_members(params), false),
            ret_ty(model, s, rty),
        ),
    }
}

/// The state after a function has been emitted: its return type is lowered
/// first, its parameter types after it, in order.
pub open spec fn func_state(s: CtxV, rty: Type, params: Seq<(String, Type)>) -> CtxV {
    members_state(param_members(params), params.len() as int, cty_state(rty, s))
}

/// Emits a function as a foreign function. Whether it takes more arguments
/// than its parameters, `_var`, changes nothing.
pub fn cfunc_to_rs(
    ctx: &mut GenCtx,
    model: &Model,
    name: &str,
    rty: &Type,
    aty: &Vec<(String, Type)>,
    _var: bool,
) -> (item: ForeignItem)
    requires
        type_ok(*rty, *model),
        params_ok(aty@, *model),
        old(ctx)@.covers(*model),
        old(ctx)@.wf(),
    ensures
        item@ == func_item(*model, old(ctx)@, name@, *rty, aty@),
        final(ctx)@ == func_state(old(ctx)@, *rty, aty@),
        final(ctx)@.covers(*model),
        final(ctx)@.wf(),
        final(ctx)@.keywords == old(ctx)@.keywords,
{
    let ghost s0 = ctx@;
    let ret = match rty {
        Type::TVoid => Ty::Nil,
        _ => cty_to_rs(ctx, model, rty),
    };
    let ghost s1 = ctx@;
    let ghost ms = param_members(aty@);
    let ghost want = members_spec(*model, s1, "arg"@, ms, false);
    let mut args: Vec<Arg> = Vec::new();
    let mut unnamed: usize = 0;
    let mut i: usize = 0;
    while i < aty.len()
        invariant
            i <= aty@.len(),
            ms == param_members(aty@),
            want == members_spec(*model, s1, "arg"@, ms, false),
            params_ok(aty@, *model),
            unnamed == anon_count(ms, i as int),
            unnamed <= i,
            ctx@ == members_state(ms, i as int, s1),
            ctx@.keywords == s1.keywords,
            ctx@.covers(*model),
            ctx@.wf(),
            args@.len() == i,
            forall|k: int| 0 <= k < i ==> (#[trigger] args@[k])@ == want[k],
        decreases aty@.len() - i,
    {
        let p = &aty[i];
        assert(ms[i as int] == (p.0@, p.1));
        let arg_name = member_name_rs(ctx, "arg", p.0.as_str(), &mut unnamed);
        let arg_ty = cty_to_rs(ctx, model, &p.1);
        args.push(Arg { name: arg_name, ty: arg_ty });
        i += 1;
    }
    assert(views(args@) =~= want);
    let (rust_name, attrs) = symbol_name(ctx, name);
    ForeignItem { name: rust_name, attrs, node: ForeignNode::Fn(args, ret) }
}

/// A variable or a function whose name is a reserved word is emitted with an
/// underscore in front and carries its declared name as `link_name`; any other
/// is emitted under its declared name and carries no attribute.
pub proof fn lemma_symbol_escaping(
    model: Model,
    s: CtxV,
    name: Seq<char>,
    ty: Type,
    params: Seq<(String, Type)>,
)
    ensures
        s.keywords.contains(name) ==> {
            &&& var_item(model, s, name, ty).name == "_"@ + name
            &&& var_item(model, s, name, ty).attrs == seq![
                AttrV { name: "link_name"@, value: name },
            ]
            &&& func_item(model, s, name, ty, params).name == "_"@ + name
            &&& func_item(model, s, name, ty, params).attrs == seq![
                AttrV { name: "link_name"@, value: name },
            ]
        },
        !s.keywords.contains(name) ==> {
            &&& var_item(model, s, name, ty).name == name
            &&& var_item(model, s, name, ty).attrs.len() == 0
            &&& func_item(model, s, name, ty, params).name == name
            &&& func_item(model, s, name, ty, params).attrs.len() == 0
        },
{
}

/// The member types of a composite of a sound model are in order.
pub proof fn lemma_field_members_ok(model: Model, h: int)
    requires
        model.wf(),
        0 <= h < model.comps@.len(),
    ensures
        forall|i: int|
            0 <= i < field_members(model.comps@[h].fields@).len() ==> type_ok(
                (#[trigger] field_members(model.comps@[h].fields@)[i]).1,
                model,
            ),
{
    let fields = model.comps@[h].fields@;
    assert(comp_ok(model.comps@[h], model));
    assert forall|i: int| 0 <= i < field_members(fields).len() implies type_ok(
        (#[trigger] field_members(fields)[i]).1,
        model,
    ) by {
        assert(type_ok(fields[i].ty, model));
    }
}

/// Emitting an alias keeps the table's shape, the reserved words and the
/// counter's bound.
pub proof fn lemma_typedef_state(model: Model, s: CtxV, name: Seq<char>, ty: Type)
    requires
        model.wf(),
        type_ok(ty, model),
        s.covers(model),
        s.wf(),
    ensures
        typedef_state(model, s, name, ty).covers(model),
        typedef_state(model, s, name, ty).wf(),
        typedef_state(model, s, name, ty).keywords == s.keywords,
        typedef_state(model, s, name, ty).counter >= s.counter,
{
    lemma_cty_state(ty, model, s);
    match ty {
        Type::TComp(h) => {
            if aliases_anonymous(s, ty) {
                let ms = field_members(model.comps@[h as int].fields@);
                lemma_with_name_wf(s, Entity::Comp(h), name);
                lemma_field_members_ok(model, h as int);
                lemma_members_state(
                    ms,
                    ms.len() as int,
                    model,
                    s.with_name(Entity::Comp(h), name),
                );
            }
        },
        Type::TEnum(h) => {
            if aliases_anonymous(s, ty) {
                lemma_with_name_wf(s, Entity::Enum(h), name);
            }
        },
        _ => {},
    }
}

/// Emitting an alias leaves every entity that has a name under that name.
pub proof fn lemma_typedef_keeps_names(
    model: Model,
    s: CtxV,
    name: Seq<char>,
    ty: Type,
    e: Entity,
)
    requires
        model.wf(),
        type_ok(ty, model),
        s.covers(model),
        s.wf(),
        s.has(e),
        s.name_of(e).len() > 0,
    ensures
        typedef_state(model, s, name, ty).has(e),
        typedef_state(model, s, name, ty).name_of(e) == s.name_of(e),
{
    lemma_cty_keeps_names(ty, model, s, e);
    match ty {
        Type::TComp(h) => {
            if aliases_anonymous(s, ty) {
                let ms = field_members(model.comps@[h as int].fields@);
                let named = s.with_name(Entity::Comp(h), name);
                lemma_with_name_wf(s, Entity::Comp(h), name);
                lemma_field_members_ok(model, h as int);
                lemma_members_keep_names(ms, ms.len() as int, model, named, e);
            }
        },
        _ => {},
    }
}

/// The byte buffer of an emulated union is as long as the union's declared
/// size, and the union has one accessor for each member, each of which
/// returns a pointer.
pub proof fn lemma_union_buffer_size(
    model: Model,
    s: CtxV,
    name: Seq<char>,
    fields: Seq<FieldInfo>,
    size: usize,
)
    ensures
        union_items(model, s, name, fields, size).len() == 2,
        union_items(model, s, name, fields, size)[0] matches ItemV::Struct(_, fs) && fs.len() == 1
            && fs[0].name == "data"@ && fs[0].ty == TyV::FixedVec(
            Box::new(TyV::Path("c_uchar"@)),
            size as nat,
        ),
        union_items(model, s, name, fields, size)[1] matches ItemV::Impl(_, ms) && ms.len()
            == fields.len() && forall|i: int| 0 <= i < ms.len() ==> (#[trigger] ms[i]).ty is Ptr,
{
}

/// Every enumerator is emitted as one constant, in the order declared, whose
/// value is the enumerator's value, whether negative or shared with another.
pub proof fn lemma_enum_fidelity(
    keywords: Seq<Seq<char>>,
    name: Seq<char>,
    items: Seq<EnumItem>,
    kind: IKind,
    i: int,
)
    requires
        0 <= i < items.len(),
    ensures
        enum_items(keywords, name, items, kind).len() == items.len() + 1,
        enum_items(keywords, name, items, kind)[i + 1] == ItemV::Const(
            escaped(keywords, items[i].name@),
            TyV::Path(int_type_name(kind)),
            items[i].val as int,
        ),
{
}

} // verus!
