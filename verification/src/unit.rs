//! Assembly of the emitted unit: the type declarations in input order, then
//! one block of foreign items that holds every variable and every function.

use crate::ast::{
    lemma_views_add, lemma_views_push, views, Attr, AttrV, ForeignItem, ForeignItemV, Import,
    Item, ItemV, Unit, UnitV,
};
use crate::cty::{
    comp_type_name, cty_state, enum_type_name, lemma_cty_keeps_names, lemma_cty_state,
};
use crate::decl::{
    alias_item, cenum_to_rs, cfunc_to_rs, cstruct_to_rs, ctypedef_to_rs, cunion_to_rs,
    cvar_to_rs, enum_items, field_members, func_item, func_state, lemma_field_members_ok,
    link_name_attrs,
    lemma_members_keep_names, lemma_members_state, lemma_typedef_keeps_names,
    lemma_typedef_of_anonymous_struct, lemma_typedef_state, members_state, mk_alias,
    param_members, struct_item, typedef_items, typedef_state, union_items, var_item,
};
use crate::dedup::{
    dedup_spec, lemma_aliased_body_removed, lemma_filter_take_step, remove_redundent_decl, stays,
};
use crate::model::{
    comp_ok, global_ok, globals_ok, params_ok, symbol_ok, type_ok, Global, Model, Type,
};
use crate::naming::{
    ensure_named, escaped, lemma_ensure_named_idempotent, lemma_ensure_named_keeps,
    lemma_ensure_named_wf, lemma_escaped_injective, lemma_unnamed_injective,
    lemma_unnamed_left_bound, unnamed, CtxV, Entity, GenCtx,
};
use crate::text::prefixed;
use vstd::prelude::*;

verus! {

/// Why no unit was emitted.
#[derive(Clone, Copy, Debug, PartialEq, Eq, Structural)]
pub enum GenError {
    /// A reference in the model dangles, or the model holds more composites
    /// and enums than can be counted.
    BrokenModel,
    /// The declaration at this position of the input is tagged as a function,
    /// but the type of its symbol is no function type.
    NotAFunction(usize),
}

/// The declaration is one of a type: an alias, a composite or an enum.
pub open spec fn is_type_decl(g: Global) -> bool {
    !(g is GOther) && !(g is GFunc) && !(g is GVar)
}

pub open spec fn type_decl() -> spec_fn(Global) -> bool {
    |g: Global| is_type_decl(g)
}

pub open spec fn var_decl() -> spec_fn(Global) -> bool {
    |g: Global| g is GVar
}

pub open spec fn func_decl() -> spec_fn(Global) -> bool {
    |g: Global| g is GFunc
}

/// The declaration is tagged as a function and its symbol has another type.
pub open spec fn is_bad_function(model: Model, g: Global) -> bool {
    g matches Global::GFunc(v) && !(model.vars@[v as int].ty is TFunc)
}

/// The items that one type declaration emits in state `s`. A composite or an
/// enum is named first if it has no name. A forward declaration emits an
/// alias of the opaque type; a full one emits the struct, the emulated union
/// or the enum.
pub open spec fn decl_items(model: Model, s: CtxV, g: Global) -> Seq<ItemV> {
    match g {
        Global::GType(t) => typedef_items(
            model,
            s,
            model.types@[t as int].name@,
            model.types@[t as int].ty,
        ),
        Global::GCompDecl(h) => seq![
            alias_item(
                model,
                s.ensure_named(Entity::Comp(h)),
                comp_type_name(model, s, h),
                Type::TVoid,
            ),
        ],
        Global::GComp(h) => {
            let ci = model.comps@[h as int];
            let named = s.ensure_named(Entity::Comp(h));
            if ci.cstruct {
                seq![struct_item(model, named, comp_type_name(model, s, h), ci.fields@)]
            } else {
                union_items(model, named, comp_type_name(model, s, h), ci.fields@, ci.size)
            }
        },
        Global::GEnumDecl(h) => seq![
            alias_item(model, s.ensure_named(Entity::Enum(h)), enum_type_name(s, h), Type::TVoid),
        ],
        Global::GEnum(h) => {
            let ei = model.enums@[h as int];
            enum_items(s.keywords, enum_type_name(s, h), ei.items@, ei.kind)
        },
        _ => Seq::empty(),
    }
}

/// The state after one type declaration has been emitted in state `s`.
pub open spec fn decl_state(model: Model, s: CtxV, g: Global) -> CtxV {
    match g {
        Global::GType(t) => typedef_state(
            model,
            s,
            model.types@[t as int].name@,
            model.types@[t as int].ty,
        ),
        Global::GCompDecl(h) => s.ensure_named(Entity::Comp(h)),
        Global::GComp(h) => {
            let fields = model.comps@[h as int].fields@;
            members_state(
                field_members(fields),
                fields.len() as int,
                s.ensure_named(Entity::Comp(h)),
            )
        },
        Global::GEnumDecl(h) => s.ensure_named(Entity::Enum(h)),
        Global::GEnum(h) => s.ensure_named(Entity::Enum(h)),
        _ => s,
    }
}

/// The items of the first `k` declarations of `gs`, emitted in order from state `s`.
pub open spec fn defs_items(model: Model, s: CtxV, gs: Seq<Global>, k: int) -> Seq<ItemV>
    decreases k,
{
    if k <= 0 {
        Seq::empty()
    } else {
        defs_items(model, s, gs, k - 1) + decl_items(
            model,
            defs_state(model, s, gs, k - 1),
            gs[k - 1],
        )
    }
}

/// The state after the first `k` declarations of `gs` have been emitted from state `s`.
pub open spec fn defs_state(model: Model, s: CtxV, gs: Seq<Global>, k: int) -> CtxV
    decreases k,
{
    if k <= 0 {
        s
    } else {
        decl_state(model, defs_state(model, s, gs, k - 1), gs[k - 1])
    }
}

/// The foreign item of one variable or function. A declaration that is
/// neither, or a function whose symbol has no function type, gives none.
pub open spec fn symbol_items(model: Model, s: CtxV, g: Global) -> Seq<ForeignItemV> {
    match g {
        Global::GVar(v) => seq![
            var_item(model, s, model.vars@[v as int].name@, model.vars@[v as int].ty),
        ],
        Global::GFunc(v) => match model.vars@[v as int].ty {
            Type::TFunc(rty, params, _) => seq![
                func_item(model, s, model.vars@[v as int].name@, *rty, params@),
            ],
            _ => Seq::empty(),
        },
        _ => Seq::empty(),
    }
}

/// The state after one variable or function has been emitted in state `s`.
pub open spec fn symbol_state(model: Model, s: CtxV, g: Global) -> CtxV {
    match g {
        Global::GVar(v) => cty_state(model.vars@[v as int].ty, s),
        Global::GFunc(v) => match model.vars@[v as int].ty {
            Type::TFunc(rty, params, _) => func_state(s, *rty, params@),
            _ => s,
        },
        _ => s,
    }
}

/// The foreign items of the first `k` declarations of `gs`, in order.
pub open spec fn symbols_items(model: Model, s: CtxV, gs: Seq<Global>, k: int) -> Seq<
    ForeignItemV,
>
    decreases k,
{
    if k <= 0 {
        Seq::empty()
    } else {
        symbols_items(model, s, gs, k - 1) + symbol_items(
            model,
            symbols_state(model, s, gs, k - 1),
            gs[k - 1],
        )
    }
}

/// The state after the first `k` variables and functions of `gs` have been emitted.
pub open spec fn symbols_state(model: Model, s: CtxV, gs: Seq<Global>, k: int) -> CtxV
    decreases k,
{
    if k <= 0 {
        s
    } else {
        symbol_state(model, symbols_state(model, s, gs, k - 1), gs[k - 1])
    }
}

/// The name of the library to link, as characters.
pub open spec fn link_view(link: Option<String>) -> Option<Seq<char>> {
    match link {
        Some(l) => Some(l@),
        None => None,
    }
}

/// The block of foreign items. Where a library is named, the block carries
/// the attribute `link_args` with `-l` and the library's name.
pub open spec fn extern_item(link: Option<Seq<char>>, items: Seq<ForeignItemV>) -> ItemV {
    ItemV::ForeignMod(
        match link {
            Some(l) => seq![AttrV { name: "link_args"@, value: "-l"@ + l }],
            None => Seq::empty(),
        },
        "C"@,
        items,
    )
}

/// The comment that opens the unit.
pub open spec fn banner() -> Seq<char> {
    "/* automatically generated by rust-bindgen */"@
}

/// The whole unit for the declarations `globs` of `model`.
pub open spec fn unit_spec(
    model: Model,
    keywords: Seq<Seq<char>>,
    link: Option<Seq<char>>,
    globs: Seq<Global>,
) -> UnitV {
    let s0 = CtxV::initial(model, keywords);
    let gs = dedup_spec(model, s0, globs.filter(type_decl()));
    let s1 = defs_state(model, s0, gs, gs.len() as int);
    let vs = globs.filter(var_decl());
    let s2 = symbols_state(model, s1, vs, vs.len() as int);
    let fs = globs.filter(func_decl());
    UnitV {
        comment: banner(),
        imports: seq![seq!["core"@, "libc"@]],
        items: defs_items(model, s0, gs, gs.len() as int).push(
            extern_item(
                link,
                symbols_items(model, s1, vs, vs.len() as int) + symbols_items(
                    model,
                    s2,
                    fs,
                    fs.len() as int,
                ),
            ),
        ),
    }
}

/// The state in which emission of the whole unit ends.
pub open spec fn end_state(model: Model, keywords: Seq<Seq<char>>, globs: Seq<Global>) -> CtxV {
    let s0 = CtxV::initial(model, keywords);
    let gs = dedup_spec(model, s0, globs.filter(type_decl()));
    let s1 = defs_state(model, s0, gs, gs.len() as int);
    let vs = globs.filter(var_decl());
    let s2 = symbols_state(model, s1, vs, vs.len() as int);
    let fs = globs.filter(func_decl());
    symbols_state(model, s2, fs, fs.len() as int)
}

/// What passes a filter was in the list, so it refers into the arena.
pub proof fn lemma_filter_globals_ok(model: Model, gs: Seq<Global>, pred: spec_fn(Global) -> bool)
    requires
        globals_ok(gs, model),
    ensures
        globals_ok(gs.filter(pred), model),
{
    let kept = gs.filter(pred);
    assert forall|i: int| 0 <= i < kept.len() implies global_ok(#[trigger] kept[i], model) by {
        assert(kept.contains(kept[i]));
        gs.lemma_filter_contains_rev(pred, kept[i]);
        let j = choose|j: int| 0 <= j < gs.len() && gs[j] == kept[i];
        assert(global_ok(gs[j], model));
    }
}

/// Emitting one type declaration keeps the table's shape, the reserved words
/// and the counter's bound, and the counter does not go back.
pub proof fn lemma_decl_shape(model: Model, s: CtxV, g: Global)
    requires
        model.wf(),
        global_ok(g, model),
        s.covers(model),
        s.wf(),
    ensures
        decl_state(model, s, g).covers(model),
        decl_state(model, s, g).wf(),
        decl_state(model, s, g).keywords == s.keywords,
        decl_state(model, s, g).counter >= s.counter,
{
    match g {
        Global::GType(t) => {
            let ti = model.types@[t as int];
            lemma_typedef_state(model, s, ti.name@, ti.ty);
        },
        Global::GCompDecl(h) => {
            lemma_ensure_named_wf(s, Entity::Comp(h));
        },
        Global::GComp(h) => {
            let ms = field_members(model.comps@[h as int].fields@);
            lemma_ensure_named_wf(s, Entity::Comp(h));
            lemma_field_members_ok(model, h as int);
            lemma_members_state(ms, ms.len() as int, model, s.ensure_named(Entity::Comp(h)));
        },
        Global::GEnumDecl(h) => {
            lemma_ensure_named_wf(s, Entity::Enum(h));
        },
        Global::GEnum(h) => {
            lemma_ensure_named_wf(s, Entity::Enum(h));
        },
        _ => {},
    }
}

/// Emitting one type declaration leaves every entity that has a name under that name.
pub proof fn lemma_decl_keeps_names(model: Model, s: CtxV, g: Global, e: Entity)
    requires
        model.wf(),
        global_ok(g, model),
        s.covers(model),
        s.wf(),
        s.has(e),
        s.name_of(e).len() > 0,
    ensures
        decl_state(model, s, g).name_of(e) == s.name_of(e),
{
    match g {
        Global::GType(t) => {
            let ti = model.types@[t as int];
            lemma_typedef_keeps_names(model, s, ti.name@, ti.ty, e);
        },
        Global::GCompDecl(h) => {
            lemma_ensure_named_keeps(s, Entity::Comp(h), e);
        },
        Global::GComp(h) => {
            let named = s.ensure_named(Entity::Comp(h));
            let ms = field_members(model.comps@[h as int].fields@);
            lemma_ensure_named_wf(s, Entity::Comp(h));
            lemma_ensure_named_keeps(s, Entity::Comp(h), e);
            lemma_field_members_ok(model, h as int);
            lemma_members_keep_names(ms, ms.len() as int, model, named, e);
        },
        Global::GEnumDecl(h) => {
            lemma_ensure_named_keeps(s, Entity::Enum(h), e);
        },
        Global::GEnum(h) => {
            lemma_ensure_named_keeps(s, Entity::Enum(h), e);
        },
        _ => {},
    }
}

/// As `lemma_decl_shape`, for the first `k` declarations of a list.
pub proof fn lemma_defs_shape(model: Model, s: CtxV, gs: Seq<Global>, k: int)
    requires
        model.wf(),
        globals_ok(gs, model),
        0 <= k <= gs.len(),
        s.covers(model),
        s.wf(),
    ensures
        defs_state(model, s, gs, k).covers(model),
        defs_state(model, s, gs, k).wf(),
        defs_state(model, s, gs, k).keywords == s.keywords,
        defs_state(model, s, gs, k).counter >= s.counter,
    decreases k,
{
    if k > 0 {
        lemma_defs_shape(model, s, gs, k - 1);
        assert(global_ok(gs[k - 1], model));
        lemma_decl_shape(model, defs_state(model, s, gs, k - 1), gs[k - 1]);
    }
}

/// The counter does not go back from one point of the list to a later one.
pub proof fn lemma_defs_counter_monotone(model: Model, s: CtxV, gs: Seq<Global>, j: int, k: int)
    requires
        model.wf(),
        globals_ok(gs, model),
        0 <= j <= k <= gs.len(),
        s.covers(model),
        s.wf(),
    ensures
        defs_state(model, s, gs, k).counter >= defs_state(model, s, gs, j).counter,
    decreases k - j,
{
    if j < k {
        lemma_defs_counter_monotone(model, s, gs, j, k - 1);
        lemma_defs_shape(model, s, gs, k - 1);
        assert(global_ok(gs[k - 1], model));
        lemma_decl_shape(model, defs_state(model, s, gs, k - 1), gs[k - 1]);
    }
}

/// A name that an entity has at one point of the list is its name at every later point.
pub proof fn lemma_defs_names_persist(
    model: Model,
    s: CtxV,
    gs: Seq<Global>,
    j: int,
    k: int,
    e: Entity,
)
    requires
        model.wf(),
        globals_ok(gs, model),
        0 <= j <= k <= gs.len(),
        s.covers(model),
        s.wf(),
        s.has(e),
        defs_state(model, s, gs, j).name_of(e).len() > 0,
    ensures
        defs_state(model, s, gs, k).name_of(e) == defs_state(model, s, gs, j).name_of(e),
    decreases k - j,
{
    if j < k {
        lemma_defs_names_persist(model, s, gs, j, k - 1, e);
        lemma_defs_shape(model, s, gs, k - 1);
        assert(global_ok(gs[k - 1], model));
        lemma_decl_keeps_names(model, defs_state(model, s, gs, k - 1), gs[k - 1], e);
    }
}

/// The parameter types of a function symbol of a sound model are in order.
pub proof fn lemma_param_members_ok(model: Model, params: Seq<(String, Type)>)
    requires
        params_ok(params, model),
    ensures
        forall|i: int|
            0 <= i < param_members(params).len() ==> type_ok(
                (#[trigger] param_members(params)[i]).1,
                model,
            ),
{
    assert forall|i: int| 0 <= i < param_members(params).len() implies type_ok(
        (#[trigger] param_members(params)[i]).1,
        model,
    ) by {
        assert(type_ok(params[i].1, model));
    }
}

/// Emitting one variable or function keeps the table's shape, the reserved
/// words and the counter's bound.
pub proof fn lemma_symbol_shape(model: Model, s: CtxV, g: Global)
    requires
        model.wf(),
        global_ok(g, model),
        s.covers(model),
        s.wf(),
    ensures
        symbol_state(model, s, g).covers(model),
        symbol_state(model, s, g).wf(),
        symbol_state(model, s, g).keywords == s.keywords,
{
    match g {
        Global::GVar(v) => {
            assert(symbol_ok(model.vars@[v as int].ty, model));
            lemma_cty_state(model.vars@[v as int].ty, model, s);
        },
        Global::GFunc(v) => {
            assert(symbol_ok(model.vars@[v as int].ty, model));
            match model.vars@[v as int].ty {
                Type::TFunc(rty, params, _) => {
                    let ms = param_members(params@);
                    lemma_cty_state(*rty, model, s);
                    lemma_param_members_ok(model, params@);
                    lemma_members_state(ms, ms.len() as int, model, cty_state(*rty, s));
                },
                _ => {},
            }
        },
        _ => {},
    }
}

/// Emitting one variable or function leaves every entity that has a name
/// under that name.
pub proof fn lemma_symbol_keeps_names(model: Model, s: CtxV, g: Global, e: Entity)
    requires
        model.wf(),
        global_ok(g, model),
        s.covers(model),
        s.wf(),
        s.has(e),
        s.name_of(e).len() > 0,
    ensures
        symbol_state(model, s, g).name_of(e) == s.name_of(e),
{
    match g {
        Global::GVar(v) => {
            assert(symbol_ok(model.vars@[v as int].ty, model));
            lemma_cty_keeps_names(model.vars@[v as int].ty, model, s, e);
        },
        Global::GFunc(v) => {
            assert(symbol_ok(model.vars@[v as int].ty, model));
            match model.vars@[v as int].ty {
                Type::TFunc(rty, params, _) => {
                    let ms = param_members(params@);
                    lemma_cty_state(*rty, model, s);
                    lemma_cty_keeps_names(*rty, model, s, e);
                    lemma_param_members_ok(model, params@);
                    lemma_members_keep_names(ms, ms.len() as int, model, cty_state(*rty, s), e);
                },
                _ => {},
            }
        },
        _ => {},
    }
}

/// As `lemma_symbol_shape`, for the first `k` declarations of a list.
pub proof fn lemma_symbols_shape(model: Model, s: CtxV, gs: Seq<Global>, k: int)
    requires
        model.wf(),
        globals_ok(gs, model),
        0 <= k <= gs.len(),
        s.covers(model),
        s.wf(),
    ensures
        symbols_state(model, s, gs, k).covers(model),
        symbols_state(model, s, gs, k).wf(),
        symbols_state(model, s, gs, k).keywords == s.keywords,
    decreases k,
{
    if k > 0 {
        lemma_symbols_shape(model, s, gs, k - 1);
        assert(global_ok(gs[k - 1], model));
        lemma_symbol_shape(model, symbols_state(model, s, gs, k - 1), gs[k - 1]);
    }
}

/// As `lemma_symbol_keeps_names`, for the first `k` declarations of a list.
pub proof fn lemma_symbols_keep_names(model: Model, s: CtxV, gs: Seq<Global>, k: int, e: Entity)
    requires
        model.wf(),
        globals_ok(gs, model),
        0 <= k <= gs.len(),
        s.covers(model),
        s.wf(),
        s.has(e),
        s.name_of(e).len() > 0,
    ensures
        symbols_state(model, s, gs, k).name_of(e) == s.name_of(e),
    decreases k,
{
    if k > 0 {
        lemma_symbols_keep_names(model, s, gs, k - 1, e);
        lemma_symbols_shape(model, s, gs, k - 1);
        assert(global_ok(gs[k - 1], model));
        lemma_symbol_keeps_names(model, symbols_state(model, s, gs, k - 1), gs[k - 1], e);
    }
}

/// The list of type declarations that is emitted refers into the arena, and
/// emission starts in a state that fits the model.
pub proof fn lemma_type_list_ok(model: Model, keywords: Seq<Seq<char>>, globs: Seq<Global>)
    requires
        model.wf(),
        globals_ok(globs, model),
    ensures
        CtxV::initial(model, keywords).covers(model),
        CtxV::initial(model, keywords).wf(),
        globals_ok(
            dedup_spec(model, CtxV::initial(model, keywords), globs.filter(type_decl())),
            model,
        ),
{
    let s0 = CtxV::initial(model, keywords);
    lemma_unnamed_left_bound(s0.comps);
    lemma_unnamed_left_bound(s0.enums);
    let ts = globs.filter(type_decl());
    lemma_filter_globals_ok(model, globs, type_decl());
    lemma_filter_globals_ok(model, ts, stays(model, s0, ts));
}

/// The declared name of the symbol that a variable or function declaration refers to.
pub open spec fn symbol_name(model: Model, g: Global) -> Seq<char> {
    match g {
        Global::GVar(v) => model.vars@[v as int].name@,
        Global::GFunc(v) => model.vars@[v as int].name@,
        _ => Seq::empty(),
    }
}

/// The declaration is a variable, or a function whose symbol has a function type.
pub open spec fn is_symbol(model: Model, g: Global) -> bool {
    g is GVar || (g is GFunc && !is_bad_function(model, g))
}

/// Where every declaration of the list is a variable or a function, each is
/// emitted as exactly one foreign item, in order, under its declared name
/// (with an underscore in front if that is a reserved word) and with that
/// name's attributes.
pub proof fn lemma_symbols_one_each(model: Model, s: CtxV, gs: Seq<Global>, k: int)
    requires
        model.wf(),
        globals_ok(gs, model),
        s.covers(model),
        s.wf(),
        0 <= k <= gs.len(),
        forall|j: int| 0 <= j < k ==> is_symbol(model, #[trigger] gs[j]),
    ensures
        symbols_items(model, s, gs, k).len() == k,
        forall|i: int|
            0 <= i < k ==> {
                let item = #[trigger] symbols_items(model, s, gs, k)[i];
                &&& item.name == escaped(s.keywords, symbol_name(model, gs[i]))
                &&& item.attrs == link_name_attrs(s.keywords, symbol_name(model, gs[i]))
            },
    decreases k,
{
    if k > 0 {
        lemma_symbols_one_each(model, s, gs, k - 1);
        lemma_symbols_shape(model, s, gs, k - 1);
        assert(is_symbol(model, gs[k - 1]));
        assert(global_ok(gs[k - 1], model));
        let before = symbols_items(model, s, gs, k - 1);
        assert forall|i: int| 0 <= i < k implies ({
            let item = #[trigger] symbols_items(model, s, gs, k)[i];
            &&& item.name == escaped(s.keywords, symbol_name(model, gs[i]))
            &&& item.attrs == link_name_attrs(s.keywords, symbol_name(model, gs[i]))
        }) by {
            if i < k - 1 {
                assert(symbols_items(model, s, gs, k)[i] == before[i]);
            }
        }
    }
}

/// A name that an entity has once the types are emitted is its name when
/// emission ends.
proof fn lemma_names_last_through_symbols(
    model: Model,
    keywords: Seq<Seq<char>>,
    globs: Seq<Global>,
    e: Entity,
)
    requires
        model.wf(),
        globals_ok(globs, model),
        CtxV::initial(model, keywords).has(e),
    ensures
        ({
            let s0 = CtxV::initial(model, keywords);
            let gs = dedup_spec(model, s0, globs.filter(type_decl()));
            let s1 = defs_state(model, s0, gs, gs.len() as int);
            s1.name_of(e).len() > 0 ==> end_state(model, keywords, globs).name_of(e)
                == s1.name_of(e)
        }),
{
    let s0 = CtxV::initial(model, keywords);
    let gs = dedup_spec(model, s0, globs.filter(type_decl()));
    lemma_type_list_ok(model, keywords, globs);
    lemma_defs_shape(model, s0, gs, gs.len() as int);
    let s1 = defs_state(model, s0, gs, gs.len() as int);
    let vs = globs.filter(var_decl());
    lemma_filter_globals_ok(model, globs, var_decl());
    lemma_symbols_shape(model, s1, vs, vs.len() as int);
    let s2 = symbols_state(model, s1, vs, vs.len() as int);
    let fs = globs.filter(func_decl());
    lemma_filter_globals_ok(model, globs, func_decl());
    if s1.name_of(e).len() > 0 {
        lemma_symbols_keep_names(model, s1, vs, vs.len() as int, e);
        lemma_symbols_keep_names(model, s2, fs, fs.len() as int, e);
    }
}

/// A composite or an enum that was declared with a name has that name when
/// emission ends: emission never renames.
pub proof fn lemma_declared_names_last(
    model: Model,
    keywords: Seq<Seq<char>>,
    globs: Seq<Global>,
    e: Entity,
)
    requires
        model.wf(),
        globals_ok(globs, model),
        CtxV::initial(model, keywords).has(e),
        CtxV::initial(model, keywords).name_of(e).len() > 0,
    ensures
        end_state(model, keywords, globs).name_of(e) == CtxV::initial(model, keywords).name_of(e),
{
    let s0 = CtxV::initial(model, keywords);
    let gs = dedup_spec(model, s0, globs.filter(type_decl()));
    lemma_type_list_ok(model, keywords, globs);
    lemma_names_last_through_symbols(model, keywords, globs, e);
    lemma_defs_names_persist(model, s0, gs, 0, gs.len() as int, e);
}

/// Where the alias `t` of the struct `h` is reached while `h` is still
/// anonymous, the alias emits exactly one item, the struct under `Struct_`
/// and the alias's name; the struct's own declaration is not in the list; and
/// the struct goes by the alias's name, not by a made-up one, until emission ends.
pub proof fn lemma_alias_declares_anonymous_struct(
    model: Model,
    keywords: Seq<Seq<char>>,
    globs: Seq<Global>,
    j: int,
    t: usize,
    h: usize,
)
    requires
        model.wf(),
        globals_ok(globs, model),
        t < model.types@.len(),
        h < model.comps@.len(),
        0 <= j < dedup_spec(
            model,
            CtxV::initial(model, keywords),
            globs.filter(type_decl()),
        ).len(),
        dedup_spec(model, CtxV::initial(model, keywords), globs.filter(type_decl()))[j]
            == Global::GType(t),
        model.types@[t as int].ty == Type::TComp(h),
        model.types@[t as int].name@.len() > 0,
        model.comps@[h as int].cstruct,
        defs_state(
            model,
            CtxV::initial(model, keywords),
            dedup_spec(model, CtxV::initial(model, keywords), globs.filter(type_decl())),
            j,
        ).name_of(Entity::Comp(h)).len() == 0,
    ensures
        ({
            let s0 = CtxV::initial(model, keywords);
            let gs = dedup_spec(model, s0, globs.filter(type_decl()));
            let s = defs_state(model, s0, gs, j);
            let name = model.types@[t as int].name@;
            &&& decl_items(model, s, gs[j]).len() == 1
            &&& decl_items(model, s, gs[j])[0] == struct_item(
                model,
                s.with_name(Entity::Comp(h), name),
                "Struct_"@ + name,
                model.comps@[h as int].fields@,
            )
            &&& decl_items(model, s, gs[j])[0] matches ItemV::Struct(n, _) && n == escaped(
                keywords,
                "Struct_"@ + name,
            )
            &&& !gs.contains(Global::GComp(h))
            &&& end_state(model, keywords, globs).name_of(Entity::Comp(h)) == name
        }),
{
    let s0 = CtxV::initial(model, keywords);
    let ts = globs.filter(type_decl());
    let gs = dedup_spec(model, s0, ts);
    let s = defs_state(model, s0, gs, j);
    let name = model.types@[t as int].name@;
    let e = Entity::Comp(h);
    lemma_type_list_ok(model, keywords, globs);
    lemma_names_last_through_symbols(model, keywords, globs, e);
    lemma_defs_shape(model, s0, gs, j);
    lemma_typedef_of_anonymous_struct(model, s, name, h);
    // The struct was anonymous from the start, so its own declaration went
    // with the redundant ones.
    if s0.name_of(e).len() > 0 {
        lemma_defs_names_persist(model, s0, gs, 0, j, e);
    }
    assert(gs.contains(gs[j]));
    ts.lemma_filter_contains_rev(stays(model, s0, ts), gs[j]);
    let at = choose|at: int| 0 <= at < ts.len() && ts[at] == gs[j];
    lemma_aliased_body_removed(model, s0, ts, Global::GComp(h), at);
    // The name lasts through the remaining declarations.
    lemma_defs_names_persist(model, s0, gs, j + 1, gs.len() as int, e);
}

/// Two structs that are each still anonymous when their own declarations are
/// reached are two entities, and they are declared as two structs with
/// different names, however alike their members are.
pub proof fn lemma_anonymous_structs_declared_apart(
    model: Model,
    s: CtxV,
    gs: Seq<Global>,
    i: int,
    j: int,
    h1: usize,
    h2: usize,
)
    requires
        model.wf(),
        globals_ok(gs, model),
        s.covers(model),
        s.wf(),
        0 <= i < j < gs.len(),
        gs[i] == Global::GComp(h1),
        gs[j] == Global::GComp(h2),
        model.comps@[h1 as int].cstruct,
        model.comps@[h2 as int].cstruct,
        defs_state(model, s, gs, i).name_of(Entity::Comp(h1)).len() == 0,
        defs_state(model, s, gs, j).name_of(Entity::Comp(h2)).len() == 0,
    ensures
        h1 != h2,
        decl_items(model, defs_state(model, s, gs, i), gs[i]).len() == 1,
        decl_items(model, defs_state(model, s, gs, j), gs[j]).len() == 1,
        decl_items(model, defs_state(model, s, gs, i), gs[i])[0] matches ItemV::Struct(n1, _)
            && decl_items(model, defs_state(model, s, gs, j), gs[j])[0] matches ItemV::Struct(
            n2,
            _,
        ) && n1 != n2,
{
    let e1 = Entity::Comp(h1);
    let si = defs_state(model, s, gs, i);
    let sj = defs_state(model, s, gs, j);
    assert(global_ok(gs[i], model));
    assert(global_ok(gs[j], model));
    lemma_defs_shape(model, s, gs, i);
    lemma_defs_shape(model, s, gs, j);
    // The first struct has its name from its own declaration on.
    let named = si.ensure_named(e1);
    let ms = field_members(model.comps@[h1 as int].fields@);
    lemma_ensure_named_wf(si, e1);
    lemma_ensure_named_idempotent(si, e1);
    lemma_field_members_ok(model, h1 as int);
    lemma_members_state(ms, ms.len() as int, model, named);
    lemma_members_keep_names(ms, ms.len() as int, model, named, e1);
    assert(defs_state(model, s, gs, i + 1) == decl_state(model, si, gs[i]));
    lemma_defs_names_persist(model, s, gs, i + 1, j, e1);
    lemma_defs_counter_monotone(model, s, gs, i + 1, j);
    // So the second is numbered later, and the numerals differ.
    let a = "Struct_"@ + unnamed(si.counter + 1);
    let b = "Struct_"@ + unnamed(sj.counter + 1);
    reveal_strlit("Struct_");
    if a == b {
        assert(a.subrange(7, a.len() as int) =~= unnamed(si.counter + 1));
        assert(b.subrange(7, b.len() as int) =~= unnamed(sj.counter + 1));
        lemma_unnamed_injective(si.counter + 1, sj.counter + 1);
    }
    assert(a[0] == 'S' && b[0] == 'S');
    if escaped(s.keywords, a) == escaped(s.keywords, b) {
        lemma_escaped_injective(s.keywords, a, b);
    }
}

/// No item of a type declaration is a block of foreign items.
pub proof fn lemma_decl_items_are_types(model: Model, s: CtxV, g: Global, i: int)
    requires
        0 <= i < decl_items(model, s, g).len(),
    ensures
        !(decl_items(model, s, g)[i] is ForeignMod),
{
}

/// No item of the first `k` type declarations is a block of foreign items.
pub proof fn lemma_defs_items_are_types(model: Model, s: CtxV, gs: Seq<Global>, k: int, i: int)
    requires
        0 <= i < defs_items(model, s, gs, k).len(),
    ensures
        !(defs_items(model, s, gs, k)[i] is ForeignMod),
    decreases k,
{
    if k > 0 {
        let before = defs_items(model, s, gs, k - 1);
        if i < before.len() {
            lemma_defs_items_are_types(model, s, gs, k - 1, i);
        } else {
            lemma_decl_items_are_types(
                model,
                defs_state(model, s, gs, k - 1),
                gs[k - 1],
                i - before.len(),
            );
        }
    }
}

/// The unit ends in its one block of foreign items, which carries the
/// directive to link the named library if there is one; every item before
/// it declares a type. The unit imports one path.
pub proof fn lemma_unit_shape(
    model: Model,
    keywords: Seq<Seq<char>>,
    link: Option<Seq<char>>,
    globs: Seq<Global>,
)
    ensures
        unit_spec(model, keywords, link, globs).imports.len() == 1,
        unit_spec(model, keywords, link, globs).items.len() >= 1,
        unit_spec(model, keywords, link, globs).items.last() matches ItemV::ForeignMod(
            attrs,
            abi,
            _,
        ) && abi == "C"@ && (match link {
            Some(l) => attrs == seq![AttrV { name: "link_args"@, value: "-l"@ + l }],
            None => attrs.len() == 0,
        }),
        forall|i: int|
            0 <= i < unit_spec(model, keywords, link, globs).items.len() - 1 ==> !(
            #[trigger] unit_spec(model, keywords, link, globs).items[i] is ForeignMod),
{
    let s0 = CtxV::initial(model, keywords);
    let gs = dedup_spec(model, s0, globs.filter(type_decl()));
    let unit = unit_spec(model, keywords, link, globs);
    assert forall|i: int| 0 <= i < unit.items.len() - 1 implies !(
    #[trigger] unit.items[i] is ForeignMod) by {
        lemma_defs_items_are_types(model, s0, gs, gs.len() as int, i);
    }
}

/// An import of everything under `path`.
pub fn mk_import(path: Vec<String>) -> (import: Import)
    ensures
        import@ == views(path@),
{
    Import { path }
}

/// The block that holds the variables, then the functions.
pub fn mk_extern(link: &Option<String>, vars: Vec<ForeignItem>, funcs: Vec<ForeignItem>) -> (item:
    Item)
    ensures
        item@ == extern_item(link_view(*link), views(vars@) + views(funcs@)),
{
    let mut attrs: Vec<Attr> = Vec::new();
    match link {
        None => {},
        Some(l) => {
            attrs.push(
                Attr { name: String::from_str("link_args"), value: prefixed("-l", l.as_str()) },
            );
        },
    }
    let mut items = vars;
    let mut funcs = funcs;
    proof {
        lemma_views_add(vars@, funcs@);
    }
    items.append(&mut funcs);
    assert(views(attrs@) =~= match link_view(*link) {
        Some(l) => seq![AttrV { name: "link_args"@, value: "-l"@ + l }],
        None => Seq::empty(),
    });
    Item::ForeignMod(attrs, String::from_str("C"), items)
}

/// Emits one type declaration.
pub fn cglobal_to_rs(ctx: &mut GenCtx, model: &Model, g: Global) -> (items: Vec<Item>)
    requires
        model.wf(),
        global_ok(g, *model),
        old(ctx)@.covers(*model),
        old(ctx)@.wf(),
    ensures
        views(items@) == decl_items(*model, old(ctx)@, g),
        final(ctx)@ == decl_state(*model, old(ctx)@, g),
        final(ctx)@.covers(*model),
        final(ctx)@.wf(),
        final(ctx)@.keywords == old(ctx)@.keywords,
{
    let ghost s0 = ctx@;
    let mut items: Vec<Item> = Vec::new();
    match g {
        Global::GType(t) => {
            let ti = &model.types[t];
            return ctypedef_to_rs(ctx, model, ti.name.as_str(), &ti.ty);
        },
        Global::GCompDecl(h) => {
            let name = ensure_named(ctx, Entity::Comp(h));
            let full = if model.comps[h].cstruct {
                prefixed("Struct_", name.as_str())
            } else {
                prefixed("Union_", name.as_str())
            };
            let item = mk_alias(ctx, model, full.as_str(), &Type::TVoid);
            items.push(item);
            assert(views(items@) =~= decl_items(*model, s0, g));
        },
        Global::GComp(h) => {
            let name = ensure_named(ctx, Entity::Comp(h));
            let ci = &model.comps[h];
            assert(comp_ok(*ci, *model));
            if ci.cstruct {
                let full = prefixed("Struct_", name.as_str());
                let item = cstruct_to_rs(ctx, model, full.as_str(), &ci.fields);
                items.push(item);
                assert(views(items@) =~= decl_items(*model, s0, g));
            } else {
                let full = prefixed("Union_", name.as_str());
                return cunion_to_rs(ctx, model, full.as_str(), &ci.fields, ci.size);
            }
        },
        Global::GEnumDecl(h) => {
            let name = ensure_named(ctx, Entity::Enum(h));
            let full = prefixed("Enum_", name.as_str());
            let item = mk_alias(ctx, model, full.as_str(), &Type::TVoid);
            items.push(item);
            assert(views(items@) =~= decl_items(*model, s0, g));
        },
        Global::GEnum(h) => {
            let name = ensure_named(ctx, Entity::Enum(h));
            let ei = &model.enums[h];
            let full = prefixed("Enum_", name.as_str());
            return cenum_to_rs(ctx, full.as_str(), &ei.items, ei.kind);
        },
        _ => {
            assert(views(items@) =~= decl_items(*model, s0, g));
        },
    }
    items
}

/// Emits the variables and functions of `gs`, in order.
pub fn csymbols_to_rs(ctx: &mut GenCtx, model: &Model, gs: &Vec<Global>) -> (items: Vec<
    ForeignItem,
>)
    requires
        model.wf(),
        globals_ok(gs@, *model),
        old(ctx)@.covers(*model),
        old(ctx)@.wf(),
    ensures
        views(items@) == symbols_items(*model, old(ctx)@, gs@, gs@.len() as int),
        final(ctx)@ == symbols_state(*model, old(ctx)@, gs@, gs@.len() as int),
        final(ctx)@.covers(*model),
        final(ctx)@.wf(),
        final(ctx)@.keywords == old(ctx)@.keywords,
{
    let ghost s0 = ctx@;
    let mut items: Vec<ForeignItem> = Vec::new();
    let mut i: usize = 0;
    assert(views(items@) =~= symbols_items(*model, s0, gs@, 0));
    while i < gs.len()
        invariant
            i <= gs@.len(),
            model.wf(),
            globals_ok(gs@, *model),
            views(items@) == symbols_items(*model, s0, gs@, i as int),
            ctx@ == symbols_state(*model, s0, gs@, i as int),
            ctx@.covers(*model),
            ctx@.wf(),
            ctx@.keywords == s0.keywords,
        decreases gs@.len() - i,
    {
        let ghost before = items@;
        let ghost s = ctx@;
        assert(global_ok(gs@[i as int], *model));
        match gs[i] {
            Global::GVar(v) => {
                let vi = &model.vars[v];
                assert(symbol_ok(vi.ty, *model));
                let item = cvar_to_rs(ctx, model, vi.name.as_str(), &vi.ty);
                items.push(item);
                proof {
                    lemma_views_push(before, item);
                }
                assert(views(items@) =~= views(before) + symbol_items(*model, s, gs@[i as int]));
            },
            Global::GFunc(v) => {
                let vi = &model.vars[v];
                assert(symbol_ok(vi.ty, *model));
                match &vi.ty {
                    Type::TFunc(rty, aty, var) => {
                        let item = cfunc_to_rs(ctx, model, vi.name.as_str(), rty, aty, *var);
                        items.push(item);
                        proof {
                            lemma_views_push(before, item);
                        }
                        assert(views(items@) =~= views(before) + symbol_items(
                            *model,
                            s,
                            gs@[i as int],
                        ));
                    },
                    _ => {
                        assert(views(items@) =~= views(before) + symbol_items(
                            *model,
                            s,
                            gs@[i as int],
                        ));
                    },
                }
            },
            _ => {
                assert(views(items@) =~= views(before) + symbol_items(*model, s, gs@[i as int]));
            },
        }
        i += 1;
    }
    items
}

/// The position of the first declaration that is tagged as a function while
/// its symbol has no function type, if there is one.
pub fn first_bad_function(model: &Model, globs: &Vec<Global>) -> (r: Option<usize>)
    requires
        globals_ok(globs@, *model),
    ensures
        match r {
            Some(i) => {
                &&& i < globs@.len()
                &&& is_bad_function(*model, globs@[i as int])
                &&& forall|j: int| 0 <= j < i ==> !is_bad_function(*model, #[trigger] globs@[j])
            },
            None => forall|j: int|
                0 <= j < globs@.len() ==> !is_bad_function(*model, #[trigger] globs@[j]),
        },
{
    let mut i: usize = 0;
    while i < globs.len()
        invariant
            i <= globs@.len(),
            globals_ok(globs@, *model),
            forall|j: int| 0 <= j < i ==> !is_bad_function(*model, #[trigger] globs@[j]),
        decreases globs@.len() - i,
    {
        assert(global_ok(globs@[i as int], *model));
        match globs[i] {
            Global::GFunc(v) => match &model.vars[v].ty {
                Type::TFunc(_, _, _) => {},
                _ => {
                    return Some(i);
                },
            },
            _ => {},
        }
        i += 1;
    }
    None
}

/// Emits the unit for the declarations `globs` of `model`, to be linked
/// against the library `link` if one is named, with `keywords` as the reserved
/// words of the target language.
///
/// Declarations that are neither types, variables nor functions are passed
/// over. The types come first, in input order and without the declarations
/// that an alias makes redundant; the variables and then the functions follow
/// in one block of foreign items. Nothing is emitted for a broken model.
pub fn gen_rs(
    link: &Option<String>,
    globs: &Vec<Global>,
    model: &Model,
    keywords: Vec<String>,
) -> (r: Result<Unit, GenError>)
    ensures
        match r {
            Ok(unit) => {
                &&& model.wf()
                &&& globals_ok(globs@, *model)
                &&& forall|j: int|
                    0 <= j < globs@.len() ==> !is_bad_function(*model, #[trigger] globs@[j])
                &&& unit@ == unit_spec(*model, views(keywords@), link_view(*link), globs@)
            },
            Err(GenError::BrokenModel) => !(model.wf() && globals_ok(globs@, *model)),
            Err(GenError::NotAFunction(i)) => {
                &&& model.wf()
                &&& globals_ok(globs@, *model)
                &&& i < globs@.len()
                &&& is_bad_function(*model, globs@[i as int])
                &&& forall|j: int| 0 <= j < i ==> !is_bad_function(*model, #[trigger] globs@[j])
            },
        },
{
    if !model.is_valid() || !model.check_globals(globs) {
        return Err(GenError::BrokenModel);
    }
    match first_bad_function(model, globs) {
        Some(i) => {
            return Err(GenError::NotAFunction(i));
        },
        None => {},
    }
    let mut ctx = GenCtx::new(model, keywords);
    let ghost s0 = ctx@;

    let mut fs: Vec<Global> = Vec::new();
    let mut vs: Vec<Global> = Vec::new();
    let mut gs: Vec<Global> = Vec::new();
    let mut i: usize = 0;
    proof {
        reveal(Seq::filter);
        assert(globs@.take(0).filter(func_decl()) =~= Seq::<Global>::empty());
        assert(globs@.take(0).filter(var_decl()) =~= Seq::<Global>::empty());
        assert(globs@.take(0).filter(type_decl()) =~= Seq::<Global>::empty());
    }
    while i < globs.len()
        invariant
            i <= globs@.len(),
            globals_ok(globs@, *model),
            fs@ == globs@.take(i as int).filter(func_decl()),
            vs@ == globs@.take(i as int).filter(var_decl()),
            gs@ == globs@.take(i as int).filter(type_decl()),
            globals_ok(fs@, *model),
            globals_ok(vs@, *model),
            globals_ok(gs@, *model),
        decreases globs@.len() - i,
    {
        proof {
            lemma_filter_take_step(globs@, func_decl(), i as int);
            lemma_filter_take_step(globs@, var_decl(), i as int);
            lemma_filter_take_step(globs@, type_decl(), i as int);
        }
        let g = globs[i];
        match g {
            Global::GOther => {},
            Global::GFunc(_) => fs.push(g),
            Global::GVar(_) => vs.push(g),
            _ => gs.push(g),
        }
        i += 1;
    }
    assert(globs@.take(globs@.len() as int) =~= globs@);

    let gs = remove_redundent_decl(&ctx, model, &gs);
    let mut defs: Vec<Item> = Vec::new();
    let mut i: usize = 0;
    assert(views(defs@) =~= defs_items(*model, s0, gs@, 0));
    while i < gs.len()
        invariant
            i <= gs@.len(),
            model.wf(),
            globals_ok(gs@, *model),
            views(defs@) == defs_items(*model, s0, gs@, i as int),
            ctx@ == defs_state(*model, s0, gs@, i as int),
            ctx@.covers(*model),
            ctx@.wf(),
            ctx@.keywords == s0.keywords,
        decreases gs@.len() - i,
    {
        let ghost before = defs@;
        let mut items = cglobal_to_rs(&mut ctx, model, gs[i]);
        proof {
            lemma_views_add(before, items@);
        }
        defs.append(&mut items);
        i += 1;
    }

    let vars = csymbols_to_rs(&mut ctx, model, &vs);
    let funcs = csymbols_to_rs(&mut ctx, model, &fs);

    let mut path: Vec<String> = Vec::new();
    path.push(String::from_str("core"));
    path.push(String::from_str("libc"));
    assert(views(path@) =~= seq!["core"@, "libc"@]);
    let mut imports: Vec<Import> = Vec::new();
    imports.push(mk_import(path));
    assert(views(imports@) =~= seq![seq!["core"@, "libc"@]]);
    let ghost before = defs@;
    let block = mk_extern(link, vars, funcs);
    defs.push(block);
    proof {
        lemma_views_push(before, block);
    }
    Ok(
        Unit {
            comment: String::from_str("/* automatically generated by rust-bindgen */"),
            imports,
            items: defs,
        },
    )
}

} // verus!
