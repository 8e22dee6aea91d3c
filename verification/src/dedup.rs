//! Removal of the declarations that an alias makes redundant.
//!
//! `typedef struct { .. } Foo;` arrives as two declarations: the anonymous
//! struct and the alias `Foo` of it. The alias emits the struct in full, so
//! the struct's own declaration goes. Which composite an alias stands for is a
//! matter of its index alone: another composite with the same members stays.

use crate::model::{global_ok, globals_ok, Global, Model, Type};
use crate::naming::{CtxV, Entity, GenCtx};
use vstd::prelude::*;

verus! {

/// Filtering one more element appends it or not, by the predicate.
pub proof fn lemma_filter_take_step<A>(s: Seq<A>, pred: spec_fn(A) -> bool, i: int)
    requires
        0 <= i < s.len(),
    ensures
        s.take(i + 1).filter(pred) == if pred(s[i]) {
            s.take(i).filter(pred).push(s[i])
        } else {
            s.take(i).filter(pred)
        },
{
    reveal(Seq::filter);
    assert(s.take(i + 1).drop_last() =~= s.take(i));
}

/// `g` declares in full a composite or an enum that has no name, and `t` is
/// an alias of that very entity.
pub open spec fn body_of_alias(model: Model, s: CtxV, g: Global, t: Global) -> bool {
    match (g, t) {
        (Global::GComp(h), Global::GType(ti)) => {
            &&& model.types@[ti as int].ty == Type::TComp(h)
            &&& s.name_of(Entity::Comp(h)).len() == 0
        },
        (Global::GEnum(h), Global::GType(ti)) => {
            &&& model.types@[ti as int].ty == Type::TEnum(h)
            &&& s.name_of(Entity::Enum(h)).len() == 0
        },
        _ => false,
    }
}

/// Some alias of the list makes `g` redundant.
pub open spec fn redundant(model: Model, s: CtxV, gs: Seq<Global>, g: Global) -> bool {
    exists|j: int| 0 <= j < gs.len() && body_of_alias(model, s, g, #[trigger] gs[j])
}

/// The declarations that stay.
pub open spec fn stays(model: Model, s: CtxV, gs: Seq<Global>) -> spec_fn(Global) -> bool {
    |g: Global| !redundant(model, s, gs, g)
}

/// The list without its redundant declarations, in the same order.
pub open spec fn dedup_spec(model: Model, s: CtxV, gs: Seq<Global>) -> Seq<Global> {
    gs.filter(stays(model, s, gs))
}

/// The full declaration of an anonymous entity is gone once the list holds an
/// alias of that entity.
pub proof fn lemma_aliased_body_removed(model: Model, s: CtxV, gs: Seq<Global>, g: Global, j: int)
    requires
        0 <= j < gs.len(),
        body_of_alias(model, s, g, gs[j]),
    ensures
        !dedup_spec(model, s, gs).contains(g),
{
    let kept = dedup_spec(model, s, gs);
    if kept.contains(g) {
        let i = choose|i: int| 0 <= i < kept.len() && kept[i] == g;
        gs.lemma_filter_pred(stays(model, s, gs), i);
    }
}

/// A declaration stays unless an alias of the list stands for the very entity
/// it declares: aliases, forward declarations, named entities, and entities
/// that merely look like an aliased one are all kept.
pub proof fn lemma_other_declarations_stay(model: Model, s: CtxV, gs: Seq<Global>, i: int)
    requires
        0 <= i < gs.len(),
        forall|j: int| 0 <= j < gs.len() ==> !body_of_alias(model, s, gs[i], #[trigger] gs[j]),
    ensures
        dedup_spec(model, s, gs).contains(gs[i]),
{
    gs.lemma_filter_contains(stays(model, s, gs), i);
}

/// Decides `body_of_alias`.
fn is_body_of_alias(ctx: &GenCtx, model: &Model, g: Global, t: Global) -> (b: bool)
    requires
        global_ok(g, *model),
        global_ok(t, *model),
        ctx@.covers(*model),
    ensures
        b == body_of_alias(*model, ctx@, g, t),
{
    match (g, t) {
        (Global::GComp(h), Global::GType(ti)) => match &model.types[ti].ty {
            Type::TComp(h2) => *h2 == h && ctx.comp_names[h].as_str().is_empty(),
            _ => false,
        },
        (Global::GEnum(h), Global::GType(ti)) => match &model.types[ti].ty {
            Type::TEnum(h2) => *h2 == h && ctx.enum_names[h].as_str().is_empty(),
            _ => false,
        },
        _ => false,
    }
}

/// Decides `redundant`.
fn is_redundant(ctx: &GenCtx, model: &Model, gs: &Vec<Global>, g: Global) -> (b: bool)
    requires
        global_ok(g, *model),
        globals_ok(gs@, *model),
        ctx@.covers(*model),
    ensures
        b == redundant(*model, ctx@, gs@, g),
{
    let mut j: usize = 0;
    while j < gs.len()
        invariant
            j <= gs@.len(),
            global_ok(g, *model),
            globals_ok(gs@, *model),
            ctx@.covers(*model),
            forall|k: int| 0 <= k < j ==> !body_of_alias(*model, ctx@, g, #[trigger] gs@[k]),
        decreases gs@.len() - j,
    {
        if is_body_of_alias(ctx, model, g, gs[j]) {
            return true;
        }
        j += 1;
    }
    false
}

/// Drops each full declaration of an anonymous composite or enum for which
/// the list holds an alias of that very entity, and keeps the rest in order.
pub fn remove_redundent_decl(ctx: &GenCtx, model: &Model, gs: &Vec<Global>) -> (kept: Vec<Global>)
    requires
        globals_ok(gs@, *model),
        ctx@.covers(*model),
    ensures
        kept@ == dedup_spec(*model, ctx@, gs@),
        globals_ok(kept@, *model),
{
    let ghost pred = stays(*model, ctx@, gs@);
    let mut kept: Vec<Global> = Vec::new();
    let mut i: usize = 0;
    proof {
        reveal(Seq::filter);
        assert(gs@.take(0).filter(pred) =~= Seq::<Global>::empty());
    }
    while i < gs.len()
        invariant
            i <= gs@.len(),
            pred == stays(*model, ctx@, gs@),
            globals_ok(gs@, *model),
            ctx@.covers(*model),
            kept@ == gs@.take(i as int).filter(pred),
            globals_ok(kept@, *model),
        decreases gs@.len() - i,
    {
        proof {
            lemma_filter_take_step(gs@, pred, i as int);
        }
        if !is_redundant(ctx, model, gs, gs[i]) {
            kept.push(gs[i]);
        }
        i += 1;
    }
    assert(gs@.take(gs@.len() as int) =~= gs@);
    kept
}

} // verus!
