//! Names: the reserved words of the target language, and the names that
//! anonymous composites and enums receive.
//!
//! The names of composites and enums are kept in a table beside the arena,
//! one entry per entity. An entry starts as the declared name, which is empty
//! for an anonymous entity, and is filled in at most once.

use crate::ast::views;
use crate::model::Model;
use crate::text::{
    decimal, decimal_string, lemma_decimal_nonempty, lemma_prefixed_decimal_injective, prefixed,
};
use vstd::prelude::*;

verus! {

/// A composite or an enum, by its index in the arena.
#[derive(Clone, Copy, Debug, PartialEq, Eq, Structural)]
pub enum Entity {
    Comp(usize),
    Enum(usize),
}

/// The state that emission threads through its steps.
#[derive(Debug, PartialEq, Eq)]
pub struct GenCtx {
    /// The reserved words of the target language.
    pub keywords: Vec<String>,
    /// How many names have been made up so far.
    pub unnamed_ty: usize,
    /// The current name of each composite; empty while it is anonymous.
    pub comp_names: Vec<String>,
    /// The current name of each enum; empty while it is anonymous.
    pub enum_names: Vec<String>,
}

/// The view of a `GenCtx`: the reserved words, the counter, and the two
/// tables of names.
pub struct CtxV {
    pub keywords: Seq<Seq<char>>,
    pub counter: nat,
    pub comps: Seq<Seq<char>>,
    pub enums: Seq<Seq<char>>,
}

impl View for GenCtx {
    type V = CtxV;

    open spec fn view(&self) -> CtxV {
        CtxV {
            keywords: views(self.keywords@),
            counter: self.unnamed_ty as nat,
            comps: views(self.comp_names@),
            enums: views(self.enum_names@),
        }
    }
}

/// The name that the `k`-th anonymous entity receives.
pub open spec fn unnamed(k: nat) -> Seq<char> {
    "Unnamed"@ + decimal(k)
}

/// The identifier under which `raw` is emitted: a reserved word gets an
/// underscore in front, any other name stays as it is.
pub open spec fn escaped(keywords: Seq<Seq<char>>, raw: Seq<char>) -> Seq<char> {
    if keywords.contains(raw) {
        "_"@ + raw
    } else {
        raw
    }
}

/// How many entries of the table are still empty.
pub open spec fn unnamed_left(names: Seq<Seq<char>>) -> nat
    decreases names.len(),
{
    if names.len() == 0 {
        0
    } else {
        unnamed_left(names.drop_last()) + if names.last().len() == 0 {
            1nat
        } else {
            0nat
        }
    }
}

/// At most every entry is empty.
pub proof fn lemma_unnamed_left_bound(names: Seq<Seq<char>>)
    ensures
        unnamed_left(names) <= names.len(),
    decreases names.len(),
{
    if names.len() > 0 {
        lemma_unnamed_left_bound(names.drop_last());
    }
}

/// Writing one entry changes the count of empty entries by that entry alone.
pub proof fn lemma_unnamed_left_update(names: Seq<Seq<char>>, h: int, name: Seq<char>)
    requires
        0 <= h < names.len(),
    ensures
        unnamed_left(names.update(h, name)) + (if names[h].len() == 0 {
            1nat
        } else {
            0nat
        }) == unnamed_left(names) + (if name.len() == 0 {
            1nat
        } else {
            0nat
        }),
    decreases names.len(),
{
    let after = names.update(h, name);
    if h == names.len() - 1 {
        assert(after.drop_last() =~= names.drop_last());
    } else {
        assert(after.drop_last() =~= names.drop_last().update(h, name));
        lemma_unnamed_left_update(names.drop_last(), h, name);
    }
}

/// A made-up name is never empty.
pub proof fn lemma_unnamed_nonempty(k: nat)
    ensures
        unnamed(k).len() > 0,
{
    lemma_decimal_nonempty(k);
}

/// Made-up names with different numbers differ.
pub proof fn lemma_unnamed_injective(a: nat, b: nat)
    requires
        unnamed(a) == unnamed(b),
    ensures
        a == b,
{
    lemma_prefixed_decimal_injective("Unnamed"@, a, b);
}

/// Escaping keeps apart two names that do not start with an underscore.
pub proof fn lemma_escaped_injective(keywords: Seq<Seq<char>>, a: Seq<char>, b: Seq<char>)
    requires
        a.len() > 0,
        b.len() > 0,
        a[0] != '_',
        b[0] != '_',
        escaped(keywords, a) == escaped(keywords, b),
    ensures
        a == b,
{
    reveal_strlit("_");
    let ea = "_"@ + a;
    let eb = "_"@ + b;
    assert(ea[0] == '_' && eb[0] == '_');
    assert(ea.subrange(1, ea.len() as int) =~= a);
    assert(eb.subrange(1, eb.len() as int) =~= b);
}

impl CtxV {
    /// The entity is one of the table.
    pub open spec fn has(self, e: Entity) -> bool {
        match e {
            Entity::Comp(h) => h < self.comps.len(),
            Entity::Enum(h) => h < self.enums.len(),
        }
    }

    /// The current name of the entity.
    pub open spec fn name_of(self, e: Entity) -> Seq<char> {
        match e {
            Entity::Comp(h) => self.comps[h as int],
            Entity::Enum(h) => self.enums[h as int],
        }
    }

    /// The state in which the entity has the given name.
    pub open spec fn with_name(self, e: Entity, name: Seq<char>) -> CtxV {
        match e {
            Entity::Comp(h) => CtxV { comps: self.comps.update(h as int, name), ..self },
            Entity::Enum(h) => CtxV { enums: self.enums.update(h as int, name), ..self },
        }
    }

    /// The state after the entity has been asked for its name: an anonymous
    /// entity takes the next made-up name, a named one changes nothing.
    pub open spec fn ensure_named(self, e: Entity) -> CtxV {
        if self.name_of(e).len() == 0 {
            CtxV { counter: self.counter + 1, ..self }.with_name(e, unnamed(self.counter + 1))
        } else {
            self
        }
    }

    /// The counter can still number every entity that is anonymous now.
    pub open spec fn wf(self) -> bool {
        self.counter + unnamed_left(self.comps) + unnamed_left(self.enums) <= usize::MAX
    }

    /// The table has one entry for each composite and each enum of the arena.
    pub open spec fn covers(self, model: Model) -> bool {
        &&& self.comps.len() == model.comps@.len()
        &&& self.enums.len() == model.enums@.len()
    }

    /// The state in which emission starts: every entity under its declared name.
    pub open spec fn initial(model: Model, keywords: Seq<Seq<char>>) -> CtxV {
        CtxV {
            keywords,
            counter: 0,
            comps: Seq::new(model.comps@.len(), |i: int| model.comps@[i].name@),
            enums: Seq::new(model.enums@.len(), |i: int| model.enums@[i].name@),
        }
    }
}

/// Asking an entity for its name a second time changes nothing and gives the
/// same name, and an entity that has a name keeps it.
pub proof fn lemma_ensure_named_idempotent(s: CtxV, e: Entity)
    requires
        s.has(e),
    ensures
        s.ensure_named(e).ensure_named(e) == s.ensure_named(e),
        s.ensure_named(e).name_of(e).len() > 0,
        s.name_of(e).len() > 0 ==> s.ensure_named(e) == s,
{
    lemma_unnamed_nonempty(s.counter + 1);
}

/// Two different anonymous entities receive different names, whatever their
/// contents, and each keeps its own while the other is named.
pub proof fn lemma_distinct_entities_distinct_names(s: CtxV, e1: Entity, e2: Entity)
    requires
        s.has(e1),
        s.has(e2),
        e1 != e2,
        s.name_of(e1).len() == 0,
        s.name_of(e2).len() == 0,
    ensures
        s.ensure_named(e1).ensure_named(e2).name_of(e1) == unnamed(s.counter + 1),
        s.ensure_named(e1).ensure_named(e2).name_of(e2) == unnamed(s.counter + 2),
        unnamed(s.counter + 1) != unnamed(s.counter + 2),
{
    lemma_unnamed_nonempty(s.counter + 1);
    if unnamed(s.counter + 1) == unnamed(s.counter + 2) {
        lemma_unnamed_injective(s.counter + 1, s.counter + 2);
    }
}

/// Naming one entity leaves every entity that has a name under that name.
pub proof fn lemma_ensure_named_keeps(s: CtxV, e: Entity, other: Entity)
    requires
        s.has(e),
        s.has(other),
        s.name_of(other).len() > 0,
    ensures
        s.ensure_named(e).has(other),
        s.ensure_named(e).name_of(other) == s.name_of(other),
{
}

/// Naming an entity keeps the table's shape and the counter within bounds.
pub proof fn lemma_ensure_named_wf(s: CtxV, e: Entity)
    requires
        s.has(e),
        s.wf(),
    ensures
        s.ensure_named(e).wf(),
        s.ensure_named(e).comps.len() == s.comps.len(),
        s.ensure_named(e).enums.len() == s.enums.len(),
        s.ensure_named(e).keywords == s.keywords,
        s.name_of(e).len() == 0 ==> s.counter < usize::MAX,
{
    lemma_unnamed_nonempty(s.counter + 1);
    match e {
        Entity::Comp(h) => {
            lemma_unnamed_left_update(s.comps, h as int, unnamed(s.counter + 1));
        },
        Entity::Enum(h) => {
            lemma_unnamed_left_update(s.enums, h as int, unnamed(s.counter + 1));
        },
    }
}

/// Giving a name to an anonymous entity keeps the counter within bounds.
pub proof fn lemma_with_name_wf(s: CtxV, e: Entity, name: Seq<char>)
    requires
        s.has(e),
        s.wf(),
        s.name_of(e).len() == 0,
    ensures
        s.with_name(e, name).wf(),
{
    match e {
        Entity::Comp(h) => {
            lemma_unnamed_left_update(s.comps, h as int, name);
        },
        Entity::Enum(h) => {
            lemma_unnamed_left_update(s.enums, h as int, name);
        },
    }
}

impl GenCtx {
    /// The state in which emission of `model` starts, with the given reserved words.
    pub fn new(model: &Model, keywords: Vec<String>) -> (ctx: GenCtx)
        ensures
            ctx@ == CtxV::initial(*model, views(keywords@)),
            ctx@.covers(*model),
            model.comps@.len() + model.enums@.len() <= usize::MAX ==> ctx@.wf(),
    {
        let mut comp_names: Vec<String> = Vec::new();
        let mut i: usize = 0;
        while i < model.comps.len()
            invariant
                i <= model.comps@.len(),
                comp_names@.len() == i,
                forall|k: int| 0 <= k < i ==> (#[trigger] comp_names@[k])@ == model.comps@[k].name@,
            decreases model.comps@.len() - i,
        {
            comp_names.push(model.comps[i].name.clone());
            i += 1;
        }
        let mut enum_names: Vec<String> = Vec::new();
        let mut i: usize = 0;
        while i < model.enums.len()
            invariant
                i <= model.enums@.len(),
                enum_names@.len() == i,
                forall|k: int| 0 <= k < i ==> (#[trigger] enum_names@[k])@ == model.enums@[k].name@,
            decreases model.enums@.len() - i,
        {
            enum_names.push(model.enums[i].name.clone());
            i += 1;
        }
        let ctx = GenCtx { keywords, unnamed_ty: 0, comp_names, enum_names };
        proof {
            assert(ctx@.comps =~= CtxV::initial(*model, views(keywords@)).comps);
            assert(ctx@.enums =~= CtxV::initial(*model, views(keywords@)).enums);
            lemma_unnamed_left_bound(ctx@.comps);
            lemma_unnamed_left_bound(ctx@.enums);
        }
        ctx
    }
}

/// Whether `name` is a reserved word.
pub fn is_keyword(ctx: &GenCtx, name: &str) -> (b: bool)
    ensures
        b == ctx@.keywords.contains(name@),
{
    let owned = String::from_str(name);
    let mut i: usize = 0;
    while i < ctx.keywords.len()
        invariant
            i <= ctx.keywords@.len(),
            owned@ == name@,
            forall|k: int| 0 <= k < i ==> ctx@.keywords[k] != name@,
        decreases ctx.keywords@.len() - i,
    {
        if ctx.keywords[i] == owned {
            assert(ctx@.keywords[i as int] == name@);
            return true;
        }
        i += 1;
    }
    false
}

/// The identifier under which `name` is emitted, and whether it differs from
/// `name`: a reserved word is emitted with an underscore in front.
pub fn rust_id(ctx: &GenCtx, name: &str) -> (r: (String, bool))
    ensures
        r.0@ == escaped(ctx@.keywords, name@),
        r.1 == ctx@.keywords.contains(name@),
        r.1 ==> r.0@ == "_"@ + name@,
        !r.1 ==> r.0@ == name@,
{
    if is_keyword(ctx, name) {
        (prefixed("_", name), true)
    } else {
        (String::from_str(name), false)
    }
}

/// The name to use for an entity declared as `name`: `name` itself unless it
/// is empty, else the next made-up name, which advances the counter.
pub fn unnamed_name(ctx: &mut GenCtx, name: &str) -> (r: String)
    requires
        name@.len() == 0 ==> old(ctx).unnamed_ty < usize::MAX,
    ensures
        name@.len() > 0 ==> r@ == name@ && final(ctx)@ == old(ctx)@,
        name@.len() == 0 ==> r@ == unnamed(old(ctx)@.counter + 1) && final(ctx)@ == (CtxV {
            counter: old(ctx)@.counter + 1,
            ..old(ctx)@
        }),
{
    if name.is_empty() {
        ctx.unnamed_ty = ctx.unnamed_ty + 1;
        let digits = decimal_string(ctx.unnamed_ty);
        prefixed("Unnamed", digits.as_str())
    } else {
        String::from_str(name)
    }
}

/// The current name of an entity.
pub fn name_of(ctx: &GenCtx, e: Entity) -> (r: &String)
    requires
        ctx@.has(e),
    ensures
        r@ == ctx@.name_of(e),
{
    match e {
        Entity::Comp(h) => &ctx.comp_names[h],
        Entity::Enum(h) => &ctx.enum_names[h],
    }
}

/// Gives an entity a name.
pub fn set_name(ctx: &mut GenCtx, e: Entity, name: String)
    requires
        old(ctx)@.has(e),
    ensures
        final(ctx)@ == old(ctx)@.with_name(e, name@),
{
    match e {
        Entity::Comp(h) => {
            ctx.comp_names.set(h, name);
            assert(views(ctx.comp_names@) =~= views(old(ctx).comp_names@).update(h as int, name@));
        },
        Entity::Enum(h) => {
            ctx.enum_names.set(h, name);
            assert(views(ctx.enum_names@) =~= views(old(ctx).enum_names@).update(h as int, name@));
        },
    }
}

/// Makes sure that an entity has a name, and returns it. An anonymous entity
/// is given the next made-up name; a named one is left alone.
pub fn ensure_named(ctx: &mut GenCtx, e: Entity) -> (r: String)
    requires
        old(ctx)@.has(e),
        old(ctx)@.wf(),
    ensures
        final(ctx)@ == old(ctx)@.ensure_named(e),
        r@ == final(ctx)@.name_of(e),
        r@.len() > 0,
        old(ctx)@.name_of(e).len() > 0 ==> r@ == old(ctx)@.name_of(e),
        final(ctx)@.wf(),
        final(ctx)@.has(e),
{
    proof {
        lemma_ensure_named_wf(ctx@, e);
        lemma_ensure_named_idempotent(ctx@, e);
    }
    let current = name_of(ctx, e).clone();
    if current.as_str().is_empty() {
        let name = unnamed_name(ctx, current.as_str());
        set_name(ctx, e, name.clone());
        name
    } else {
        current
    }
}

} // verus!
